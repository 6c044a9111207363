//! The modeled embedded store: tables with rows, the applied-version ledger,
//! and the semantics of schema-changing statements.

use vstd::prelude::*;
use vstd::pervasive::VecAdditionalExecFns;

use crate::schema::col_index;
use crate::schema::copy_columns;
use crate::schema::Statement;
use crate::schema::StatementModel;
use crate::schema::TableDef;
use crate::schema::TableDefModel;
use crate::value::backfill_default;
use crate::value::DefaultExpr;
use crate::value::Value;
use crate::value::ValueModel;

verus! {

/// One stored row; cells are positional, one per declared column.
#[derive(PartialEq, Eq, Debug)]
pub struct Row {
    pub cells: Vec<Value>,
}

impl View for Row {
    type V = Seq<ValueModel>;

    open spec fn view(&self) -> Seq<ValueModel> {
        self.cells.deep_view()
    }
}

impl DeepView for Row {
    type V = Seq<ValueModel>;

    open spec fn deep_view(&self) -> Seq<ValueModel> {
        self.view()
    }
}

/// One table: its declared shape and its rows.
#[derive(PartialEq, Eq, Debug)]
pub struct Table {
    pub def: TableDef,
    pub rows: Vec<Row>,
}

/// Mathematical counterpart of [`Table`].
#[verifier::ext_equal]
pub struct TableModel {
    pub def: TableDefModel,
    pub rows: Seq<Seq<ValueModel>>,
}

impl View for Table {
    type V = TableModel;

    open spec fn view(&self) -> TableModel {
        TableModel { def: self.def@, rows: self.rows.deep_view() }
    }
}

impl DeepView for Table {
    type V = TableModel;

    open spec fn deep_view(&self) -> TableModel {
        self.view()
    }
}

/// The embedded store: its tables and the ledger of change-set versions
/// already applied to it.
#[derive(PartialEq, Eq, Debug)]
pub struct Database {
    pub tables: Vec<Table>,
    pub applied: Vec<u64>,
}

/// Mathematical counterpart of [`Database`].
#[verifier::ext_equal]
pub struct DatabaseModel {
    pub tables: Seq<TableModel>,
    pub applied: Seq<u64>,
}

impl View for Database {
    type V = DatabaseModel;

    open spec fn view(&self) -> DatabaseModel {
        DatabaseModel { tables: self.tables.deep_view(), applied: self.applied@ }
    }
}

impl DeepView for Database {
    type V = DatabaseModel;

    open spec fn deep_view(&self) -> DatabaseModel {
        self.view()
    }
}

/// The store a fresh installation starts from: no tables, nothing applied.
pub open spec fn fresh_database() -> DatabaseModel {
    DatabaseModel { tables: Seq::empty(), applied: Seq::empty() }
}

/// Every row of the table has exactly one cell per declared column.
pub open spec fn table_wf(t: TableModel) -> bool {
    forall|k: int| 0 <= k < t.rows.len() ==> (#[trigger] t.rows[k]).len() == t.def.columns.len()
}

/// Every table of the store is well-formed.
pub open spec fn db_wf(db: DatabaseModel) -> bool {
    forall|i: int| 0 <= i < db.tables.len() ==> table_wf(#[trigger] db.tables[i])
}

/// Index of the first table named `name` at or after position `i`, or `-1`.
pub open spec fn table_index(ts: Seq<TableModel>, name: Seq<char>, i: int) -> int
    decreases ts.len() - i,
{
    if i < 0 || i >= ts.len() {
        -1
    } else if ts[i].def.name == name {
        i
    } else {
        table_index(ts, name, i + 1)
    }
}

/// What `table_index` returns: either a first hit, or a guarantee of absence.
pub proof fn lemma_table_index(ts: Seq<TableModel>, name: Seq<char>, i: int)
    requires
        0 <= i <= ts.len(),
    ensures
        ({
            let r = table_index(ts, name, i);
            &&& r == -1 ==> forall|k: int| i <= k < ts.len() ==> ts[k].def.name != name
            &&& r != -1 ==> i <= r < ts.len() && ts[r].def.name == name && forall|k: int|
                i <= k < r ==> ts[k].def.name != name
        }),
    decreases ts.len() - i,
{
    if i < ts.len() && ts[i].def.name != name {
        lemma_table_index(ts, name, i + 1);
    }
}

/// Why a single statement was refused by the store.
#[derive(PartialEq, Eq, Debug)]
pub enum StatementError {
    /// A table of this name already exists.
    TableExists(String),
    /// No table of this name exists.
    NoSuchTable(String),
    /// The table already has a column of this name.
    DuplicateColumn(String),
}

/// Mathematical counterpart of [`StatementError`].
#[verifier::ext_equal]
pub enum StatementErrorModel {
    TableExists(Seq<char>),
    NoSuchTable(Seq<char>),
    DuplicateColumn(Seq<char>),
}

impl View for StatementError {
    type V = StatementErrorModel;

    open spec fn view(&self) -> StatementErrorModel {
        match self {
            StatementError::TableExists(n) => StatementErrorModel::TableExists(n@),
            StatementError::NoSuchTable(n) => StatementErrorModel::NoSuchTable(n@),
            StatementError::DuplicateColumn(n) => StatementErrorModel::DuplicateColumn(n@),
        }
    }
}

impl DeepView for StatementError {
    type V = StatementErrorModel;

    open spec fn deep_view(&self) -> StatementErrorModel {
        self.view()
    }
}

/// Effect of one statement on the store: the new store, or the refusal.
/// A refused statement leaves the store exactly as it was.
pub open spec fn statement_step(db: DatabaseModel, st: StatementModel) -> Result<
    DatabaseModel,
    StatementErrorModel,
> {
    match st {
        StatementModel::CreateTable { if_not_exists, def } => {
            if table_index(db.tables, def.name, 0) >= 0 {
                if if_not_exists {
                    Ok(db)
                } else {
                    Err(StatementErrorModel::TableExists(def.name))
                }
            } else {
                Ok(
                    DatabaseModel {
                        tables: db.tables.push(TableModel { def, rows: Seq::empty() }),
                        applied: db.applied,
                    },
                )
            }
        },
        StatementModel::AddColumn { table, column } => {
            let ti = table_index(db.tables, table, 0);
            if ti < 0 {
                Err(StatementErrorModel::NoSuchTable(table))
            } else if col_index(db.tables[ti].def.columns, column.name, 0) >= 0 {
                Err(StatementErrorModel::DuplicateColumn(column.name))
            } else {
                let t = db.tables[ti];
                let grown = TableModel {
                    def: TableDefModel { name: t.def.name, columns: t.def.columns.push(column) },
                    rows: t.rows.map_values(
                        |r: Seq<ValueModel>| r.push(backfill_default(column.default)),
                    ),
                };
                Ok(DatabaseModel { tables: db.tables.update(ti, grown), applied: db.applied })
            }
        },
    }
}

/// Effect of a whole change-set script, statement by statement.  The first
/// refusal stops the script; the store returned beside it is the state the
/// successful prefix produced.
pub open spec fn run_script(db: DatabaseModel, stmts: Seq<StatementModel>) -> (
    DatabaseModel,
    Option<StatementErrorModel>,
)
    decreases stmts.len(),
{
    if stmts.len() == 0 {
        (db, None)
    } else {
        match statement_step(db, stmts[0]) {
            Ok(d) => run_script(d, stmts.drop_first()),
            Err(e) => (db, Some(e)),
        }
    }
}

/// A statement never touches the ledger, and keeps every table well-formed.
pub proof fn lemma_statement_step_frame(db: DatabaseModel, st: StatementModel)
    ensures
        statement_step(db, st) matches Ok(d) ==> d.applied == db.applied && (db_wf(db) ==> db_wf(
            d,
        )),
{
    if statement_step(db, st) is Ok {
        let d = statement_step(db, st)->Ok_0;
        match st {
            StatementModel::CreateTable { if_not_exists, def } => {
                if table_index(db.tables, def.name, 0) < 0 {
                    if db_wf(db) {
                        assert forall|i: int| 0 <= i < d.tables.len() implies table_wf(
                            #[trigger] d.tables[i],
                        ) by {
                            if i < db.tables.len() {
                                assert(table_wf(db.tables[i]));
                            }
                        }
                    }
                }
            },
            StatementModel::AddColumn { table, column } => {
                let ti = table_index(db.tables, table, 0);
                if db_wf(db) {
                    lemma_table_index(db.tables, table, 0);
                    assert forall|i: int| 0 <= i < d.tables.len() implies table_wf(
                        #[trigger] d.tables[i],
                    ) by {
                        assert(table_wf(db.tables[i]));
                        if i == ti {
                            let t = db.tables[ti];
                            let grown = d.tables[ti];
                            assert forall|k: int| 0 <= k < grown.rows.len() implies (
                            #[trigger] grown.rows[k]).len() == grown.def.columns.len() by {
                                assert(t.rows[k].len() == t.def.columns.len());
                            }
                        }
                    }
                }
            },
        }
    }
}

/// A script never touches the ledger, and keeps every table well-formed.
pub proof fn lemma_run_script_frame(db: DatabaseModel, stmts: Seq<StatementModel>)
    ensures
        run_script(db, stmts).0.applied == db.applied,
        db_wf(db) ==> db_wf(run_script(db, stmts).0),
    decreases stmts.len(),
{
    if stmts.len() > 0 {
        lemma_statement_step_frame(db, stmts[0]);
        match statement_step(db, stmts[0]) {
            Ok(d) => {
                lemma_run_script_frame(d, stmts.drop_first());
            },
            Err(_) => {},
        }
    }
}

/// Relates an executable statement or script result to the modeled outcome.
pub open spec fn stmt_outcome_matches(
    r: Result<(), StatementError>,
    e: Option<StatementErrorModel>,
) -> bool {
    match e {
        None => r is Ok,
        Some(er) => match r {
            Result::Err(x) => x@ == er,
            Result::Ok(_) => false,
        },
    }
}

/// An independent copy of a value vector, element for element.
pub fn copy_values(v: &Vec<Value>) -> (r: Vec<Value>)
    ensures
        r.deep_view() == v.deep_view(),
{
    let mut r: Vec<Value> = Vec::new();
    let mut i: usize = 0;
    while i < v.len()
        invariant
            i <= v.len(),
            r@.len() == i,
            forall|k: int| 0 <= k < i ==> r@[k]@ == v@[k]@,
        decreases v.len() - i,
    {
        r.push(v[i].duplicate());
        i += 1;
    }
    proof {
        assert(r.deep_view() =~= v.deep_view());
    }
    r
}

impl Row {
    /// An independent copy with the same model.
    pub fn duplicate(&self) -> (r: Row)
        ensures
            r@ == self@,
    {
        Row { cells: copy_values(&self.cells) }
    }
}

/// An independent copy of a row vector, element for element.
pub fn copy_rows(v: &Vec<Row>) -> (r: Vec<Row>)
    ensures
        r.deep_view() == v.deep_view(),
{
    let mut r: Vec<Row> = Vec::new();
    let mut i: usize = 0;
    while i < v.len()
        invariant
            i <= v.len(),
            r@.len() == i,
            forall|k: int| 0 <= k < i ==> r@[k]@ == v@[k]@,
        decreases v.len() - i,
    {
        r.push(v[i].duplicate());
        i += 1;
    }
    proof {
        assert(r.deep_view() =~= v.deep_view());
    }
    r
}

impl Table {
    /// An independent copy with the same model.
    pub fn duplicate(&self) -> (r: Table)
        ensures
            r@ == self@,
    {
        let r = Table { def: self.def.duplicate(), rows: copy_rows(&self.rows) };
        proof {
            assert(r@ =~= self@);
        }
        r
    }
}

impl Database {
    /// An empty store: the state of a fresh installation.
    pub fn new() -> (r: Database)
        ensures
            r@ == fresh_database(),
            db_wf(r@),
    {
        let r = Database { tables: Vec::new(), applied: Vec::new() };
        proof {
            assert(r@ =~~= fresh_database());
        }
        r
    }

    /// An independent copy with the same model.
    pub fn duplicate(&self) -> (r: Database)
        ensures
            r@ == self@,
    {
        let mut tables: Vec<Table> = Vec::new();
        let mut i: usize = 0;
        while i < self.tables.len()
            invariant
                i <= self.tables.len(),
                tables@.len() == i,
                forall|k: int| 0 <= k < i ==> tables@[k]@ == self.tables@[k]@,
            decreases self.tables.len() - i,
        {
            tables.push(self.tables[i].duplicate());
            i += 1;
        }
        let mut applied: Vec<u64> = Vec::new();
        let mut j: usize = 0;
        while j < self.applied.len()
            invariant
                j <= self.applied.len(),
                applied@ == self.applied@.subrange(0, j as int),
            decreases self.applied.len() - j,
        {
            applied.push(self.applied[j]);
            j += 1;
            proof {
                assert(applied@ =~= self.applied@.subrange(0, j as int));
            }
        }
        let r = Database { tables, applied };
        proof {
            assert(applied@ =~= self.applied@);
            assert(r@.tables =~= self@.tables);
            assert(r@ =~~= self@);
        }
        r
    }

    /// Index of the first table with the given name, if any.
    pub fn find_table(&self, name: &String) -> (r: Option<usize>)
        ensures
            match r {
                Some(j) => j < self.tables.len() && table_index(self@.tables, name@, 0) == j as int,
                None => table_index(self@.tables, name@, 0) == -1,
            },
    {
        let mut i: usize = 0;
        while i < self.tables.len()
            invariant
                i <= self.tables.len(),
                table_index(self@.tables, name@, 0) == table_index(self@.tables, name@, i as int),
            decreases self.tables.len() - i,
        {
            if self.tables[i].def.name == *name {
                return Some(i);
            }
            i += 1;
        }
        None
    }

    /// Whether the ledger records the given version as applied.
    pub fn contains_version(&self, v: u64) -> (r: bool)
        ensures
            r == self@.applied.contains(v),
    {
        let mut i: usize = 0;
        while i < self.applied.len()
            invariant
                i <= self.applied.len(),
                forall|k: int| 0 <= k < i ==> self@.applied[k] != v,
            decreases self.applied.len() - i,
        {
            if self.applied[i] == v {
                return true;
            }
            i += 1;
        }
        false
    }

    /// Run one statement against the store.  The store changes exactly as
    /// [`statement_step`] says; a refused statement leaves it untouched.
    pub fn apply_statement(&mut self, st: &Statement) -> (r: Result<(), StatementError>)
        ensures
            match statement_step(old(self)@, st@) {
                Ok(d) => r is Ok && final(self)@ == d,
                Err(e) => final(self)@ == old(self)@ && stmt_outcome_matches(r, Some(e)),
            },
    {
        match st {
            Statement::CreateTable { if_not_exists, def } => {
                match self.find_table(&def.name) {
                    Some(_) => {
                        if *if_not_exists {
                            Ok(())
                        } else {
                            Err(StatementError::TableExists(def.name.clone()))
                        }
                    },
                    None => {
                        let fresh = Table { def: def.duplicate(), rows: Vec::new() };
                        proof {
                            assert(fresh@.rows =~= Seq::<Seq<ValueModel>>::empty());
                        }
                        self.tables.push(fresh);
                        proof {
                            assert(self@ =~~= (match statement_step(old(self)@, st@) {
                                Ok(d) => d,
                                Err(_) => old(self)@,
                            }));
                        }
                        Ok(())
                    },
                }
            },
            Statement::AddColumn { table, column } => {
                match self.find_table(table) {
                    None => Err(StatementError::NoSuchTable(table.clone())),
                    Some(ti) => {
                        match self.tables[ti].def.find_column(&column.name) {
                            Some(_) => Err(StatementError::DuplicateColumn(column.name.clone())),
                            None => {
                                let fill = match &column.default {
                                    Some(DefaultExpr::Literal(v)) => v.duplicate(),
                                    _ => Value::Null,
                                };
                                proof {
                                    assert(fill@ == backfill_default(column@.default));
                                }
                                let t = &self.tables[ti];
                                let mut columns = copy_columns(&t.def.columns);
                                columns.push(column.duplicate());
                                let def = TableDef { name: t.def.name.clone(), columns };
                                let mut rows: Vec<Row> = Vec::new();
                                let mut k: usize = 0;
                                while k < t.rows.len()
                                    invariant
                                        k <= t.rows.len(),
                                        rows@.len() == k,
                                        forall|x: int| 0 <= x < k ==> rows@[x]@ == t.rows@[x]@.push(
                                            fill@,
                                        ),
                                    decreases t.rows.len() - k,
                                {
                                    let mut cells = copy_values(&t.rows[k].cells);
                                    cells.push(fill.duplicate());
                                    rows.push(Row { cells });
                                    k += 1;
                                }
                                let grown = Table { def, rows };
                                proof {
                                    let tm = old(self)@.tables[ti as int];
                                    let cm = (match st@ {
                                        StatementModel::AddColumn { column: c, .. } => c,
                                        _ => column@,
                                    });
                                    assert(grown@.def.columns =~= tm.def.columns.push(cm));
                                    assert(grown@.rows =~= tm.rows.map_values(
                                        |r: Seq<ValueModel>| r.push(backfill_default(cm.default)),
                                    ));
                                }
                                self.tables.set(ti, grown);
                                proof {
                                    assert(self@ =~~= (match statement_step(old(self)@, st@) {
                                        Ok(d) => d,
                                        Err(_) => old(self)@,
                                    }));
                                }
                                Ok(())
                            },
                        }
                    },
                }
            },
        }
    }

    /// Run a whole script in order, stopping at the first refusal; on
    /// failure the store keeps everything the successful prefix did.
    pub fn apply_script(&mut self, stmts: &Vec<Statement>) -> (r: Result<(), StatementError>)
        ensures
            final(self)@ == run_script(old(self)@, stmts.deep_view()).0,
            stmt_outcome_matches(r, run_script(old(self)@, stmts.deep_view()).1),
    {
        let ghost all = stmts.deep_view();
        proof {
            assert(all.subrange(0, all.len() as int) =~= all);
        }
        let mut i: usize = 0;
        while i < stmts.len()
            invariant
                i <= stmts.len(),
                all == stmts.deep_view(),
                all.len() == stmts.len(),
                run_script(old(self)@, all) == run_script(self@, all.subrange(i as int, all.len() as int)),
            decreases stmts.len() - i,
        {
            let ghost before = self@;
            let ghost rest = all.subrange(i as int, all.len() as int);
            proof {
                assert(rest[0] == all[i as int]);
            }
            match self.apply_statement(&stmts[i]) {
                Ok(()) => {},
                Err(e) => {
                    proof {
                        assert(run_script(before, rest) == (before, Some(e@)));
                    }
                    return Err(e);
                },
            }
            i += 1;
            proof {
                assert(rest.drop_first() =~= all.subrange(i as int, all.len() as int));
            }
        }
        proof {
            assert(all.subrange(i as int, all.len() as int) =~= Seq::<StatementModel>::empty());
        }
        Ok(())
    }
}

} // verus!
