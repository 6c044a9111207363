//! Row insertion against the declared shape of a table: named assignments
//! are completed with declared defaults, then held to the not-null, closed
//! value set, and primary-key rules the schema states.

use vstd::prelude::*;
use vstd::pervasive::VecAdditionalExecFns;

use crate::db::copy_rows;
use crate::db::db_wf;
use crate::db::table_index;
use crate::db::table_wf;
use crate::db::Database;
use crate::db::DatabaseModel;
use crate::db::Row;
use crate::db::Table;
use crate::db::TableModel;
use crate::schema::col_index;
use crate::schema::ColumnModel;
use crate::value::resolve_default;
use crate::value::resolve_default_value;
use crate::value::value_eq;
use crate::value::Value;
use crate::value::ValueModel;

verus! {

/// One named value of an insertion: set this column to this value.
#[derive(PartialEq, Eq, Debug)]
pub struct Assignment {
    pub column: String,
    pub value: Value,
}

/// Mathematical counterpart of [`Assignment`].
#[verifier::ext_equal]
pub struct AssignModel {
    pub column: Seq<char>,
    pub value: ValueModel,
}

impl View for Assignment {
    type V = AssignModel;

    open spec fn view(&self) -> AssignModel {
        AssignModel { column: self.column@, value: self.value@ }
    }
}

impl DeepView for Assignment {
    type V = AssignModel;

    open spec fn deep_view(&self) -> AssignModel {
        self.view()
    }
}

/// Why an insertion was refused.
#[derive(PartialEq, Eq, Debug)]
pub enum InsertError {
    /// No table of this name exists.
    NoSuchTable(String),
    /// The table has no column of this name.
    NoSuchColumn(String),
    /// Two assignments name this column.
    DuplicateAssignment(String),
    /// A required column would be left without a value.
    NotNullViolation(String),
    /// The value is outside the column's closed set of admissible values.
    CheckViolation(String),
    /// A row with the same value in this primary-key column already exists.
    PrimaryKeyViolation(String),
}

/// Mathematical counterpart of [`InsertError`].
#[verifier::ext_equal]
pub enum InsertErrorModel {
    NoSuchTable(Seq<char>),
    NoSuchColumn(Seq<char>),
    DuplicateAssignment(Seq<char>),
    NotNullViolation(Seq<char>),
    CheckViolation(Seq<char>),
    PrimaryKeyViolation(Seq<char>),
}

impl View for InsertError {
    type V = InsertErrorModel;

    open spec fn view(&self) -> InsertErrorModel {
        match self {
            InsertError::NoSuchTable(n) => InsertErrorModel::NoSuchTable(n@),
            InsertError::NoSuchColumn(n) => InsertErrorModel::NoSuchColumn(n@),
            InsertError::DuplicateAssignment(n) => InsertErrorModel::DuplicateAssignment(n@),
            InsertError::NotNullViolation(n) => InsertErrorModel::NotNullViolation(n@),
            InsertError::CheckViolation(n) => InsertErrorModel::CheckViolation(n@),
            InsertError::PrimaryKeyViolation(n) => InsertErrorModel::PrimaryKeyViolation(n@),
        }
    }
}

impl DeepView for InsertError {
    type V = InsertErrorModel;

    open spec fn deep_view(&self) -> InsertErrorModel {
        self.view()
    }
}

/// Index of the first assignment naming `name` at or after position `i`,
/// or `-1`.
pub open spec fn assign_index(assigns: Seq<AssignModel>, name: Seq<char>, i: int) -> int
    decreases assigns.len() - i,
{
    if i < 0 || i >= assigns.len() {
        -1
    } else if assigns[i].column == name {
        i
    } else {
        assign_index(assigns, name, i + 1)
    }
}

/// What `assign_index` returns: either a first hit, or a guarantee of
/// absence.
pub proof fn lemma_assign_index(assigns: Seq<AssignModel>, name: Seq<char>, i: int)
    requires
        0 <= i <= assigns.len(),
    ensures
        ({
            let r = assign_index(assigns, name, i);
            &&& r == -1 ==> forall|k: int| i <= k < assigns.len() ==> assigns[k].column != name
            &&& r != -1 ==> i <= r < assigns.len() && assigns[r].column == name && forall|k: int|
                i <= k < r ==> assigns[k].column != name
        }),
    decreases assigns.len() - i,
{
    if i < assigns.len() && assigns[i].column != name {
        lemma_assign_index(assigns, name, i + 1);
    }
}

/// The value one column receives: the assignment naming it if there is
/// one, the declared default otherwise, with `now` standing in for the
/// current timestamp.
pub open spec fn cell_value(col: ColumnModel, assigns: Seq<AssignModel>, now: Seq<char>) -> ValueModel {
    let j = assign_index(assigns, col.name, 0);
    if j >= 0 {
        assigns[j].value
    } else {
        resolve_default(col.default, now)
    }
}

/// The full row an insertion produces, cell by cell, before any checks.
pub open spec fn new_row(cols: Seq<ColumnModel>, assigns: Seq<AssignModel>, now: Seq<char>) -> Seq<
    ValueModel,
> {
    Seq::new(cols.len(), |i: int| cell_value(cols[i], assigns, now))
}

/// First fault among the assignments themselves, scanning from position
/// `j`: a column the table does not have, or a column named twice.
pub open spec fn assigns_check(
    cols: Seq<ColumnModel>,
    assigns: Seq<AssignModel>,
    j: int,
) -> Option<InsertErrorModel>
    decreases assigns.len() - j,
{
    if j < 0 || j >= assigns.len() {
        None
    } else if col_index(cols, assigns[j].column, 0) < 0 {
        Some(InsertErrorModel::NoSuchColumn(assigns[j].column))
    } else if assign_index(assigns, assigns[j].column, 0) < j {
        Some(InsertErrorModel::DuplicateAssignment(assigns[j].column))
    } else {
        assigns_check(cols, assigns, j + 1)
    }
}

/// Whether a value is admitted by the column's closed value set, if the
/// column declares one.  An absent value passes; the membership test binds
/// only actual text values.
pub open spec fn check_passes(col: ColumnModel, v: ValueModel) -> bool {
    match col.allowed {
        None => true,
        Some(vs) => match v {
            ValueModel::Null => true,
            ValueModel::Text(s) => vs.contains(s),
            _ => false,
        },
    }
}

/// First fault of the completed row against the columns, scanning from
/// position `i`: a required column left absent, or a value outside a
/// column's closed value set.  A primary-key column counts as required.
pub open spec fn row_check(cols: Seq<ColumnModel>, row: Seq<ValueModel>, i: int) -> Option<
    InsertErrorModel,
>
    decreases cols.len() - i,
{
    if i < 0 || i >= cols.len() {
        None
    } else if (cols[i].not_null || cols[i].primary_key) && row[i] is Null {
        Some(InsertErrorModel::NotNullViolation(cols[i].name))
    } else if !check_passes(cols[i], row[i]) {
        Some(InsertErrorModel::CheckViolation(cols[i].name))
    } else {
        row_check(cols, row, i + 1)
    }
}

/// First primary-key clash of the completed row with the stored rows,
/// scanning the columns from position `i`.
pub open spec fn pk_check(t: TableModel, row: Seq<ValueModel>, i: int) -> Option<InsertErrorModel>
    decreases t.def.columns.len() - i,
{
    if i < 0 || i >= t.def.columns.len() {
        None
    } else if t.def.columns[i].primary_key && (exists|k: int|
        0 <= k < t.rows.len() && (#[trigger] t.rows[k])[i] == row[i]) {
        Some(InsertErrorModel::PrimaryKeyViolation(t.def.columns[i].name))
    } else {
        pk_check(t, row, i + 1)
    }
}

/// Effect of inserting named values into a table of the store: either the
/// refusal, in a fixed order of checks, or the store with the completed
/// row appended.  A refused insertion leaves the store exactly as it was.
pub open spec fn insert_spec(
    db: DatabaseModel,
    table: Seq<char>,
    assigns: Seq<AssignModel>,
    now: Seq<char>,
) -> Result<DatabaseModel, InsertErrorModel> {
    let ti = table_index(db.tables, table, 0);
    if ti < 0 {
        Err(InsertErrorModel::NoSuchTable(table))
    } else {
        let t = db.tables[ti];
        match assigns_check(t.def.columns, assigns, 0) {
            Some(e) => Err(e),
            None => {
                let row = new_row(t.def.columns, assigns, now);
                match row_check(t.def.columns, row, 0) {
                    Some(e) => Err(e),
                    None => match pk_check(t, row, 0) {
                        Some(e) => Err(e),
                        None => Ok(
                            DatabaseModel {
                                tables: db.tables.update(
                                    ti,
                                    TableModel { def: t.def, rows: t.rows.push(row) },
                                ),
                                applied: db.applied,
                            },
                        ),
                    },
                }
            },
        }
    }
}

/// Index of the first assignment with the given column name, if any.
pub fn find_assignment(assigns: &Vec<Assignment>, name: &String) -> (r: Option<usize>)
    ensures
        match r {
            Some(j) => j < assigns.len() && assign_index(assigns.deep_view(), name@, 0) == j as int,
            None => assign_index(assigns.deep_view(), name@, 0) == -1,
        },
{
    let mut i: usize = 0;
    while i < assigns.len()
        invariant
            i <= assigns.len(),
            assign_index(assigns.deep_view(), name@, 0) == assign_index(
                assigns.deep_view(),
                name@,
                i as int,
            ),
        decreases assigns.len() - i,
    {
        if assigns[i].column == *name {
            return Some(i);
        }
        i += 1;
    }
    None
}

/// Whether the vector holds a string with this text.
pub fn contains_string(vs: &Vec<String>, s: &String) -> (r: bool)
    ensures
        r == vs.deep_view().contains(s@),
{
    let mut i: usize = 0;
    while i < vs.len()
        invariant
            i <= vs.len(),
            forall|k: int| 0 <= k < i ==> vs.deep_view()[k] != s@,
        decreases vs.len() - i,
    {
        if vs[i] == *s {
            proof {
                assert(vs.deep_view()[i as int] == s@);
            }
            return true;
        }
        i += 1;
    }
    false
}

impl Database {
    /// Insert a row built from the given assignments into the named table,
    /// completing omitted columns from their declared defaults (`now`
    /// stands in for the current timestamp) and enforcing the declared
    /// constraints, exactly as [`insert_spec`] says.
    pub fn insert_row(
        &mut self,
        table: &String,
        assigns: &Vec<Assignment>,
        now: &String,
    ) -> (r: Result<(), InsertError>)
        requires
            db_wf(old(self)@),
        ensures
            db_wf(final(self)@),
            match insert_spec(old(self)@, table@, assigns.deep_view(), now@) {
                Ok(d) => r is Ok && final(self)@ == d,
                Err(e) => final(self)@ == old(self)@ && (r matches Err(x) && x@ == e),
            },
    {
        let ghost dbm = self@;
        let ghost am = assigns.deep_view();
        let ti = match self.find_table(table) {
            Some(t) => t,
            None => {
                return Err(InsertError::NoSuchTable(table.clone()));
            },
        };
        let ghost tm = dbm.tables[ti as int];
        let ghost cols = tm.def.columns;

        // The assignments themselves: every named column exists, none twice.
        let mut j: usize = 0;
        while j < assigns.len()
            invariant
                j <= assigns.len(),
                self@ == dbm,
                db_wf(dbm),
                am == assigns.deep_view(),
                am.len() == assigns.len(),
                ti < dbm.tables.len(),
                tm == dbm.tables[ti as int],
                table_index(dbm.tables, table@, 0) == ti as int,
                cols == tm.def.columns,
                assigns_check(cols, am, 0) == assigns_check(cols, am, j as int),
            decreases assigns.len() - j,
        {
            match self.tables[ti].def.find_column(&assigns[j].column) {
                None => {
                    return Err(InsertError::NoSuchColumn(assigns[j].column.clone()));
                },
                Some(_) => {},
            }
            match find_assignment(assigns, &assigns[j].column) {
                Some(first) => {
                    if first < j {
                        proof {
                            assert(assign_index(am, am[j as int].column, 0) < j as int);
                        }
                        return Err(InsertError::DuplicateAssignment(assigns[j].column.clone()));
                    }
                    proof {
                        lemma_assign_index(am, am[j as int].column, 0);
                    }
                },
                None => {
                    // Cannot happen: the assignment at position `j` names its
                    // own column, so a first occurrence always exists.
                    proof {
                        lemma_assign_index(am, am[j as int].column, 0);
                        assert(am[j as int].column == am[j as int].column);
                        assert(false);
                    }
                },
            }
            j += 1;
        }

        // Complete the row: assigned value, or declared default.
        let ncols = self.tables[ti].def.columns.len();
        let mut cells: Vec<Value> = Vec::new();
        let mut i: usize = 0;
        while i < ncols
            invariant
                i <= ncols,
                self@ == dbm,
                am == assigns.deep_view(),
                am.len() == assigns.len(),
                ti < dbm.tables.len(),
                tm == dbm.tables[ti as int],
                cols == tm.def.columns,
                ncols == cols.len(),
                cells@.len() == i,
                forall|k: int| 0 <= k < i ==> cells@[k]@ == cell_value(cols[k], am, now@),
            decreases ncols - i,
        {
            let cell = match find_assignment(assigns, &self.tables[ti].def.columns[i].name) {
                Some(p) => assigns[p].value.duplicate(),
                None => resolve_default_value(&self.tables[ti].def.columns[i].default, now),
            };
            cells.push(cell);
            i += 1;
        }
        let ghost rowm = new_row(cols, am, now@);
        proof {
            assert(cells.deep_view() =~= rowm);
        }

        // Hold the completed row to the declared constraints.
        let mut i: usize = 0;
        while i < ncols
            invariant
                i <= ncols,
                self@ == dbm,
                db_wf(dbm),
                am == assigns.deep_view(),
                ti < dbm.tables.len(),
                tm == dbm.tables[ti as int],
                table_index(dbm.tables, table@, 0) == ti as int,
                cols == tm.def.columns,
                ncols == cols.len(),
                cells@.len() == ncols,
                cells.deep_view() == rowm,
                rowm == new_row(cols, am, now@),
                assigns_check(cols, am, 0) is None,
                row_check(cols, rowm, 0) == row_check(cols, rowm, i as int),
            decreases ncols - i,
        {
            let col = &self.tables[ti].def.columns[i];
            let required = col.not_null || col.primary_key;
            let absent = match &cells[i] {
                Value::Null => true,
                _ => false,
            };
            if required && absent {
                return Err(InsertError::NotNullViolation(col.name.clone()));
            }
            let passes = match &col.allowed {
                None => true,
                Some(vs) => match &cells[i] {
                    Value::Null => true,
                    Value::Text(s) => contains_string(vs, s),
                    _ => false,
                },
            };
            if !passes {
                return Err(InsertError::CheckViolation(col.name.clone()));
            }
            i += 1;
        }

        // No clash with a stored row in any primary-key column.
        let mut i: usize = 0;
        while i < ncols
            invariant
                i <= ncols,
                self@ == dbm,
                am == assigns.deep_view(),
                db_wf(dbm),
                ti < dbm.tables.len(),
                tm == dbm.tables[ti as int],
                table_index(dbm.tables, table@, 0) == ti as int,
                cols == tm.def.columns,
                ncols == cols.len(),
                cells@.len() == ncols,
                cells.deep_view() == rowm,
                rowm == new_row(cols, am, now@),
                assigns_check(cols, am, 0) is None,
                row_check(cols, rowm, 0) is None,
                pk_check(tm, rowm, 0) == pk_check(tm, rowm, i as int),
            decreases ncols - i,
        {
            if self.tables[ti].def.columns[i].primary_key {
                let nrows = self.tables[ti].rows.len();
                let mut k: usize = 0;
                while k < nrows
                    invariant
                        k <= nrows,
                        i < ncols,
                        self@ == dbm,
                        am == assigns.deep_view(),
                        db_wf(dbm),
                        ti < dbm.tables.len(),
                        tm == dbm.tables[ti as int],
                        table_index(dbm.tables, table@, 0) == ti as int,
                        cols == tm.def.columns,
                        ncols == cols.len(),
                        nrows == tm.rows.len(),
                        cells@.len() == ncols,
                        cells.deep_view() == rowm,
                        rowm == new_row(cols, am, now@),
                        assigns_check(cols, am, 0) is None,
                        row_check(cols, rowm, 0) is None,
                        pk_check(tm, rowm, 0) == pk_check(tm, rowm, i as int),
                        cols[i as int].primary_key,
                        forall|x: int| 0 <= x < k ==> (#[trigger] tm.rows[x])[i as int] != rowm[i as int],
                    decreases nrows - k,
                {
                    proof {
                        assert(table_wf(tm));
                        assert(tm.rows[k as int].len() == cols.len());
                    }
                    if value_eq(&self.tables[ti].rows[k].cells[i], &cells[i]) {
                        proof {
                            assert(tm.rows[k as int][i as int] == rowm[i as int]);
                        }
                        return Err(
                            InsertError::PrimaryKeyViolation(
                                self.tables[ti].def.columns[i].name.clone(),
                            ),
                        );
                    }
                    k += 1;
                }
            }
            i += 1;
        }

        // Commit: append the completed row.
        let grown = {
            let t = &self.tables[ti];
            let mut rows = copy_rows(&t.rows);
            rows.push(Row { cells });
            Table { def: t.def.duplicate(), rows }
        };
        proof {
            assert(grown@ =~~= TableModel { def: tm.def, rows: tm.rows.push(rowm) });
        }
        self.tables.set(ti, grown);
        proof {
            let expected = DatabaseModel {
                tables: dbm.tables.update(
                    ti as int,
                    TableModel { def: tm.def, rows: tm.rows.push(rowm) },
                ),
                applied: dbm.applied,
            };
            assert(self@ =~~= expected);
            assert forall|x: int| 0 <= x < self@.tables.len() implies table_wf(
                #[trigger] self@.tables[x],
            ) by {
                assert(table_wf(dbm.tables[x]));
                if x == ti as int {
                    let g = self@.tables[x];
                    assert forall|y: int| 0 <= y < g.rows.len() implies (#[trigger] g.rows[y]).len()
                        == g.def.columns.len() by {
                        if y < tm.rows.len() {
                            assert(tm.rows[y].len() == cols.len());
                        }
                    }
                }
            }
        }
        Ok(())
    }
}

} // verus!
