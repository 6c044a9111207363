//! Versioned change-sets and the reconciler that applies each exactly once,
//! in ascending version order, recording what it applied in the ledger.

use vstd::prelude::*;

use crate::db::db_wf;
use crate::db::run_script;
use crate::db::lemma_run_script_frame;
use crate::db::stmt_outcome_matches;
use crate::db::Database;
use crate::db::DatabaseModel;
use crate::db::StatementError;
use crate::db::StatementErrorModel;
use crate::schema::Statement;
use crate::schema::StatementModel;

verus! {

/// Direction label a change-set carries: a forward change, or the script
/// that would undo one.  The label is configuration data; reconciliation
/// treats every pending change-set alike.
#[derive(PartialEq, Eq, Structural, Clone, Copy, Debug)]
pub enum MigrationKind {
    Up,
    Down,
}

/// One versioned, named, ordered change-set.
#[derive(PartialEq, Eq, Debug)]
pub struct Migration {
    pub version: u64,
    pub description: String,
    pub kind: MigrationKind,
    pub statements: Vec<Statement>,
}

/// Mathematical counterpart of [`Migration`].
#[verifier::ext_equal]
pub struct MigrationModel {
    pub version: u64,
    pub description: Seq<char>,
    pub kind: MigrationKind,
    pub statements: Seq<StatementModel>,
}

impl View for Migration {
    type V = MigrationModel;

    open spec fn view(&self) -> MigrationModel {
        MigrationModel {
            version: self.version,
            description: self.description@,
            kind: self.kind,
            statements: self.statements.deep_view(),
        }
    }
}

impl DeepView for Migration {
    type V = MigrationModel;

    open spec fn deep_view(&self) -> MigrationModel {
        self.view()
    }
}

/// A usable change-set list: versions are positive and strictly increasing,
/// so no version repeats and later change-sets always come later.
pub open spec fn list_well_formed(ms: Seq<MigrationModel>) -> bool {
    &&& forall|i: int| 0 <= i < ms.len() ==> (#[trigger] ms[i]).version >= 1
    &&& forall|i: int, j: int|
        0 <= i < j < ms.len() ==> ms[i].version < ms[j].version
}

/// Why reconciliation failed: a malformed change-set list refused before
/// anything ran, or a statement the store refused, with its version.
#[derive(PartialEq, Eq, Debug)]
pub enum MigrationError {
    Configuration,
    Storage { version: u64, error: StatementError },
}

/// Mathematical counterpart of [`MigrationError`].
#[verifier::ext_equal]
pub enum MigrationErrorModel {
    Configuration,
    Storage { version: u64, error: StatementErrorModel },
}

impl View for MigrationError {
    type V = MigrationErrorModel;

    open spec fn view(&self) -> MigrationErrorModel {
        match self {
            MigrationError::Configuration => MigrationErrorModel::Configuration,
            MigrationError::Storage { version, error } => MigrationErrorModel::Storage {
                version: *version,
                error: error@,
            },
        }
    }
}

impl DeepView for MigrationError {
    type V = MigrationErrorModel;

    open spec fn deep_view(&self) -> MigrationErrorModel {
        self.view()
    }
}

/// Effect of one change-set on the store.  A version already in the ledger
/// is skipped.  Otherwise the script runs atomically: either the whole
/// script succeeds and the version is recorded with it, or the store is
/// returned exactly as it was, beside the refusal.
pub open spec fn record_step(db: DatabaseModel, m: MigrationModel) -> (
    DatabaseModel,
    Option<StatementErrorModel>,
) {
    if db.applied.contains(m.version) {
        (db, None)
    } else {
        let (d, e) = run_script(db, m.statements);
        match e {
            None => (
                DatabaseModel { tables: d.tables, applied: d.applied.push(m.version) },
                None,
            ),
            Some(er) => (db, Some(er)),
        }
    }
}

/// Effect of reconciling a whole list, change-set by change-set, stopping
/// at the first failure.  The store returned beside a failure is the state
/// the successful prefix produced; the failing version is named.
pub open spec fn run_all(db: DatabaseModel, ms: Seq<MigrationModel>) -> (
    DatabaseModel,
    Option<(u64, StatementErrorModel)>,
)
    decreases ms.len(),
{
    if ms.len() == 0 {
        (db, None)
    } else {
        let (d, e) = record_step(db, ms[0]);
        match e {
            None => run_all(d, ms.drop_first()),
            Some(er) => (d, Some((ms[0].version, er))),
        }
    }
}

/// One change-set keeps every table well-formed.
pub proof fn lemma_record_step_wf(db: DatabaseModel, m: MigrationModel)
    ensures
        db_wf(db) ==> db_wf(record_step(db, m).0),
{
    lemma_run_script_frame(db, m.statements);
}

/// Relates an executable reconcile result to the modeled outcome of
/// [`run_all`] on a well-formed list.
pub open spec fn reconcile_outcome_matches(
    r: Result<(), MigrationError>,
    e: Option<(u64, StatementErrorModel)>,
) -> bool {
    match e {
        None => r is Ok,
        Some((v, er)) => match r {
            Result::Err(x) => x@ == (MigrationErrorModel::Storage { version: v, error: er }),
            Result::Ok(_) => false,
        },
    }
}

/// Positive, strictly increasing versions at neighbouring places extend to
/// every pair of places.
proof fn lemma_adjacent_increasing(ms: Seq<MigrationModel>, i: int, j: int)
    requires
        forall|k: int| 0 <= k < ms.len() - 1 ==> (#[trigger] ms[k].version) < ms[k + 1].version,
        0 <= i < j < ms.len(),
    ensures
        ms[i].version < ms[j].version,
    decreases j - i,
{
    if i + 1 < j {
        lemma_adjacent_increasing(ms, i, j - 1);
        assert(ms[j - 1].version < ms[j].version);
    }
}

/// Whether the list is well formed: versions positive, strictly increasing,
/// no duplicates.
pub fn check_list(records: &Vec<Migration>) -> (r: bool)
    ensures
        r == list_well_formed(records.deep_view()),
{
    let ghost ms = records.deep_view();
    let mut i: usize = 0;
    while i < records.len()
        invariant
            i <= records.len(),
            ms == records.deep_view(),
            ms.len() == records.len(),
            forall|k: int| 0 <= k < i ==> (#[trigger] ms[k]).version >= 1,
            forall|k: int| 0 <= k < i - 1 ==> (#[trigger] ms[k].version) < ms[k + 1].version,
        decreases records.len() - i,
    {
        if records[i].version < 1 {
            proof {
                assert(ms[i as int].version < 1);
            }
            return false;
        }
        if i > 0 && records[i - 1].version >= records[i].version {
            proof {
                assert(ms[i - 1].version >= ms[i as int].version);
            }
            return false;
        }
        i += 1;
    }
    proof {
        assert forall|a: int, b: int| 0 <= a < b < ms.len() implies ms[a].version
            < ms[b].version by {
            lemma_adjacent_increasing(ms, a, b);
        }
    }
    true
}

impl Database {
    /// Reconcile one change-set: skip it if its version is in the ledger,
    /// otherwise run its whole script and record the version, atomically.
    pub fn apply_record(&mut self, m: &Migration) -> (r: Result<(), StatementError>)
        ensures
            final(self)@ == record_step(old(self)@, m@).0,
            stmt_outcome_matches(r, record_step(old(self)@, m@).1),
    {
        if self.contains_version(m.version) {
            return Ok(());
        }
        let mut trial = self.duplicate();
        match trial.apply_script(&m.statements) {
            Ok(()) => {
                trial.applied.push(m.version);
                proof {
                    assert(trial@ =~~= record_step(old(self)@, m@).0);
                }
                *self = trial;
                Ok(())
            },
            Err(e) => Err(e),
        }
    }

    /// Reconcile a list of change-sets against the store.
    ///
    /// A malformed list (versions out of order, repeated, or zero) is
    /// refused before any statement runs and the store is untouched.  A
    /// well-formed list is applied change-set by change-set as
    /// [`run_all`] says: versions already in the ledger are skipped, each
    /// remaining script either fully applies together with its ledger
    /// entry or fails atomically, and the first failure stops the run
    /// with everything before it kept.
    pub fn reconcile(&mut self, records: &Vec<Migration>) -> (r: Result<(), MigrationError>)
        ensures
            !list_well_formed(records.deep_view()) ==> final(self)@ == old(self)@ && (r matches Err(
                e,
            ) && e@ == MigrationErrorModel::Configuration),
            list_well_formed(records.deep_view()) ==> final(self)@ == run_all(
                old(self)@,
                records.deep_view(),
            ).0 && reconcile_outcome_matches(r, run_all(old(self)@, records.deep_view()).1),
            db_wf(old(self)@) ==> db_wf(final(self)@),
    {
        let ghost all = records.deep_view();
        if !check_list(records) {
            return Err(MigrationError::Configuration);
        }
        proof {
            assert(all.subrange(0, all.len() as int) =~= all);
        }
        let mut i: usize = 0;
        while i < records.len()
            invariant
                i <= records.len(),
                all == records.deep_view(),
                all.len() == records.len(),
                list_well_formed(all),
                run_all(old(self)@, all) == run_all(self@, all.subrange(i as int, all.len() as int)),
                db_wf(old(self)@) ==> db_wf(self@),
            decreases records.len() - i,
        {
            let ghost before = self@;
            let ghost rest = all.subrange(i as int, all.len() as int);
            proof {
                assert(rest[0] == all[i as int]);
            }
            let version = records[i].version;
            match self.apply_record(&records[i]) {
                Ok(()) => {},
                Err(e) => {
                    proof {
                        assert(run_all(before, rest) == (before, Some((rest[0].version, e@))));
                        lemma_record_step_wf(before, rest[0]);
                    }
                    return Err(MigrationError::Storage { version, error: e });
                },
            }
            i += 1;
            proof {
                assert(rest.drop_first() =~= all.subrange(i as int, all.len() as int));
                lemma_record_step_wf(before, rest[0]);
            }
        }
        proof {
            assert(all.subrange(i as int, all.len() as int) =~= Seq::<MigrationModel>::empty());
        }
        Ok(())
    }
}

impl Migration {
    /// An independent copy with the same model.
    pub fn duplicate(&self) -> (r: Migration)
        ensures
            r@ == self@,
    {
        let r = Migration {
            version: self.version,
            description: self.description.clone(),
            kind: self.kind,
            statements: crate::schema::copy_statements(&self.statements),
        };
        proof {
            assert(r@ =~~= self@);
        }
        r
    }
}

} // verus!
