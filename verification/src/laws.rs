//! General laws of the reconciler, stated over the models and proved once
//! for every store and every change-set list.

use vstd::prelude::*;

use crate::db::lemma_run_script_frame;
use crate::db::run_script;
use crate::db::DatabaseModel;
use crate::db::StatementErrorModel;
use crate::db::fresh_database;
use crate::migrate::list_well_formed;
use crate::migrate::record_step;
use crate::migrate::run_all;
use crate::migrate::MigrationModel;

verus! {

broadcast use vstd::seq_lib::lemma_seq_contains_after_push;

/// The cumulative effect of a change-set list: every script runs, in list
/// order, with no ledger lookups; each version is recorded as its script
/// succeeds, and the first refusal stops the run.
pub open spec fn cumulative_run(db: DatabaseModel, ms: Seq<MigrationModel>) -> (
    DatabaseModel,
    Option<(u64, StatementErrorModel)>,
)
    decreases ms.len(),
{
    if ms.len() == 0 {
        (db, None)
    } else {
        let (d, e) = run_script(db, ms[0].statements);
        match e {
            None => cumulative_run(
                DatabaseModel { tables: d.tables, applied: d.applied.push(ms[0].version) },
                ms.drop_first(),
            ),
            Some(er) => (db, Some((ms[0].version, er))),
        }
    }
}

/// One change-set never removes a ledger entry, and a change-set that is
/// not skipped ends with its own version in the ledger.
pub proof fn lemma_record_step_ledger(db: DatabaseModel, m: MigrationModel)
    ensures
        forall|v: u64| db.applied.contains(v) ==> #[trigger] record_step(
            db,
            m,
        ).0.applied.contains(v),
        record_step(db, m).1 is None ==> record_step(db, m).0.applied.contains(m.version),
{
    lemma_run_script_frame(db, m.statements);
}

/// The ledger only grows: every version applied before reconciliation is
/// still recorded after it, however the run ends.
pub proof fn lemma_ledger_monotone(db: DatabaseModel, ms: Seq<MigrationModel>, v: u64)
    requires
        db.applied.contains(v),
    ensures
        run_all(db, ms).0.applied.contains(v),
    decreases ms.len(),
{
    if ms.len() > 0 {
        lemma_record_step_ledger(db, ms[0]);
        let (d, e) = record_step(db, ms[0]);
        if e is None {
            lemma_ledger_monotone(d, ms.drop_first(), v);
        }
    }
}

/// After a reconciliation that succeeded, every version of the list is in
/// the ledger.
pub proof fn lemma_success_records_all(db: DatabaseModel, ms: Seq<MigrationModel>)
    requires
        run_all(db, ms).1 is None,
    ensures
        forall|i: int| 0 <= i < ms.len() ==> run_all(db, ms).0.applied.contains(
            (#[trigger] ms[i]).version,
        ),
    decreases ms.len(),
{
    if ms.len() > 0 {
        lemma_record_step_ledger(db, ms[0]);
        let (d, e) = record_step(db, ms[0]);
        lemma_success_records_all(d, ms.drop_first());
        lemma_ledger_monotone(d, ms.drop_first(), ms[0].version);
        assert forall|i: int| 0 <= i < ms.len() implies run_all(db, ms).0.applied.contains(
            (#[trigger] ms[i]).version,
        ) by {
            if i > 0 {
                assert(ms.drop_first()[i - 1] == ms[i]);
            }
        }
    }
}

/// A list whose versions are all in the ledger already is a no-op: the run
/// succeeds and the store does not change.
pub proof fn lemma_all_recorded_skips(db: DatabaseModel, ms: Seq<MigrationModel>)
    requires
        forall|i: int| 0 <= i < ms.len() ==> db.applied.contains((#[trigger] ms[i]).version),
    ensures
        run_all(db, ms) == (db, None::<(u64, StatementErrorModel)>),
    decreases ms.len(),
{
    if ms.len() > 0 {
        assert(db.applied.contains(ms[0].version));
        assert forall|i: int| 0 <= i < ms.drop_first().len() implies db.applied.contains(
            (#[trigger] ms.drop_first()[i]).version,
        ) by {
            assert(ms.drop_first()[i] == ms[i + 1]);
        }
        lemma_all_recorded_skips(db, ms.drop_first());
    }
}

/// Idempotence: reconciling the same list again right after a successful
/// reconciliation succeeds and changes nothing.
pub proof fn lemma_reconcile_idempotent(db: DatabaseModel, ms: Seq<MigrationModel>)
    requires
        run_all(db, ms).1 is None,
    ensures
        run_all(run_all(db, ms).0, ms) == (
            run_all(db, ms).0,
            None::<(u64, StatementErrorModel)>,
        ),
{
    lemma_success_records_all(db, ms);
    lemma_all_recorded_skips(run_all(db, ms).0, ms);
}

/// Incremental application: after a successful reconciliation of a prefix,
/// reconciling the prefix extended by new change-sets runs exactly the new
/// ones — the whole prefix is skipped.
pub proof fn lemma_reconcile_incremental(
    db: DatabaseModel,
    applied: Seq<MigrationModel>,
    fresh: Seq<MigrationModel>,
)
    requires
        run_all(db, applied).1 is None,
    ensures
        run_all(run_all(db, applied).0, applied + fresh) == run_all(
            run_all(db, applied).0,
            fresh,
        ),
{
    lemma_success_records_all(db, applied);
    lemma_prefix_skipped(run_all(db, applied).0, applied, fresh);
}

/// A prefix whose versions are all in the ledger is skipped change-set by
/// change-set.
proof fn lemma_prefix_skipped(
    db: DatabaseModel,
    head: Seq<MigrationModel>,
    tail: Seq<MigrationModel>,
)
    requires
        forall|i: int| 0 <= i < head.len() ==> db.applied.contains((#[trigger] head[i]).version),
    ensures
        run_all(db, head + tail) == run_all(db, tail),
    decreases head.len(),
{
    if head.len() == 0 {
        assert(head + tail =~= tail);
    } else {
        assert((head + tail)[0] == head[0]);
        assert(db.applied.contains(head[0].version));
        assert((head + tail).drop_first() =~= head.drop_first() + tail);
        assert forall|i: int| 0 <= i < head.drop_first().len() implies db.applied.contains(
            (#[trigger] head.drop_first()[i]).version,
        ) by {
            assert(head.drop_first()[i] == head[i + 1]);
        }
        lemma_prefix_skipped(db, head.drop_first(), tail);
    }
}

/// On a fresh store a well-formed list is applied in full: reconciliation
/// coincides with the cumulative effect of running every script in order,
/// recording each version with its script.
pub proof fn lemma_fresh_reconcile_cumulative(ms: Seq<MigrationModel>)
    requires
        list_well_formed(ms),
    ensures
        run_all(fresh_database(), ms) == cumulative_run(fresh_database(), ms),
{
    lemma_nothing_recorded_cumulative(fresh_database(), ms);
}

/// On any store whose ledger holds none of the list's versions, a
/// well-formed list is applied in full.
pub proof fn lemma_nothing_recorded_cumulative(db: DatabaseModel, ms: Seq<MigrationModel>)
    requires
        list_well_formed(ms),
        forall|i: int| 0 <= i < ms.len() ==> !db.applied.contains((#[trigger] ms[i]).version),
    ensures
        run_all(db, ms) == cumulative_run(db, ms),
    decreases ms.len(),
{
    if ms.len() > 0 {
        assert(!db.applied.contains(ms[0].version));
        lemma_run_script_frame(db, ms[0].statements);
        let (d, e) = run_script(db, ms[0].statements);
        if e is None {
            let next = DatabaseModel {
                tables: d.tables,
                applied: d.applied.push(ms[0].version),
            };
            assert(record_step(db, ms[0]) == (next, None::<StatementErrorModel>));
            assert forall|i: int| 0 <= i < ms.drop_first().len() implies !next.applied.contains(
                (#[trigger] ms.drop_first()[i]).version,
            ) by {
                assert(ms.drop_first()[i] == ms[i + 1]);
                assert(ms[0].version < ms[i + 1].version);
            }
            assert forall|i: int, j: int|
                0 <= i < j < ms.drop_first().len() implies ms.drop_first()[i].version
                < ms.drop_first()[j].version by {
                assert(ms.drop_first()[i] == ms[i + 1]);
                assert(ms.drop_first()[j] == ms[j + 1]);
            }
            assert forall|i: int| 0 <= i < ms.drop_first().len() implies (#[trigger] ms.drop_first()[i]).version >= 1 by {
                assert(ms.drop_first()[i] == ms[i + 1]);
            }
            lemma_nothing_recorded_cumulative(next, ms.drop_first());
        }
    }
}

} // verus!
