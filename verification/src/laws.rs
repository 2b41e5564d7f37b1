//! What holds of every run of the engine, proved over the model of the
//! database.

use crate::catalog::{
    lemma_ascending_unique, lemma_pending_is_ordered, lemma_pending_is_suffix, lemma_split_exists,
    ordered, pending_spec, settled, splits_at,
};
use crate::engine::{
    finished, initial, next_state, on_migration, pending_action, ActionView, EngineView, Phase,
};
use crate::error::MigrationErrorView;
use crate::migration::{tag_of, MigrationView};
use crate::model::{
    found, fresh, perform, recorded, run, run_for, statements_of, steps_left, Executed, Store,
    Transaction,
};
use vstd::prelude::*;

verus! {

/// The position in `catalog` of the first migration that `before` lacks.
pub open spec fn origin(catalog: Seq<MigrationView>, database: Seq<char>, before: Store) -> nat {
    settled(catalog, recorded(before, database))
}

/// A failure has occurred in a run that is in `phase`.
pub open spec fn troubled(phase: Phase) -> bool {
    phase is RollingBack || phase is Unavailable || phase is Aborted
}

/// The statement of the migration that the engine in state `e` is applying.
spec fn current(e: EngineView) -> Executed {
    Executed {
        version: e.catalog[e.next as int].version,
        statement: e.catalog[e.next as int].statement,
    }
}

/// The open transaction holds what the phase of `e` says it holds.
spec fn in_flight(e: EngineView, open: Option<Transaction>) -> bool {
    match e.phase {
        Phase::Opening => open is None,
        Phase::Executing => open == Some(fresh()),
        Phase::Recording => open == Some(
            Transaction { statements: fresh().statements.push(current(e)), markers: fresh().markers },
        ),
        Phase::Committing => open == Some(
            Transaction {
                statements: fresh().statements.push(current(e)),
                markers: fresh().markers.insert(e.database, current(e).version),
            },
        ),
        Phase::Done => open is None && e.next == e.catalog.len(),
        _ => true,
    }
}

/// How the state `e` of a run that started against `before` and the store
/// `now` belong together: the committed statements are those of `before`
/// followed by the statements of the migrations from the origin up to the
/// current one, the marker is the version of the last of them, and every
/// other marker is as it was.
spec fn coupled(
    catalog: Seq<MigrationView>,
    database: Seq<char>,
    before: Store,
    e: EngineView,
    now: Store,
) -> bool {
    let from = origin(catalog, database, before);
    &&& e.catalog == catalog
    &&& e.database == database
    &&& match e.phase {
        Phase::EnsuringStorage => now == before && e.applied == 0,
        Phase::ReadingMarker => {
            &&& now.markers == before.markers
            &&& now.history == before.history
            &&& now.open is None
            &&& now.storage
            &&& e.applied == 0
        },
        Phase::Unavailable => {
            &&& now.markers == before.markers
            &&& now.history == before.history
            &&& now.open is None
            &&& e.applied == 0
        },
        _ => {
            &&& from <= e.next <= catalog.len()
            &&& e.applied == e.next - from
            &&& now.storage
            &&& now.history == before.history + statements_of(
                catalog.subrange(from as int, e.next as int),
            )
            &&& now.markers == if e.next == from {
                before.markers
            } else {
                before.markers.insert(database, catalog[e.next - 1].version)
            }
            &&& on_migration(e.phase) ==> e.next < catalog.len()
            &&& in_flight(e, now.open)
        },
    }
}

/// One action, performed and answered, keeps engine and store coupled, brings
/// the run nearer to its end, and leaves it untroubled if the action worked.
proof fn lemma_step_keeps_coupling(
    catalog: Seq<MigrationView>,
    database: Seq<char>,
    before: Store,
    e: EngineView,
    now: Store,
    works: bool,
)
    requires
        ordered(catalog),
        before.open is None,
        coupled(catalog, database, before, e, now),
        !finished(e),
    ensures
        ({
            let (after, event) = perform(now, pending_action(e), works);
            let then = next_state(e, event);
            &&& coupled(catalog, database, before, then, after)
            &&& steps_left(then) < steps_left(e)
            &&& works && !troubled(e.phase) ==> !troubled(then.phase)
        }),
{
    lemma_split_exists(catalog, recorded(before, database));
    if e.phase is Committing && works {
        // The commit appends the current statement and sets the marker.
        let from = origin(catalog, database, before);
        let after = perform(now, pending_action(e), works).0;
        let grown = catalog.subrange(from as int, e.next as int + 1);
        assert(after.history =~= before.history + statements_of(grown));
        assert(after.markers =~= before.markers.insert(database, current(e).version));
    }
}

/// A run from coupled states ends, and ends coupled; where every action
/// works from now on and nothing has failed yet, it ends with every
/// migration committed.
proof fn lemma_run_keeps_coupling(
    catalog: Seq<MigrationView>,
    database: Seq<char>,
    before: Store,
    e: EngineView,
    now: Store,
    faults: Set<nat>,
    clock: nat,
)
    requires
        ordered(catalog),
        before.open is None,
        coupled(catalog, database, before, e, now),
    ensures
        ({
            let (end, after) = run(e, now, faults, clock);
            &&& finished(end)
            &&& coupled(catalog, database, before, end, after)
            &&& (forall|t: nat| t >= clock ==> !faults.contains(t)) && !troubled(e.phase)
                ==> end.phase is Done
        }),
    decreases steps_left(e),
{
    if !finished(e) {
        lemma_step_keeps_coupling(catalog, database, before, e, now, !faults.contains(clock));
        let (after, event) = perform(now, pending_action(e), !faults.contains(clock));
        lemma_run_keeps_coupling(
            catalog,
            database,
            before,
            next_state(e, event),
            after,
            faults,
            clock + 1,
        );
    }
}

/// However far a run has come, engine and store are coupled.
proof fn lemma_run_for_keeps_coupling(
    catalog: Seq<MigrationView>,
    database: Seq<char>,
    before: Store,
    e: EngineView,
    now: Store,
    faults: Set<nat>,
    clock: nat,
    steps: nat,
)
    requires
        ordered(catalog),
        before.open is None,
        coupled(catalog, database, before, e, now),
    ensures
        ({
            let (then, after) = run_for(e, now, faults, clock, steps);
            coupled(catalog, database, before, then, after)
        }),
    decreases steps,
{
    if steps > 0 && !finished(e) {
        lemma_step_keeps_coupling(catalog, database, before, e, now, !faults.contains(clock));
        let (after, event) = perform(now, pending_action(e), !faults.contains(clock));
        lemma_run_for_keeps_coupling(
            catalog,
            database,
            before,
            next_state(e, event),
            after,
            faults,
            clock + 1,
            (steps - 1) as nat,
        );
    }
}

/// What is committed is consistent at every moment.
///
/// Run the engine on `catalog` against a store `before` in which no
/// transaction is open, with the actions in `faults` failing, and stop after
/// any number of actions, as a crash would. If the engine had counted `n`
/// commits by then, the statements that have taken effect are exactly those
/// of the first `n` pending migrations, in ascending order of version; the
/// marker of `database` is the version of the last of them, or what it was
/// where `n` is 0; and no other database's marker has changed.
pub proof fn law_committed_state_is_consistent_at_every_step(
    catalog: Seq<MigrationView>,
    database: Seq<char>,
    before: Store,
    faults: Set<nat>,
    steps: nat,
)
    requires
        ordered(catalog),
        before.open is None,
    ensures
        ({
            let (then, now) = run_for(initial(catalog, database), before, faults, 0, steps);
            let since = recorded(before, database);
            let todo = pending_spec(catalog, since);
            let n = then.applied as int;
            &&& 0 <= n <= todo.len()
            &&& now.history == before.history + statements_of(todo.take(n))
            &&& recorded(now, database) == if n == 0 {
                since
            } else {
                todo[n - 1].version as int
            }
            &&& forall|other: Seq<char>|
                other != database ==> #[trigger] found(now, other) == found(before, other)
        }),
{
    let start = initial(catalog, database);
    lemma_run_for_keeps_coupling(catalog, database, before, start, before, faults, 0, steps);
    let since = recorded(before, database);
    let from = origin(catalog, database, before);
    lemma_split_exists(catalog, since);
    lemma_pending_is_suffix(catalog, since, from as int);
}

/// The marker follows the commits, whatever fails and whenever.
///
/// Run the engine on `catalog` against a store `before` in which no
/// transaction is open, with the actions whose numbers are in `faults` failing.
/// The run ends. If `n` migrations were committed, then the statements that
/// took effect are exactly those of the first `n` pending migrations, in
/// ascending order of version; the marker of `database` is the version of the
/// last of them, or what it was where `n` is 0; and no other database's
/// marker has changed. A run that ends well has committed every pending
/// migration and reports their number. A run that ends with a failure about
/// a migration names the first pending migration that is not committed.
pub proof fn law_marker_follows_commits(
    catalog: Seq<MigrationView>,
    database: Seq<char>,
    before: Store,
    faults: Set<nat>,
)
    requires
        ordered(catalog),
        before.open is None,
    ensures
        ({
            let (end, after) = run(initial(catalog, database), before, faults, 0);
            let since = recorded(before, database);
            let todo = pending_spec(catalog, since);
            let n = end.applied as int;
            &&& finished(end)
            &&& 0 <= n <= todo.len()
            &&& after.history == before.history + statements_of(todo.take(n))
            &&& recorded(after, database) == if n == 0 {
                since
            } else {
                todo[n - 1].version as int
            }
            &&& forall|other: Seq<char>|
                other != database ==> #[trigger] found(after, other) == found(before, other)
            &&& match pending_action(end) {
                ActionView::Finish(Ok(count)) => count == n && n == todo.len(),
                ActionView::Finish(Err(MigrationErrorView::StatementFailure { migration })) => n
                    < todo.len() && migration == tag_of(todo[n]),
                ActionView::Finish(
                    Err(MigrationErrorView::StorageUnavailable { during: Some(migration) }),
                ) => n < todo.len() && migration == tag_of(todo[n]),
                ActionView::Finish(Err(MigrationErrorView::StorageUnavailable { during: None })) => n
                    == 0,
                _ => false,
            }
        }),
{
    let start = initial(catalog, database);
    lemma_run_keeps_coupling(catalog, database, before, start, before, faults, 0);
    let since = recorded(before, database);
    let from = origin(catalog, database, before);
    lemma_split_exists(catalog, since);
    lemma_pending_is_suffix(catalog, since, from as int);
}

/// `version` is the greatest version in `catalog` above `since`.
pub open spec fn latest_above(catalog: Seq<MigrationView>, since: int, version: int) -> bool {
    &&& version > since
    &&& exists|i: int| 0 <= i < catalog.len() && (#[trigger] catalog[i]).version == version
    &&& forall|i: int|
        0 <= i < catalog.len() && (#[trigger] catalog[i]).version > since ==> catalog[i].version
            <= version
}

/// A run in which nothing fails brings the database to the latest version.
///
/// Run the engine on `catalog` against a store `before` in which no
/// transaction is open, and let every action work. The run reports success
/// with the number of pending migrations. Afterwards the marker of `database`
/// is the greatest version in the catalog above the version it had, or, where
/// the catalog has none above it, the marker is what it was. No transaction
/// is left open.
pub proof fn law_uninterrupted_run_reaches_latest(
    catalog: Seq<MigrationView>,
    database: Seq<char>,
    before: Store,
)
    requires
        ordered(catalog),
        before.open is None,
    ensures
        ({
            let (end, after) = run(initial(catalog, database), before, Set::empty(), 0);
            let since = recorded(before, database);
            let todo = pending_spec(catalog, since);
            &&& pending_action(end) == ActionView::Finish(Ok(todo.len()))
            &&& after.storage
            &&& after.open is None
            &&& todo.len() == 0 ==> after.markers == before.markers
            &&& todo.len() > 0 ==> latest_above(catalog, since, recorded(after, database))
        }),
{
    let start = initial(catalog, database);
    let faults = Set::<nat>::empty();
    lemma_run_keeps_coupling(catalog, database, before, start, before, faults, 0);
    law_marker_follows_commits(catalog, database, before, faults);
    let since = recorded(before, database);
    let from = origin(catalog, database, before);
    lemma_split_exists(catalog, since);
    lemma_pending_is_suffix(catalog, since, from as int);
    if pending_spec(catalog, since).len() > 0 {
        // The last migration of an ascending catalog has the greatest version.
        let last = catalog.len() - 1;
        assert forall|i: int| 0 <= i < catalog.len() implies (#[trigger] catalog[i]).version
            <= catalog[last].version by {}
    }
}

/// Applying twice applies once.
///
/// Suppose a run of the engine on `catalog` against `before`, with the
/// actions in `faults` failing, ended well and left the store `between`. Then
/// a second run on the same catalog against `between`, in which nothing
/// fails, reports success with zero migrations applied, and leaves the store
/// exactly as it found it.
pub proof fn law_second_run_applies_nothing(
    catalog: Seq<MigrationView>,
    database: Seq<char>,
    before: Store,
    faults: Set<nat>,
)
    requires
        ordered(catalog),
        before.open is None,
        run(initial(catalog, database), before, faults, 0).0.phase is Done,
    ensures
        ({
            let between = run(initial(catalog, database), before, faults, 0).1;
            let (end, after) = run(initial(catalog, database), between, Set::empty(), 0);
            &&& pending_action(end) == ActionView::Finish(Ok(0nat))
            &&& after == between
        }),
{
    let start = initial(catalog, database);
    lemma_run_keeps_coupling(catalog, database, before, start, before, faults, 0);
    let between = run(start, before, faults, 0).1;
    lemma_split_exists(catalog, recorded(before, database));
    // After the first run nothing in the catalog is above the marker.
    let reached = recorded(between, database);
    let total = catalog.len() as int;
    assert(splits_at(catalog, reached, total)) by {
        assert forall|i: int| 0 <= i < total implies (#[trigger] catalog[i]).version
            <= catalog[total - 1].version by {}
    }
    lemma_pending_is_suffix(catalog, reached, total);
    lemma_run_keeps_coupling(catalog, database, between, start, between, Set::empty(), 0);
}

/// A failed run can be taken up again, and nothing is applied twice.
///
/// Suppose a run of the engine on `catalog` against `before`, with the
/// actions in `faults` failing, committed `n` migrations and left the store
/// `between` with no transaction open. Then a second run against `between`,
/// in which nothing fails, applies the pending migrations that the first did
/// not commit, and only those: it reports their number, and afterwards the
/// statements that have taken effect since `before` are those of the
/// migrations that were pending then, each once, in ascending order.
pub proof fn law_retry_completes_without_repeating(
    catalog: Seq<MigrationView>,
    database: Seq<char>,
    before: Store,
    faults: Set<nat>,
)
    requires
        ordered(catalog),
        before.open is None,
        run(initial(catalog, database), before, faults, 0).1.open is None,
    ensures
        ({
            let (first, between) = run(initial(catalog, database), before, faults, 0);
            let (end, after) = run(initial(catalog, database), between, Set::empty(), 0);
            let todo = pending_spec(catalog, recorded(before, database));
            &&& first.applied <= todo.len()
            &&& pending_action(end) == ActionView::Finish(
                Ok((todo.len() - first.applied) as nat),
            )
            &&& after.history == before.history + statements_of(todo)
        }),
{
    let start = initial(catalog, database);
    let (first, between) = run(start, before, faults, 0);
    let since = recorded(before, database);
    let from = origin(catalog, database, before) as int;
    let n = first.applied as int;
    law_marker_follows_commits(catalog, database, before, faults);
    law_uninterrupted_run_reaches_latest(catalog, database, between);
    law_marker_follows_commits(catalog, database, between, Set::empty());
    lemma_split_exists(catalog, since);
    lemma_pending_is_suffix(catalog, since, from);
    // What is pending after the first run is what it left of `todo`.
    let reached = recorded(between, database);
    assert(splits_at(catalog, reached, from + n)) by {
        if n > 0 {
            assert forall|i: int| 0 <= i < from + n implies (#[trigger] catalog[i]).version
                <= reached by {}
            assert forall|i: int| from + n <= i < catalog.len() implies reached < (
            #[trigger] catalog[i]).version by {}
        }
    }
    lemma_pending_is_suffix(catalog, reached, from + n);
}

/// A migration that fails leaves no trace.
///
/// Run the engine on `catalog` against a store `before` in which no
/// transaction is open, with the actions in `faults` failing, and suppose the
/// run ends with a failure about a migration. Then the marker of `database`
/// is below that migration's version: it is the version of the last migration
/// committed before it in this run, or what it was before the run. Neither the
/// failed migration's statement nor that of any later one has taken effect.
pub proof fn law_failed_migration_leaves_no_trace(
    catalog: Seq<MigrationView>,
    database: Seq<char>,
    before: Store,
    faults: Set<nat>,
)
    requires
        ordered(catalog),
        before.open is None,
        run(initial(catalog, database), before, faults, 0).0.phase is Aborted,
    ensures
        ({
            let (end, after) = run(initial(catalog, database), before, faults, 0);
            let since = recorded(before, database);
            let failed = catalog[end.next as int];
            &&& end.next < catalog.len()
            &&& failed.version > since
            &&& recorded(after, database) < failed.version
            &&& recorded(after, database) == if end.applied == 0 {
                since
            } else {
                catalog[end.next - 1].version as int
            }
            &&& forall|i: int|
                before.history.len() <= i < after.history.len() ==> (#[trigger] after.history[i]).version
                    < failed.version
            &&& match pending_action(end) {
                ActionView::Finish(Err(MigrationErrorView::StatementFailure { migration })) =>
                    migration == tag_of(failed),
                ActionView::Finish(
                    Err(MigrationErrorView::StorageUnavailable { during }),
                ) => during == Some(tag_of(failed)),
                _ => false,
            }
        }),
{
    let start = initial(catalog, database);
    lemma_run_keeps_coupling(catalog, database, before, start, before, faults, 0);
    lemma_split_exists(catalog, recorded(before, database));
}

/// Migrations take effect in ascending order of version, however they were
/// declared.
///
/// Let `declared` and `shuffled` hold the same migrations in any two orders,
/// and let `first` and `second` be the catalogs built from them. Then a run on
/// `second` goes exactly as the run on `first` does, whatever fails. The
/// statements that the run commits come after those that were there before,
/// and their versions strictly increase.
pub proof fn law_execution_order_is_ascending(
    declared: Seq<MigrationView>,
    shuffled: Seq<MigrationView>,
    first: Seq<MigrationView>,
    second: Seq<MigrationView>,
    database: Seq<char>,
    before: Store,
    faults: Set<nat>,
)
    requires
        declared.to_multiset() == shuffled.to_multiset(),
        ordered(first) && first.to_multiset() == declared.to_multiset(),
        ordered(second) && second.to_multiset() == shuffled.to_multiset(),
        before.open is None,
    ensures
        ({
            let (end, after) = run(initial(first, database), before, faults, 0);
            let old_len = before.history.len() as int;
            &&& run(initial(second, database), before, faults, 0) == (end, after)
            &&& old_len <= after.history.len()
            &&& after.history.take(old_len) == before.history
            &&& forall|i: int, j: int|
                #![trigger after.history[i], after.history[j]]
                old_len <= i < j < after.history.len() ==> after.history[i].version
                    < after.history[j].version
        }),
{
    lemma_ascending_unique(first, second);
    law_marker_follows_commits(first, database, before, faults);
    lemma_pending_is_ordered(first, recorded(before, database));
}

} // verus!
