//! A mathematical model of the database that the engine works on, and of a
//! whole run of the engine against it.
//!
//! The model has what the engine relies on and nothing else: statements that
//! are executed, one marker per database identifier, and transactions that
//! either commit everything done in them or nothing. Nothing here is
//! executable; it is what the laws of this crate are stated over.

use crate::engine::{finished, next_state, pending_action, ActionView, EngineView, Event, Phase};
use crate::migration::MigrationView;
use vstd::prelude::*;

verus! {

/// A statement that was executed, with the version of its migration.
pub struct Executed {
    pub version: i64,
    pub statement: Seq<char>,
}

/// What has been done inside an open transaction and is not yet committed.
pub struct Transaction {
    pub statements: Seq<Executed>,
    pub markers: Map<Seq<char>, i64>,
}

/// The state of a database: whether the marker storage exists, the committed
/// marker of each database identifier, the committed statements in the order
/// in which they took effect, and the open transaction if there is one.
pub struct Store {
    pub storage: bool,
    pub markers: Map<Seq<char>, i64>,
    pub history: Seq<Executed>,
    pub open: Option<Transaction>,
}

/// The statements of the migrations in `s`, in order.
pub open spec fn statements_of(s: Seq<MigrationView>) -> Seq<Executed> {
    s.map_values(|m: MigrationView| Executed { version: m.version, statement: m.statement })
}

/// What a read of the marker of `database` finds in `store`.
pub open spec fn found(store: Store, database: Seq<char>) -> Option<i64> {
    if store.markers.contains_key(database) {
        Some(store.markers[database])
    } else {
        None
    }
}

/// The committed version of `database` in `store`: its marker, or 0 where
/// none is recorded.
pub open spec fn recorded(store: Store, database: Seq<char>) -> int {
    match found(store, database) {
        Some(version) => version as int,
        None => 0,
    }
}

/// A transaction in which nothing has been done.
pub open spec fn fresh() -> Transaction {
    Transaction { statements: Seq::empty(), markers: Map::empty() }
}

/// The store after `action` succeeded on `store`.
///
/// Inside a transaction, statements and marker writes are kept apart from the
/// committed state until the commit, which makes all of them take effect at
/// once; a rollback drops them. Outside a transaction they take effect
/// immediately.
pub open spec fn effect(store: Store, action: ActionView) -> Store {
    match action {
        ActionView::EnsureMarkerStorage { database } => Store {
            storage: true,
            markers: store.markers,
            history: store.history,
            open: store.open,
        },
        ActionView::ReadMarker { database } => store,
        ActionView::Begin => Store {
            storage: store.storage,
            markers: store.markers,
            history: store.history,
            open: Some(fresh()),
        },
        ActionView::Execute { version, statement } => {
            let done = Executed { version, statement };
            match store.open {
                Some(tx) => Store {
                    storage: store.storage,
                    markers: store.markers,
                    history: store.history,
                    open: Some(
                        Transaction { statements: tx.statements.push(done), markers: tx.markers },
                    ),
                },
                None => Store {
                    storage: store.storage,
                    markers: store.markers,
                    history: store.history.push(done),
                    open: None,
                },
            }
        },
        ActionView::WriteMarker { database, version } => match store.open {
            Some(tx) => Store {
                storage: store.storage,
                markers: store.markers,
                history: store.history,
                open: Some(
                    Transaction {
                        statements: tx.statements,
                        markers: tx.markers.insert(database, version),
                    },
                ),
            },
            None => Store {
                storage: store.storage,
                markers: store.markers.insert(database, version),
                history: store.history,
                open: None,
            },
        },
        ActionView::Commit => match store.open {
            Some(tx) => Store {
                storage: store.storage,
                markers: store.markers.union_prefer_right(tx.markers),
                history: store.history + tx.statements,
                open: None,
            },
            None => store,
        },
        ActionView::Rollback => Store {
            storage: store.storage,
            markers: store.markers,
            history: store.history,
            open: None,
        },
        ActionView::Finish(_) => store,
    }
}

/// The answer that a successful `action` on `store` gives.
pub open spec fn answer(store: Store, action: ActionView) -> Event {
    match action {
        ActionView::ReadMarker { database } => Event::Marker(found(store, database)),
        _ => Event::Completed,
    }
}

/// Performs `action` on `store`. Where `works` holds the action takes effect
/// and is answered; where it does not, nothing changes and the answer is
/// [`Event::Failed`].
pub open spec fn perform(store: Store, action: ActionView, works: bool) -> (Store, Event) {
    if works {
        (effect(store, action), answer(store, action))
    } else {
        (store, Event::Failed)
    }
}

/// An upper bound on the number of actions that a run in state `e` still
/// asks for before it finishes.
pub open spec fn steps_left(e: EngineView) -> nat {
    let ahead: nat = if e.next <= e.catalog.len() {
        (e.catalog.len() - e.next) as nat
    } else {
        0
    };
    match e.phase {
        Phase::EnsuringStorage => 6 * e.catalog.len() + 8,
        Phase::ReadingMarker => 6 * e.catalog.len() + 7,
        Phase::Opening => 6 * ahead + 6,
        Phase::Executing => 6 * ahead + 5,
        Phase::Recording => 6 * ahead + 4,
        Phase::Committing => 6 * ahead + 3,
        Phase::RollingBack(_) => 1,
        Phase::Done => 0,
        Phase::Unavailable => 0,
        Phase::Aborted(_) => 0,
    }
}

/// Runs the engine from state `e` against `store` until it finishes: each
/// action that the engine asks for is performed, and the answer handed back.
/// Actions are counted from `clock`, and the action with number `t` fails
/// exactly if `faults` contains `t`. Returns the final state of the engine and
/// of the store.
pub open spec fn run(e: EngineView, store: Store, faults: Set<nat>, clock: nat) -> (
    EngineView,
    Store,
)
    decreases steps_left(e),
{
    if finished(e) {
        (e, store)
    } else {
        let (after, event) = perform(store, pending_action(e), !faults.contains(clock));
        run(next_state(e, event), after, faults, clock + 1)
    }
}

/// The state of engine and store after at most `steps` actions of the run
/// from `e` against `store`: where the run stands at that moment, or where it
/// ended if it ended before.
pub open spec fn run_for(
    e: EngineView,
    store: Store,
    faults: Set<nat>,
    clock: nat,
    steps: nat,
) -> (EngineView, Store)
    decreases steps,
{
    if steps == 0 || finished(e) {
        (e, store)
    } else {
        let (after, event) = perform(store, pending_action(e), !faults.contains(clock));
        run_for(next_state(e, event), after, faults, clock + 1, (steps - 1) as nat)
    }
}

} // verus!
