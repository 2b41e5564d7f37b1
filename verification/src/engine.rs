//! The migration engine as a machine that asks and is answered.
//!
//! The engine itself touches no database. It names the next thing to be done
//! to the database (an [`Action`]), the caller does it and reports how it went
//! (an [`Event`]), and the engine decides what follows. The state of the
//! engine fixes the action it is waiting for, so a run is a walk through
//! [`next_state`] from [`initial`] until the action is [`Action::Finish`].

use crate::catalog::{ordered, settled, Catalog};
use crate::error::{MigrationError, MigrationErrorView};
use crate::migration::{tag_of, MigrationView};
use vstd::prelude::*;

verus! {

/// What went wrong while a migration was being applied.
#[derive(Clone, Copy, Debug, PartialEq, Eq)]
pub enum Cause {
    /// A transaction could not be opened or committed, or the marker could not
    /// be written.
    Storage,
    /// The migration's statement failed.
    Statement,
}

/// Where a run stands. Each phase but the last three waits for the answer to
/// one action.
#[derive(Clone, Copy, Debug, PartialEq, Eq)]
pub enum Phase {
    /// Waiting for the marker storage to be created if absent.
    EnsuringStorage,
    /// Waiting for the marker to be read.
    ReadingMarker,
    /// Waiting for a transaction to be opened for the current migration.
    Opening,
    /// Waiting for the current migration's statement to be executed.
    Executing,
    /// Waiting for the marker to be set to the current migration's version.
    Recording,
    /// Waiting for the transaction to be committed.
    Committing,
    /// Waiting for the transaction to be rolled back after a failure.
    RollingBack(Cause),
    /// Finished: every pending migration is committed.
    Done,
    /// Finished: the marker storage could not be prepared or read.
    Unavailable,
    /// Finished: the current migration could not be applied.
    Aborted(Cause),
}

/// How the database answered the action that the engine asked for.
#[derive(Clone, Copy, Debug, PartialEq, Eq)]
pub enum Event {
    /// The action was carried out.
    Completed,
    /// The action could not be carried out.
    Failed,
    /// The marker was read: the version recorded for the database, or `None`
    /// where nothing is recorded yet.
    Marker(Option<i64>),
}

/// What the engine asks to be done to the database next.
#[derive(Debug, PartialEq, Eq)]
pub enum Action {
    /// Create the storage for the marker of `database` unless it exists.
    EnsureMarkerStorage { database: String },
    /// Read the marker of `database`; answer with [`Event::Marker`].
    ReadMarker { database: String },
    /// Open a transaction.
    Begin,
    /// Execute `statement`, which belongs to the migration `version`, inside
    /// the open transaction.
    Execute { version: i64, statement: String },
    /// Set the marker of `database` to `version` inside the open transaction.
    WriteMarker { database: String, version: i64 },
    /// Commit the open transaction.
    Commit,
    /// Roll the open transaction back.
    Rollback,
    /// Nothing more to do: the run ended with this result, the number of
    /// migrations applied or the failure that stopped it.
    Finish(Result<usize, MigrationError>),
}

/// The mathematical value of an [`Action`].
pub enum ActionView {
    EnsureMarkerStorage { database: Seq<char> },
    ReadMarker { database: Seq<char> },
    Begin,
    Execute { version: i64, statement: Seq<char> },
    WriteMarker { database: Seq<char>, version: i64 },
    Commit,
    Rollback,
    Finish(Result<nat, MigrationErrorView>),
}

impl View for Action {
    type V = ActionView;

    open spec fn view(&self) -> ActionView {
        match self {
            Action::EnsureMarkerStorage { database } => ActionView::EnsureMarkerStorage {
                database: database@,
            },
            Action::ReadMarker { database } => ActionView::ReadMarker { database: database@ },
            Action::Begin => ActionView::Begin,
            Action::Execute { version, statement } => ActionView::Execute {
                version: *version,
                statement: statement@,
            },
            Action::WriteMarker { database, version } => ActionView::WriteMarker {
                database: database@,
                version: *version,
            },
            Action::Commit => ActionView::Commit,
            Action::Rollback => ActionView::Rollback,
            Action::Finish(result) => ActionView::Finish(
                match result {
                    Ok(count) => Ok(*count as nat),
                    Err(error) => Err(error@),
                },
            ),
        }
    }
}

/// The mathematical value of an [`Engine`]: the catalog it applies, the
/// database it applies it to, the phase it is in, the position in the catalog
/// of the current migration, and the number committed so far in this run.
pub struct EngineView {
    pub catalog: Seq<MigrationView>,
    pub database: Seq<char>,
    pub phase: Phase,
    pub next: nat,
    pub applied: nat,
}

/// The state in which every run starts.
pub open spec fn initial(catalog: Seq<MigrationView>, database: Seq<char>) -> EngineView {
    EngineView { catalog, database, phase: Phase::EnsuringStorage, next: 0, applied: 0 }
}

/// The state `e` moved to `phase`, all else unchanged.
pub open spec fn moved(e: EngineView, phase: Phase) -> EngineView {
    EngineView { catalog: e.catalog, database: e.database, phase, next: e.next, applied: e.applied }
}

/// The state `e` turned to the migration at `position`, with `applied`
/// migrations committed: about to open a transaction if there is such a
/// migration, done if the catalog is exhausted.
pub open spec fn turned_to(e: EngineView, position: nat, applied: nat) -> EngineView {
    EngineView {
        catalog: e.catalog,
        database: e.database,
        phase: if position < e.catalog.len() {
            Phase::Opening
        } else {
            Phase::Done
        },
        next: position,
        applied,
    }
}

/// The version that a read of the marker stands for: an absent marker is
/// version 0, nothing applied.
pub open spec fn marker_version(found: Option<i64>) -> int {
    match found {
        Some(version) => version as int,
        None => 0,
    }
}

/// The run has ended in state `e`.
pub open spec fn finished(e: EngineView) -> bool {
    e.phase is Done || e.phase is Unavailable || e.phase is Aborted
}

/// The state that follows `e` when the action it was waiting for is answered
/// by `event`.
///
/// Only [`Event::Completed`] moves a run forward, and only [`Event::Marker`]
/// answers a read of the marker; any other answer counts as a failure of the
/// action. A failure before a transaction is open ends the run at once. A
/// failure inside a transaction asks for a rollback first and ends the run
/// when that is answered, whatever the answer. A finished run stays as it is.
pub open spec fn next_state(e: EngineView, event: Event) -> EngineView {
    match e.phase {
        Phase::EnsuringStorage => if event is Completed {
            moved(e, Phase::ReadingMarker)
        } else {
            moved(e, Phase::Unavailable)
        },
        Phase::ReadingMarker => match event {
            Event::Marker(found) => turned_to(e, settled(e.catalog, marker_version(found)), 0),
            _ => moved(e, Phase::Unavailable),
        },
        Phase::Opening => if event is Completed {
            moved(e, Phase::Executing)
        } else {
            moved(e, Phase::Aborted(Cause::Storage))
        },
        Phase::Executing => if event is Completed {
            moved(e, Phase::Recording)
        } else {
            moved(e, Phase::RollingBack(Cause::Statement))
        },
        Phase::Recording => if event is Completed {
            moved(e, Phase::Committing)
        } else {
            moved(e, Phase::RollingBack(Cause::Storage))
        },
        Phase::Committing => if event is Completed {
            turned_to(e, e.next + 1, e.applied + 1)
        } else {
            moved(e, Phase::RollingBack(Cause::Storage))
        },
        Phase::RollingBack(cause) => moved(e, Phase::Aborted(cause)),
        Phase::Done => e,
        Phase::Unavailable => e,
        Phase::Aborted(_) => e,
    }
}

/// The action that the engine in state `e` is waiting for. In a finished
/// state it is [`ActionView::Finish`] with the result of the run: the number
/// of migrations committed, or the failure, which names the migration that
/// was being applied where there was one.
pub open spec fn pending_action(e: EngineView) -> ActionView {
    match e.phase {
        Phase::EnsuringStorage => ActionView::EnsureMarkerStorage { database: e.database },
        Phase::ReadingMarker => ActionView::ReadMarker { database: e.database },
        Phase::Opening => ActionView::Begin,
        Phase::Executing => ActionView::Execute {
            version: e.catalog[e.next as int].version,
            statement: e.catalog[e.next as int].statement,
        },
        Phase::Recording => ActionView::WriteMarker {
            database: e.database,
            version: e.catalog[e.next as int].version,
        },
        Phase::Committing => ActionView::Commit,
        Phase::RollingBack(_) => ActionView::Rollback,
        Phase::Done => ActionView::Finish(Ok(e.applied)),
        Phase::Unavailable => ActionView::Finish(
            Err(MigrationErrorView::StorageUnavailable { during: None }),
        ),
        Phase::Aborted(Cause::Storage) => ActionView::Finish(
            Err(
                MigrationErrorView::StorageUnavailable {
                    during: Some(tag_of(e.catalog[e.next as int])),
                },
            ),
        ),
        Phase::Aborted(Cause::Statement) => ActionView::Finish(
            Err(
                MigrationErrorView::StatementFailure {
                    migration: tag_of(e.catalog[e.next as int]),
                },
            ),
        ),
    }
}

/// The phase `phase` is about one migration in particular.
pub open spec fn on_migration(phase: Phase) -> bool {
    !(phase is EnsuringStorage || phase is ReadingMarker || phase is Done || phase is Unavailable)
}

/// One run of the migrations of a catalog against one database.
#[derive(Debug)]
pub struct Engine {
    catalog: Catalog,
    database: String,
    phase: Phase,
    next: usize,
    applied: usize,
}

impl View for Engine {
    type V = EngineView;

    closed spec fn view(&self) -> EngineView {
        EngineView {
            catalog: self.catalog@,
            database: self.database@,
            phase: self.phase,
            next: self.next as nat,
            applied: self.applied as nat,
        }
    }
}

impl Engine {
    #[verifier::type_invariant]
    spec fn well_formed(self) -> bool {
        &&& self.applied <= self.next <= self.catalog@.len()
        &&& on_migration(self.phase) ==> self.next < self.catalog@.len()
    }

    /// Starts a run of `catalog` against the database known as `database`.
    /// Returns the engine and the first action to perform.
    pub fn start(catalog: Catalog, database: String) -> (r: (Engine, Action))
        ensures
            r.0@ == initial(catalog@, database@),
            r.1@ == pending_action(r.0@),
            ordered(catalog@),
    {
        // Reading the length brings the ordering of the catalog into scope.
        let _ = catalog.len();
        let engine = Engine {
            catalog,
            database,
            phase: Phase::EnsuringStorage,
            next: 0,
            applied: 0,
        };
        let action = engine.request();
        (engine, action)
    }

    /// Takes the answer to the action last asked for and returns the engine
    /// in its next state with the action to perform next. Once that action is
    /// [`Action::Finish`] the run is over and every further step returns the
    /// same.
    pub fn step(self, event: Event) -> (r: (Engine, Action))
        ensures
            r.0@ == next_state(self@, event),
            r.1@ == pending_action(r.0@),
    {
        proof {
            use_type_invariant(&self);
        }
        let completed = match event {
            Event::Completed => true,
            _ => false,
        };
        let total = self.catalog.len();
        let mut phase = self.phase;
        let mut next = self.next;
        let mut applied = self.applied;
        match self.phase {
            Phase::EnsuringStorage => {
                phase = if completed {
                    Phase::ReadingMarker
                } else {
                    Phase::Unavailable
                };
            },
            Phase::ReadingMarker => {
                match event {
                    Event::Marker(found) => {
                        let since: i64 = match found {
                            Some(version) => version,
                            None => 0,
                        };
                        next = self.catalog.settled(since);
                        applied = 0;
                        phase = if next < total {
                            Phase::Opening
                        } else {
                            Phase::Done
                        };
                    },
                    _ => {
                        phase = Phase::Unavailable;
                    },
                }
            },
            Phase::Opening => {
                phase = if completed {
                    Phase::Executing
                } else {
                    Phase::Aborted(Cause::Storage)
                };
            },
            Phase::Executing => {
                phase = if completed {
                    Phase::Recording
                } else {
                    Phase::RollingBack(Cause::Statement)
                };
            },
            Phase::Recording => {
                phase = if completed {
                    Phase::Committing
                } else {
                    Phase::RollingBack(Cause::Storage)
                };
            },
            Phase::Committing => {
                if completed {
                    next = next + 1;
                    applied = applied + 1;
                    phase = if next < total {
                        Phase::Opening
                    } else {
                        Phase::Done
                    };
                } else {
                    phase = Phase::RollingBack(Cause::Storage);
                }
            },
            Phase::RollingBack(cause) => {
                phase = Phase::Aborted(cause);
            },
            Phase::Done => {},
            Phase::Unavailable => {},
            Phase::Aborted(_) => {},
        }
        let engine = Engine { catalog: self.catalog, database: self.database, phase, next, applied };
        let action = engine.request();
        (engine, action)
    }

    /// The action that this engine is waiting for.
    pub fn request(&self) -> (action: Action)
        ensures
            action@ == pending_action(self@),
    {
        proof {
            use_type_invariant(self);
        }
        match self.phase {
            Phase::EnsuringStorage => Action::EnsureMarkerStorage {
                database: self.database.clone(),
            },
            Phase::ReadingMarker => Action::ReadMarker { database: self.database.clone() },
            Phase::Opening => Action::Begin,
            Phase::Executing => {
                let current = self.catalog.at(self.next);
                Action::Execute { version: current.version, statement: current.statement.clone() }
            },
            Phase::Recording => Action::WriteMarker {
                database: self.database.clone(),
                version: self.catalog.at(self.next).version,
            },
            Phase::Committing => Action::Commit,
            Phase::RollingBack(_) => Action::Rollback,
            Phase::Done => Action::Finish(Ok(self.applied)),
            Phase::Unavailable => Action::Finish(
                Err(MigrationError::StorageUnavailable { during: None }),
            ),
            Phase::Aborted(Cause::Storage) => Action::Finish(
                Err(
                    MigrationError::StorageUnavailable {
                        during: Some(self.catalog.at(self.next).tag()),
                    },
                ),
            ),
            Phase::Aborted(Cause::Statement) => Action::Finish(
                Err(
                    MigrationError::StatementFailure {
                        migration: self.catalog.at(self.next).tag(),
                    },
                ),
            ),
        }
    }
}

} // verus!
