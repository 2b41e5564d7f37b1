//! The single failure type that every operation of this crate reports.

use vstd::prelude::*;

verus! {

/// Names the migration a failure is about: its version and its description.
#[derive(Clone, Debug, PartialEq, Eq)]
pub struct MigrationTag {
    pub version: i64,
    pub description: String,
}

/// The mathematical value of a [`MigrationTag`].
pub struct MigrationTagView {
    pub version: i64,
    pub description: Seq<char>,
}

impl View for MigrationTag {
    type V = MigrationTagView;

    open spec fn view(&self) -> MigrationTagView {
        MigrationTagView { version: self.version, description: self.description@ }
    }
}

/// Why a catalog could not be built or a database could not be brought up to
/// date. Every variant is fatal to the call that returned it.
#[derive(Clone, Debug, PartialEq, Eq)]
pub enum MigrationError {
    /// The declared migrations do not form a catalog: `migration` is the first
    /// entry whose version is not positive or repeats an earlier entry's.
    DefinitionError { migration: MigrationTag },
    /// The bookkeeping of applied versions could not be prepared, read or
    /// written, or a transaction could not be opened or committed.
    /// `during` is the migration being applied at that moment, if any.
    StorageUnavailable { during: Option<MigrationTag> },
    /// The statement of `migration` failed to execute.
    StatementFailure { migration: MigrationTag },
}

/// The mathematical value of a [`MigrationError`].
pub enum MigrationErrorView {
    DefinitionError { migration: MigrationTagView },
    StorageUnavailable { during: Option<MigrationTagView> },
    StatementFailure { migration: MigrationTagView },
}

impl View for MigrationError {
    type V = MigrationErrorView;

    open spec fn view(&self) -> MigrationErrorView {
        match self {
            MigrationError::DefinitionError { migration } => MigrationErrorView::DefinitionError {
                migration: migration@,
            },
            MigrationError::StorageUnavailable { during } => {
                MigrationErrorView::StorageUnavailable {
                    during: match during {
                        Some(tag) => Some(tag@),
                        None => None,
                    },
                }
            },
            MigrationError::StatementFailure { migration } => MigrationErrorView::StatementFailure {
                migration: migration@,
            },
        }
    }
}

} // verus!
