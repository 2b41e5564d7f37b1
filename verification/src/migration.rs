//! The migration record: one versioned, forward-only schema change.

use crate::error::{MigrationTag, MigrationTagView};
use vstd::prelude::*;

verus! {

/// The direction a migration moves the schema in. This crate declares and
/// applies forward migrations only.
#[derive(Clone, Copy, Debug, PartialEq, Eq, Structural)]
pub enum Direction {
    Forward,
}

/// A single schema change. The `version` fixes its place in the order of
/// application; `description` is for diagnostics only; `statement` is handed
/// to the database as it stands.
#[derive(Clone, Debug, PartialEq, Eq)]
pub struct Migration {
    pub version: i64,
    pub description: String,
    pub direction: Direction,
    pub statement: String,
}

/// The mathematical value of a [`Migration`].
pub struct MigrationView {
    pub version: i64,
    pub description: Seq<char>,
    pub direction: Direction,
    pub statement: Seq<char>,
}

impl View for Migration {
    type V = MigrationView;

    open spec fn view(&self) -> MigrationView {
        MigrationView {
            version: self.version,
            description: self.description@,
            direction: self.direction,
            statement: self.statement@,
        }
    }
}

impl Migration {
    /// A forward migration with the given version, description and statement.
    pub fn new(version: i64, description: String, statement: String) -> (m: Migration)
        ensures
            m@ == (MigrationView {
                version,
                description: description@,
                direction: Direction::Forward,
                statement: statement@,
            }),
    {
        Migration { version, description, direction: Direction::Forward, statement }
    }

    /// The version and description of this migration, for diagnostics.
    pub fn tag(&self) -> (t: MigrationTag)
        ensures
            t@ == tag_of(self@),
    {
        MigrationTag { version: self.version, description: self.description.clone() }
    }
}

/// The tag that names the migration `m`.
pub open spec fn tag_of(m: MigrationView) -> MigrationTagView {
    MigrationTagView { version: m.version, description: m.description }
}

/// The mathematical values of a sequence of migrations, entry by entry.
pub open spec fn views(s: Seq<Migration>) -> Seq<MigrationView> {
    s.map_values(|m: Migration| m@)
}

} // verus!
