//! The schema of the application database: the migrations that the desktop
//! application declares for its embedded store, and the catalog made of them.

use crate::catalog::{ascending, faulty_at, lemma_ascending_unique, well_declared, Catalog};
use crate::migration::{views, Direction, Migration, MigrationView};
use vstd::pervasive::unreached;
use vstd::prelude::*;

verus! {

/// The identifier under which the application database keeps its marker.
pub const DATABASE: &'static str = "sqlite:app.db";

/// The statement of migration 1, `create_servers_table`.
pub const CREATE_SERVERS_TABLE: &'static str = "CREATE TABLE IF NOT EXISTS servers (
                id INTEGER PRIMARY KEY AUTOINCREMENT,
                name TEXT NOT NULL,
                url TEXT NOT NULL UNIQUE,
                description TEXT,
                is_active BOOLEAN NOT NULL DEFAULT 1,
                created_at DATETIME DEFAULT CURRENT_TIMESTAMP,
                updated_at DATETIME DEFAULT CURRENT_TIMESTAMP
              );";

/// The statement of migration 2, `create_server_tokens_table`.
pub const CREATE_SERVER_TOKENS_TABLE: &'static str = "CREATE TABLE IF NOT EXISTS server_tokens (
                id INTEGER PRIMARY KEY AUTOINCREMENT,
                server_url TEXT NOT NULL,
                token_name TEXT NOT NULL,
                token_value TEXT NOT NULL,
                description TEXT,
                is_active BOOLEAN NOT NULL DEFAULT 1,
                created_at DATETIME DEFAULT CURRENT_TIMESTAMP,
                updated_at DATETIME DEFAULT CURRENT_TIMESTAMP,
                FOREIGN KEY (server_url) REFERENCES servers (url) ON DELETE CASCADE
              );";

/// The statement of migration 3, `create_users_table`.
pub const CREATE_USERS_TABLE: &'static str = "CREATE TABLE IF NOT EXISTS users (
                id INTEGER PRIMARY KEY AUTOINCREMENT,
                name TEXT NOT NULL,
                email TEXT NOT NULL UNIQUE,
                created_at DATETIME DEFAULT CURRENT_TIMESTAMP,
                updated_at DATETIME DEFAULT CURRENT_TIMESTAMP
              );";

/// The statement of migration 4, `create_settings_table`.
pub const CREATE_SETTINGS_TABLE: &'static str = "CREATE TABLE IF NOT EXISTS settings (
                key TEXT PRIMARY KEY,
                value TEXT NOT NULL,
                created_at DATETIME DEFAULT CURRENT_TIMESTAMP,
                updated_at DATETIME DEFAULT CURRENT_TIMESTAMP
              );";

/// The statement of migration 5, `create_link_entities_table`.
pub const CREATE_LINK_ENTITIES_TABLE: &'static str = "CREATE TABLE IF NOT EXISTS link_entities (
                id INTEGER PRIMARY KEY AUTOINCREMENT,
                name TEXT NOT NULL,
                description TEXT,
                affection_points INTEGER NOT NULL DEFAULT 0,
                color TEXT NOT NULL,
                icon TEXT NOT NULL,
                start_date TEXT,
                end_date TEXT,
                created_at DATETIME DEFAULT CURRENT_TIMESTAMP,
                updated_at DATETIME DEFAULT CURRENT_TIMESTAMP
            );";

/// The statement of migration 6, `create_link_tags_table`.
pub const CREATE_LINK_TAGS_TABLE: &'static str = "CREATE TABLE IF NOT EXISTS link_tags (
                id INTEGER PRIMARY KEY AUTOINCREMENT,
                name TEXT NOT NULL,
                color TEXT NOT NULL DEFAULT '#10b981',
                sort_order INTEGER NOT NULL DEFAULT 0,
                created_at DATETIME DEFAULT CURRENT_TIMESTAMP,
                updated_at DATETIME DEFAULT CURRENT_TIMESTAMP
              );";

/// The statement of migration 7, `create_link_tasks_table`.
pub const CREATE_LINK_TASKS_TABLE: &'static str = "CREATE TABLE IF NOT EXISTS link_tasks (
                id INTEGER PRIMARY KEY AUTOINCREMENT,
                title TEXT NOT NULL,
                description TEXT,
                completed BOOLEAN NOT NULL DEFAULT 0,
                priority INTEGER NOT NULL DEFAULT 2,
                due_date DATETIME,
                entity_id INTEGER NOT NULL,
                tag_id INTEGER,
                created_at DATETIME DEFAULT CURRENT_TIMESTAMP,
                updated_at DATETIME DEFAULT CURRENT_TIMESTAMP,
                FOREIGN KEY (entity_id) REFERENCES link_entities (id) ON DELETE CASCADE,
                FOREIGN KEY (tag_id) REFERENCES link_tags (id) ON DELETE SET NULL
              );";

/// The forward migration with the given version, description and statement.
pub open spec fn forward(version: i64, description: &str, statement: &str) -> MigrationView {
    MigrationView {
        version,
        description: description@,
        direction: Direction::Forward,
        statement: statement@,
    }
}

/// The migrations of the application database, as they are declared.
pub open spec fn declared() -> Seq<MigrationView> {
    seq![
        forward(1, "create_servers_table", CREATE_SERVERS_TABLE),
        forward(2, "create_server_tokens_table", CREATE_SERVER_TOKENS_TABLE),
        forward(3, "create_users_table", CREATE_USERS_TABLE),
        forward(4, "create_settings_table", CREATE_SETTINGS_TABLE),
        forward(5, "create_link_entities_table", CREATE_LINK_ENTITIES_TABLE),
        forward(6, "create_link_tags_table", CREATE_LINK_TAGS_TABLE),
        forward(7, "create_link_tasks_table", CREATE_LINK_TASKS_TABLE),
    ]
}

/// Builds one forward migration from its description and statement.
fn entry(version: i64, description: &str, statement: &str) -> (m: Migration)
    ensures
        m@ == forward(version, description, statement),
{
    Migration::new(version, description.to_owned(), statement.to_owned())
}

/// The migrations of the application database, in the order of their
/// declaration.
pub fn migrations() -> (list: Vec<Migration>)
    ensures
        views(list@) == declared(),
{
    let mut list: Vec<Migration> = Vec::new();
    list.push(entry(1, "create_servers_table", CREATE_SERVERS_TABLE));
    list.push(entry(2, "create_server_tokens_table", CREATE_SERVER_TOKENS_TABLE));
    list.push(entry(3, "create_users_table", CREATE_USERS_TABLE));
    list.push(entry(4, "create_settings_table", CREATE_SETTINGS_TABLE));
    list.push(entry(5, "create_link_entities_table", CREATE_LINK_ENTITIES_TABLE));
    list.push(entry(6, "create_link_tags_table", CREATE_LINK_TAGS_TABLE));
    list.push(entry(7, "create_link_tasks_table", CREATE_LINK_TASKS_TABLE));
    list
}

/// The declared migrations form a catalog as they stand: their versions are
/// positive and strictly increasing.
pub proof fn lemma_declared_is_ordered()
    ensures
        well_declared(declared()),
        ascending(declared()),
        forall|i: int| 0 <= i < declared().len() ==> (#[trigger] declared()[i]).version == i + 1,
{
    let s = declared();
    assert forall|i: int| 0 <= i < s.len() implies (#[trigger] s[i]).version == i + 1 by {}
    assert forall|i: int| 0 <= i < s.len() implies !#[trigger] faulty_at(s, i) by {}
}

/// The catalog of the application database.
pub fn catalog() -> (catalog: Catalog)
    ensures
        catalog@ == declared(),
{
    let list = migrations();
    proof {
        lemma_declared_is_ordered();
    }
    match Catalog::new(list) {
        Ok(catalog) => {
            proof {
                lemma_ascending_unique(catalog@, declared());
            }
            catalog
        },
        Err(_) => unreached(),
    }
}

} // verus!
