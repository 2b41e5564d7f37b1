use migration_engine::engine::{Action, Engine, Event};
use migration_engine::migration::{Direction, Migration};
use migration_engine::schema;

#[test]
fn database_is_the_application_database() {
    assert_eq!(schema::DATABASE, "sqlite:app.db");
}

#[test]
fn migrations_are_declared_with_versions_one_to_seven() {
    let list = schema::migrations();
    let versions: Vec<i64> = list.iter().map(|m| m.version).collect();
    assert_eq!(versions, vec![1, 2, 3, 4, 5, 6, 7]);
    assert!(list.iter().all(|m| m.direction == Direction::Forward));
}

#[test]
fn migrations_carry_their_descriptions() {
    let list = schema::migrations();
    let descriptions: Vec<&str> = list.iter().map(|m| m.description.as_str()).collect();
    assert_eq!(
        descriptions,
        vec![
            "create_servers_table",
            "create_server_tokens_table",
            "create_users_table",
            "create_settings_table",
            "create_link_entities_table",
            "create_link_tags_table",
            "create_link_tasks_table",
        ]
    );
}

#[test]
fn migrations_create_their_tables_only_if_absent() {
    let tables = [
        "servers",
        "server_tokens",
        "users",
        "settings",
        "link_entities",
        "link_tags",
        "link_tasks",
    ];
    let list = schema::migrations();
    assert_eq!(list.len(), tables.len());
    for (m, table) in list.iter().zip(tables.iter()) {
        assert!(m.statement.starts_with(&format!("CREATE TABLE IF NOT EXISTS {} (", table)));
        assert!(m.statement.ends_with(");"));
    }
}

#[test]
fn migrations_hold_the_statements_verbatim() {
    let list = schema::migrations();
    assert_eq!(list[0].statement, schema::CREATE_SERVERS_TABLE);
    assert_eq!(list[1].statement, schema::CREATE_SERVER_TOKENS_TABLE);
    assert_eq!(list[2].statement, schema::CREATE_USERS_TABLE);
    assert_eq!(list[3].statement, schema::CREATE_SETTINGS_TABLE);
    assert_eq!(list[4].statement, schema::CREATE_LINK_ENTITIES_TABLE);
    assert_eq!(list[5].statement, schema::CREATE_LINK_TAGS_TABLE);
    assert_eq!(list[6].statement, schema::CREATE_LINK_TASKS_TABLE);
    assert_eq!(
        schema::CREATE_SETTINGS_TABLE,
        "CREATE TABLE IF NOT EXISTS settings (\n                key TEXT PRIMARY KEY,\n                value TEXT NOT NULL,\n                created_at DATETIME DEFAULT CURRENT_TIMESTAMP,\n                updated_at DATETIME DEFAULT CURRENT_TIMESTAMP\n              );"
    );
    assert_eq!(schema::CREATE_SERVERS_TABLE.len(), 398);
    assert_eq!(schema::CREATE_SERVER_TOKENS_TABLE.len(), 538);
    assert_eq!(schema::CREATE_USERS_TABLE.len(), 310);
    assert_eq!(schema::CREATE_SETTINGS_TABLE.len(), 254);
    assert_eq!(schema::CREATE_LINK_ENTITIES_TABLE.len(), 504);
    assert_eq!(schema::CREATE_LINK_TAGS_TABLE.len(), 380);
    assert_eq!(schema::CREATE_LINK_TASKS_TABLE.len(), 696);
}

#[test]
fn catalog_holds_the_declared_migrations_in_order() {
    let catalog = schema::catalog();
    assert_eq!(catalog.len(), 7);
    let all: Vec<Migration> = catalog.pending(0).to_vec();
    assert_eq!(all, schema::migrations());
    let late: Vec<i64> = catalog.pending(4).iter().map(|m| m.version).collect();
    assert_eq!(late, vec![5, 6, 7]);
}

#[test]
fn catalog_is_applied_from_the_first_migration_on_a_fresh_database() {
    let (mut engine, mut action) = Engine::start(schema::catalog(), schema::DATABASE.to_string());
    let mut executed: Vec<i64> = Vec::new();
    let mut written: Vec<i64> = Vec::new();
    let mut result = None;
    for _ in 0..100 {
        let event = match action {
            Action::ReadMarker { database } => {
                assert_eq!(database, "sqlite:app.db");
                Event::Marker(None)
            }
            Action::Execute { version, statement } => {
                assert_eq!(statement, schema::migrations()[executed.len()].statement);
                executed.push(version);
                Event::Completed
            }
            Action::WriteMarker { database, version } => {
                assert_eq!(database, "sqlite:app.db");
                written.push(version);
                Event::Completed
            }
            Action::Finish(outcome) => {
                result = Some(outcome);
                break;
            }
            _ => Event::Completed,
        };
        let (next_engine, next_action) = engine.step(event);
        engine = next_engine;
        action = next_action;
    }
    assert_eq!(result, Some(Ok(7)));
    assert_eq!(executed, vec![1, 2, 3, 4, 5, 6, 7]);
    assert_eq!(written, vec![1, 2, 3, 4, 5, 6, 7]);
}
