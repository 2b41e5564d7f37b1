use migration_engine::catalog::Catalog;
use migration_engine::engine::{Action, Engine, Event};
use migration_engine::error::{MigrationError, MigrationTag};
use migration_engine::migration::Migration;

/// An in-memory database with transactions, which fails the actions it is
/// told to fail and keeps a log of every action it was asked for.
struct Database {
    storage: bool,
    markers: Vec<(String, i64)>,
    executed: Vec<i64>,
    open: Option<(Vec<i64>, Vec<(String, i64)>)>,
    log: Vec<Action>,
    fail: Vec<Action>,
}

impl Database {
    fn new() -> Database {
        Database {
            storage: false,
            markers: Vec::new(),
            executed: Vec::new(),
            open: None,
            log: Vec::new(),
            fail: Vec::new(),
        }
    }

    fn with_marker(database: &str, version: i64) -> Database {
        let mut db = Database::new();
        db.storage = true;
        db.markers.push((database.to_string(), version));
        db
    }

    fn failing(mut self, action: Action) -> Database {
        self.fail.push(action);
        self
    }

    fn marker(&self, database: &str) -> Option<i64> {
        self.markers.iter().find(|(name, _)| name == database).map(|(_, version)| *version)
    }

    fn set_marker(markers: &mut Vec<(String, i64)>, database: &str, version: i64) {
        markers.retain(|(name, _)| name != database);
        markers.push((database.to_string(), version));
    }

    fn perform(&mut self, action: Action) -> Event {
        let fails = self.fail.contains(&action);
        let event = if fails {
            Event::Failed
        } else {
            match &action {
                Action::EnsureMarkerStorage { .. } => {
                    self.storage = true;
                    Event::Completed
                }
                Action::ReadMarker { database } => Event::Marker(self.marker(database)),
                Action::Begin => {
                    self.open = Some((Vec::new(), Vec::new()));
                    Event::Completed
                }
                Action::Execute { version, .. } => {
                    match &mut self.open {
                        Some((statements, _)) => statements.push(*version),
                        None => self.executed.push(*version),
                    }
                    Event::Completed
                }
                Action::WriteMarker { database, version } => {
                    match &mut self.open {
                        Some((_, markers)) => markers.push((database.clone(), *version)),
                        None => Database::set_marker(&mut self.markers, database, *version),
                    }
                    Event::Completed
                }
                Action::Commit => {
                    if let Some((statements, markers)) = self.open.take() {
                        self.executed.extend(statements);
                        for (database, version) in markers {
                            Database::set_marker(&mut self.markers, &database, version);
                        }
                    }
                    Event::Completed
                }
                Action::Rollback => {
                    self.open = None;
                    Event::Completed
                }
                Action::Finish(_) => Event::Completed,
            }
        };
        self.log.push(action);
        event
    }
}

fn apply(db: &mut Database, catalog: Catalog, database: &str) -> Result<usize, MigrationError> {
    let (mut engine, mut action) = Engine::start(catalog, database.to_string());
    for _ in 0..10_000 {
        if let Action::Finish(result) = action {
            return result;
        }
        let event = db.perform(action);
        let (next_engine, next_action) = engine.step(event);
        engine = next_engine;
        action = next_action;
    }
    panic!("the run did not end");
}

fn migration(version: i64, description: &str) -> Migration {
    Migration::new(version, description.to_string(), format!("CREATE TABLE {} (id INTEGER);", description))
}

fn two() -> Catalog {
    Catalog::new(vec![migration(1, "create_servers"), migration(2, "create_tokens")]).unwrap()
}

fn three() -> Catalog {
    Catalog::new(vec![
        migration(1, "create_servers"),
        migration(2, "create_tokens"),
        migration(3, "create_settings"),
    ])
    .unwrap()
}

fn tag(version: i64, description: &str) -> MigrationTag {
    MigrationTag { version, description: description.to_string() }
}

fn execute(version: i64, description: &str) -> Action {
    Action::Execute { version, statement: format!("CREATE TABLE {} (id INTEGER);", description) }
}

fn write_marker(version: i64) -> Action {
    Action::WriteMarker { database: "app".to_string(), version }
}

#[test]
fn apply_on_a_fresh_database_applies_both_migrations() {
    let mut db = Database::new();
    assert_eq!(apply(&mut db, two(), "app"), Ok(2));
    assert_eq!(db.marker("app"), Some(2));
    assert_eq!(db.executed, vec![1, 2]);
    assert!(db.storage);
    assert!(db.open.is_none());
}

#[test]
fn apply_on_an_up_to_date_database_applies_nothing() {
    let mut db = Database::with_marker("app", 2);
    assert_eq!(apply(&mut db, two(), "app"), Ok(0));
    assert_eq!(db.marker("app"), Some(2));
    assert!(db.executed.is_empty());
    assert_eq!(
        db.log,
        vec![
            Action::EnsureMarkerStorage { database: "app".to_string() },
            Action::ReadMarker { database: "app".to_string() },
        ]
    );
}

#[test]
fn apply_on_an_extended_catalog_applies_only_the_new_migration() {
    let mut db = Database::with_marker("app", 2);
    assert_eq!(apply(&mut db, three(), "app"), Ok(1));
    assert_eq!(db.marker("app"), Some(3));
    assert_eq!(db.executed, vec![3]);
}

#[test]
fn apply_asks_for_the_whole_protocol_in_order() {
    let mut db = Database::new();
    assert_eq!(apply(&mut db, two(), "app"), Ok(2));
    assert_eq!(
        db.log,
        vec![
            Action::EnsureMarkerStorage { database: "app".to_string() },
            Action::ReadMarker { database: "app".to_string() },
            Action::Begin,
            execute(1, "create_servers"),
            write_marker(1),
            Action::Commit,
            Action::Begin,
            execute(2, "create_tokens"),
            write_marker(2),
            Action::Commit,
        ]
    );
}

#[test]
fn apply_leaves_the_marker_at_the_greatest_version_above_it() {
    let catalog = Catalog::new(vec![
        migration(40, "d"),
        migration(10, "a"),
        migration(30, "c"),
        migration(20, "b"),
    ])
    .unwrap();
    let mut db = Database::with_marker("app", 20);
    assert_eq!(apply(&mut db, catalog, "app"), Ok(2));
    assert_eq!(db.marker("app"), Some(40));
    assert_eq!(db.executed, vec![30, 40]);
}

#[test]
fn apply_leaves_the_marker_alone_when_nothing_is_above_it() {
    let mut db = Database::with_marker("app", 99);
    assert_eq!(apply(&mut db, three(), "app"), Ok(0));
    assert_eq!(db.marker("app"), Some(99));
    let mut db = Database::new();
    assert_eq!(apply(&mut db, Catalog::new(Vec::new()).unwrap(), "app"), Ok(0));
    assert_eq!(db.marker("app"), None);
}

#[test]
fn apply_twice_applies_nothing_the_second_time() {
    let mut db = Database::new();
    assert_eq!(apply(&mut db, three(), "app"), Ok(3));
    let executed = db.executed.clone();
    let markers = db.markers.clone();
    assert_eq!(apply(&mut db, three(), "app"), Ok(0));
    assert_eq!(db.executed, executed);
    assert_eq!(db.markers, markers);
    assert_eq!(db.marker("app"), Some(3));
}

#[test]
fn apply_executes_in_ascending_order_whatever_the_declaration_order() {
    let orders: [[i64; 3]; 6] =
        [[1, 2, 3], [1, 3, 2], [2, 1, 3], [2, 3, 1], [3, 1, 2], [3, 2, 1]];
    for order in orders.iter() {
        let declared: Vec<Migration> = order.iter().map(|v| migration(*v, "m")).collect();
        let mut db = Database::new();
        assert_eq!(apply(&mut db, Catalog::new(declared).unwrap(), "app"), Ok(3));
        assert_eq!(db.executed, vec![1, 2, 3]);
        assert_eq!(db.marker("app"), Some(3));
    }
}

#[test]
fn a_failing_statement_leaves_the_marker_at_the_last_commit() {
    let mut db = Database::new().failing(execute(2, "create_tokens"));
    assert_eq!(
        apply(&mut db, three(), "app"),
        Err(MigrationError::StatementFailure { migration: tag(2, "create_tokens") })
    );
    assert_eq!(db.marker("app"), Some(1));
    assert_eq!(db.executed, vec![1]);
    assert!(db.open.is_none());
    assert_eq!(db.log.last(), Some(&Action::Rollback));
    assert!(!db.log.contains(&execute(3, "create_settings")));
}

#[test]
fn a_failing_first_statement_leaves_the_marker_absent() {
    let mut db = Database::new().failing(execute(1, "create_servers"));
    assert_eq!(
        apply(&mut db, two(), "app"),
        Err(MigrationError::StatementFailure { migration: tag(1, "create_servers") })
    );
    assert_eq!(db.marker("app"), None);
    assert!(db.executed.is_empty());
}

#[test]
fn a_corrected_catalog_resumes_after_the_last_commit() {
    let mut db = Database::new().failing(execute(2, "create_tokens"));
    assert!(apply(&mut db, three(), "app").is_err());
    db.fail.clear();
    db.log.clear();
    assert_eq!(apply(&mut db, three(), "app"), Ok(2));
    assert_eq!(db.executed, vec![1, 2, 3]);
    assert_eq!(db.marker("app"), Some(3));
    assert!(!db.log.contains(&execute(1, "create_servers")));
}

#[test]
fn a_failing_marker_write_rolls_the_statement_back() {
    let mut db = Database::new().failing(write_marker(2));
    assert_eq!(
        apply(&mut db, three(), "app"),
        Err(MigrationError::StorageUnavailable { during: Some(tag(2, "create_tokens")) })
    );
    assert_eq!(db.marker("app"), Some(1));
    assert_eq!(db.executed, vec![1]);
    assert_eq!(db.log.last(), Some(&Action::Rollback));
}

#[test]
fn a_failing_commit_rolls_the_migration_back() {
    let mut db = Database::new().failing(Action::Commit);
    assert_eq!(
        apply(&mut db, two(), "app"),
        Err(MigrationError::StorageUnavailable { during: Some(tag(1, "create_servers")) })
    );
    assert_eq!(db.marker("app"), None);
    assert!(db.executed.is_empty());
    assert_eq!(db.log.last(), Some(&Action::Rollback));
    assert!(db.open.is_none());
}

#[test]
fn a_failing_begin_ends_the_run_without_a_rollback() {
    let mut db = Database::new().failing(Action::Begin);
    assert_eq!(
        apply(&mut db, two(), "app"),
        Err(MigrationError::StorageUnavailable { during: Some(tag(1, "create_servers")) })
    );
    assert_eq!(db.log.last(), Some(&Action::Begin));
    assert_eq!(db.marker("app"), None);
}

#[test]
fn a_failing_rollback_still_reports_the_first_failure() {
    let mut db = Database::new().failing(execute(1, "create_servers")).failing(Action::Rollback);
    assert_eq!(
        apply(&mut db, two(), "app"),
        Err(MigrationError::StatementFailure { migration: tag(1, "create_servers") })
    );
    assert_eq!(db.marker("app"), None);
    assert!(db.executed.is_empty());
}

#[test]
fn unavailable_marker_storage_ends_the_run_at_once() {
    let mut db =
        Database::new().failing(Action::EnsureMarkerStorage { database: "app".to_string() });
    assert_eq!(
        apply(&mut db, two(), "app"),
        Err(MigrationError::StorageUnavailable { during: None })
    );
    assert_eq!(db.log.len(), 1);
    assert!(db.executed.is_empty());
}

#[test]
fn an_unreadable_marker_ends_the_run_before_any_migration() {
    let mut db = Database::new().failing(Action::ReadMarker { database: "app".to_string() });
    assert_eq!(
        apply(&mut db, two(), "app"),
        Err(MigrationError::StorageUnavailable { during: None })
    );
    assert_eq!(db.log.len(), 2);
    assert!(db.executed.is_empty());
}

#[test]
fn markers_of_different_databases_are_independent() {
    let mut db = Database::new();
    assert_eq!(apply(&mut db, two(), "first"), Ok(2));
    assert_eq!(db.marker("first"), Some(2));
    assert_eq!(db.marker("second"), None);
    assert_eq!(apply(&mut db, three(), "second"), Ok(3));
    assert_eq!(db.marker("first"), Some(2));
    assert_eq!(db.marker("second"), Some(3));
    assert_eq!(db.executed, vec![1, 2, 1, 2, 3]);
}

#[test]
fn start_asks_for_the_marker_storage_first() {
    let (engine, action) = Engine::start(two(), "app".to_string());
    assert_eq!(action, Action::EnsureMarkerStorage { database: "app".to_string() });
    assert_eq!(engine.request(), Action::EnsureMarkerStorage { database: "app".to_string() });
}

#[test]
fn step_follows_the_protocol_for_one_migration() {
    let catalog = Catalog::new(vec![migration(7, "create_servers")]).unwrap();
    let (engine, _) = Engine::start(catalog, "app".to_string());
    let (engine, action) = engine.step(Event::Completed);
    assert_eq!(action, Action::ReadMarker { database: "app".to_string() });
    let (engine, action) = engine.step(Event::Marker(None));
    assert_eq!(action, Action::Begin);
    let (engine, action) = engine.step(Event::Completed);
    assert_eq!(action, execute(7, "create_servers"));
    let (engine, action) = engine.step(Event::Completed);
    assert_eq!(action, write_marker(7));
    let (engine, action) = engine.step(Event::Completed);
    assert_eq!(action, Action::Commit);
    let (engine, action) = engine.step(Event::Completed);
    assert_eq!(action, Action::Finish(Ok(1)));
    assert_eq!(engine.request(), Action::Finish(Ok(1)));
}

#[test]
fn step_after_the_end_repeats_the_result() {
    let (engine, _) = Engine::start(two(), "app".to_string());
    let (engine, _) = engine.step(Event::Completed);
    let (engine, action) = engine.step(Event::Marker(Some(2)));
    assert_eq!(action, Action::Finish(Ok(0)));
    let (engine, action) = engine.step(Event::Completed);
    assert_eq!(action, Action::Finish(Ok(0)));
    let (engine, action) = engine.step(Event::Failed);
    assert_eq!(action, Action::Finish(Ok(0)));
    let (_, action) = engine.step(Event::Marker(None));
    assert_eq!(action, Action::Finish(Ok(0)));
}

#[test]
fn step_after_a_failure_repeats_the_failure() {
    let (engine, _) = Engine::start(two(), "app".to_string());
    let (engine, action) = engine.step(Event::Failed);
    assert_eq!(action, Action::Finish(Err(MigrationError::StorageUnavailable { during: None })));
    let (_, action) = engine.step(Event::Completed);
    assert_eq!(action, Action::Finish(Err(MigrationError::StorageUnavailable { during: None })));
}

#[test]
fn step_takes_an_answer_that_does_not_fit_as_a_failure() {
    let (engine, _) = Engine::start(two(), "app".to_string());
    let (engine, _) = engine.step(Event::Completed);
    let (_, action) = engine.step(Event::Completed);
    assert_eq!(action, Action::Finish(Err(MigrationError::StorageUnavailable { during: None })));

    let (engine, _) = Engine::start(two(), "app".to_string());
    let (_, action) = engine.step(Event::Marker(Some(0)));
    assert_eq!(action, Action::Finish(Err(MigrationError::StorageUnavailable { during: None })));

    let (engine, _) = Engine::start(two(), "app".to_string());
    let (engine, _) = engine.step(Event::Completed);
    let (engine, _) = engine.step(Event::Marker(None));
    let (engine, action) = engine.step(Event::Completed);
    assert_eq!(action, execute(1, "create_servers"));
    let (engine, action) = engine.step(Event::Marker(Some(5)));
    assert_eq!(action, Action::Rollback);
    let (_, action) = engine.step(Event::Completed);
    assert_eq!(
        action,
        Action::Finish(Err(MigrationError::StatementFailure { migration: tag(1, "create_servers") }))
    );
}

#[test]
fn step_reads_an_absent_marker_as_version_zero() {
    let (engine, _) = Engine::start(two(), "app".to_string());
    let (engine, _) = engine.step(Event::Completed);
    let (engine, action) = engine.step(Event::Marker(None));
    assert_eq!(action, Action::Begin);
    let (_, action) = engine.step(Event::Completed);
    assert_eq!(action, execute(1, "create_servers"));

    let (engine, _) = Engine::start(two(), "app".to_string());
    let (engine, _) = engine.step(Event::Completed);
    let (engine, action) = engine.step(Event::Marker(Some(0)));
    assert_eq!(action, Action::Begin);
    let (_, action) = engine.step(Event::Completed);
    assert_eq!(action, execute(1, "create_servers"));
}

#[test]
fn step_skips_what_the_marker_covers() {
    let (engine, _) = Engine::start(three(), "app".to_string());
    let (engine, _) = engine.step(Event::Completed);
    let (engine, action) = engine.step(Event::Marker(Some(1)));
    assert_eq!(action, Action::Begin);
    let (_, action) = engine.step(Event::Completed);
    assert_eq!(action, execute(2, "create_tokens"));
}
