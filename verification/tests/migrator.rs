use pomodoko::error::StartupError;
use pomodoko::migrate::{initial_migrations, Migration, MigrationKind, MigrationRun};

fn two_migrations() -> Vec<Migration> {
    vec![
        Migration {
            version: 1,
            description: String::from("create_initial_tables"),
            statement: String::from(
                "CREATE TABLE tasks (id INTEGER PRIMARY KEY, name TEXT, completed BOOLEAN);",
            ),
            kind: MigrationKind::Up,
        },
        Migration {
            version: 2,
            description: String::from("add_due_date"),
            statement: String::from("ALTER TABLE tasks ADD COLUMN due_date TEXT;"),
            kind: MigrationKind::Up,
        },
    ]
}

/// Drives a run to completion as the shell would on a store engine that
/// accepts every statement, returning the versions applied in order and the
/// final store marker.
fn run_to_completion(migrations: Vec<Migration>, store_version: u64) -> (Vec<u64>, u64) {
    let mut run = MigrationRun::start(migrations, store_version).expect("no skew");
    let mut applied = Vec::new();
    while let Some(m) = run.next_pending() {
        applied.push(m.version);
        run.record_applied();
    }
    assert!(run.is_complete());
    (applied, run.store_version())
}

#[test]
fn fresh_store_applies_initial_schema() {
    let ms = initial_migrations();
    assert_eq!(ms.len(), 1);
    assert_eq!(ms[0].version, 1);
    assert_eq!(ms[0].description, "create_initial_tables");
    assert_eq!(
        ms[0].statement,
        "CREATE TABLE tasks (id INTEGER PRIMARY KEY, name TEXT, completed BOOLEAN);"
    );
    assert_eq!(ms[0].kind, MigrationKind::Up);

    let (applied, version) = run_to_completion(ms, 0);
    assert_eq!(applied, vec![1]);
    assert_eq!(version, 1);
}

#[test]
fn migrator_is_idempotent() {
    let (applied_first, version_first) = run_to_completion(two_migrations(), 0);
    assert_eq!(applied_first, vec![1, 2]);
    assert_eq!(version_first, 2);

    let (applied_again, version_again) = run_to_completion(two_migrations(), version_first);
    assert_eq!(applied_again, Vec::<u64>::new());
    assert_eq!(version_again, version_first);
}

#[test]
fn second_run_is_complete_at_once() {
    let (_, version) = run_to_completion(two_migrations(), 0);
    let run = MigrationRun::start(two_migrations(), version).expect("no skew");
    assert!(run.is_complete());
    assert!(run.next_pending().is_none());
}

#[test]
fn new_migration_applies_alone() {
    let (_, version) = run_to_completion(vec![two_migrations().remove(0)], 0);
    assert_eq!(version, 1);

    let (applied, new_version) = run_to_completion(two_migrations(), version);
    assert_eq!(applied, vec![2]);
    assert_eq!(new_version, 2);
}

#[test]
fn version_skew_is_rejected() {
    let err = MigrationRun::start(two_migrations(), 5).unwrap_err();
    assert_eq!(
        err,
        StartupError::MigrationVersionSkew { store_version: 5, highest_known: 2 }
    );
}

#[test]
fn version_skew_on_empty_sequence() {
    let err = MigrationRun::start(Vec::new(), 3).unwrap_err();
    assert_eq!(
        err,
        StartupError::MigrationVersionSkew { store_version: 3, highest_known: 0 }
    );
}

#[test]
fn empty_sequence_on_fresh_store_is_complete() {
    let run = MigrationRun::start(Vec::new(), 0).expect("no skew");
    assert!(run.is_complete());
    assert_eq!(run.store_version(), 0);
}

#[test]
fn failed_statement_is_not_recorded() {
    let run = MigrationRun::start(two_migrations(), 0).expect("no skew");
    let m = run.next_pending().expect("one pending");
    assert_eq!(m.version, 1);
    // The store engine rejects the statement: the run surfaces the fatal
    // error and the failed version is never recorded as applied.
    let err = run.apply_error();
    assert_eq!(err, StartupError::MigrationApply { version: 1 });
    assert_eq!(run.store_version(), 0);
}
