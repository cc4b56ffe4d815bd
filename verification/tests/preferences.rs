use pomodoko::error::StartupError;
use pomodoko::greet;
use pomodoko::prefs::{PrefEntry, PrefStore, PrefValue};
use pomodoko::seeder::{
    after_persist, next_missing_default, required_defaults, seed_defaults, stage_default,
    PersistOutcome,
};

fn get_int(store: &PrefStore, key: &str) -> Option<i64> {
    match store.get(&String::from(key)) {
        Some(PrefValue::Int(n)) => Some(*n),
        _ => None,
    }
}

#[test]
fn required_defaults_table() {
    let table = required_defaults();
    assert_eq!(table.len(), 3);
    assert_eq!(table[0].key, "pomodoro");
    assert_eq!(table[0].value, PrefValue::Int(1500));
    assert_eq!(table[1].key, "short_rest");
    assert_eq!(table[1].value, PrefValue::Int(300));
    assert_eq!(table[2].key, "long_rest");
    assert_eq!(table[2].value, PrefValue::Int(900));
}

#[test]
fn get_on_fresh_store_is_absent() {
    let store = PrefStore::new();
    assert!(store.get(&String::from("pomodoro")).is_none());
}

#[test]
fn set_overwrites_without_merge() {
    let mut store = PrefStore::new();
    store.set(String::from("pomodoro"), PrefValue::Int(600));
    store.set(String::from("pomodoro"), PrefValue::Int(1200));
    assert_eq!(get_int(&store, "pomodoro"), Some(1200));
    assert_eq!(store.entries().len(), 1);
}

#[test]
fn null_value_is_present_not_absent() {
    let mut store = PrefStore::new();
    store.set(String::from("pomodoro"), PrefValue::Null);
    assert_eq!(
        store.get(&String::from("pomodoro")),
        Some(&PrefValue::Null)
    );
}

#[test]
fn load_keeps_document_entries() {
    let store = PrefStore::load_from_entries(vec![
        PrefEntry { key: String::from("pomodoro"), value: PrefValue::Int(600) },
        PrefEntry { key: String::from("theme"), value: PrefValue::Text(String::from("dark")) },
    ]);
    assert_eq!(get_int(&store, "pomodoro"), Some(600));
    assert_eq!(
        store.get(&String::from("theme")),
        Some(&PrefValue::Text(String::from("dark")))
    );
}

#[test]
fn load_lets_later_binding_win() {
    let store = PrefStore::load_from_entries(vec![
        PrefEntry { key: String::from("pomodoro"), value: PrefValue::Int(600) },
        PrefEntry { key: String::from("pomodoro"), value: PrefValue::Int(900) },
    ]);
    assert_eq!(get_int(&store, "pomodoro"), Some(900));
    assert_eq!(store.entries().len(), 1);
}

#[test]
fn seeder_fills_every_default_on_fresh_store() {
    let mut store = PrefStore::new();
    seed_defaults(&mut store);
    assert_eq!(get_int(&store, "pomodoro"), Some(1500));
    assert_eq!(get_int(&store, "short_rest"), Some(300));
    assert_eq!(get_int(&store, "long_rest"), Some(900));
}

#[test]
fn seeder_never_overwrites_user_value() {
    let mut store = PrefStore::new();
    store.set(String::from("pomodoro"), PrefValue::Int(600));
    seed_defaults(&mut store);
    assert_eq!(get_int(&store, "pomodoro"), Some(600));
}

#[test]
fn seeder_is_idempotent() {
    let mut store = PrefStore::new();
    store.set(String::from("short_rest"), PrefValue::Int(120));
    seed_defaults(&mut store);
    seed_defaults(&mut store);
    assert_eq!(get_int(&store, "pomodoro"), Some(1500));
    assert_eq!(get_int(&store, "short_rest"), Some(120));
    assert_eq!(get_int(&store, "long_rest"), Some(900));
    assert_eq!(store.entries().len(), 3);
}

#[test]
fn startup_on_fresh_environment() {
    // Fresh environment: the backing document was just created empty, the
    // seeder fills every required key, and the focus interval reads back as
    // 25 minutes.
    let mut store = PrefStore::load_from_entries(Vec::new());
    seed_defaults(&mut store);
    assert_eq!(get_int(&store, "pomodoro"), Some(1500));
}

#[test]
fn startup_on_existing_document() {
    // The document already holds a user-chosen focus interval: seeding
    // keeps it and creates only the two missing keys.
    let mut store = PrefStore::load_from_entries(vec![PrefEntry {
        key: String::from("pomodoro"),
        value: PrefValue::Int(600),
    }]);
    seed_defaults(&mut store);
    assert_eq!(get_int(&store, "pomodoro"), Some(600));
    assert_eq!(get_int(&store, "short_rest"), Some(300));
    assert_eq!(get_int(&store, "long_rest"), Some(900));
}

#[test]
fn write_failure_during_seeding_is_fatal() {
    // The shell's seeding loop, with a medium that accepts the first write
    // and fails the second: seeding must stop at the failed key instead of
    // carrying on with a partially persisted state.
    let mut store = PrefStore::new();
    let table = required_defaults();
    let outcomes = [PersistOutcome::Saved, PersistOutcome::WriteFailed, PersistOutcome::Saved];
    let mut writes: usize = 0;
    let mut from: usize = 0;
    let mut fatal = None;
    while let Some(i) = next_missing_default(&store, from) {
        stage_default(&mut store, i);
        let key = &table[i].key;
        if let Err(e) = after_persist(outcomes[writes], key) {
            fatal = Some(e);
            break;
        }
        writes += 1;
        from = i + 1;
    }
    assert_eq!(
        fatal,
        Some(StartupError::PersistenceWrite { key: String::from("short_rest") })
    );
    // The first key was seeded and saved; the failed key never had its
    // write confirmed; the last key was never reached.
    assert_eq!(get_int(&store, "pomodoro"), Some(1500));
    assert!(store.get(&String::from("long_rest")).is_none());
}

#[test]
fn stepwise_seeding_completes_when_all_writes_save() {
    let mut store = PrefStore::new();
    store.set(String::from("short_rest"), PrefValue::Int(240));
    let table = required_defaults();
    let mut from: usize = 0;
    while let Some(i) = next_missing_default(&store, from) {
        stage_default(&mut store, i);
        after_persist(PersistOutcome::Saved, &table[i].key).expect("saved");
        from = i + 1;
    }
    assert_eq!(get_int(&store, "pomodoro"), Some(1500));
    assert_eq!(get_int(&store, "short_rest"), Some(240));
    assert_eq!(get_int(&store, "long_rest"), Some(900));
}

#[test]
fn greeting_for_name() {
    assert_eq!(
        greet("Ada"),
        "Hello, Ada! You've been greeted from Rust!"
    );
}
