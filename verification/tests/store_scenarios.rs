use kvstore::dispatch::run_get;
use kvstore::dispatch::run_history;
use kvstore::dispatch::run_set;
use kvstore::store::Store;

fn fresh_store() -> Store {
    let store = Store::open(":memory:").expect("open in-memory store");
    store.initialize().expect("initialize schema");
    store
}

#[test]
fn scenario_set_get_history() {
    let store = fresh_store();
    assert!(run_set(&store, "user1", &vec!["red".to_string()]).is_none());
    assert_eq!(run_get(&store, "user1", false).unwrap(), vec!["red".to_string()]);
    assert!(run_set(&store, "user1", &vec!["blue".to_string()]).is_none());
    assert_eq!(run_get(&store, "user1", false).unwrap(), vec!["blue".to_string()]);
    let lines = run_history(&store, "user1", false).unwrap();
    assert_eq!(lines, vec!["red".to_string(), "blue".to_string()]);
}

#[test]
fn scenario_missing_key_prints_nothing() {
    let store = fresh_store();
    let lines = run_get(&store, "missingkey", false).unwrap();
    assert!(lines.is_empty());
    let history = run_history(&store, "missingkey", false).unwrap();
    assert!(history.is_empty());
}

#[test]
fn scenario_multi_token_value() {
    let store = fresh_store();
    let values = vec!["one".to_string(), "two".to_string(), "three".to_string()];
    assert!(run_set(&store, "k", &values).is_none());
    assert_eq!(run_get(&store, "k", false).unwrap(), vec!["one two three".to_string()]);
}

#[test]
fn scenario_get_with_time() {
    let store = fresh_store();
    assert!(run_set(&store, "user1", &vec!["red".to_string()]).is_none());
    assert!(run_set(&store, "user1", &vec!["blue".to_string()]).is_none());
    let lines = run_get(&store, "user1", true).unwrap();
    assert_eq!(lines.len(), 1);
    let latest = store.latest("user1").unwrap().expect("a latest record");
    assert_eq!(latest.value, "blue");
    assert_eq!(lines[0], format!("{} {}", latest.created, latest.value));
    // The timestamp shown is the second write's insertion time.
    let records = store.history("user1").unwrap();
    assert_eq!(records.len(), 2);
    assert_eq!(records[1].created, latest.created);
    assert_eq!(records[1].id, latest.id);
}

#[test]
fn initialization_is_idempotent() {
    let store = Store::open(":memory:").expect("open in-memory store");
    store.initialize().expect("first initialization");
    store.initialize().expect("second initialization");
    assert!(run_set(&store, "k", &vec!["v".to_string()]).is_none());
    store.initialize().expect("initialization after a write");
    let lines = run_history(&store, "k", false).unwrap();
    assert_eq!(lines, vec!["v".to_string()]);
}

#[test]
fn writes_append_and_never_overwrite() {
    let store = fresh_store();
    for value in ["a", "b", "c"] {
        assert!(run_set(&store, "k", &vec![value.to_string()]).is_none());
    }
    let lines = run_history(&store, "k", false).unwrap();
    assert_eq!(lines, vec!["a".to_string(), "b".to_string(), "c".to_string()]);
    // Another key's records are untouched by further writes.
    assert!(run_set(&store, "other", &vec!["x".to_string()]).is_none());
    let lines = run_history(&store, "k", false).unwrap();
    assert_eq!(lines.len(), 3);
}

#[test]
fn history_last_line_matches_get() {
    let store = fresh_store();
    for value in ["first", "second", "third"] {
        assert!(run_set(&store, "k", &vec![value.to_string()]).is_none());
    }
    for with_time in [false, true] {
        let history = run_history(&store, "k", with_time).unwrap();
        let get = run_get(&store, "k", with_time).unwrap();
        assert_eq!(history.last(), get.last());
        assert_eq!(get.len(), 1);
    }
}

#[test]
fn values_with_quotes_are_stored_verbatim() {
    let store = fresh_store();
    let tricky = "it's a'); DROP TABLE kv; --";
    assert!(run_set(&store, "k", &vec![tricky.to_string()]).is_none());
    assert_eq!(run_get(&store, "k", false).unwrap(), vec![tricky.to_string()]);
    let tricky_key = "key'with\"quotes";
    assert!(run_set(&store, tricky_key, &vec!["v".to_string()]).is_none());
    assert_eq!(run_get(&store, tricky_key, false).unwrap(), vec!["v".to_string()]);
}

#[test]
fn open_failure_is_reported() {
    let result = Store::open("/nonexistent-directory-for-kv/store.db");
    assert!(result.is_err());
}

#[test]
fn set_failure_yields_diagnostic_line() {
    // Without initialization the record table is absent, so the write fails
    // and the dispatcher hands back the diagnostic instead of erroring.
    let store = Store::open(":memory:").expect("open in-memory store");
    let line = run_set(&store, "k", &vec!["v".to_string()]).expect("a diagnostic line");
    assert!(line.starts_with("Could not insert key into database: "));
}

#[test]
fn read_failure_is_an_error() {
    let store = Store::open(":memory:").expect("open in-memory store");
    assert!(run_get(&store, "k", false).is_err());
    assert!(run_history(&store, "k", false).is_err());
    let err = store.latest("k").err().expect("an error");
    assert!(!err.message.is_empty());
}
