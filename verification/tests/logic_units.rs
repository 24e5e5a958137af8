use kvstore::dispatch::get_lines;
use kvstore::dispatch::join_tokens;
use kvstore::dispatch::render_line;
use kvstore::dispatch::set_failure_line;
use kvstore::order::str_lt;
use kvstore::query::latest_index;
use kvstore::query::sort_records;
use kvstore::record::Record;
use kvstore::store::StoreError;

fn record(id: i64, key: &str, value: &str, created: &str) -> Record {
    Record {
        id,
        key: key.to_string(),
        value: value.to_string(),
        created: created.to_string(),
    }
}

#[test]
fn join_tokens_single_spaces() {
    let abc = vec!["a".to_string(), "b".to_string(), "c".to_string()];
    assert_eq!(join_tokens(&abc), "a b c");
    assert_eq!(join_tokens(&vec!["singleval".to_string()]), "singleval");
    assert_eq!(join_tokens(&Vec::new()), "");
    let spaced = vec!["a b".to_string(), "".to_string(), "c".to_string()];
    assert_eq!(join_tokens(&spaced), "a b  c");
}

#[test]
fn lexicographic_order_on_timestamps() {
    assert!(str_lt("2024-01-01 00:00:01", "2024-01-02 00:00:00"));
    assert!(!str_lt("2024-01-02 00:00:00", "2024-01-01 00:00:01"));
    assert!(!str_lt("2024-01-01 00:00:01", "2024-01-01 00:00:01"));
    assert!(str_lt("abc", "abcd"));
    assert!(!str_lt("abcd", "abc"));
    assert!(str_lt("", "a"));
}

#[test]
fn latest_prefers_greatest_created() {
    let records = vec![
        record(1, "k", "old", "2024-01-01 10:00:00"),
        record(2, "k", "new", "2024-01-02 10:00:00"),
        record(3, "k", "middle", "2024-01-01 20:00:00"),
    ];
    let i = latest_index(&records).expect("some record");
    assert_eq!(records[i].value, "new");
}

#[test]
fn latest_breaks_timestamp_ties_by_id() {
    let records = vec![
        record(7, "k", "later-id", "2024-01-01 10:00:00"),
        record(3, "k", "earlier-id", "2024-01-01 10:00:00"),
    ];
    let i = latest_index(&records).expect("some record");
    assert_eq!(records[i].id, 7);
    assert_eq!(records[i].value, "later-id");
}

#[test]
fn latest_of_nothing_is_none() {
    assert!(latest_index(&Vec::new()).is_none());
}

#[test]
fn sorting_ranks_by_created_then_id() {
    let records = vec![
        record(5, "k", "e", "2024-03-01 00:00:00"),
        record(2, "k", "b", "2024-01-01 00:00:00"),
        record(4, "k", "d", "2024-02-01 00:00:00"),
        record(3, "k", "c", "2024-01-01 00:00:00"),
        record(1, "k", "a", "2024-01-01 00:00:00"),
    ];
    let sorted = sort_records(&records);
    let ids: Vec<i64> = sorted.iter().map(|r| r.id).collect();
    assert_eq!(ids, vec![1, 2, 3, 4, 5]);
    let values: Vec<&str> = sorted.iter().map(|r| r.value.as_str()).collect();
    assert_eq!(values, vec!["a", "b", "c", "d", "e"]);
}

#[test]
fn sorting_keeps_every_record() {
    let records = vec![
        record(2, "k", "b", "2024-01-01 00:00:00"),
        record(1, "k", "a", "2024-01-01 00:00:00"),
        record(2, "k", "b", "2024-01-01 00:00:00"),
    ];
    let sorted = sort_records(&records);
    assert_eq!(sorted.len(), 3);
    assert_eq!(sorted[0].id, 1);
    assert_eq!(sorted[1].id, 2);
    assert_eq!(sorted[2].id, 2);
}

#[test]
fn lines_render_with_and_without_time() {
    let rec = record(1, "k", "blue", "2024-01-01 10:00:00");
    assert_eq!(render_line(&rec, false), "blue");
    assert_eq!(render_line(&rec, true), "2024-01-01 10:00:00 blue");
}

#[test]
fn get_lines_of_a_miss_are_empty() {
    assert!(get_lines(&None, false).is_empty());
    assert!(get_lines(&None, true).is_empty());
    let lines = get_lines(&Some(record(1, "k", "v", "t")), true);
    assert_eq!(lines, vec!["t v".to_string()]);
}

#[test]
fn diagnostic_line_names_the_failure() {
    let e = StoreError { message: "disk I/O error".to_string() };
    assert_eq!(
        set_failure_line(&e),
        "Could not insert key into database: disk I/O error"
    );
}

#[test]
fn duplicate_copies_every_field() {
    let rec = record(9, "key", "value", "2024-01-01 00:00:00");
    let copy = rec.duplicate();
    assert_eq!(copy.id, rec.id);
    assert_eq!(copy.key, rec.key);
    assert_eq!(copy.value, rec.value);
    assert_eq!(copy.created, rec.created);
}

#[test]
fn ranking_compares_created_then_id() {
    let early = record(5, "k", "v", "2024-01-01 00:00:00");
    let late = record(1, "k", "v", "2024-02-01 00:00:00");
    assert!(early.ranks_no_later_than(&late));
    assert!(!late.ranks_no_later_than(&early));
    let tie_small = record(1, "k", "v", "2024-01-01 00:00:00");
    let tie_big = record(2, "k", "v", "2024-01-01 00:00:00");
    assert!(tie_small.ranks_no_later_than(&tie_big));
    assert!(!tie_big.ranks_no_later_than(&tie_small));
    assert!(tie_small.ranks_no_later_than(&tie_small));
}

#[test]
fn sorted_last_equals_latest_choice() {
    let records = vec![
        record(4, "k", "d", "2024-02-01 00:00:00"),
        record(1, "k", "a", "2024-01-01 00:00:00"),
        record(5, "k", "e", "2024-02-01 00:00:00"),
        record(2, "k", "b", "2024-01-01 00:00:00"),
    ];
    let i = latest_index(&records).expect("some record");
    let sorted = sort_records(&records);
    let last = sorted.last().expect("a last record");
    assert_eq!(last.id, records[i].id);
    assert_eq!(last.id, 5);
}
