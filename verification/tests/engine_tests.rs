use uid_phone_map::engine::{batch_outcomes, resolve_rows, Mapping, Outcome};
use uid_phone_map::errors::BatchError;
use uid_phone_map::table::MappingTable;

fn pair(uid: &str, phone_number: &str) -> Mapping {
    Mapping { uid: uid.to_string(), phone_number: phone_number.to_string() }
}

fn found_by_uid(uid: &str, phone_number: &str) -> Outcome {
    Outcome::FoundByUid { uid: uid.to_string(), phone_number: phone_number.to_string() }
}

fn found_by_phone(uid: &str, phone_number: &str) -> Outcome {
    Outcome::FoundByPhone { uid: uid.to_string(), phone_number: phone_number.to_string() }
}

#[test]
fn resolve_example_pair() {
    let mut t = MappingTable::new();
    t.upsert("u1".to_string(), "+100".to_string());
    assert_eq!(t.resolve(&"u1".to_string()), found_by_uid("u1", "+100"));
    assert_eq!(t.resolve(&"+100".to_string()), found_by_phone("u1", "+100"));
    assert_eq!(t.resolve(&"u2".to_string()), Outcome::NotFound);
}

#[test]
fn resolve_batch_example() {
    let mut t = MappingTable::new();
    t.upsert("u1".to_string(), "+100".to_string());
    let ids = vec!["u1".to_string(), "+100".to_string(), "u2".to_string()];
    let out = t.resolve_batch(&ids, 10).unwrap();
    assert_eq!(
        out,
        vec![found_by_uid("u1", "+100"), found_by_phone("u1", "+100"), Outcome::NotFound]
    );
}

#[test]
fn resolve_batch_matches_resolve_pointwise() {
    let mut t = MappingTable::new();
    t.upsert("alice".to_string(), "+41".to_string());
    t.upsert("bob".to_string(), "+42".to_string());
    t.upsert("carol".to_string(), "+43".to_string());
    let ids = vec![
        "bob".to_string(),
        "+43".to_string(),
        "nobody".to_string(),
        "alice".to_string(),
        "+41".to_string(),
    ];
    let out = t.resolve_batch(&ids, 5).unwrap();
    assert_eq!(out.len(), ids.len());
    for (i, id) in ids.iter().enumerate() {
        assert_eq!(out[i], t.resolve(id));
    }
}

#[test]
fn resolve_batch_repeated_ids_resolve_alike() {
    let mut t = MappingTable::new();
    t.upsert("u1".to_string(), "+100".to_string());
    let ids = vec![
        "u1".to_string(),
        "missing".to_string(),
        "u1".to_string(),
        "u1".to_string(),
    ];
    let out = t.resolve_batch(&ids, 100).unwrap();
    assert_eq!(out[0], out[2]);
    assert_eq!(out[0], out[3]);
    assert_eq!(out[0], found_by_uid("u1", "+100"));
    assert_eq!(out[1], Outcome::NotFound);
}

#[test]
fn resolve_batch_over_ceiling_rejected() {
    let mut t = MappingTable::new();
    t.upsert("u1".to_string(), "+100".to_string());
    let ids = vec!["u1".to_string(), "u2".to_string(), "u3".to_string()];
    assert_eq!(t.resolve_batch(&ids, 2), Err(BatchError::TooLarge));
    // No residual effect on the table.
    assert_eq!(t.len(), 1);
    assert_eq!(t.resolve(&"u1".to_string()), found_by_uid("u1", "+100"));
}

#[test]
fn resolve_batch_empty_input_is_empty_result() {
    let t = MappingTable::new();
    let ids: Vec<String> = Vec::new();
    assert_eq!(t.resolve_batch(&ids, 0).unwrap(), Vec::<Outcome>::new());
}

#[test]
fn upsert_twice_leaves_one_row() {
    let mut t = MappingTable::new();
    t.upsert("u1".to_string(), "+100".to_string());
    t.upsert("u1".to_string(), "+100".to_string());
    assert_eq!(t.len(), 1);
    assert_eq!(t.resolve(&"u1".to_string()), found_by_uid("u1", "+100"));
}

#[test]
fn upsert_replaces_prior_pairing() {
    let mut t = MappingTable::new();
    t.upsert("u1".to_string(), "+100".to_string());
    t.upsert("u1".to_string(), "+200".to_string());
    assert_eq!(t.len(), 1);
    assert_eq!(t.resolve(&"u1".to_string()), found_by_uid("u1", "+200"));
    assert_eq!(t.resolve(&"+100".to_string()), Outcome::NotFound);
    assert_eq!(t.resolve(&"+200".to_string()), found_by_phone("u1", "+200"));
}

#[test]
fn upsert_replaces_by_phone_too() {
    let mut t = MappingTable::new();
    t.upsert("u1".to_string(), "+100".to_string());
    t.upsert("u2".to_string(), "+100".to_string());
    assert_eq!(t.len(), 1);
    assert_eq!(t.resolve(&"u1".to_string()), Outcome::NotFound);
    assert_eq!(t.resolve(&"+100".to_string()), found_by_phone("u2", "+100"));
}

#[test]
fn delete_removes_by_either_column() {
    let mut t = MappingTable::new();
    t.upsert("u1".to_string(), "+100".to_string());
    t.upsert("u2".to_string(), "+200".to_string());
    assert_eq!(t.delete(&"u1".to_string()), 1);
    assert_eq!(t.resolve(&"u1".to_string()), Outcome::NotFound);
    assert_eq!(t.delete(&"+200".to_string()), 1);
    assert_eq!(t.len(), 0);
    assert_eq!(t.delete(&"absent".to_string()), 0);
}

#[test]
fn clear_empties_the_table() {
    let mut t = MappingTable::new();
    t.upsert("u1".to_string(), "+100".to_string());
    t.upsert("u2".to_string(), "+200".to_string());
    assert_eq!(t.clear(), 2);
    assert_eq!(t.len(), 0);
    assert_eq!(t.resolve(&"u1".to_string()), Outcome::NotFound);
}

#[test]
fn resolve_rows_consults_uid_column_first() {
    let rows = vec![pair("a", "b"), pair("c", "a")];
    // "a" is row 0's uid and row 1's phone number: the uid column wins.
    assert_eq!(resolve_rows(&rows, &"a".to_string()), found_by_uid("a", "b"));
    assert_eq!(resolve_rows(&rows, &"b".to_string()), found_by_phone("a", "b"));
}

#[test]
fn batch_index_last_writer_wins() {
    // The batch index writes both values of every row in order; for a value
    // in both roles the later write, here the phone role of row 1, wins.
    let rows = vec![pair("a", "b"), pair("c", "a")];
    let ids = vec!["a".to_string()];
    let out = batch_outcomes(&rows, &ids);
    assert_eq!(out, vec![found_by_phone("c", "a")]);
}

#[test]
fn outcome_status_labels() {
    assert_eq!(found_by_uid("u", "p").status_label(), "found_by_uid");
    assert_eq!(found_by_phone("u", "p").status_label(), "found_by_phone");
    assert_eq!(Outcome::NotFound.status_label(), "not_found");
    assert!(found_by_uid("u", "p").is_found());
    assert!(found_by_phone("u", "p").is_found());
    assert!(!Outcome::NotFound.is_found());
}
