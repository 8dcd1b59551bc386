use uid_phone_map::config::ServiceConfig;
use uid_phone_map::engine::Outcome;
use uid_phone_map::errors::{BatchError, StorageError, ValidationError};
use uid_phone_map::state::{switch_verdict, AppState};
use uid_phone_map::storage::{
    batch_lookup, check_indices, clear_mappings, count_mappings, count_verdict, delete_mapping,
    has_mapping_table, health_check, health_verdict, indices_verdict, initialize_database,
    insert_mapping, lookup_one, schema_probe_verdict,
};

/// A connection to a scratch database under the system temporary directory,
/// freshly initialized and emptied so every test is deterministic.
fn fresh_db(name: &str) -> rusqlite::Connection {
    let mut config = ServiceConfig::default();
    config.db_path = format!("/tmp/uid_phone_map_test_{}.db", name);
    let state = AppState::new(config);
    let conn = state.get_db_connection().expect("open scratch database");
    initialize_database(&conn).expect("initialize schema");
    clear_mappings(&conn).expect("empty the table");
    conn
}

fn found_by_uid(uid: &str, phone_number: &str) -> Outcome {
    Outcome::FoundByUid { uid: uid.to_string(), phone_number: phone_number.to_string() }
}

fn found_by_phone(uid: &str, phone_number: &str) -> Outcome {
    Outcome::FoundByPhone { uid: uid.to_string(), phone_number: phone_number.to_string() }
}

#[test]
fn lookup_resolves_example_through_sqlite() {
    let conn = fresh_db("lookup");
    insert_mapping(&conn, "u1", "+100").unwrap();
    assert_eq!(lookup_one(&conn, "u1").unwrap(), found_by_uid("u1", "+100"));
    assert_eq!(lookup_one(&conn, "+100").unwrap(), found_by_phone("u1", "+100"));
    assert_eq!(lookup_one(&conn, "u2").unwrap(), Outcome::NotFound);
}

#[test]
fn batch_lookup_through_sqlite_preserves_order() {
    let conn = fresh_db("batch");
    insert_mapping(&conn, "u1", "+100").unwrap();
    insert_mapping(&conn, "u2", "+200").unwrap();
    let ids = vec![
        "u1".to_string(),
        "+100".to_string(),
        "nobody".to_string(),
        "+200".to_string(),
        "u1".to_string(),
    ];
    let out = batch_lookup(&conn, &ids, 10).unwrap();
    assert_eq!(
        out,
        vec![
            found_by_uid("u1", "+100"),
            found_by_phone("u1", "+100"),
            Outcome::NotFound,
            found_by_phone("u2", "+200"),
            found_by_uid("u1", "+100"),
        ]
    );
}

#[test]
fn batch_lookup_agrees_with_single_lookup() {
    let conn = fresh_db("batch_vs_single");
    insert_mapping(&conn, "alice", "+41").unwrap();
    insert_mapping(&conn, "bob", "+42").unwrap();
    let ids = vec![
        "bob".to_string(),
        "+41".to_string(),
        "ghost".to_string(),
        "alice".to_string(),
    ];
    let out = batch_lookup(&conn, &ids, 10).unwrap();
    for (i, id) in ids.iter().enumerate() {
        assert_eq!(out[i], lookup_one(&conn, id).unwrap());
    }
}

#[test]
fn batch_lookup_over_ceiling_rejected_without_lookup() {
    let conn = fresh_db("ceiling");
    insert_mapping(&conn, "u1", "+100").unwrap();
    let ids = vec!["u1".to_string(), "u2".to_string(), "u3".to_string()];
    assert_eq!(batch_lookup(&conn, &ids, 2), Err(BatchError::TooLarge));
    // The store is untouched.
    assert_eq!(count_mappings(&conn).unwrap(), 1);
    assert_eq!(lookup_one(&conn, "u1").unwrap(), found_by_uid("u1", "+100"));
}

#[test]
fn batch_lookup_empty_input_is_empty() {
    let conn = fresh_db("empty_batch");
    let ids: Vec<String> = Vec::new();
    assert_eq!(batch_lookup(&conn, &ids, 0).unwrap(), Vec::<Outcome>::new());
}

#[test]
fn upsert_semantics_through_sqlite() {
    let conn = fresh_db("upsert");
    insert_mapping(&conn, "u1", "+100").unwrap();
    insert_mapping(&conn, "u1", "+100").unwrap();
    assert_eq!(count_mappings(&conn).unwrap(), 1);
    insert_mapping(&conn, "u1", "+200").unwrap();
    assert_eq!(count_mappings(&conn).unwrap(), 1);
    assert_eq!(lookup_one(&conn, "u1").unwrap(), found_by_uid("u1", "+200"));
    assert_eq!(lookup_one(&conn, "+100").unwrap(), Outcome::NotFound);
}

#[test]
fn delete_and_clear_through_sqlite() {
    let conn = fresh_db("delete");
    insert_mapping(&conn, "u1", "+100").unwrap();
    insert_mapping(&conn, "u2", "+200").unwrap();
    assert_eq!(delete_mapping(&conn, "+100").unwrap(), 1);
    assert_eq!(lookup_one(&conn, "u1").unwrap(), Outcome::NotFound);
    assert_eq!(delete_mapping(&conn, "absent").unwrap(), 0);
    assert_eq!(count_mappings(&conn).unwrap(), 1);
    assert_eq!(clear_mappings(&conn).unwrap(), 1);
    assert_eq!(count_mappings(&conn).unwrap(), 0);
}

#[test]
fn schema_initialization_is_idempotent() {
    let conn = fresh_db("schema");
    initialize_database(&conn).unwrap();
    initialize_database(&conn).unwrap();
    assert!(has_mapping_table(&conn).unwrap());
    assert!(check_indices(&conn).unwrap());
    assert!(health_check(&conn).is_ok());
}

#[test]
fn check_indices_reports_missing_indexes() {
    let conn = fresh_db("indices");
    conn.execute("DROP INDEX IF EXISTS idx_uid", []).unwrap();
    assert!(!check_indices(&conn).unwrap());
    initialize_database(&conn).unwrap();
    assert!(check_indices(&conn).unwrap());
}

#[test]
fn switch_to_file_without_table_fails_validation() {
    // Build a database file that exists but holds no mapping table.
    let foreign_path = "/tmp/uid_phone_map_test_foreign.db";
    let foreign = rusqlite::Connection::open(foreign_path).unwrap();
    foreign.execute("DROP TABLE IF EXISTS user_mapping", []).unwrap();
    foreign
        .execute("CREATE TABLE IF NOT EXISTS unrelated (x TEXT)", [])
        .unwrap();
    drop(foreign);

    let mut state = AppState::new(ServiceConfig::default());
    let before = state.current_config();
    assert_eq!(
        state.switch_storage_location(foreign_path.to_string()),
        Err(ValidationError::MissingMappingTable)
    );
    // The prior location stays active.
    assert_eq!(state.current_config(), before);
}

#[test]
fn switch_to_existing_store_with_table_succeeds() {
    let path = "/tmp/uid_phone_map_test_good.db";
    let prepared = rusqlite::Connection::open(path).unwrap();
    drop(prepared);
    {
        let mut config = ServiceConfig::default();
        config.db_path = path.to_string();
        let state = AppState::new(config);
        let conn = state.get_db_connection().unwrap();
        initialize_database(&conn).unwrap();
    }
    let mut state = AppState::new(ServiceConfig::default());
    assert_eq!(state.switch_storage_location(path.to_string()), Ok(()));
    assert_eq!(state.current_config().db_path, path);
}

#[test]
fn switch_to_missing_file_is_accepted_speculatively() {
    let mut state = AppState::new(ServiceConfig::default());
    let path = "/tmp/uid_phone_map_test_nowhere/does_not_exist.db";
    assert_eq!(state.switch_storage_location(path.to_string()), Ok(()));
    assert_eq!(state.current_config().db_path, path);
}

#[test]
fn set_config_and_current_config_round_trip() {
    let mut state = AppState::new(ServiceConfig::default());
    let mut next = ServiceConfig::default();
    next.db_path = "/tmp/uid_phone_map_test_roundtrip.db".to_string();
    next.log_level = "debug".to_string();
    state.set_config(next.clone());
    assert_eq!(state.current_config(), next);
}

fn probe_error(text: &str) -> StorageError {
    StorageError { message: text.to_string() }
}

#[test]
fn switch_verdict_arms() {
    // An absent target is accepted speculatively, whatever the probe says.
    assert_eq!(switch_verdict(false, None), Ok(()));
    // An existing target that could not be opened is unavailable.
    assert_eq!(switch_verdict(true, None), Err(ValidationError::StorageUnavailable));
    // An existing target holding the table is accepted.
    assert_eq!(switch_verdict(true, Some(Ok(true))), Ok(()));
    // An existing target without the table fails validation.
    assert_eq!(
        switch_verdict(true, Some(Ok(false))),
        Err(ValidationError::MissingMappingTable)
    );
    // A failing schema probe is unavailability, not a missing table.
    assert_eq!(
        switch_verdict(true, Some(Err(probe_error("probe failed")))),
        Err(ValidationError::StorageUnavailable)
    );
}

#[test]
fn health_verdict_arms() {
    assert_eq!(health_verdict(Ok(Some(1))), Ok(()));
    assert!(health_verdict(Ok(None)).is_err());
    assert_eq!(health_verdict(Err(probe_error("down"))), Err(probe_error("down")));
}

#[test]
fn count_verdict_arms() {
    assert_eq!(count_verdict(Ok(Some(7))), Ok(7));
    assert!(count_verdict(Ok(None)).is_err());
    assert_eq!(count_verdict(Err(probe_error("down"))), Err(probe_error("down")));
}

#[test]
fn schema_probe_verdict_arms() {
    assert_eq!(schema_probe_verdict(Ok(Some("user_mapping".to_string()))), Ok(true));
    assert_eq!(schema_probe_verdict(Ok(None)), Ok(false));
    assert_eq!(schema_probe_verdict(Err(probe_error("down"))), Err(probe_error("down")));
}

#[test]
fn indices_verdict_arms() {
    let hit = || Ok(Some("idx".to_string()));
    let miss = || Ok(None);
    assert_eq!(indices_verdict(hit(), hit()), Ok(true));
    assert_eq!(indices_verdict(hit(), miss()), Ok(false));
    assert_eq!(indices_verdict(miss(), hit()), Ok(false));
    assert_eq!(indices_verdict(miss(), miss()), Ok(false));
    assert_eq!(indices_verdict(Err(probe_error("a")), hit()), Err(probe_error("a")));
    assert_eq!(indices_verdict(hit(), Err(probe_error("b"))), Err(probe_error("b")));
}
