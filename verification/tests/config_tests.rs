use uid_phone_map::bind_addr::{parse_bind_addr, BindAddress};
use uid_phone_map::config::{
    apply_config_edits, is_debug_level, normalize_log_level, ServiceConfig,
};
use uid_phone_map::console::{
    confirmation_accepted, mapping_input_ok, parse_db_command, parse_main_command,
    read_optional_string, read_u32, DbCommand, MainCommand,
};
use uid_phone_map::errors::ValidationError;
use uid_phone_map::state::AppState;

#[test]
fn default_config_values() {
    let c = ServiceConfig::default();
    assert_eq!(c.db_path, "data/uid_phone_map.db");
    assert_eq!(c.bind_address, "0.0.0.0:3000");
    assert_eq!(c.api_key, "");
    assert_eq!(c.log_level, "info");
    assert_eq!(c.batch_size_limit, 1000);
    assert!(c.validate().is_ok());
}

#[test]
fn validate_rejects_zero_batch_limit() {
    let mut c = ServiceConfig::default();
    c.batch_size_limit = 0;
    assert_eq!(c.validate(), Err(ValidationError::ZeroBatchLimit));
}

#[test]
fn validate_rejects_malformed_bind_address() {
    let mut c = ServiceConfig::default();
    c.bind_address = "not-an-address".to_string();
    assert_eq!(c.validate(), Err(ValidationError::InvalidBindAddress));
    c.bind_address = "localhost:3000".to_string();
    assert_eq!(c.validate(), Err(ValidationError::InvalidBindAddress));
}

#[test]
fn validate_accepts_every_platform_address_form() {
    let mut c = ServiceConfig::default();
    c.bind_address = "127.0.0.1:8080".to_string();
    assert!(c.validate().is_ok());
    c.bind_address = "[::1]:3000".to_string();
    assert!(c.validate().is_ok());
    c.bind_address = "[2001:db8::1]:443".to_string();
    assert!(c.validate().is_ok());
}

#[test]
fn parsed_bind_address_decomposes_dotted_quads_only() {
    let mut c = ServiceConfig::default();
    assert_eq!(
        c.parsed_bind_address(),
        Some(BindAddress { octet_a: 0, octet_b: 0, octet_c: 0, octet_d: 0, port: 3000 })
    );
    c.bind_address = "[::1]:3000".to_string();
    assert_eq!(c.parsed_bind_address(), None);
}

#[test]
fn parse_bind_addr_accepts_canonical_addresses() {
    assert_eq!(
        parse_bind_addr("1.2.3.4:80"),
        Some(BindAddress { octet_a: 1, octet_b: 2, octet_c: 3, octet_d: 4, port: 80 })
    );
    assert_eq!(
        parse_bind_addr("0.0.0.0:3000"),
        Some(BindAddress { octet_a: 0, octet_b: 0, octet_c: 0, octet_d: 0, port: 3000 })
    );
    assert_eq!(
        parse_bind_addr("255.255.255.255:65535"),
        Some(BindAddress {
            octet_a: 255,
            octet_b: 255,
            octet_c: 255,
            octet_d: 255,
            port: 65535,
        })
    );
    assert_eq!(
        parse_bind_addr("127.0.0.1:0"),
        Some(BindAddress { octet_a: 127, octet_b: 0, octet_c: 0, octet_d: 1, port: 0 })
    );
}

#[test]
fn parse_bind_addr_rejects_malformed_addresses() {
    assert_eq!(parse_bind_addr(""), None);
    assert_eq!(parse_bind_addr("1.2.3.4"), None);
    assert_eq!(parse_bind_addr(":80"), None);
    assert_eq!(parse_bind_addr("1.2.3:80"), None);
    assert_eq!(parse_bind_addr("1.2.3.4.5:80"), None);
    assert_eq!(parse_bind_addr("256.0.0.1:80"), None);
    assert_eq!(parse_bind_addr("1.2.3.4:65536"), None);
    assert_eq!(parse_bind_addr("01.2.3.4:80"), None);
    assert_eq!(parse_bind_addr("1.2.3.4:080"), None);
    assert_eq!(parse_bind_addr("a.b.c.d:80"), None);
    assert_eq!(parse_bind_addr("1.2.3.4:80:81"), None);
    assert_eq!(parse_bind_addr("1.2.3.4:"), None);
    assert_eq!(parse_bind_addr("80:1.2.3.4"), None);
    assert_eq!(parse_bind_addr("1.2.3.4:-1"), None);
}

#[test]
fn update_with_unparsable_address_leaves_config_unchanged() {
    let mut state = AppState::new(ServiceConfig::default());
    let before = state.current_config();
    let mut bad = ServiceConfig::default();
    bad.bind_address = "localhost".to_string();
    assert_eq!(state.update(bad), Err(ValidationError::InvalidBindAddress));
    assert_eq!(state.current_config(), before);
}

#[test]
fn update_with_valid_config_replaces_it() {
    let mut state = AppState::new(ServiceConfig::default());
    let mut next = ServiceConfig::default();
    next.bind_address = "127.0.0.1:8080".to_string();
    next.batch_size_limit = 5;
    assert_eq!(state.update(next.clone()), Ok(()));
    assert_eq!(state.current_config(), next);
    let mut v6 = ServiceConfig::default();
    v6.bind_address = "[::1]:9000".to_string();
    assert_eq!(state.update(v6.clone()), Ok(()));
    assert_eq!(state.current_config(), v6);
}

#[test]
fn apply_config_edits_field_rules() {
    let base = ServiceConfig::default();
    let edited = apply_config_edits(
        &base,
        Some("other.db".to_string()),
        Some("10.0.0.1:9000".to_string()),
        Some(7),
        Some("DEBUG".to_string()),
    );
    assert_eq!(edited.db_path, "other.db");
    assert_eq!(edited.bind_address, "10.0.0.1:9000");
    assert_eq!(edited.batch_size_limit, 7);
    assert_eq!(edited.log_level, "debug");
    assert_eq!(edited.api_key, base.api_key);

    let v6 = apply_config_edits(&base, None, Some("[::1]:4000".to_string()), None, None);
    assert_eq!(v6.bind_address, "[::1]:4000");

    let kept = apply_config_edits(
        &base,
        None,
        Some("not valid".to_string()),
        Some(0),
        Some("loud".to_string()),
    );
    assert_eq!(kept.db_path, base.db_path);
    assert_eq!(kept.bind_address, base.bind_address);
    assert_eq!(kept.batch_size_limit, base.batch_size_limit);
    assert_eq!(kept.log_level, base.log_level);

    let untouched = apply_config_edits(&base, None, None, None, None);
    assert_eq!(untouched, base);
}

#[test]
fn normalize_log_level_canonicalizes() {
    assert_eq!(normalize_log_level("INFO"), Some("info".to_string()));
    assert_eq!(normalize_log_level("Debug"), Some("debug".to_string()));
    assert_eq!(normalize_log_level("warn"), None);
    assert_eq!(normalize_log_level(""), None);
    assert!(is_debug_level("DEBUG"));
    assert!(is_debug_level("debug"));
    assert!(!is_debug_level("info"));
}

#[test]
fn read_u32_accepts_positive_decimals() {
    assert_eq!(read_u32(""), Ok(None));
    assert_eq!(read_u32("42"), Ok(Some(42)));
    assert_eq!(read_u32("+7"), Ok(Some(7)));
    assert_eq!(read_u32("007"), Ok(Some(7)));
    assert_eq!(read_u32("4294967295"), Ok(Some(4294967295)));
}

#[test]
fn read_u32_rejects_zero_and_junk() {
    assert!(read_u32("0").is_err());
    assert!(read_u32("-1").is_err());
    assert!(read_u32("12a").is_err());
    assert!(read_u32("4294967296").is_err());
    assert!(read_u32("+").is_err());
    assert!(read_u32("99999999999999999999").is_err());
}

#[test]
fn read_optional_string_empty_means_skip() {
    assert_eq!(read_optional_string("".to_string()), None);
    assert_eq!(read_optional_string("value".to_string()), Some("value".to_string()));
}

#[test]
fn db_commands_parse_case_insensitively() {
    assert_eq!(parse_db_command("insert"), DbCommand::Insert);
    assert_eq!(parse_db_command("INSERT"), DbCommand::Insert);
    assert_eq!(parse_db_command("Lookup"), DbCommand::Lookup);
    assert_eq!(parse_db_command("delete"), DbCommand::Delete);
    assert_eq!(parse_db_command("count"), DbCommand::Count);
    assert_eq!(parse_db_command("clear"), DbCommand::Clear);
    assert_eq!(parse_db_command("back"), DbCommand::Back);
    assert_eq!(parse_db_command("exit"), DbCommand::Back);
    assert_eq!(parse_db_command(""), DbCommand::Empty);
    assert_eq!(parse_db_command("drop"), DbCommand::Unknown);
}

#[test]
fn main_commands_parse_case_insensitively() {
    assert_eq!(parse_main_command("start"), MainCommand::Start);
    assert_eq!(parse_main_command("Config"), MainCommand::Config);
    assert_eq!(parse_main_command("db-manage"), MainCommand::DbManage);
    assert_eq!(parse_main_command("info"), MainCommand::Info);
    assert_eq!(parse_main_command("EXIT"), MainCommand::Exit);
    assert_eq!(parse_main_command(""), MainCommand::Empty);
    assert_eq!(parse_main_command("restart"), MainCommand::Unknown);
}

#[test]
fn confirmation_requires_the_word_yes() {
    assert!(confirmation_accepted("yes"));
    assert!(confirmation_accepted("YES"));
    assert!(confirmation_accepted("Yes"));
    assert!(!confirmation_accepted("y"));
    assert!(!confirmation_accepted("no"));
    assert!(!confirmation_accepted(""));
}

#[test]
fn mapping_input_bounds() {
    assert!(mapping_input_ok("u1", "+100"));
    assert!(!mapping_input_ok("", "+100"));
    assert!(!mapping_input_ok("u1", ""));
    let long = "x".repeat(100);
    assert!(mapping_input_ok(&long, "+100"));
    let too_long = "x".repeat(101);
    assert!(!mapping_input_ok(&too_long, "+100"));
    assert!(!mapping_input_ok("u1", &too_long));
}
