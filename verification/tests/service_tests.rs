//! Schedules, retention, migrations, the first start, probes, extraction and errors.

use simply_ip_sync::api::health::{health_check, readiness_check};
use simply_ip_sync::bootstrap::{banner, bootstrap_master_key, BootstrapError, BOOTSTRAP_SUBNET};
use simply_ip_sync::config::validate_initial_master_key;
use simply_ip_sync::crypto::{CryptoError, SecretCipher};
use simply_ip_sync::db::{has_index_query, is_sqlite_url, sqlite_pragma_statements, Backend};
use simply_ip_sync::error::AppError;
use simply_ip_sync::extract::{JsonRejection, StrictJson, StrictPath, StrictQuery};
use simply_ip_sync::json::JsonValue;
use simply_ip_sync::migration::{
    add_marker_statement, attribution_columns, audit_log_foreign_key, backfill_statement,
    check_masters, copy_statement, table_definition, Attribution, DeleteAction, UNRECORDED,
};
use simply_ip_sync::net::parse_address;
use simply_ip_sync::proxies::TrustedProxies;
use simply_ip_sync::retention::{
    is_purged, purge_threshold, retention_days_from_env, retention_plan, sweep_seconds_from_env, RetentionPlan,
    DEFAULT_AUDIT_LOG_RETENTION_DAYS, DEFAULT_SYNC_LOG_RETENTION_DAYS,
};
use simply_ip_sync::scheduler::{normalize_cron, schedule_for, validate_cron_expression, JobRegistry};
use simply_ip_sync::state::StartupConfigError;
use simply_ip_sync::text::{
    decimal_string, first_chars, parse_signed, parse_unsigned, signed_string, split_lines,
    split_whitespace, trim,
};
use simply_ip_sync::time::Timestamp;

const NOW: Timestamp = Timestamp { secs: 1_700_000_000, nanos: 9 };

// Schedules

#[test]
fn normalize_cron_prepends_seconds_to_5_field_expression() {
    assert_eq!(normalize_cron("0 0 * * *"), "0 0 0 * * *");
}

#[test]
fn normalize_cron_leaves_6_field_expression_unchanged() {
    assert_eq!(normalize_cron("*/30 * * * * *"), "*/30 * * * * *");
}

#[test]
fn validate_cron_expression_accepts_conventional_5_field_forms() {
    assert!(validate_cron_expression("0 0 * * *").is_ok());
    assert!(validate_cron_expression("*/15 * * * *").is_ok());
    assert!(validate_cron_expression("0 3 * * 1").is_ok());
}

#[test]
fn validate_cron_expression_accepts_6_field_forms() {
    assert!(validate_cron_expression("0 */5 * * * *").is_ok());
}

#[test]
fn validate_cron_expression_rejects_garbage() {
    assert!(validate_cron_expression("invalid_cron").is_err());
    assert!(validate_cron_expression("* * *").is_err());
    assert!(validate_cron_expression("").is_err());
    assert!(validate_cron_expression("   ").is_err());
    assert!(validate_cron_expression("99 99 99 * *").is_err());
}

#[test]
fn a_refused_schedule_says_why() {
    assert_eq!(validate_cron_expression("  ").expect_err("blank"), "cron_schedule must not be empty");
    assert!(validate_cron_expression("* * *").expect_err("three fields").contains("six fields"));
}

#[test]
fn a_resource_has_one_job() {
    let mut jobs = JobRegistry::new();
    assert_eq!(jobs.withdraw(1), None);
    jobs.enlist(1, 10);
    jobs.enlist(2, 20);
    assert_eq!(jobs.withdraw(1), Some(10));
    jobs.enlist(1, 11);
    assert_eq!(jobs.withdraw(1), Some(11));
    assert_eq!(jobs.withdraw(1), None);
    assert_eq!(jobs.withdraw(2), Some(20));
}

#[test]
fn only_active_resources_are_scheduled() {
    assert_eq!(schedule_for(true, "0 0 * * *"), Some("0 0 0 * * *".to_owned()));
    assert_eq!(schedule_for(false, "0 0 * * *"), None);
}

// Retention

#[test]
fn a_malformed_env_override_falls_back_to_the_default_rather_than_aborting() {
    let days = retention_days_from_env(Some("not-a-number"), DEFAULT_SYNC_LOG_RETENTION_DAYS);
    assert_eq!(days, DEFAULT_SYNC_LOG_RETENTION_DAYS);
}

#[test]
fn retention_values_are_read() {
    assert_eq!(retention_days_from_env(None, 92), 92);
    assert_eq!(retention_days_from_env(Some(" 7 "), 92), 7);
    assert_eq!(retention_days_from_env(Some("0"), 92), 0);
    assert_eq!(retention_days_from_env(Some("-1"), 92), 92);
    assert_eq!(sweep_seconds_from_env(None), 3_600);
    assert_eq!(sweep_seconds_from_env(Some("0")), 1);
    assert_eq!(sweep_seconds_from_env(Some("often")), 3_600);
    assert_eq!(sweep_seconds_from_env(Some("60")), 60);
}

#[test]
fn the_worker_runs_unless_both_windows_are_disabled() {
    assert_eq!(retention_plan(Some("0"), Some("0"), None), None);
    assert_eq!(
        retention_plan(None, None, None),
        Some(RetentionPlan {
            sync_log_days: DEFAULT_SYNC_LOG_RETENTION_DAYS,
            audit_log_days: DEFAULT_AUDIT_LOG_RETENTION_DAYS,
            sweep_seconds: 3_600,
        })
    );
    assert_eq!(retention_plan(Some("0"), Some("30"), Some("5")).map(|p| (p.audit_log_days, p.sweep_seconds)), Some((30, 5)));
}

#[test]
fn the_window_starts_whole_days_before_now() {
    assert_eq!(purge_threshold(92, NOW), Some(Timestamp { secs: 1_700_000_000 - 92 * 86_400, nanos: 9 }));
    assert_eq!(purge_threshold(0, NOW), None);
    assert_eq!(purge_threshold(-5, NOW), None);
}

/// A row that is `days` old.
fn aged(days: i64) -> Timestamp {
    Timestamp { secs: NOW.secs - days * 86_400, nanos: NOW.nanos }
}

/// How many rows are past a window, and how many stay.
fn purge(rows: &[Timestamp], days: i64) -> (usize, usize) {
    let purged = rows.iter().filter(|t| is_purged(**t, days, NOW)).count();
    (purged, rows.len() - purged)
}

#[test]
fn purge_removes_only_sync_logs_older_than_the_window() {
    let (purged, remaining) = purge(&[aged(100), aged(10)], 92);
    assert_eq!(purged, 1, "only the 100-day-old row is past a 92-day window");
    assert_eq!(remaining, 1, "the 10-day-old row must survive");
}

#[test]
fn purge_removes_only_audit_logs_older_than_the_window() {
    let (purged, remaining) = purge(&[aged(400), aged(30)], 365);
    assert_eq!(purged, 1, "only the 400-day-old row is past a 365-day window");
    assert_eq!(remaining, 1, "the 30-day-old row must survive");
}

#[test]
fn a_non_positive_retention_window_disables_purging() {
    assert_eq!(purge(&[aged(9999)], 0), (0, 1));
    assert_eq!(purge(&[aged(92)], 92), (0, 1), "a row as old as the window stays");
    assert_eq!(purge(&[aged(93)], 92), (1, 0));
}

// Migrations

#[test]
fn the_backfill_value_cannot_be_confused_with_a_real_one() {
    assert!(UNRECORDED.starts_with('('), "{UNRECORDED} must not look like a key name or address");
    assert!(!UNRECORDED.chars().any(|c| c.is_ascii_alphanumeric() && c.is_uppercase()));
    assert!(parse_address(UNRECORDED).is_none(), "must not parse as an address");
}

#[test]
fn the_two_definitions_differ_only_in_nullability() {
    let strict = table_definition(true);
    let loose = table_definition(false);
    let required = |columns: &Vec<simply_ip_sync::migration::ColumnSpec>| columns.iter().filter(|c| c.not_null).count();

    assert_ne!(required(&strict), required(&loose), "the flag must actually change the definition");
    assert_eq!(required(&strict), required(&loose) + attribution_columns().len(), "exactly the three attribution columns");
    for column in attribution_columns() {
        let name = column.as_str();
        assert!(strict.iter().any(|c| c.name == name && c.not_null), "{name} missing from the strict definition");
        assert!(loose.iter().any(|c| c.name == name && !c.not_null), "{name} missing from the loose definition");
    }
    for (a, b) in strict.iter().zip(loose.iter()) {
        assert_eq!((a.name, a.kind, a.primary_key), (b.name, b.kind, b.primary_key));
    }
    assert_eq!(audit_log_foreign_key().on_delete, DeleteAction::SetNull, "the ON DELETE SET NULL cascade is preserved");
}

#[test]
fn the_audit_trail_refers_to_keys_that_may_go() {
    let reference = audit_log_foreign_key();
    assert_eq!((reference.name, reference.table, reference.references), ("fk-audit_logs-api_key", "api_keys", "id"));
    for definition in [table_definition(true), table_definition(false)] {
        assert!(definition.iter().any(|c| c.name == reference.column && !c.not_null));
    }
}

#[test]
fn migration_statements_are_exact() {
    assert_eq!(
        add_marker_statement(Backend::Postgres),
        "ALTER TABLE api_keys ADD COLUMN master_marker INTEGER GENERATED ALWAYS AS (CASE WHEN is_master THEN 1 ELSE NULL END) STORED"
    );
    assert!(add_marker_statement(Backend::Sqlite).ends_with(" VIRTUAL"));
    assert!(add_marker_statement(Backend::MySql).ends_with(" VIRTUAL"));
    assert_eq!(
        backfill_statement(Attribution::ClientIp),
        "UPDATE audit_logs SET client_ip = '(unknown)' WHERE client_ip IS NULL"
    );
    assert_eq!(
        copy_statement(),
        "INSERT INTO audit_logs_rebuild (id, api_key_id, api_key_name, api_key_prefix, client_ip, action, target_resource, details, timestamp) SELECT id, api_key_id, api_key_name, api_key_prefix, client_ip, action, target_resource, details, timestamp FROM audit_logs"
    );
    assert!(check_masters(0).is_ok() && check_masters(1).is_ok());
    assert_eq!(
        check_masters(2).expect_err("two"),
        "refusing to add master_marker: 2 rows already have is_master=true, expected at most 1"
    );
}

#[test]
fn databases_are_asked_in_their_own_words() {
    assert!(is_sqlite_url("sqlite://data.db?mode=rwc"));
    assert!(!is_sqlite_url("sqlite::memory:"));
    assert!(!is_sqlite_url("postgres://host/db"));
    assert_eq!(
        sqlite_pragma_statements(),
        vec![
            "PRAGMA foreign_keys = ON".to_owned(),
            "PRAGMA synchronous = NORMAL".to_owned(),
            "PRAGMA busy_timeout = 5000".to_owned(),
        ]
    );
    assert!(has_index_query(Backend::Sqlite).contains("sqlite_master"));
    assert!(has_index_query(Backend::Postgres).contains("pg_indexes"));
    assert!(has_index_query(Backend::MySql).contains("information_schema"));
}

// The first start

#[test]
fn the_first_start_makes_the_master_key() {
    let made = bootstrap_master_key(0, None, Ok(SecretCipher::Plaintext), Some(String::new()), 5, NOW)
        .expect("made")
        .expect("there was none");
    assert!(made.row.is_master && made.row.can_manage_keys && made.row.can_manage_sources && made.row.can_manage_vaults);
    assert_eq!(made.row.name, "Master");
    assert_eq!(made.row.id, 5);
    assert_eq!(made.row.bound_ips.as_deref(), Some(BOOTSTRAP_SUBNET));
    assert_eq!(made.row.parent_key_id, None);
    assert!(!made.key_was_supplied && !made.secret_was_supplied);
    assert!(validate_initial_master_key(&made.plaintext_key).is_ok());
    assert_eq!(made.row.key_hash, simply_ip_sync::api::support::hash_key(&made.plaintext_key));
    assert!(made.plaintext_key.starts_with(&made.row.prefix) && made.row.prefix.len() == 8);
    let sealed = made.row.signing_secret.expect("a secret");
    assert_eq!(SecretCipher::Plaintext.open(&sealed).expect("opens"), made.signing_secret);
}

#[test]
fn supplied_credentials_are_used_or_refused() {
    let key = "c".repeat(64);
    let secret = "D".repeat(64);
    let cipher = SecretCipher::from_hex_key(&"ab".repeat(32)).expect("a key");
    let made = bootstrap_master_key(0, Some(key.clone()), Ok(cipher), Some(secret.clone()), 5, NOW)
        .expect("made")
        .expect("there was none");
    assert_eq!((made.plaintext_key, made.signing_secret), (key.clone(), secret));
    assert!(made.key_was_supplied && made.secret_was_supplied);

    assert!(bootstrap_master_key(1, Some("bad".to_owned()), Ok(cipher), None, 5, NOW).expect("nothing to do").is_none());
    match bootstrap_master_key(0, Some("bad".to_owned()), Err(CryptoError::InvalidKey), None, 5, NOW) {
        Err(BootstrapError::MasterKey(e)) => assert_eq!(e.got, 3),
        other => panic!("{other:?}"),
    }
    match bootstrap_master_key(0, Some(key.clone()), Err(CryptoError::InvalidKey), Some("bad".to_owned()), 5, NOW) {
        Err(e) => assert_eq!(e.message(), "invalid encryption key"),
        Ok(_) => panic!("the encryption key is malformed"),
    }
    match bootstrap_master_key(0, Some(key), Ok(cipher), Some("bad".to_owned()), 5, NOW) {
        Err(BootstrapError::SigningSecret(e)) => assert_eq!(e.got, 3),
        other => panic!("{other:?}"),
    }
}

#[test]
fn the_banner_shows_the_credentials_in_a_box() {
    let key = "a".repeat(64);
    let shown = banner(&key, "secret");
    let lines: Vec<&str> = shown.lines().collect();
    assert_eq!(lines.len(), 11);
    assert_eq!(lines[0], "");
    assert_eq!(lines[1], format!("╔{}╗", "═".repeat(82)));
    assert_eq!(lines[2], format!("║ {:<82} ║", "BOOTSTRAP: Master API Key Generated"));
    assert_eq!(lines[4], format!("║ {:<82} ║", format!("X-API-Key      : {key}")));
    assert_eq!(lines[5], format!("║ {:<82} ║", "Signing secret : secret"));
    assert_eq!(lines[10], format!("╚{}╝", "═".repeat(82)));
    assert!(!shown.ends_with('\n'));
}

#[test]
fn startup_errors_name_their_setting() {
    assert_eq!(
        StartupConfigError::EncryptionKey(CryptoError::InvalidKey).message(),
        "invalid SYNC_ENCRYPTION_KEY: invalid encryption key"
    );
    let proxies = match TrustedProxies::from_env(Some("1.2.3")) {
        Err(e) => StartupConfigError::TrustedProxies(e).message(),
        Ok(_) => panic!("malformed"),
    };
    assert!(proxies.starts_with("invalid TRUSTED_PROXIES: 1 invalid TRUSTED_PROXIES entry: "), "{proxies}");
    assert_eq!(StartupConfigError::HttpClient("tls".to_owned()).message(), "failed to build outbound HTTP client: tls");
    assert_eq!(StartupConfigError::Scheduler("x".to_owned()).message(), "failed to start scheduler: x");
}

// Probes, extraction and errors

fn text_entry<'a>(body: &'a JsonValue, key: &str) -> &'a str {
    body.get(key).and_then(|v| v.as_str()).expect("a text entry")
}

#[test]
fn probes_answer_without_detail() {
    let live = health_check();
    assert_eq!((text_entry(&live, "status"), text_entry(&live, "service")), ("ok", "simply_ip_sync"));
    let (status, body) = readiness_check(true, true);
    assert_eq!((status, text_entry(&body, "status")), (200, "ok"));
    for (db, master) in [(false, true), (true, false), (false, false)] {
        let (status, body) = readiness_check(db, master);
        assert_eq!((status, text_entry(&body, "status")), (503, "not_ready"));
    }
}

#[test]
fn refused_requests_get_the_error_envelope() {
    let status = |e: AppError| e.into_response().0;
    assert_eq!(StrictJson::accept(Ok(3u8)).map(|j| j.0).ok(), Some(3));
    for rejection in [
        JsonRejection::Data("d".to_owned()),
        JsonRejection::Syntax("s".to_owned()),
        JsonRejection::MissingContentType("c".to_owned()),
        JsonRejection::Other("o".to_owned()),
    ] {
        assert_eq!(status(StrictJson::<u8>::accept(Err(rejection)).err().expect("refused")), 400);
    }
    let large = StrictJson::<u8>::accept(Err(JsonRejection::Bytes("b".to_owned()))).err().expect("refused");
    assert_eq!(status(large), 413);
    assert_eq!(StrictPath::accept(Some(4u8)).map(|p| p.0).ok(), Some(4));
    assert_eq!(status(StrictPath::<u8>::accept(None).err().expect("refused")), 404);
    assert_eq!(StrictQuery::accept(Ok(5u8)).map(|q| q.0).ok(), Some(5));
    assert_eq!(status(StrictQuery::<u8>::accept(Err("q".to_owned())).err().expect("refused")), 400);
}

#[test]
fn every_error_has_its_status_and_message() {
    let cases: Vec<(AppError, u16, &str)> = vec![
        (AppError::DbError("table missing".to_owned()), 500, "Internal server error"),
        (AppError::InvalidInput("bad".to_owned()), 400, "bad"),
        (AppError::Unauthorized("who".to_owned()), 401, "who"),
        (AppError::Forbidden("no".to_owned()), 403, "no"),
        (AppError::NotFound, 404, "Resource not found"),
        (AppError::Conflict("taken".to_owned()), 409, "taken"),
        (AppError::BodyRejected(415, "type".to_owned()), 415, "type"),
        (AppError::Internal, 500, "Internal server error"),
        (AppError::from_crypto(CryptoError::DecryptionFailed), 500, "Internal server error"),
    ];
    for (error, status, shown) in cases {
        let (code, body) = error.into_response();
        assert_eq!((code, text_entry(&body, "error")), (status, shown));
    }
    let detailed = AppError::ConflictWithDetails {
        message: "owns".to_owned(),
        details: JsonValue::Object(vec![("count".to_owned(), JsonValue::Number("2".to_owned()))]),
    };
    let (code, body) = detailed.into_response();
    assert_eq!((code, text_entry(&body, "error")), (409, "owns"));
    assert!(matches!(body.get("count"), Some(JsonValue::Number(n)) if n == "2"));
}

// Text

#[test]
fn numbers_are_read_as_rust_reads_them() {
    for s in ["0", "7", "+7", "007", "18446744073709551615", "18446744073709551616", "-1", "", "+", "1_0", " 1"] {
        assert_eq!(parse_unsigned(s, u64::MAX), s.parse::<u64>().ok(), "{s:?}");
    }
    for s in ["0", "-7", "+7", "9223372036854775807", "-9223372036854775808", "9223372036854775808", "--1", "-", ""] {
        assert_eq!(parse_signed(s), s.parse::<i64>().ok(), "{s:?}");
    }
    for n in [0u64, 9, 10, 4_096, u64::MAX] {
        assert_eq!(decimal_string(n), n.to_string());
    }
    for n in [0i64, -1, 42, i64::MIN, i64::MAX] {
        assert_eq!(signed_string(n), n.to_string());
    }
}

#[test]
fn text_is_taken_apart_as_rust_takes_it_apart() {
    for s in ["", "  ", "\u{a0} a\u{2003}b\t", "one\r\ntwo\nthree\r", "\n\n", "tail\n"] {
        assert_eq!(trim(s), s.trim(), "{s:?}");
        assert_eq!(split_whitespace(s), s.split_whitespace().map(str::to_owned).collect::<Vec<_>>(), "{s:?}");
        assert_eq!(split_lines(s), s.lines().map(str::to_owned).collect::<Vec<_>>(), "{s:?}");
        assert_eq!(first_chars(s, 3), s.chars().take(3).collect::<String>(), "{s:?}");
    }
}
