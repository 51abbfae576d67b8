use ffts_indexer::constants::{
    application_id_from_stored, application_id_to_stored, APPLICATION_ID_I32, DB_NAME,
    DB_SHM_SUFFIX, DB_TMP_GLOB, DB_WAL_SUFFIX, EXPECTED_APPLICATION_ID,
};
use ffts_indexer::db::{
    db_size_bytes, file_name_of, validate_busy_timeout, validate_cache_size, validate_mmap_size,
    validate_page_size, validate_synchronous, PragmaConfig, SchemaCheck,
};
use ffts_indexer::doctor::{format_bytes, DoctorSummary, Severity};
use ffts_indexer::error::ExitCode;
use ffts_indexer::hash::{hex_u64, wyhash};
use ffts_indexer::health::{
    check_health_fast, find_project_root, is_valid_ffts_database, AncestorProbe, DatabaseHealth,
    DbProbe, DetectionMethod,
};
use ffts_indexer::init::{
    gitignore_entries, gitignore_has_entry, gitignore_with_entries, missing_gitignore_entries, output_init_result,
    GitignoreResult, InitResult,
};
use ffts_indexer::number::{decimal_string, parse_i64};
use ffts_indexer::release::versions_match;

#[test]
fn test_versions_match() {
    assert!(versions_match("0.10.0", "0.10"));
    assert!(versions_match("0.10", "0.10"));
    assert!(!versions_match("0.11.0", "0.10"));
}

#[test]
fn test_application_id_roundtrip() {
    let roundtrip = u32::from_ne_bytes(APPLICATION_ID_I32.to_ne_bytes());
    assert_eq!(roundtrip, EXPECTED_APPLICATION_ID);
}

#[test]
fn application_id_conversions_keep_bits() {
    assert_eq!(application_id_from_stored(APPLICATION_ID_I32), EXPECTED_APPLICATION_ID);
    assert_eq!(application_id_to_stored(EXPECTED_APPLICATION_ID), APPLICATION_ID_I32);
    assert_eq!(application_id_from_stored(7), 7);
    assert_eq!(application_id_from_stored(-1), u32::MAX);
}

#[test]
fn test_wyhash_empty_string() {
    let hash = wyhash(b"");
    assert_eq!(hash.len(), 16);
    assert!(hash.chars().all(|c| c.is_ascii_hexdigit()));
}

#[test]
fn test_wyhash_hello() {
    let hash = wyhash(b"hello");
    assert_eq!(hash.len(), 16);
    assert!(hash.chars().all(|c| c.is_ascii_hexdigit()));
}

#[test]
fn hash_is_deterministic_lowercase_and_content_sensitive() {
    let a = wyhash(b"alpha");
    assert_eq!(a, wyhash(b"alpha"));
    assert_ne!(a, wyhash(b"beta"));
    assert!(a.chars().all(|c| c.is_ascii_digit() || ('a'..='f').contains(&c)));
    assert_eq!(a, format!("{:016x}", wyhash::wyhash(b"alpha", 0)));
}

#[test]
fn hex_rendering_is_zero_padded() {
    assert_eq!(hex_u64(0), "0000000000000000");
    assert_eq!(hex_u64(0xab), "00000000000000ab");
    assert_eq!(hex_u64(u64::MAX), "ffffffffffffffff");
}

#[test]
fn test_schema_check_missing_objects() {
    let check = SchemaCheck {
        has_files_table: true,
        has_fts_table: false,
        has_insert_trigger: true,
        has_update_trigger: false,
        has_delete_trigger: true,
        has_mtime_index: false,
        has_path_index: true,
        has_hash_index: true,
    };

    let missing = check.missing_objects();
    assert_eq!(missing.len(), 3);
    assert!(missing.contains(&"table: files_fts"));
    assert!(missing.contains(&"trigger: files_au"));
    assert!(missing.contains(&"index: idx_files_mtime"));
}

#[test]
fn schema_counts() {
    let check = SchemaCheck::from_counts([1, 1, 1, 0, 1, 1, 0, 1]);
    assert!(!check.is_complete());
    assert_eq!(check.table_count(), 2);
    assert_eq!(check.trigger_count(), 2);
    assert_eq!(check.index_count(), 2);
    let full = SchemaCheck::from_counts([1; 8]);
    assert!(full.is_complete());
    assert!(full.missing_objects().is_empty());
    assert_eq!(SchemaCheck::default().missing_objects().len(), 8);
}

#[test]
fn test_format_bytes() {
    assert_eq!(format_bytes(0), "0 bytes");
    assert_eq!(format_bytes(512), "512 bytes");
    assert_eq!(format_bytes(1024), "1.0 KB");
    assert_eq!(format_bytes(1536), "1.5 KB");
    assert_eq!(format_bytes(1024 * 1024), "1.0 MB");
    assert_eq!(format_bytes(1024 * 1024 * 1024), "1.0 GB");
}

#[test]
fn format_bytes_rounds_like_float_formatting() {
    for b in [1023u64, 1100, 1126, 1127, 5000, 1_000_000, 3_000_000_000, 123_456_789] {
        let expected = if b >= 1 << 30 {
            format!("{:.1} GB", b as f64 / (1u64 << 30) as f64)
        } else if b >= 1 << 20 {
            format!("{:.1} MB", b as f64 / (1u64 << 20) as f64)
        } else if b >= 1024 {
            format!("{:.1} KB", b as f64 / 1024.0)
        } else {
            format!("{b} bytes")
        };
        assert_eq!(format_bytes(b), expected);
    }
}

#[test]
fn doctor_summary_counts() {
    let s = DoctorSummary::from_severities(&vec![
        Severity::Pass,
        Severity::Warning,
        Severity::Pass,
        Severity::Error,
    ]);
    assert_eq!((s.pass, s.info, s.warn, s.fail), (2, 0, 1, 1));
    assert!(s.has_errors());
    assert!(s.has_warnings());
}

#[test]
fn error_test_exit_code_values() {
    assert_eq!(ExitCode::Success as u8, 0);
    assert_eq!(ExitCode::Software as u8, 1);
    assert_eq!(ExitCode::DataErr as u8, 2);
    assert_eq!(ExitCode::IoErr as u8, 3);
    assert_eq!(ExitCode::NoInput as u8, 4);
    assert_eq!(ExitCode::NoPerm as u8, 5);
    assert_eq!(ExitCode::NoPerm.code(), 5);
}

#[test]
fn test_exit_code_equality() {
    assert_eq!(ExitCode::Success, ExitCode::Success);
    assert_ne!(ExitCode::Success, ExitCode::Software);
}

#[test]
fn test_exit_code_clone() {
    let code = ExitCode::DataErr;
    let cloned = code;
    assert_eq!(code, cloned);
}

#[test]
fn test_exit_code_debug() {
    let code = ExitCode::IoErr;
    let debug_str = format!("{code:?}");
    assert!(debug_str.contains("IoErr"));
}

#[test]
fn test_health_enum_methods() {
    assert!(DatabaseHealth::Healthy.is_usable());
    assert!(!DatabaseHealth::Missing.is_usable());
    assert!(!DatabaseHealth::Corrupted.is_usable());

    assert!(DatabaseHealth::Missing.needs_init());
    assert!(DatabaseHealth::Empty.needs_init());
    assert!(!DatabaseHealth::Healthy.needs_init());

    assert!(DatabaseHealth::SchemaInvalid.needs_reinit());
    assert!(DatabaseHealth::Corrupted.needs_reinit());
    assert!(!DatabaseHealth::Missing.needs_reinit());

    assert!(DatabaseHealth::WrongApplicationId.is_unrecoverable());
    assert!(DatabaseHealth::Unreadable.is_unrecoverable());
    assert!(!DatabaseHealth::Corrupted.is_unrecoverable());
}

fn probe(exists: bool, opened: bool, id: Option<u32>, schema: bool, count: Option<u64>) -> DbProbe {
    DbProbe { exists, opened, application_id: id, schema_complete: schema, file_count: count }
}

#[test]
fn health_classification_in_probe_order() {
    let ours = Some(EXPECTED_APPLICATION_ID);
    assert_eq!(check_health_fast(&probe(false, true, ours, true, Some(3))), DatabaseHealth::Missing);
    assert_eq!(check_health_fast(&probe(true, false, ours, true, Some(3))), DatabaseHealth::Unreadable);
    assert_eq!(check_health_fast(&probe(true, true, Some(1), true, Some(3))), DatabaseHealth::WrongApplicationId);
    assert_eq!(check_health_fast(&probe(true, true, None, true, Some(3))), DatabaseHealth::Corrupted);
    assert_eq!(check_health_fast(&probe(true, true, ours, false, Some(3))), DatabaseHealth::SchemaInvalid);
    assert_eq!(check_health_fast(&probe(true, true, ours, true, None)), DatabaseHealth::Corrupted);
    assert_eq!(check_health_fast(&probe(true, true, ours, true, Some(0))), DatabaseHealth::Empty);
    assert_eq!(check_health_fast(&probe(true, true, ours, true, Some(1))), DatabaseHealth::Healthy);
}

fn ancestor(path: &str, db: DbProbe, git: bool) -> AncestorProbe {
    AncestorProbe { path: path.to_string(), database: db, has_git: git }
}

#[test]
fn corrupt_database_does_not_hijack_root() {
    // root/<DB_NAME> is a zero-byte file (opens, but has no header id); root/project has .git
    let empty_db = probe(true, true, None, false, None);
    let none = probe(false, false, None, false, None);
    let ancestors = vec![
        ancestor("/r/project", none, true),
        ancestor("/r", empty_db, false),
        ancestor("/", none, false),
    ];
    assert!(!is_valid_ffts_database(&empty_db));
    let root = find_project_root("/r/project", &ancestors);
    assert_eq!(root.path, "/r/project");
    assert_eq!(root.method, DetectionMethod::GitRepository);
}

#[test]
fn valid_database_wins_over_nearer_git() {
    let ours = probe(true, true, Some(EXPECTED_APPLICATION_ID), true, Some(1));
    let none = probe(false, false, None, false, None);
    let ancestors = vec![
        ancestor("/r/project/src", none, false),
        ancestor("/r/project", none, true),
        ancestor("/r", ours, false),
    ];
    let root = find_project_root("/r/project/src", &ancestors);
    assert_eq!(root.path, "/r");
    assert_eq!(root.method, DetectionMethod::ExistingDatabase);

    let foreign = probe(true, true, Some(0x1234_5678), true, Some(1));
    let ancestors = vec![ancestor("/a/b", none, false), ancestor("/a", foreign, false)];
    let root = find_project_root("/a/b", &ancestors);
    assert_eq!(root.path, "/a/b");
    assert_eq!(root.method, DetectionMethod::Fallback);
}

#[test]
fn test_gitignore_entries_match_constants() {
    let entries = gitignore_entries();

    assert_eq!(entries[0], DB_NAME);
    assert_eq!(entries[1], format!("{DB_NAME}{DB_SHM_SUFFIX}"));
    assert_eq!(entries[2], format!("{DB_NAME}{DB_WAL_SUFFIX}"));
    assert_eq!(entries[3], DB_TMP_GLOB);
}

#[test]
fn gitignore_missing_entries() {
    assert_eq!(missing_gitignore_entries("").len(), 4);
    let content = "target/\n  .ffts-index.db  \n# .ffts-index.db-wal\n.ffts-index.db-shm\r\n";
    assert!(gitignore_has_entry(content, ".ffts-index.db"));
    assert!(!gitignore_has_entry(content, ".ffts-index.db-wal"));
    assert_eq!(
        missing_gitignore_entries(content),
        vec![".ffts-index.db-wal", ".ffts-index.db.tmp*"]
    );
}

#[test]
fn init_report_text() {
    let r = InitResult {
        gitignore: GitignoreResult::Created(4),
        database_created: true,
        files_indexed: 12,
    };
    assert_eq!(
        output_init_result(&r, false),
        "\n\u{2713} .gitignore: Created with 4 entries\n\u{2713} Database: Created .ffts-index.db (12 files)\n\nTo use with file explorers or editors, run:\n  ffts-grep search <query>\n\nInitialization complete.\n"
    );
    let r = InitResult {
        gitignore: GitignoreResult::AlreadyComplete,
        database_created: false,
        files_indexed: 0,
    };
    assert_eq!(
        output_init_result(&r, false),
        "\n\u{2713} .gitignore: Already configured\n\nAlready initialized.\n"
    );
    assert_eq!(output_init_result(&r, true), "");
}

#[test]
fn pragma_defaults_and_validation() {
    let c = PragmaConfig::default();
    assert_eq!(c.journal_mode, "WAL");
    assert_eq!(c.cache_size, -32000);
    assert_eq!(c.mmap_size, 256 * 1024 * 1024);
    assert!(validate_cache_size("-1000").is_ok());
    assert!(validate_cache_size("-999").is_err());
    assert!(validate_cache_size("0").is_err());
    assert!(validate_cache_size("abc").is_err());
    assert!(validate_mmap_size("-1").is_err());
    assert!(validate_page_size("512").is_ok());
    assert!(validate_page_size("65537").is_err());
    assert!(validate_page_size("1000").is_err());
    assert!(validate_busy_timeout("0").is_ok());
    assert!(validate_busy_timeout("-5").is_err());
    assert_eq!(validate_synchronous("full"), Ok("FULL".to_string()));
    assert!(validate_synchronous("sometimes").is_err());
}

#[test]
fn integer_reading() {
    assert_eq!(parse_i64("42"), Some(42));
    assert_eq!(parse_i64("+7"), Some(7));
    assert_eq!(parse_i64("-9223372036854775808"), Some(i64::MIN));
    assert_eq!(parse_i64("9223372036854775807"), Some(i64::MAX));
    assert_eq!(parse_i64("9223372036854775808"), None);
    assert_eq!(parse_i64(""), None);
    assert_eq!(parse_i64("-"), None);
    assert_eq!(parse_i64(" 1"), None);
    assert_eq!(parse_i64("1_000"), None);
    assert_eq!(decimal_string(0), "0");
    assert_eq!(decimal_string(1234567), "1234567");
}

#[test]
fn store_value_conversions() {
    assert_eq!(db_size_bytes(10, 4096), Some(40960));
    assert_eq!(db_size_bytes(-1, 4096), None);
    assert_eq!(db_size_bytes(i64::MAX, 2), None);
    assert_eq!(file_name_of("docs/NOTES.md"), "NOTES.md");
    assert_eq!(file_name_of("NOTES.md"), "NOTES.md");
    assert_eq!(file_name_of("a/b/"), "b");
    assert_eq!(file_name_of("a/.."), "a/..");
}

#[test]
fn gitignore_update_content() {
    let all = missing_gitignore_entries("");
    assert_eq!(
        gitignore_with_entries("", &all),
        "# ffts-grep database files\n.ffts-index.db\n.ffts-index.db-shm\n.ffts-index.db-wal\n.ffts-index.db.tmp*\n"
    );
    assert_eq!(
        gitignore_with_entries("target/", &vec![".ffts-index.db"]),
        "target/\n\n# ffts-grep database files\n.ffts-index.db\n"
    );
    assert_eq!(
        gitignore_with_entries("# ffts-grep database files\n.ffts-index.db\n", &vec![".ffts-index.db-wal"]),
        "# ffts-grep database files\n.ffts-index.db\n.ffts-index.db-wal\n"
    );
}
