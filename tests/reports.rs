use ffts_indexer::constants::DB_NAME;
use ffts_indexer::doctor::{DoctorSummary, Severity};
use ffts_indexer::indexer::{checked_i64_from_u64, is_within_root};
use ffts_indexer::init::{output_init_result, GitignoreResult, InitResult};

#[test]
fn test_is_within_root() {
    let root = "/tmp/project";
    let test_file = format!("{root}/test.rs");
    assert!(is_within_root(&test_file, root));

    let outside = "/etc/passwd";
    assert!(!is_within_root(outside, root));
}

#[test]
fn test_checked_i64_from_u64_ok() {
    let value = checked_i64_from_u64(42).unwrap();
    assert_eq!(value, 42);
}

#[test]
fn test_checked_i64_from_u64_overflow() {
    assert!(checked_i64_from_u64(u64::MAX).is_none());
}

#[test]
fn test_gitignore_result_output() {
    let result = InitResult {
        gitignore: GitignoreResult::Created(4),
        database_created: true,
        files_indexed: 100,
    };

    let output_str = output_init_result(&result, false);

    assert!(output_str.contains("Created with 4 entries"));
    assert!(output_str.contains("100 files"));
    assert!(output_str.contains(DB_NAME));
    assert!(output_str.contains("ffts-grep search"));
}

#[test]
fn test_gitignore_result_quiet() {
    let result = InitResult {
        gitignore: GitignoreResult::Created(4),
        database_created: true,
        files_indexed: 100,
    };

    assert!(output_init_result(&result, true).is_empty());
}

#[test]
fn test_doctor_summary_from_checks() {
    let checks = vec![Severity::Pass, Severity::Warning, Severity::Error];

    let summary = DoctorSummary::from_severities(&checks);
    assert_eq!(summary.pass, 1);
    assert_eq!(summary.warn, 1);
    assert_eq!(summary.fail, 1);
    assert!(summary.has_errors());
    assert!(summary.has_warnings());
}
