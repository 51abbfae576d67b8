use ffts_indexer::indexer::{
    checked_i64_from_u64, decide_entry, is_database_file, is_within_root, read_limit,
    relative_path, EntryAction, EntryFacts, EntryOutcome, IndexRun, IndexerConfig, TxStatement,
};
use ffts_indexer::query::{is_blank_str, sanitize_query, trim_ws};
use ffts_indexer::search::{
    escape_like_pattern, filename_search_terms, first_token, fulltext_request, merge_hits,
    SearchConfig, SearchHit,
};
use ffts_indexer::swap::{
    backup_db_name, decide_swap, shm_name, temp_db_name, wal_name, Checkpoint, SwapAction,
};

fn strings(v: &[&str]) -> Vec<String> {
    v.iter().map(|s| s.to_string()).collect()
}

#[test]
fn test_sanitize_query_simple() {
    assert_eq!(sanitize_query("hello world"), "hello world");
}

#[test]
fn test_sanitize_query_special_chars() {
    let sanitized = sanitize_query("test*query\"with()special");
    assert!(!sanitized.contains('*'));
    assert!(!sanitized.contains('"'));
    assert!(!sanitized.contains('('));
    assert!(!sanitized.contains(')'));
    assert!(!sanitized.contains("  "));
}

#[test]
fn test_sanitize_query_collapses_whitespace() {
    assert_eq!(sanitize_query("a*b\"c   d"), "a b c d");
}

#[test]
fn test_auto_prefix_trailing_hyphen() {
    assert_eq!(sanitize_query("01-"), "01*");
}

#[test]
fn test_auto_prefix_trailing_underscore() {
    assert_eq!(sanitize_query("test_"), "test*");
}

#[test]
fn test_no_auto_prefix_for_normal_query() {
    let sanitized = sanitize_query("intro");
    assert!(!sanitized.contains('*'));
    assert_eq!(sanitized, "intro");
}

#[test]
fn test_auto_prefix_multi_word_query() {
    let sanitized = sanitize_query("hello world-");
    assert!(sanitized.ends_with('*'));
    assert_eq!(sanitized, "hello world*");
}

#[test]
fn test_auto_prefix_only_hyphen() {
    assert!(sanitize_query("-").is_empty());
}

#[test]
fn sanitize_is_idempotent_without_prefix() {
    for q in ["  a.b/c  ", "x\t\ny", "foo(bar):baz", "ünï côde", "a - b", ""] {
        let once = sanitize_query(q);
        assert_eq!(sanitize_query(&once), once);
    }
    // a granted prefix request settles on the second pass
    assert_eq!(sanitize_query(&sanitize_query("01-")), "01");
    assert_eq!(sanitize_query("  trailing_  "), "trailing*");
}

#[test]
fn trimming_and_blank_queries() {
    assert_eq!(trim_ws("\u{3000} x y \t"), "x y");
    assert!(is_blank_str(" \n\t"));
    assert!(is_blank_str(""));
    assert!(!is_blank_str(" a "));
}

#[test]
fn like_escaping() {
    assert_eq!(escape_like_pattern("50%_a\\b"), "50\\%\\_a\\\\b");
    assert_eq!(escape_like_pattern("plain"), "plain");
}

#[test]
fn filename_terms_strip_wildcards() {
    assert_eq!(filename_search_terms("  01*  "), Some(("01".to_string(), "01".to_string())));
    assert_eq!(
        filename_search_terms("my_file*"),
        Some(("my\\_file".to_string(), "my_file".to_string()))
    );
    assert_eq!(filename_search_terms("***"), None);
    assert_eq!(filename_search_terms("   "), None);
    assert_eq!(first_token("notes code"), "notes");
    assert_eq!(first_token("  one"), "one");
}

#[test]
fn two_phase_merge_dedups_and_orders() {
    let a = strings(&["test.rs"]);
    let b = strings(&["test.rs", "other.rs"]);
    let hits = merge_hits(&a, &b, 15);
    assert_eq!(
        hits,
        vec![
            SearchHit { path: "test.rs".to_string(), fulltext_index: None },
            SearchHit { path: "other.rs".to_string(), fulltext_index: Some(1) },
        ]
    );
}

#[test]
fn filename_boost_puts_filename_hits_first() {
    let a = strings(&["NOTES.md", "docs/PROJECT-VS-NOTES-SDK.md"]);
    let b = strings(&["docs/PROJECT-VS-NOTES-SDK.md", "README.md", "NOTES.md"]);
    let hits = merge_hits(&a, &b, 15);
    let paths: Vec<&str> = hits.iter().map(|h| h.path.as_str()).collect();
    assert_eq!(paths, vec!["NOTES.md", "docs/PROJECT-VS-NOTES-SDK.md", "README.md"]);
    assert!(hits[0].fulltext_index.is_none());
    assert_eq!(hits[2].fulltext_index, Some(1));
}

#[test]
fn merge_respects_max_results() {
    let a = strings(&["a", "b", "c"]);
    let b = strings(&["d", "e"]);
    assert_eq!(merge_hits(&a, &b, 2).len(), 2);
    assert_eq!(merge_hits(&a, &b, 4).len(), 4);
    assert_eq!(merge_hits(&a, &b, 0).len(), 0);
    assert_eq!(fulltext_request(15, &strings(&["a", "b", "c"])), Some(15));
    assert_eq!(fulltext_request(15, &strings(&["a", "b", "a"])), Some(14));
    assert_eq!(fulltext_request(2, &strings(&["a", "b", "c"])), None);
    assert_eq!(fulltext_request(15, &Vec::new()), Some(15));
    assert_eq!(SearchConfig::default().max_results, 15);
}

#[test]
fn database_files_are_skipped() {
    for name in [
        ".ffts-index.db",
        ".ffts-index.db-wal",
        ".ffts-index.db-shm",
        ".ffts-index.db.tmp",
        ".ffts-index.db.tmp.123_abc",
        "data.sqlite",
        "x.sqlite3",
        "other.db",
        "a.db.tmp",
    ] {
        assert!(is_database_file(name), "{name}");
    }
    for name in ["main.rs", "db.rs", "README.md", "sqlite.txt"] {
        assert!(!is_database_file(name), "{name}");
    }
}

#[test]
fn containment_checks() {
    assert!(is_within_root("/r/a/b.txt", "/r"));
    assert!(is_within_root("/r", "/r"));
    assert!(!is_within_root("/etc/passwd", "/r"));
    assert!(!is_within_root("/rx/a", "/r"));
    assert!(!is_within_root("/r/../etc/passwd", "/r"));
    assert!(is_within_root("/r/a..b", "/r"));
    assert_eq!(relative_path("/r/src/main.rs", "/r"), Some("src/main.rs".to_string()));
    assert_eq!(relative_path("/r/src/main.rs", "/r/"), Some("src/main.rs".to_string()));
    assert_eq!(relative_path("/q/main.rs", "/r"), None);
}

fn facts(name: &str, sym: Option<bool>, within: Option<bool>, dir: bool, size: Option<u64>) -> EntryFacts {
    EntryFacts {
        file_name: name.to_string(),
        is_symlink: sym,
        target_within_root: within,
        is_dir: dir,
        size,
    }
}

#[test]
fn entry_decisions() {
    let cfg = IndexerConfig::default();
    let follow = IndexerConfig { follow_symlinks: true, ..IndexerConfig::default() };
    assert_eq!(decide_entry(&cfg, &facts(".ffts-index.db", Some(false), None, false, Some(1))), EntryAction::Ignore);
    assert_eq!(decide_entry(&cfg, &facts("a.rs", Some(false), None, false, Some(10))), EntryAction::Read(10));
    assert_eq!(decide_entry(&cfg, &facts("a.rs", Some(true), Some(true), false, Some(10))), EntryAction::Skip);
    assert_eq!(decide_entry(&follow, &facts("escape", Some(true), Some(false), false, Some(10))), EntryAction::Skip);
    assert_eq!(decide_entry(&follow, &facts("ok", Some(true), Some(true), false, Some(10))), EntryAction::Read(10));
    assert_eq!(decide_entry(&cfg, &facts("src", Some(false), None, true, Some(0))), EntryAction::Ignore);
    assert_eq!(decide_entry(&cfg, &facts("big", Some(false), None, false, Some(1024 * 1024 + 1))), EntryAction::Skip);
    assert_eq!(decide_entry(&cfg, &facts("odd", None, None, false, Some(1))), EntryAction::Skip);
    assert_eq!(decide_entry(&cfg, &facts("gone", Some(false), None, false, None)), EntryAction::MetadataFailed);
    assert_eq!(read_limit(1024), 1025);
    assert_eq!(read_limit(u64::MAX), u64::MAX);
    assert_eq!(checked_i64_from_u64(5), Some(5));
    assert_eq!(checked_i64_from_u64(u64::MAX), None);
}

#[test]
fn batching_begins_at_threshold_and_commits_per_batch() {
    let cfg = IndexerConfig { batch_size: 60, ..IndexerConfig::default() };
    let mut run = IndexRun::new(&cfg);
    let mut begins = 0;
    let mut commits = 0;
    for i in 1..=75u64 {
        let stmts = run.record(EntryOutcome::Indexed(i));
        if i == 50 {
            assert_eq!(stmts, vec![TxStatement::BeginImmediate]);
        }
        if i == 60 {
            assert_eq!(stmts, vec![TxStatement::Commit, TxStatement::BeginImmediate]);
        }
        begins += stmts.iter().filter(|s| **s == TxStatement::BeginImmediate).count();
        commits += stmts.iter().filter(|s| **s == TxStatement::Commit).count();
    }
    // after the commit at 60 the count restarts at 50, so the next one is at entry 70
    assert_eq!((begins, commits), (3, 2));
    assert!(run.record(EntryOutcome::Skipped).is_empty());
    assert_eq!(run.stats.files_indexed, 75);
    assert_eq!(run.stats.files_skipped, 1);
    assert_eq!(run.stats.bytes_indexed, 75 * 76 / 2);
    assert_eq!(run.finish(), vec![TxStatement::Commit]);
    assert!(run.finish().is_empty());
}

#[test]
fn small_runs_use_autocommit_and_failures_roll_back() {
    let mut run = IndexRun::new(&IndexerConfig::default());
    for _ in 0..10 {
        assert!(run.record(EntryOutcome::Indexed(1)).is_empty());
    }
    assert!(run.finish().is_empty());

    let mut run = IndexRun::new(&IndexerConfig::default());
    for _ in 0..50 {
        run.record(EntryOutcome::Indexed(1));
    }
    assert_eq!(run.record(EntryOutcome::StoreFailed), vec![TxStatement::Rollback]);
}

#[test]
fn swap_names_and_decisions() {
    assert_eq!(temp_db_name(1234, 0xbeef), ".ffts-index.db.tmp.1234_beef");
    assert_eq!(backup_db_name(1700000000), ".ffts-index.db.backup.1700000000");
    assert_eq!(shm_name(".ffts-index.db"), ".ffts-index.db-shm");
    assert_eq!(wal_name("x"), "x-wal");
    let done = Some(Checkpoint { busy: 1, log: 5, checkpointed: 5 });
    let partial = Some(Checkpoint { busy: 0, log: 5, checkpointed: 3 });
    assert_eq!(decide_swap(done, false), SwapAction::Install);
    assert_eq!(decide_swap(done, true), SwapAction::KeepExisting);
    assert_eq!(decide_swap(partial, false), SwapAction::Fail);
    assert_eq!(decide_swap(partial, true), SwapAction::KeepExisting);
    assert_eq!(decide_swap(None, false), SwapAction::Fail);
}
