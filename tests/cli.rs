use ffts_indexer::cli::{Cli, CliError, Commands};
use ffts_indexer::constants::DB_NAME;
use ffts_indexer::db::PragmaConfig;

const BIN_NAME: &str = "ffts-grep";

fn argv(args: &[&str]) -> Vec<String> {
    args.iter().map(|s| s.to_string()).collect()
}

fn parse(args: &[&str]) -> Cli {
    Cli::try_parse_from(&argv(args)).unwrap()
}

#[test]
fn test_subcommand_index() {
    let cli = parse(&[BIN_NAME, "index"]);
    assert!(cli.wants_index());
    assert!(!cli.wants_reindex());

    let cli = parse(&[BIN_NAME, "index", "--reindex"]);
    assert!(cli.wants_index());
    assert!(cli.wants_reindex());
}

#[test]
fn test_subcommand_index_reindex_conflict() {
    let cli = parse(&[BIN_NAME, "index", "--reindex"]);
    assert!(cli.wants_index());
    assert!(cli.wants_reindex());
}

#[test]
fn test_subcommand_doctor() {
    let cli = parse(&[BIN_NAME, "doctor"]);
    assert!(cli.wants_doctor());
    match &cli.command {
        Some(Commands::Doctor { verbose, json }) => {
            assert!(!*verbose);
            assert!(!*json);
        }
        _ => panic!("Expected Doctor subcommand"),
    }
}

#[test]
fn test_subcommand_doctor_verbose() {
    let cli = parse(&[BIN_NAME, "doctor", "-v"]);
    assert!(cli.wants_doctor());
    match &cli.command {
        Some(Commands::Doctor { verbose, json }) => {
            assert!(*verbose);
            assert!(!*json);
        }
        _ => panic!("Expected Doctor subcommand"),
    }

    let cli = parse(&[BIN_NAME, "doctor", "--verbose"]);
    assert!(cli.wants_doctor());
    match &cli.command {
        Some(Commands::Doctor { verbose, .. }) => assert!(*verbose),
        _ => panic!("Expected Doctor subcommand"),
    }
}

#[test]
fn test_subcommand_doctor_json() {
    let cli = parse(&[BIN_NAME, "doctor", "--json"]);
    assert!(cli.wants_doctor());
    match &cli.command {
        Some(Commands::Doctor { json, .. }) => assert!(*json),
        _ => panic!("Expected Doctor subcommand"),
    }
}

#[test]
fn test_subcommand_init() {
    let cli = parse(&[BIN_NAME, "init"]);
    assert!(cli.wants_init());
    match &cli.command {
        Some(Commands::Init { gitignore_only, force }) => {
            assert!(!*gitignore_only);
            assert!(!*force);
        }
        _ => panic!("Expected Init subcommand"),
    }
}

#[test]
fn test_subcommand_init_gitignore_only() {
    let cli = parse(&[BIN_NAME, "init", "--gitignore-only"]);
    assert!(cli.wants_init());
    match &cli.command {
        Some(Commands::Init { gitignore_only, .. }) => assert!(*gitignore_only),
        _ => panic!("Expected Init subcommand"),
    }
}

#[test]
fn test_subcommand_init_force() {
    let cli = parse(&[BIN_NAME, "init", "--force"]);
    assert!(cli.wants_init());
    match &cli.command {
        Some(Commands::Init { force, .. }) => assert!(*force),
        _ => panic!("Expected Init subcommand"),
    }
}

#[test]
fn test_search_subcommand_benchmark() {
    let cli = parse(&[BIN_NAME, "search", "--benchmark"]);
    assert!(cli.query.is_empty());
    match &cli.command {
        Some(Commands::Search { query, benchmark, paths, format, no_auto_init }) => {
            assert!(query.is_empty());
            assert!(*benchmark);
            assert!(!*paths);
            assert!(format.is_none());
            assert!(!*no_auto_init);
        }
        _ => panic!("Expected Search subcommand"),
    }
}

#[test]
fn test_search_subcommand_with_query() {
    let cli = parse(&[BIN_NAME, "search", "test", "query"]);
    assert!(cli.query.is_empty());
    match &cli.command {
        Some(Commands::Search { query, benchmark, paths, format, no_auto_init }) => {
            assert_eq!(query, &vec!["test", "query"]);
            assert!(!*benchmark);
            assert!(!*paths);
            assert!(format.is_none());
            assert!(!*no_auto_init);
        }
        _ => panic!("Expected Search subcommand"),
    }
}

#[test]
fn test_search_subcommand_no_auto_init() {
    let cli = parse(&[BIN_NAME, "search", "--no-auto-init", "test"]);
    match &cli.command {
        Some(Commands::Search { no_auto_init, .. }) => {
            assert!(*no_auto_init);
        }
        _ => panic!("Expected Search subcommand"),
    }
}

#[test]
fn test_implicit_search_with_query() {
    let cli = parse(&[BIN_NAME, "main"]);
    assert_eq!(cli.query, vec!["main"]);
    assert!(cli.command.is_none());
}

#[test]
fn test_implicit_search_multiword_query() {
    let cli = parse(&[BIN_NAME, "main", "function"]);
    assert_eq!(cli.query, vec!["main", "function"]);
    assert!(cli.command.is_none());
}

#[test]
fn test_query_parsing() {
    let cli = parse(&[BIN_NAME, "main", "function"]);
    assert_eq!(cli.query, vec!["main", "function"]);
}

#[test]
fn cli_test_empty_query() {
    let cli = parse(&[BIN_NAME]);
    assert!(cli.query.is_empty());
    assert!(cli.command.is_none());
}

#[test]
fn test_query_string_single() {
    let cli = parse(&[BIN_NAME, "test"]);
    assert_eq!(cli.query_string(), Some("test".to_string()));
}

#[test]
fn test_query_string_multiple() {
    let cli = parse(&[BIN_NAME, "test", "query", "here"]);
    assert_eq!(cli.query_string(), Some("test query here".to_string()));
}

#[test]
fn test_default_mmap_size_matches_platform() {
    let cli = parse(&[BIN_NAME]);
    assert_eq!(cli.pragma_mmap_size, PragmaConfig::default_mmap_size());
}

#[test]
fn test_wants_index() {
    let cli = parse(&[BIN_NAME, "index"]);
    assert!(cli.wants_index());

    let cli = parse(&[BIN_NAME, "index", "--reindex"]);
    assert!(cli.wants_index());

    let cli = parse(&[BIN_NAME, "doctor"]);
    assert!(!cli.wants_index());
}

#[test]
fn test_wants_reindex() {
    let cli = parse(&[BIN_NAME, "index"]);
    assert!(!cli.wants_reindex());

    let cli = parse(&[BIN_NAME, "index", "--reindex"]);
    assert!(cli.wants_reindex());
}

#[test]
fn test_wants_doctor() {
    let cli = parse(&[BIN_NAME, "doctor"]);
    assert!(cli.wants_doctor());

    let cli = parse(&[BIN_NAME, "index"]);
    assert!(!cli.wants_doctor());
}

#[test]
fn test_wants_init() {
    let cli = parse(&[BIN_NAME, "init"]);
    assert!(cli.wants_init());

    let cli = parse(&[BIN_NAME, "doctor"]);
    assert!(!cli.wants_init());
}

#[test]
fn test_default_values() {
    let cli = parse(&[BIN_NAME]);
    assert_eq!(cli.pragma_cache_size, -32000);
    assert_eq!(cli.pragma_mmap_size, PragmaConfig::default_mmap_size());
    assert_eq!(cli.pragma_page_size, 4096);
    assert_eq!(cli.pragma_busy_timeout, 5000);
    assert_eq!(cli.pragma_synchronous, "NORMAL");
}

#[test]
fn test_follow_symlinks_flag() {
    let cli = parse(&[BIN_NAME]);
    assert!(!cli.follow_symlinks);

    let cli = parse(&[BIN_NAME, "--follow-symlinks"]);
    assert!(cli.follow_symlinks);
}

#[test]
fn test_refresh_flag() {
    let cli = parse(&[BIN_NAME]);
    assert!(!cli.refresh);

    let cli = parse(&[BIN_NAME, "--refresh", "query"]);
    assert!(cli.refresh);

    let cli = parse(&[BIN_NAME, "search", "--refresh", "query"]);
    assert!(cli.refresh);
    match &cli.command {
        Some(Commands::Search { query, .. }) => assert_eq!(query, &vec!["query"]),
        _ => panic!("Expected Search subcommand"),
    }
}

#[test]
fn test_quiet_flag() {
    let cli = parse(&[BIN_NAME, "--quiet"]);
    assert!(cli.quiet);

    let cli = parse(&[BIN_NAME, "-q"]);
    assert!(cli.quiet);

    let cli = parse(&[BIN_NAME]);
    assert!(!cli.quiet);
}

#[test]
fn test_pragma_cache_size_negative() {
    let cli = parse(&[BIN_NAME, "--pragma-cache-size=-8000"]);
    assert_eq!(cli.pragma_cache_size, -8000);
}

#[test]
fn test_pragma_cache_size_positive() {
    let cli = parse(&[BIN_NAME, "--pragma-cache-size=2000"]);
    assert_eq!(cli.pragma_cache_size, 2000);
}

#[test]
fn test_pragma_cache_size_invalid() {
    let result = Cli::try_parse_from(&argv(&[BIN_NAME, "--pragma-cache-size=-100"]));
    assert!(result.is_err());
}

#[test]
fn test_pragma_mmap_size_valid() {
    let cli = parse(&[BIN_NAME, "--pragma-mmap-size=268435456"]);
    assert_eq!(cli.pragma_mmap_size, 268_435_456);
}

#[test]
fn test_pragma_mmap_size_overflow() {
    let result = Cli::try_parse_from(&argv(&[BIN_NAME, "--pragma-mmap-size=300000000"]));
    assert!(result.is_err());
}

#[test]
fn test_pragma_page_size_power_of_two() {
    let cli = parse(&[BIN_NAME, "--pragma-page-size=4096"]);
    assert_eq!(cli.pragma_page_size, 4096);
}

#[test]
fn test_pragma_page_size_not_power() {
    let result = Cli::try_parse_from(&argv(&[BIN_NAME, "--pragma-page-size=5000"]));
    assert!(result.is_err());
}

#[test]
fn test_pragma_synchronous_valid_values() {
    let cli = parse(&[BIN_NAME, "--pragma-synchronous=OFF"]);
    assert_eq!(cli.pragma_synchronous, "OFF");

    let cli = parse(&[BIN_NAME, "--pragma-synchronous=normal"]);
    assert_eq!(cli.pragma_synchronous, "NORMAL");

    let cli = parse(&[BIN_NAME, "--pragma-synchronous=FULL"]);
    assert_eq!(cli.pragma_synchronous, "FULL");

    let cli = parse(&[BIN_NAME, "--pragma-synchronous=extra"]);
    assert_eq!(cli.pragma_synchronous, "EXTRA");
}

#[test]
fn test_pragma_synchronous_invalid() {
    let result = Cli::try_parse_from(&argv(&[BIN_NAME, "--pragma-synchronous=INVALID"]));
    assert!(result.is_err());
}

#[test]
fn test_subcommand_only() {
    let cli = parse(&[BIN_NAME, "doctor"]);
    assert!(cli.wants_doctor());
}

#[test]
fn test_db_name_constant() {
    assert_eq!(DB_NAME, ".ffts-index.db");
}

#[test]
fn option_value_in_next_argument() {
    let cli = parse(&[BIN_NAME, "--pragma-page-size", "8192", "--project-dir", "/tmp/p"]);
    assert_eq!(cli.pragma_page_size, 8192);
    assert_eq!(cli.project_dir, Some("/tmp/p".to_string()));
}

#[test]
fn unknown_option_is_rejected() {
    assert!(Cli::try_parse_from(&argv(&[BIN_NAME, "--nope"])).is_err());
    assert!(Cli::try_parse_from(&argv(&[BIN_NAME, "index", "--json"])).is_err());
    assert!(Cli::try_parse_from(&argv(&[BIN_NAME, "--pragma-page-size"])).is_err());
}

#[test]
fn search_format_option() {
    let cli = parse(&[BIN_NAME, "search", "--format", "json", "x"]);
    match &cli.command {
        Some(Commands::Search { format, query, .. }) => {
            assert_eq!(*format, Some(ffts_indexer::cli::OutputFormat::Json));
            assert_eq!(query, &vec!["x"]);
        }
        _ => panic!("Expected Search subcommand"),
    }
}

#[test]
fn pragma_config_follows_command_line() {
    let cli = parse(&[BIN_NAME, "--pragma-busy-timeout=10", "--pragma-cache-size=-2000"]);
    let cfg = cli.pragma_config();
    assert_eq!(cfg.busy_timeout_ms, 10);
    assert_eq!(cfg.cache_size, -2000);
    assert_eq!(cfg.journal_mode, "WAL");
}

#[test]
fn each_parse_error_kind() {
    let err = |a: &[&str]| Cli::try_parse_from(&argv(a)).unwrap_err();
    assert_eq!(err(&[BIN_NAME, "--help"]), CliError::HelpRequested);
    assert_eq!(err(&[BIN_NAME, "doctor", "-h"]), CliError::HelpRequested);
    assert_eq!(err(&[BIN_NAME, "-V"]), CliError::VersionRequested);
    assert_eq!(err(&[BIN_NAME, "--bogus"]), CliError::UnknownArgument("--bogus".to_string()));
    assert_eq!(err(&[BIN_NAME, "init", "extra"]), CliError::UnknownArgument("extra".to_string()));
    assert_eq!(err(&[BIN_NAME, "--project-dir"]), CliError::MissingValue("--project-dir".to_string()));
    assert_eq!(err(&[BIN_NAME, "--quiet=yes"]), CliError::UnexpectedValue("--quiet".to_string()));
    assert!(matches!(
        err(&[BIN_NAME, "--pragma-page-size=abc"]),
        CliError::InvalidValue { ref arg, .. } if arg == "--pragma-page-size"
    ));
}

#[test]
fn words_after_double_dash_are_query() {
    let cli = parse(&[BIN_NAME, "--", "--quiet", "index"]);
    assert_eq!(cli.query, vec!["--quiet", "index"]);
    assert!(!cli.quiet);
    assert!(cli.command.is_none());
}
