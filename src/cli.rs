//! The command-line grammar: global options, the four subcommands, the
//! positional query and the validated tuning knobs.
use vstd::prelude::*;
use crate::db::{
    str_eq, validate_busy_timeout, validate_cache_size, validate_mmap_size, validate_page_size,
    validate_synchronous, cache_size_ok, mmap_size_ok, page_size_ok, busy_timeout_ok,
    sync_mode_ok, MAX_MMAP_SIZE, PragmaConfig,
};
use crate::indexer::str_starts_with;
use crate::text::{chars_of, string_from_str, string_of};

verus! {

/// Output format for search results.
#[derive(Debug, Clone, Copy, PartialEq, Eq, Structural)]
pub enum OutputFormat {
    Plain,
    Json,
}

impl Default for OutputFormat {
    fn default() -> (r: Self)
        ensures
            r == OutputFormat::Plain,
    {
        OutputFormat::Plain
    }
}

/// Subcommands.
#[derive(Debug, Clone)]
pub enum Commands {
    /// Index or reindex files in the project directory.
    Index { reindex: bool },
    /// Run diagnostic checks on installation health.
    Doctor { verbose: bool, json: bool },
    /// Initialize project with .gitignore and database.
    Init { gitignore_only: bool, force: bool },
    /// Search indexed files (the default when a query is given).
    Search {
        query: Vec<String>,
        paths: bool,
        format: Option<OutputFormat>,
        benchmark: bool,
        no_auto_init: bool,
    },
}

/// Command-line arguments.
#[derive(Debug, Clone)]
pub struct Cli {
    /// Search query (triggers search mode if given).
    pub query: Vec<String>,
    pub command: Option<Commands>,
    /// Suppress status messages.
    pub quiet: bool,
    /// Project directory (defaults to the detected project root).
    pub project_dir: Option<String>,
    /// Follow symlinks while indexing.
    pub follow_symlinks: bool,
    /// Refresh index before searching.
    pub refresh: bool,
    pub pragma_cache_size: i64,
    pub pragma_mmap_size: i64,
    pub pragma_page_size: i64,
    pub pragma_busy_timeout: i64,
    pub pragma_synchronous: String,
}

/// Why the arguments were not accepted.
#[derive(Debug, Clone, PartialEq, Eq)]
pub enum CliError {
    /// `--help` or `-h` was given.
    HelpRequested,
    /// `--version` or `-V` was given.
    VersionRequested,
    /// An argument that the grammar does not have at this place.
    UnknownArgument(String),
    /// An option that takes a value was given none.
    MissingValue(String),
    /// A flag was given a value.
    UnexpectedValue(String),
    /// A value was rejected by its validator.
    InvalidValue { arg: String, reason: String },
}

/// The knobs of a parsed command line are always within their accepted ranges.
pub open spec fn knobs_valid(c: Cli) -> bool {
    &&& cache_size_ok(c.pragma_cache_size)
    &&& mmap_size_ok(c.pragma_mmap_size)
    &&& page_size_ok(c.pragma_page_size)
    &&& busy_timeout_ok(c.pragma_busy_timeout)
    &&& sync_mode_ok(c.pragma_synchronous@)
}

/// The command line of a bare invocation.
pub open spec fn is_default_cli(c: Cli) -> bool {
    &&& c.query@.len() == 0
    &&& c.command is None
    &&& !c.quiet
    &&& c.project_dir is None
    &&& !c.follow_symlinks
    &&& !c.refresh
    &&& c.pragma_cache_size == -32000
    &&& c.pragma_mmap_size == MAX_MMAP_SIZE
    &&& c.pragma_page_size == 4096
    &&& c.pragma_busy_timeout == 5000
    &&& c.pragma_synchronous@ == "NORMAL"@
}

// ---------------------------------------------------------------------
// The grammar
// ---------------------------------------------------------------------

/// The first position of `=` in `t`, if any.
pub open spec fn eq_index(t: Seq<char>) -> Option<int>
    decreases t.len(),
{
    if t.len() == 0 {
        None
    } else if t[0] == '=' {
        Some(0)
    } else {
        match eq_index(t.drop_first()) {
            Some(k) => Some(k + 1),
            None => None,
        }
    }
}

/// The option name of a long-option token: the text before its first `=`.
pub open spec fn long_name(t: Seq<char>) -> Seq<char> {
    match eq_index(t) {
        Some(k) => t.subrange(0, k),
        None => t,
    }
}

/// The value given inline with a long option: the text after its first `=`.
pub open spec fn long_value(t: Seq<char>) -> Option<Seq<char>> {
    match eq_index(t) {
        Some(k) => Some(t.subrange(k + 1, t.len() as int)),
        None => None,
    }
}

proof fn lemma_eq_index(t: Seq<char>, i: int)
    requires
        0 <= i <= t.len(),
        forall|k: int| 0 <= k < i ==> t[k] != '=',
        i < t.len() ==> t[i] == '=',
    ensures
        eq_index(t) == if i < t.len() { Some(i) } else { None::<int> },
    decreases i,
{
    if i > 0 {
        lemma_eq_index(t.drop_first(), i - 1);
    }
}

pub open spec fn opt_view(o: Option<String>) -> Option<Seq<char>> {
    match o {
        Some(s) => Some(s@),
        None => None,
    }
}

fn sub_string(cs: &Vec<char>, from: usize, to: usize) -> (r: String)
    requires
        from <= to <= cs.len(),
    ensures
        r@ == cs@.subrange(from as int, to as int),
{
    let mut out: Vec<char> = Vec::new();
    let mut k = from;
    while k < to
        invariant
            from <= k <= to <= cs.len(),
            out@ == cs@.subrange(from as int, k as int),
        decreases to - k,
    {
        out.push(cs[k]);
        k = k + 1;
        assert(out@ =~= cs@.subrange(from as int, k as int));
    }
    string_of(&out)
}

/// Splits `--name=value` into its name and value; a token without `=`
/// has no value.
fn split_long(tok: &str) -> (r: (String, Option<String>))
    ensures
        r.0@ == long_name(tok@),
        opt_view(r.1) == long_value(tok@),
{
    let cs = chars_of(tok);
    let mut i: usize = 0;
    while i < cs.len() && cs[i] != '='
        invariant
            i <= cs.len(),
            cs@ == tok@,
            forall|k: int| 0 <= k < i ==> cs@[k] != '=',
        decreases cs.len() - i,
    {
        i = i + 1;
    }
    proof {
        lemma_eq_index(cs@, i as int);
    }
    if i == cs.len() {
        assert(cs@.subrange(0, i as int) =~= cs@);
        return (sub_string(&cs, 0, i), None);
    }
    (sub_string(&cs, 0, i), Some(sub_string(&cs, i + 1, cs.len())))
}

/// Which subcommand a parse is inside.
#[derive(Debug, Clone, Copy, PartialEq, Eq, Structural)]
pub enum ParseMode {
    Top,
    Index,
    Doctor,
    Init,
    Search,
}

/// What a parse has collected after some of the arguments: the top-level
/// values, the raw text of each knob, the subcommand with its four flags
/// (in the order in which the subcommand declares them), its format and
/// query, and whether a query word or `--` was seen.
pub struct ArgsSeen {
    pub query: Seq<Seq<char>>,
    pub quiet: bool,
    pub project_dir: Option<Seq<char>>,
    pub follow_symlinks: bool,
    pub refresh: bool,
    pub cache: Option<Seq<char>>,
    pub mmap: Option<Seq<char>>,
    pub page: Option<Seq<char>>,
    pub busy: Option<Seq<char>>,
    pub sync: Option<Seq<char>>,
    pub mode: ParseMode,
    pub flag_a: bool,
    pub flag_b: bool,
    pub flag_c: bool,
    pub flag_d: bool,
    pub format: Option<OutputFormat>,
    pub sub_query: Seq<Seq<char>>,
    pub positional_seen: bool,
    pub only_positional: bool,
}

/// Nothing seen yet.
pub open spec fn nothing_seen() -> ArgsSeen {
    ArgsSeen {
        query: Seq::empty(),
        quiet: false,
        project_dir: None,
        follow_symlinks: false,
        refresh: false,
        cache: None,
        mmap: None,
        page: None,
        busy: None,
        sync: None,
        mode: ParseMode::Top,
        flag_a: false,
        flag_b: false,
        flag_c: false,
        flag_d: false,
        format: None,
        sub_query: Seq::empty(),
        positional_seen: false,
        only_positional: false,
    }
}

/// Whether the long option `n` takes a value in mode `m`.
pub open spec fn takes_value(m: ParseMode, n: Seq<char>) -> bool {
    (m == ParseMode::Top && (n == "--project-dir"@ || n == "--pragma-cache-size"@ || n
        == "--pragma-mmap-size"@ || n == "--pragma-page-size"@ || n == "--pragma-busy-timeout"@
        || n == "--pragma-synchronous"@)) || (m == ParseMode::Search && n == "--format"@)
}

/// Records the value `v` of the value-taking option `n`.
pub open spec fn set_value(s: ArgsSeen, n: Seq<char>, v: Seq<char>) -> Option<ArgsSeen> {
    if n == "--project-dir"@ {
        Some(ArgsSeen { project_dir: Some(v), ..s })
    } else if n == "--pragma-cache-size"@ {
        Some(ArgsSeen { cache: Some(v), ..s })
    } else if n == "--pragma-mmap-size"@ {
        Some(ArgsSeen { mmap: Some(v), ..s })
    } else if n == "--pragma-page-size"@ {
        Some(ArgsSeen { page: Some(v), ..s })
    } else if n == "--pragma-busy-timeout"@ {
        Some(ArgsSeen { busy: Some(v), ..s })
    } else if n == "--pragma-synchronous"@ {
        Some(ArgsSeen { sync: Some(v), ..s })
    } else if v == "plain"@ {
        Some(ArgsSeen { format: Some(OutputFormat::Plain), ..s })
    } else if v == "json"@ {
        Some(ArgsSeen { format: Some(OutputFormat::Json), ..s })
    } else {
        None
    }
}

/// Records the flag `n` (a long option without a value); `None` for help,
/// version, or a flag that mode `s.mode` does not have.
pub open spec fn set_flag(s: ArgsSeen, n: Seq<char>) -> Option<ArgsSeen> {
    let m = s.mode;
    if n == "--help"@ {
        None
    } else if n == "--version"@ && m == ParseMode::Top {
        None
    } else if n == "--refresh"@ {
        Some(ArgsSeen { refresh: true, ..s })
    } else if m == ParseMode::Top && n == "--quiet"@ {
        Some(ArgsSeen { quiet: true, ..s })
    } else if m == ParseMode::Top && n == "--follow-symlinks"@ {
        Some(ArgsSeen { follow_symlinks: true, ..s })
    } else if (m == ParseMode::Index && n == "--reindex"@) || (m == ParseMode::Doctor && n
        == "--verbose"@) || (m == ParseMode::Init && n == "--gitignore-only"@) || (m
        == ParseMode::Search && n == "--paths"@) {
        Some(ArgsSeen { flag_a: true, ..s })
    } else if (m == ParseMode::Doctor && n == "--json"@) || (m == ParseMode::Init && n
        == "--force"@) {
        Some(ArgsSeen { flag_b: true, ..s })
    } else if m == ParseMode::Search && n == "--benchmark"@ {
        Some(ArgsSeen { flag_c: true, ..s })
    } else if m == ParseMode::Search && n == "--no-auto-init"@ {
        Some(ArgsSeen { flag_d: true, ..s })
    } else {
        None
    }
}

/// Records a short option; `None` for help, version or an unknown one.
pub open spec fn set_short(s: ArgsSeen, t: Seq<char>) -> Option<ArgsSeen> {
    if t == "-h"@ {
        None
    } else if s.mode == ParseMode::Top && t == "-V"@ {
        None
    } else if s.mode == ParseMode::Top && t == "-q"@ {
        Some(ArgsSeen { quiet: true, ..s })
    } else if s.mode == ParseMode::Doctor && t == "-v"@ {
        Some(ArgsSeen { flag_a: true, ..s })
    } else {
        None
    }
}

/// Records a word that is no option: the subcommand, when it is the first
/// word and names one; otherwise a query word of the top level or of
/// `search`; other subcommands take no words.
pub open spec fn set_word(s: ArgsSeen, t: Seq<char>) -> Option<ArgsSeen> {
    let first = s.mode == ParseMode::Top && !s.positional_seen && !s.only_positional;
    if first && t == "index"@ {
        Some(ArgsSeen { mode: ParseMode::Index, ..s })
    } else if first && t == "doctor"@ {
        Some(ArgsSeen { mode: ParseMode::Doctor, ..s })
    } else if first && t == "init"@ {
        Some(ArgsSeen { mode: ParseMode::Init, ..s })
    } else if first && t == "search"@ {
        Some(ArgsSeen { mode: ParseMode::Search, ..s })
    } else if s.mode == ParseMode::Top {
        Some(ArgsSeen { positional_seen: true, query: s.query.push(t), ..s })
    } else if s.mode == ParseMode::Search {
        Some(ArgsSeen { sub_query: s.sub_query.push(t), ..s })
    } else {
        None
    }
}

/// One step of the grammar at argument `i`: the new state and the position
/// of the next argument, or `None` when the arguments are rejected.
pub open spec fn step(s: ArgsSeen, args: Seq<Seq<char>>, i: int) -> Option<(ArgsSeen, int)> {
    let t = args[i];
    if !s.only_positional && t == "--"@ {
        Some((ArgsSeen { only_positional: true, ..s }, i + 1))
    } else if !s.only_positional && crate::indexer::starts_with(t, "--"@) {
        let n = long_name(t);
        if takes_value(s.mode, n) {
            match long_value(t) {
                Some(v) => match set_value(s, n, v) {
                    Some(s2) => Some((s2, i + 1)),
                    None => None,
                },
                None => if i + 1 < args.len() {
                    match set_value(s, n, args[i + 1]) {
                        Some(s2) => Some((s2, i + 2)),
                        None => None,
                    }
                } else {
                    None
                },
            }
        } else if long_value(t) is Some {
            None
        } else {
            match set_flag(s, n) {
                Some(s2) => Some((s2, i + 1)),
                None => None,
            }
        }
    } else if !s.only_positional && crate::indexer::starts_with(t, "-"@) && t != "-"@ {
        match set_short(s, t) {
            Some(s2) => Some((s2, i + 1)),
            None => None,
        }
    } else {
        match set_word(s, t) {
            Some(s2) => Some((s2, i + 1)),
            None => None,
        }
    }
}

/// The state after the arguments from position `i` on, or `None` when
/// one of them is rejected.
pub open spec fn run(args: Seq<Seq<char>>, i: int, s: ArgsSeen) -> Option<ArgsSeen>
    decreases args.len() - i,
{
    if i < 0 || i >= args.len() {
        Some(s)
    } else {
        match step(s, args, i) {
            None => None,
            Some((s2, j)) => if j > i {
                run(args, j, s2)
            } else {
                None
            },
        }
    }
}

/// The value of an integer knob: its default when not given, the parsed
/// text when it passes its check, `None` (rejected) otherwise.
pub open spec fn knob_value(raw: Option<Seq<char>>, default: i64, ok: spec_fn(i64) -> bool) -> Option<i64> {
    match raw {
        None => Some(default),
        Some(t) => crate::db::knob_result(t, ok),
    }
}

/// The synchronous mode: `NORMAL` when not given, else the upper-case form
/// of the text when it is an accepted mode, `None` (rejected) otherwise.
pub open spec fn sync_value(raw: Option<Seq<char>>) -> Option<Seq<char>> {
    match raw {
        None => Some("NORMAL"@),
        Some(t) => if sync_mode_ok(crate::db::upper_of(t)) {
            Some(crate::db::upper_of(t))
        } else {
            None
        },
    }
}

/// Whether a command line holds what a parse collected.
pub open spec fn cli_matches(c: Cli, m: ArgsSeen) -> bool {
    &&& crate::search::views(c.query@) == m.query
    &&& c.quiet == m.quiet
    &&& opt_view(c.project_dir) == m.project_dir
    &&& c.follow_symlinks == m.follow_symlinks
    &&& c.refresh == m.refresh
    &&& Some(c.pragma_cache_size) == knob_value(m.cache, -32000i64, |v: i64| cache_size_ok(v))
    &&& Some(c.pragma_mmap_size) == knob_value(m.mmap, MAX_MMAP_SIZE, |v: i64| mmap_size_ok(v))
    &&& Some(c.pragma_page_size) == knob_value(m.page, 4096i64, |v: i64| page_size_ok(v))
    &&& Some(c.pragma_busy_timeout) == knob_value(m.busy, 5000i64, |v: i64| busy_timeout_ok(v))
    &&& Some(c.pragma_synchronous@) == sync_value(m.sync)
    &&& match m.mode {
        ParseMode::Top => c.command is None,
        ParseMode::Index => c.command matches Some(Commands::Index { reindex }) && reindex
            == m.flag_a,
        ParseMode::Doctor => c.command matches Some(Commands::Doctor { verbose, json })
            && verbose == m.flag_a && json == m.flag_b,
        ParseMode::Init => c.command matches Some(Commands::Init { gitignore_only, force })
            && gitignore_only == m.flag_a && force == m.flag_b,
        ParseMode::Search => c.command matches Some(
            Commands::Search { query, paths, format, benchmark, no_auto_init },
        ) && crate::search::views(query@) == m.sub_query && paths == m.flag_a && format
            == m.format && benchmark == m.flag_c && no_auto_init == m.flag_d,
    }
}

/// Whether the knobs collected all pass their checks.
pub open spec fn knobs_accepted(m: ArgsSeen) -> bool {
    &&& knob_value(m.cache, -32000i64, |v: i64| cache_size_ok(v)) is Some
    &&& knob_value(m.mmap, MAX_MMAP_SIZE, |v: i64| mmap_size_ok(v)) is Some
    &&& knob_value(m.page, 4096i64, |v: i64| page_size_ok(v)) is Some
    &&& knob_value(m.busy, 5000i64, |v: i64| busy_timeout_ok(v)) is Some
    &&& sync_value(m.sync) is Some
}

/// The parse state of the executable parser.
struct ParseState {
    query: Vec<String>,
    quiet: bool,
    project_dir: Option<String>,
    follow_symlinks: bool,
    refresh: bool,
    cache: Option<String>,
    mmap: Option<String>,
    page: Option<String>,
    busy: Option<String>,
    sync: Option<String>,
    mode: ParseMode,
    flag_a: bool,
    flag_b: bool,
    flag_c: bool,
    flag_d: bool,
    format: Option<OutputFormat>,
    sub_query: Vec<String>,
    positional_seen: bool,
    only_positional: bool,
}

impl ParseState {
    spec fn model(&self) -> ArgsSeen {
        ArgsSeen {
            query: crate::search::views(self.query@),
            quiet: self.quiet,
            project_dir: opt_view(self.project_dir),
            follow_symlinks: self.follow_symlinks,
            refresh: self.refresh,
            cache: opt_view(self.cache),
            mmap: opt_view(self.mmap),
            page: opt_view(self.page),
            busy: opt_view(self.busy),
            sync: opt_view(self.sync),
            mode: self.mode,
            flag_a: self.flag_a,
            flag_b: self.flag_b,
            flag_c: self.flag_c,
            flag_d: self.flag_d,
            format: self.format,
            sub_query: crate::search::views(self.sub_query@),
            positional_seen: self.positional_seen,
            only_positional: self.only_positional,
        }
    }
}

/// Records the value of a value-taking option; `false` when it is rejected.
fn apply_value(st: &mut ParseState, n: &str, v: String) -> (ok: bool)
    ensures
        ok == set_value(old(st).model(), n@, v@) is Some,
        ok ==> set_value(old(st).model(), n@, v@) == Some(final(st).model()),
{
    if str_eq(n, "--project-dir") {
        st.project_dir = Some(v);
    } else if str_eq(n, "--pragma-cache-size") {
        st.cache = Some(v);
    } else if str_eq(n, "--pragma-mmap-size") {
        st.mmap = Some(v);
    } else if str_eq(n, "--pragma-page-size") {
        st.page = Some(v);
    } else if str_eq(n, "--pragma-busy-timeout") {
        st.busy = Some(v);
    } else if str_eq(n, "--pragma-synchronous") {
        st.sync = Some(v);
    } else if str_eq(v.as_str(), "plain") {
        st.format = Some(OutputFormat::Plain);
    } else if str_eq(v.as_str(), "json") {
        st.format = Some(OutputFormat::Json);
    } else {
        return false;
    }
    true
}

/// Records a flag; `false` when it is rejected.
fn apply_flag(st: &mut ParseState, n: &str) -> (ok: bool)
    ensures
        ok == set_flag(old(st).model(), n@) is Some,
        ok ==> set_flag(old(st).model(), n@) == Some(final(st).model()),
{
    let m = st.mode;
    if str_eq(n, "--help") {
        return false;
    } else if str_eq(n, "--version") && m == ParseMode::Top {
        return false;
    } else if str_eq(n, "--refresh") {
        st.refresh = true;
    } else if m == ParseMode::Top && str_eq(n, "--quiet") {
        st.quiet = true;
    } else if m == ParseMode::Top && str_eq(n, "--follow-symlinks") {
        st.follow_symlinks = true;
    } else if (m == ParseMode::Index && str_eq(n, "--reindex")) || (m == ParseMode::Doctor
        && str_eq(n, "--verbose")) || (m == ParseMode::Init && str_eq(n, "--gitignore-only")) || (m
        == ParseMode::Search && str_eq(n, "--paths")) {
        st.flag_a = true;
    } else if (m == ParseMode::Doctor && str_eq(n, "--json")) || (m == ParseMode::Init && str_eq(
        n,
        "--force",
    )) {
        st.flag_b = true;
    } else if m == ParseMode::Search && str_eq(n, "--benchmark") {
        st.flag_c = true;
    } else if m == ParseMode::Search && str_eq(n, "--no-auto-init") {
        st.flag_d = true;
    } else {
        return false;
    }
    true
}

/// Records a short option; `false` when it is rejected.
fn apply_short(st: &mut ParseState, t: &str) -> (ok: bool)
    ensures
        ok == set_short(old(st).model(), t@) is Some,
        ok ==> set_short(old(st).model(), t@) == Some(final(st).model()),
{
    if str_eq(t, "-h") {
        return false;
    } else if st.mode == ParseMode::Top && str_eq(t, "-V") {
        return false;
    } else if st.mode == ParseMode::Top && str_eq(t, "-q") {
        st.quiet = true;
    } else if st.mode == ParseMode::Doctor && str_eq(t, "-v") {
        st.flag_a = true;
    } else {
        return false;
    }
    true
}

/// Records a word; `false` when it is rejected.
fn apply_word(st: &mut ParseState, t: &String) -> (ok: bool)
    ensures
        ok == set_word(old(st).model(), t@) is Some,
        ok ==> set_word(old(st).model(), t@) == Some(final(st).model()),
{
    let first = st.mode == ParseMode::Top && !st.positional_seen && !st.only_positional;
    let w = t.as_str();
    if first && str_eq(w, "index") {
        st.mode = ParseMode::Index;
    } else if first && str_eq(w, "doctor") {
        st.mode = ParseMode::Doctor;
    } else if first && str_eq(w, "init") {
        st.mode = ParseMode::Init;
    } else if first && str_eq(w, "search") {
        st.mode = ParseMode::Search;
    } else if st.mode == ParseMode::Top {
        st.positional_seen = true;
        st.query.push(t.clone());
        assert(crate::search::views(st.query@) =~= crate::search::views(old(st).query@).push(t@));
    } else if st.mode == ParseMode::Search {
        st.sub_query.push(t.clone());
        assert(crate::search::views(st.sub_query@) =~= crate::search::views(old(st).sub_query@).push(
            t@,
        ));
    } else {
        return false;
    }
    true
}

/// Why a token was rejected.
fn rejection(t: &str) -> CliError {
    if str_eq(t, "--help") || str_eq(t, "-h") {
        CliError::HelpRequested
    } else if str_eq(t, "--version") || str_eq(t, "-V") {
        CliError::VersionRequested
    } else {
        CliError::UnknownArgument(string_from_str(t))
    }
}

/// One step of the parser at argument `i`.
fn parse_step(st: &mut ParseState, args: &Vec<String>, i: usize) -> (r: Result<usize, CliError>)
    requires
        1 <= i < args.len(),
    ensures
        match step(old(st).model(), crate::search::views(args@), i as int) {
            None => r is Err,
            Some((m, j)) => r == Ok::<usize, CliError>(j as usize) && final(st).model() == m,
        },
{
    let ghost a = crate::search::views(args@);
    assert(a[i as int] == args@[i as int]@);
    let tok = args[i].as_str();
    if !st.only_positional && str_eq(tok, "--") {
        st.only_positional = true;
        return Ok(i + 1);
    }
    if !st.only_positional && str_starts_with(tok, "--") {
        let (name, inline) = split_long(tok);
        let n = name.as_str();
        let takes = (st.mode == ParseMode::Top && (str_eq(n, "--project-dir") || str_eq(
            n,
            "--pragma-cache-size",
        ) || str_eq(n, "--pragma-mmap-size") || str_eq(n, "--pragma-page-size") || str_eq(
            n,
            "--pragma-busy-timeout",
        ) || str_eq(n, "--pragma-synchronous"))) || (st.mode == ParseMode::Search && str_eq(
            n,
            "--format",
        ));
        if takes {
            match inline {
                Some(v) => {
                    if apply_value(st, n, v) {
                        return Ok(i + 1);
                    }
                    return Err(CliError::InvalidValue {
                        arg: name.clone(),
                        reason: string_from_str("possible values: plain, json"),
                    });
                },
                None => {
                    if i + 1 >= args.len() {
                        return Err(CliError::MissingValue(name.clone()));
                    }
                    assert(a[i + 1] == args@[i + 1]@);
                    if apply_value(st, n, args[i + 1].clone()) {
                        return Ok(i + 2);
                    }
                    return Err(CliError::InvalidValue {
                        arg: name.clone(),
                        reason: string_from_str("possible values: plain, json"),
                    });
                },
            }
        }
        if inline.is_some() {
            return Err(CliError::UnexpectedValue(name.clone()));
        }
        if apply_flag(st, n) {
            return Ok(i + 1);
        }
        return Err(rejection(n));
    }
    if !st.only_positional && str_starts_with(tok, "-") && !str_eq(tok, "-") {
        if apply_short(st, tok) {
            return Ok(i + 1);
        }
        return Err(rejection(tok));
    }
    if apply_word(st, &args[i]) {
        return Ok(i + 1);
    }
    Err(CliError::UnknownArgument(args[i].clone()))
}

fn invalid(arg: &str, reason: String) -> CliError {
    CliError::InvalidValue { arg: string_from_str(arg), reason }
}

fn cache_knob(raw: &Option<String>) -> (r: Result<i64, CliError>)
    ensures
        r matches Ok(v) ==> Some(v) == knob_value(opt_view(*raw), -32000i64, |v: i64| cache_size_ok(v)),
        r is Err <==> knob_value(opt_view(*raw), -32000i64, |v: i64| cache_size_ok(v)) is None,
{
    match raw {
        None => Ok(-32000),
        Some(s) => match validate_cache_size(s.as_str()) {
            Ok(v) => Ok(v),
            Err(reason) => Err(invalid("--pragma-cache-size", reason)),
        },
    }
}

fn mmap_knob(raw: &Option<String>) -> (r: Result<i64, CliError>)
    ensures
        r matches Ok(v) ==> Some(v) == knob_value(opt_view(*raw), MAX_MMAP_SIZE, |v: i64| mmap_size_ok(v)),
        r is Err <==> knob_value(opt_view(*raw), MAX_MMAP_SIZE, |v: i64| mmap_size_ok(v)) is None,
{
    match raw {
        None => Ok(PragmaConfig::default_mmap_size()),
        Some(s) => match validate_mmap_size(s.as_str()) {
            Ok(v) => Ok(v),
            Err(reason) => Err(invalid("--pragma-mmap-size", reason)),
        },
    }
}

fn page_knob(raw: &Option<String>) -> (r: Result<i64, CliError>)
    ensures
        r matches Ok(v) ==> Some(v) == knob_value(opt_view(*raw), 4096i64, |v: i64| page_size_ok(v)),
        r is Err <==> knob_value(opt_view(*raw), 4096i64, |v: i64| page_size_ok(v)) is None,
{
    match raw {
        None => Ok(4096),
        Some(s) => match validate_page_size(s.as_str()) {
            Ok(v) => Ok(v),
            Err(reason) => Err(invalid("--pragma-page-size", reason)),
        },
    }
}

fn busy_knob(raw: &Option<String>) -> (r: Result<i64, CliError>)
    ensures
        r matches Ok(v) ==> Some(v) == knob_value(opt_view(*raw), 5000i64, |v: i64| busy_timeout_ok(v)),
        r is Err <==> knob_value(opt_view(*raw), 5000i64, |v: i64| busy_timeout_ok(v)) is None,
{
    match raw {
        None => Ok(5000),
        Some(s) => match validate_busy_timeout(s.as_str()) {
            Ok(v) => Ok(v),
            Err(reason) => Err(invalid("--pragma-busy-timeout", reason)),
        },
    }
}

fn sync_knob(raw: Option<String>) -> (r: Result<String, CliError>)
    ensures
        r matches Ok(v) ==> Some(v@) == sync_value(opt_view(raw)),
        r is Err <==> sync_value(opt_view(raw)) is None,
{
    match raw {
        None => Ok(string_from_str("NORMAL")),
        Some(s) => match validate_synchronous(s.as_str()) {
            Ok(v) => Ok(v),
            Err(reason) => Err(invalid("--pragma-synchronous", reason)),
        },
    }
}

impl Cli {
    /// Parses a command line; the first element is the program name. The
    /// result is exactly what the grammar (`run` from the second argument)
    /// collects, with every knob checked: the parse fails when an argument
    /// is rejected or a knob fails its check. An invocation with no
    /// arguments gives the defaults.
    pub fn try_parse_from(args: &Vec<String>) -> (r: Result<Cli, CliError>)
        ensures
            r is Ok <==> (run(crate::search::views(args@), 1, nothing_seen()) matches Some(m)
                && knobs_accepted(m)),
            r matches Ok(c) ==> (run(crate::search::views(args@), 1, nothing_seen()) matches Some(m)
                && cli_matches(c, m)),
            r matches Ok(c) ==> knobs_valid(c),
            args@.len() <= 1 ==> (r matches Ok(c) && is_default_cli(c)),
    {
        let ghost a = crate::search::views(args@);
        let mut st = ParseState {
            query: Vec::new(),
            quiet: false,
            project_dir: None,
            follow_symlinks: false,
            refresh: false,
            cache: None,
            mmap: None,
            page: None,
            busy: None,
            sync: None,
            mode: ParseMode::Top,
            flag_a: false,
            flag_b: false,
            flag_c: false,
            flag_d: false,
            format: None,
            sub_query: Vec::new(),
            positional_seen: false,
            only_positional: false,
        };
        assert(crate::search::views(st.query@) =~= Seq::<Seq<char>>::empty());
        assert(crate::search::views(st.sub_query@) =~= Seq::<Seq<char>>::empty());
        assert(st.model() == nothing_seen());
        let mut i: usize = 1;
        while i < args.len()
            invariant
                1 <= i,
                a == crate::search::views(args@),
                a.len() == args@.len(),
                run(a, i as int, st.model()) == run(a, 1, nothing_seen()),
                args@.len() <= 1 ==> st.model() == nothing_seen(),
            decreases args.len() - i,
        {
            match parse_step(&mut st, args, i) {
                Ok(j) => {
                    i = j;
                },
                Err(e) => {
                    return Err(e);
                },
            }
        }
        let ghost m = st.model();
        assert(run(a, i as int, m) == Some(m));
        let pragma_cache_size = match cache_knob(&st.cache) {
            Ok(v) => v,
            Err(e) => {
                return Err(e);
            },
        };
        let pragma_mmap_size = match mmap_knob(&st.mmap) {
            Ok(v) => v,
            Err(e) => {
                return Err(e);
            },
        };
        let pragma_page_size = match page_knob(&st.page) {
            Ok(v) => v,
            Err(e) => {
                return Err(e);
            },
        };
        let pragma_busy_timeout = match busy_knob(&st.busy) {
            Ok(v) => v,
            Err(e) => {
                return Err(e);
            },
        };
        let pragma_synchronous = match sync_knob(st.sync) {
            Ok(v) => v,
            Err(e) => {
                return Err(e);
            },
        };
        let command = match st.mode {
            ParseMode::Top => None,
            ParseMode::Index => Some(Commands::Index { reindex: st.flag_a }),
            ParseMode::Doctor => Some(Commands::Doctor { verbose: st.flag_a, json: st.flag_b }),
            ParseMode::Init => Some(Commands::Init { gitignore_only: st.flag_a, force: st.flag_b }),
            ParseMode::Search => Some(
                Commands::Search {
                    query: st.sub_query,
                    paths: st.flag_a,
                    format: st.format,
                    benchmark: st.flag_c,
                    no_auto_init: st.flag_d,
                },
            ),
        };
        let c = Cli {
            query: st.query,
            command,
            quiet: st.quiet,
            project_dir: st.project_dir,
            follow_symlinks: st.follow_symlinks,
            refresh: st.refresh,
            pragma_cache_size,
            pragma_mmap_size,
            pragma_page_size,
            pragma_busy_timeout,
            pragma_synchronous,
        };
        Ok(c)
    }
}

/// Words joined by single spaces.
pub open spec fn join_words(w: Seq<Seq<char>>) -> Seq<char>
    decreases w.len(),
{
    if w.len() == 0 {
        Seq::empty()
    } else if w.len() == 1 {
        w[0]
    } else {
        join_words(w.drop_last()) + seq![' '] + w.last()
    }
}

impl Cli {
    /// The search query as a single string: `None` when no query was given,
    /// otherwise its words joined by single spaces.
    pub fn query_string(&self) -> (r: Option<String>)
        ensures
            self.query@.len() == 0 ==> r is None,
            self.query@.len() > 0 ==> (r matches Some(q) && q@ == join_words(
                crate::search::views(self.query@),
            )),
    {
        if self.query.len() == 0 {
            return None;
        }
        let ghost w = crate::search::views(self.query@);
        let mut out = self.query[0].clone();
        let mut i: usize = 1;
        assert(w.subrange(0, 1) =~= seq![w[0]]);
        while i < self.query.len()
            invariant
                1 <= i <= self.query.len(),
                w == crate::search::views(self.query@),
                out@ == join_words(w.subrange(0, i as int)),
            decreases self.query.len() - i,
        {
            out = out.concat(" ");
            out = out.concat(self.query[i].as_str());
            assert(w[i as int] == self.query@[i as int]@);
            assert(w.subrange(0, i + 1).drop_last() =~= w.subrange(0, i as int));
            assert(w.subrange(0, i + 1).last() == w[i as int]);
            assert(seq![' '] =~= " "@) by {
                reveal_strlit(" ");
            }
            i = i + 1;
        }
        assert(w.subrange(0, i as int) =~= w);
        Some(out)
    }

    /// Returns true if the index subcommand is requested.
    pub fn wants_index(&self) -> (r: bool)
        ensures
            r == (self.command matches Some(Commands::Index { .. })),
    {
        matches!(self.command, Some(Commands::Index { .. }))
    }

    /// Returns true if the reindex flag of the index subcommand is set.
    pub fn wants_reindex(&self) -> (r: bool)
        ensures
            r == (self.command matches Some(Commands::Index { reindex }) && reindex),
    {
        match &self.command {
            Some(Commands::Index { reindex }) => *reindex,
            _ => false,
        }
    }

    /// Returns true if the doctor subcommand is requested.
    pub fn wants_doctor(&self) -> (r: bool)
        ensures
            r == (self.command matches Some(Commands::Doctor { .. })),
    {
        matches!(self.command, Some(Commands::Doctor { .. }))
    }

    /// Returns true if the init subcommand is requested.
    pub fn wants_init(&self) -> (r: bool)
        ensures
            r == (self.command matches Some(Commands::Init { .. })),
    {
        matches!(self.command, Some(Commands::Init { .. }))
    }

    /// The store's tuning knobs chosen on the command line, with the
    /// journal in WAL mode and temporary tables in memory.
    pub fn pragma_config(&self) -> (r: PragmaConfig)
        ensures
            r.journal_mode@ == "WAL"@,
            r.synchronous@ == self.pragma_synchronous@,
            r.cache_size == self.pragma_cache_size,
            r.temp_store@ == "MEMORY"@,
            r.mmap_size == self.pragma_mmap_size,
            r.page_size == self.pragma_page_size,
            r.busy_timeout_ms == self.pragma_busy_timeout,
    {
        PragmaConfig {
            journal_mode: string_from_str("WAL"),
            synchronous: self.pragma_synchronous.clone(),
            cache_size: self.pragma_cache_size,
            temp_store: string_from_str("MEMORY"),
            mmap_size: self.pragma_mmap_size,
            page_size: self.pragma_page_size,
            busy_timeout_ms: self.pragma_busy_timeout,
        }
    }
}

} // verus!
