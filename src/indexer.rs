//! The rules of an indexing run: which walker entries are indexed, the
//! containment of symlink targets, the conversions of file metadata, and
//! the conditional transaction batching.
use vstd::prelude::*;
use crate::text::{chars_of, string_of};

verus! {

/// Configuration for the indexer.
#[derive(Debug, Clone, Copy, PartialEq, Eq, Structural)]
pub struct IndexerConfig {
    /// Maximum file size to index (in bytes).
    pub max_file_size: u64,
    /// Files per transaction batch.
    pub batch_size: usize,
    /// Follow symlinks (disabled by default).
    pub follow_symlinks: bool,
}

impl Default for IndexerConfig {
    fn default() -> (r: Self)
        ensures
            r.max_file_size == 1024 * 1024,
            r.batch_size == 500,
            !r.follow_symlinks,
    {
        IndexerConfig { max_file_size: 1024 * 1024, batch_size: 500, follow_symlinks: false }
    }
}

/// Statistics from an indexing operation.
#[derive(Debug, Clone, Copy)]
pub struct IndexStats {
    pub files_indexed: u64,
    pub files_skipped: u64,
    pub bytes_indexed: u64,
    pub duration: core::time::Duration,
}

pub assume_specification[ core::time::Duration::from_millis ](millis: u64) -> core::time::Duration;

impl IndexStats {
    /// Statistics of a run that has not seen any entry yet.
    pub fn new() -> (r: Self)
        ensures
            r.files_indexed == 0 && r.files_skipped == 0 && r.bytes_indexed == 0,
    {
        IndexStats {
            files_indexed: 0,
            files_skipped: 0,
            bytes_indexed: 0,
            duration: core::time::Duration::from_millis(0),
        }
    }
}

// ---------------------------------------------------------------------
// Database files are never indexed
// ---------------------------------------------------------------------

pub open spec fn ends_with(s: Seq<char>, suffix: Seq<char>) -> bool {
    suffix.len() <= s.len() && s.subrange(s.len() - suffix.len(), s.len() as int) == suffix
}

pub open spec fn starts_with(s: Seq<char>, prefix: Seq<char>) -> bool {
    prefix.len() <= s.len() && s.subrange(0, prefix.len() as int) == prefix
}

pub open spec fn contains_at(s: Seq<char>, t: Seq<char>, i: int) -> bool {
    0 <= i && i + t.len() <= s.len() && s.subrange(i, i + t.len()) == t
}

pub open spec fn contains_str(s: Seq<char>, t: Seq<char>) -> bool {
    exists|i: int| contains_at(s, t, i)
}

/// Whether `s` ends with `suffix`.
pub fn str_ends_with(s: &str, suffix: &str) -> (r: bool)
    ensures
        r == ends_with(s@, suffix@),
{
    let a = chars_of(s);
    let b = chars_of(suffix);
    if b.len() > a.len() {
        return false;
    }
    let off = a.len() - b.len();
    let mut i: usize = 0;
    while i < b.len()
        invariant
            off + b@.len() == a@.len(),
            a@ == s@,
            b@ == suffix@,
            i <= b.len(),
            forall|k: int| 0 <= k < i ==> a@[off + k] == b@[k],
        decreases b.len() - i,
    {
        assert(off + i < a.len());
        if a[off + i] != b[i] {
            assert(a@.subrange(off as int, a@.len() as int)[i as int] != b@[i as int]);
            return false;
        }
        i = i + 1;
    }
    assert(a@.subrange(off as int, a@.len() as int) =~= b@);
    true
}

/// Whether `t` occurs in `s` at position `at`.
fn occurs_at(a: &Vec<char>, b: &Vec<char>, at: usize) -> (r: bool)
    ensures
        r == contains_at(a@, b@, at as int),
{
    if at > a.len() || b.len() > a.len() - at {
        return false;
    }
    let mut i: usize = 0;
    while i < b.len()
        invariant
            at + b@.len() <= a@.len(),
            i <= b.len(),
            forall|k: int| 0 <= k < i ==> a@[at + k] == b@[k],
        decreases b.len() - i,
    {
        assert(at + i < a.len());
        if a[at + i] != b[i] {
            assert(a@.subrange(at as int, at + b@.len())[i as int] != b@[i as int]);
            return false;
        }
        i = i + 1;
    }
    assert(a@.subrange(at as int, at + b@.len()) =~= b@);
    true
}

/// Whether `s` starts with `prefix`.
pub fn str_starts_with(s: &str, prefix: &str) -> (r: bool)
    ensures
        r == starts_with(s@, prefix@),
{
    let a = chars_of(s);
    let b = chars_of(prefix);
    occurs_at(&a, &b, 0)
}

/// Whether `t` occurs anywhere in `s`.
pub fn str_contains(s: &str, t: &str) -> (r: bool)
    ensures
        r == contains_str(s@, t@),
{
    let a = chars_of(s);
    let b = chars_of(t);
    let mut i: usize = 0;
    while i < a.len()
        invariant
            a@ == s@,
            b@ == t@,
            i <= a.len(),
            forall|k: int| 0 <= k < i ==> !contains_at(a@, b@, k),
        decreases a.len() - i,
    {
        if occurs_at(&a, &b, i) {
            return true;
        }
        i = i + 1;
    }
    if occurs_at(&a, &b, i) {
        return true;
    }
    assert forall|k: int| !contains_at(s@, t@, k) by {
        if 0 <= k && k <= i {
        }
    }
    false
}

/// Whether a file name belongs to the store: the primary database, its
/// WAL and shared-memory companions, a temporary database of an atomic
/// operation, or any `.db`, `.sqlite` or `.sqlite3` file.
pub open spec fn is_db_file_name(n: Seq<char>) -> bool {
    ends_with(n, "-shm"@) || ends_with(n, "-wal"@) || n == ".ffts-index.db"@ || ends_with(
        n,
        ".db.tmp"@,
    ) || (starts_with(n, ".ffts-index.db"@) && contains_str(n, ".tmp"@)) || ends_with(n, ".db"@)
        || ends_with(n, ".sqlite"@) || ends_with(n, ".sqlite3"@)
}

/// Returns true for a file name that the walker must skip because it is
/// part of the store.
pub fn is_database_file(file_name: &str) -> (r: bool)
    ensures
        r == is_db_file_name(file_name@),
{
    if str_ends_with(file_name, crate::constants::DB_SHM_SUFFIX) || str_ends_with(
        file_name,
        crate::constants::DB_WAL_SUFFIX,
    ) {
        return true;
    }
    if crate::db::str_eq(file_name, crate::constants::DB_NAME) {
        return true;
    }
    if str_ends_with(file_name, ".db.tmp") || (str_starts_with(
        file_name,
        crate::constants::DB_NAME,
    ) && str_contains(file_name, crate::constants::DB_TMP_SUFFIX)) {
        return true;
    }
    str_ends_with(file_name, ".db") || str_ends_with(file_name, ".sqlite") || str_ends_with(
        file_name,
        ".sqlite3",
    )
}

// ---------------------------------------------------------------------
// Paths relative to the project root
// ---------------------------------------------------------------------

/// The `/`-separated segments of a path (empty segments kept).
pub open spec fn segments(p: Seq<char>) -> Seq<Seq<char>>
    decreases p.len(),
{
    if p.len() == 0 {
        seq![Seq::empty()]
    } else if p.last() == '/' {
        segments(p.drop_last()).push(Seq::empty())
    } else {
        let s = segments(p.drop_last());
        s.update(s.len() - 1, s.last().push(p.last()))
    }
}

/// Whether a path has a `..` segment.
pub open spec fn has_parent_segment(p: Seq<char>) -> bool {
    exists|i: int| 0 <= i < segments(p).len() && #[trigger] segments(p)[i] == seq!['.', '.']
}

/// `path` relative to `root`, as a component-wise prefix strip: `path`
/// equal to `root` gives the empty path; `path` that continues `root`
/// with a `/` gives the rest after that separator; anything else, `None`.
pub open spec fn relative_to(path: Seq<char>, root: Seq<char>) -> Option<Seq<char>> {
    if path == root {
        Some(Seq::empty())
    } else if root.len() > 0 && root.last() == '/' && starts_with(path, root) {
        Some(path.subrange(root.len() as int, path.len() as int))
    } else if starts_with(path, root) && path.len() > root.len() && path[root.len() as int] == '/' {
        Some(path.subrange(root.len() as int + 1, path.len() as int))
    } else {
        None
    }
}

/// A path lies inside the root: it is relative to it, with no `..` segment.
pub open spec fn within(path: Seq<char>, root: Seq<char>) -> bool {
    match relative_to(path, root) {
        Some(rel) => !has_parent_segment(rel),
        None => false,
    }
}

fn sub_chars(cs: &Vec<char>, from: usize, to: usize) -> (r: Vec<char>)
    requires
        from <= to <= cs.len(),
    ensures
        r@ == cs@.subrange(from as int, to as int),
{
    let mut out: Vec<char> = Vec::new();
    let mut k = from;
    while k < to
        invariant
            from <= k <= to <= cs.len(),
            out@ == cs@.subrange(from as int, k as int),
        decreases to - k,
    {
        out.push(cs[k]);
        k = k + 1;
        assert(out@ =~= cs@.subrange(from as int, k as int));
    }
    out
}

/// The path to store for a walker entry: `path` relative to `root`, or
/// `None` when `path` does not lie under `root`.
pub fn relative_path(path: &str, root: &str) -> (r: Option<String>)
    ensures
        r is None <==> relative_to(path@, root@) is None,
        r matches Some(rel) ==> relative_to(path@, root@) == Some(rel@),
{
    let p = chars_of(path);
    let rt = chars_of(root);
    if crate::db::str_eq(path, root) {
        return Some(String::new());
    }
    let pre = occurs_at(&p, &rt, 0);
    if rt.len() > 0 && rt[rt.len() - 1] == '/' && pre {
        let rest = sub_chars(&p, rt.len(), p.len());
        return Some(string_of(&rest));
    }
    if pre && p.len() > rt.len() && p[rt.len()] == '/' {
        let rest = sub_chars(&p, rt.len() + 1, p.len());
        return Some(string_of(&rest));
    }
    None
}

fn segments_exec(cs: &Vec<char>) -> (r: bool)
    ensures
        r == has_parent_segment(cs@),
{
    let mut i: usize = 0;
    let mut cur: Vec<char> = Vec::new();
    let ghost mut done: Seq<Seq<char>> = Seq::empty();
    while i < cs.len()
        invariant
            i <= cs.len(),
            done.push(cur@) == segments(cs@.subrange(0, i as int)),
            forall|k: int| 0 <= k < done.len() ==> #[trigger] done[k] != seq!['.', '.'],
        decreases cs.len() - i,
    {
        let ghost pre = cs@.subrange(0, i as int);
        assert(cs@.subrange(0, i + 1).drop_last() =~= pre);
        if cs[i] == '/' {
            if cur.len() == 2 && cur[0] == '.' && cur[1] == '.' {
                proof {
                    assert(cur@ =~= seq!['.', '.']);
                    lemma_segments_keep(cs@, i as int, done, cur@);
                }
                return true;
            }
            proof {
                assert(cur@ != seq!['.', '.']) by {
                    if cur@ == seq!['.', '.'] {
                        assert(cur@.len() == 2 && cur@[0] == '.' && cur@[1] == '.');
                    }
                }
                done = done.push(cur@);
            }
            cur = Vec::new();
            assert(done.push(cur@) =~= segments(cs@.subrange(0, i + 1)));
        } else {
            let ghost old_cur = cur@;
            cur.push(cs[i]);
            assert(done.push(cur@) =~= segments(cs@.subrange(0, i + 1)));
        }
        i = i + 1;
    }
    assert(cs@.subrange(0, cs.len() as int) =~= cs@);
    let last_parent = cur.len() == 2 && cur[0] == '.' && cur[1] == '.';
    proof {
        let s = segments(cs@);
        if last_parent {
            assert(cur@ =~= seq!['.', '.']);
            assert(s[s.len() - 1] == seq!['.', '.']);
        } else {
            assert(cur@ != seq!['.', '.']) by {
                if cur@ == seq!['.', '.'] {
                    assert(cur@.len() == 2 && cur@[0] == '.' && cur@[1] == '.');
                }
            }
            assert forall|k: int| 0 <= k < s.len() implies #[trigger] s[k] != seq!['.', '.'] by {
                if k < done.len() {
                    assert(s[k] == done[k]);
                }
            }
        }
    }
    last_parent
}

proof fn lemma_segments_keep(cs: Seq<char>, i: int, done: Seq<Seq<char>>, cur: Seq<char>)
    requires
        0 <= i < cs.len(),
        cs[i] == '/',
        done.push(cur) == segments(cs.subrange(0, i)),
        cur == seq!['.', '.'],
    ensures
        has_parent_segment(cs),
    decreases cs.len() - i,
{
    lemma_segments_prefix(cs, i, cs.len() as int);
    assert(cs.subrange(0, cs.len() as int) =~= cs);
    let s = segments(cs);
    assert(segments(cs.subrange(0, i))[done.len() as int] == cur);
    assert(s[done.len() as int] == seq!['.', '.']);
}

/// The segments of a prefix are kept, all but its last one unchanged, in
/// the segments of a longer prefix; the last one is extended.
proof fn lemma_segments_prefix(cs: Seq<char>, i: int, j: int)
    requires
        0 <= i < j <= cs.len(),
        cs[i] == '/',
    ensures
        segments(cs.subrange(0, j)).len() > segments(cs.subrange(0, i)).len(),
        forall|k: int|
            0 <= k < segments(cs.subrange(0, i)).len() ==> #[trigger] segments(cs.subrange(0, j))[k]
                == segments(cs.subrange(0, i))[k],
    decreases j - i,
{
    let a = cs.subrange(0, i);
    if j == i + 1 {
        assert(cs.subrange(0, j).drop_last() =~= a);
    } else {
        lemma_segments_prefix(cs, i, j - 1);
        assert(cs.subrange(0, j).drop_last() =~= cs.subrange(0, j - 1));
    }
}

/// Whether a (canonical) path lies inside the (canonical) project root:
/// it continues the root component-wise and has no `..` segment after it.
pub fn is_within_root(path: &str, root: &str) -> (r: bool)
    ensures
        r == within(path@, root@),
{
    match relative_path(path, root) {
        None => false,
        Some(rel) => {
            let cs = chars_of(rel.as_str());
            !segments_exec(&cs)
        },
    }
}

/// Containment: a path accepted as inside the root is the root, or the
/// root followed by a relative path that has no `..` segment (and so does
/// not begin with one).
pub proof fn lemma_contained_paths(path: Seq<char>, root: Seq<char>)
    requires
        within(path, root),
    ensures
        relative_to(path, root) matches Some(rel) && !has_parent_segment(rel) && !(starts_with(
            rel,
            seq!['.', '.'],
        ) && (rel.len() == 2 || rel[2] == '/')),
{
    let rel = relative_to(path, root)->0;
    if starts_with(rel, seq!['.', '.']) && (rel.len() == 2 || rel[2] == '/') {
        lemma_leading_parent(rel);
    }
}

proof fn lemma_leading_parent(rel: Seq<char>)
    requires
        starts_with(rel, seq!['.', '.']),
        rel.len() == 2 || rel[2] == '/',
    ensures
        has_parent_segment(rel),
{
    assert(rel[0] == '.' && rel[1] == '.') by {
        assert(rel.subrange(0, 2)[0] == rel[0]);
        assert(rel.subrange(0, 2)[1] == rel[1]);
    }
    let r2 = rel.subrange(0, 2);
    let e = Seq::<char>::empty();
    let r1 = r2.drop_last();
    assert(r1.drop_last() =~= e);
    assert(segments(e) == seq![e]);
    assert(r1.last() == '.');
    assert(segments(r1) == seq![e].update(0, e.push('.')));
    assert(segments(r1) =~= seq![seq!['.']]);
    assert(r2.last() == '.');
    assert(segments(r2) == seq![seq!['.']].update(0, seq!['.'].push('.')));
    assert(seq!['.'].push('.') =~= seq!['.', '.']);
    assert(segments(r2) =~= seq![seq!['.', '.']]);
    if rel.len() == 2 {
        assert(rel =~= r2);
        assert(segments(rel)[0] == seq!['.', '.']);
    } else {
        lemma_segments_prefix(rel, 2, rel.len() as int);
        assert(rel.subrange(0, rel.len() as int) =~= rel);
        assert(rel.subrange(0, 2) == r2);
        assert(segments(rel.subrange(0, rel.len() as int))[0] == segments(r2)[0]);
        assert(segments(rel)[0] == seq!['.', '.']);
    }
}

/// Splitting a path at a separator splits its segments there.
proof fn lemma_segments_split(p: Seq<char>, i: int, j: int)
    requires
        0 <= i < j <= p.len(),
        p[i] == '/',
    ensures
        segments(p.subrange(0, j)) == segments(p.subrange(0, i)) + segments(p.subrange(i + 1, j)),
    decreases j - i,
{
    let a = segments(p.subrange(0, i));
    if j == i + 1 {
        assert(p.subrange(0, j).drop_last() =~= p.subrange(0, i));
        assert(p.subrange(i + 1, j) =~= Seq::<char>::empty());
        assert(segments(p.subrange(0, j)) =~= a + seq![Seq::<char>::empty()]);
    } else {
        lemma_segments_split(p, i, j - 1);
        let b = segments(p.subrange(i + 1, j - 1));
        assert(p.subrange(0, j).drop_last() =~= p.subrange(0, j - 1));
        assert(p.subrange(i + 1, j).drop_last() =~= p.subrange(i + 1, j - 1));
        assert(p.subrange(0, j).last() == p[j - 1]);
        assert(p.subrange(i + 1, j).last() == p[j - 1]);
        lemma_segments_nonempty(p.subrange(i + 1, j - 1));
        if p[j - 1] == '/' {
            assert(segments(p.subrange(0, j)) =~= a + b.push(Seq::<char>::empty()));
        } else {
            let ab = a + b;
            assert(ab.last() == b.last());
            assert(segments(p.subrange(0, j)) =~= a + b.update(b.len() - 1, b.last().push(p[j - 1])));
        }
    }
}

proof fn lemma_segments_nonempty(p: Seq<char>)
    ensures
        segments(p).len() >= 1,
    decreases p.len(),
{
    if p.len() > 0 {
        lemma_segments_nonempty(p.drop_last());
    }
}

proof fn lemma_suffix_segments(p: Seq<char>, i: int)
    requires
        0 <= i < p.len(),
        p[i] == '/',
        !has_parent_segment(p),
    ensures
        !has_parent_segment(p.subrange(i + 1, p.len() as int)),
{
    lemma_segments_split(p, i, p.len() as int);
    assert(p.subrange(0, p.len() as int) =~= p);
    let a = segments(p.subrange(0, i));
    let b = segments(p.subrange(i + 1, p.len() as int));
    if has_parent_segment(p.subrange(i + 1, p.len() as int)) {
        let k = choose|k: int| 0 <= k < b.len() && #[trigger] b[k] == seq!['.', '.'];
        assert(segments(p)[a.len() + k] == b[k]);
    }
}

/// Containment of stored paths: the path stored for a walker entry that
/// has no `..` segment has none either, so it never begins with `..`.
pub proof fn lemma_stored_path_contained(path: Seq<char>, root: Seq<char>)
    requires
        !has_parent_segment(path),
        relative_to(path, root) is Some,
    ensures
        !has_parent_segment(relative_to(path, root)->0),
        !(starts_with(relative_to(path, root)->0, seq!['.', '.']) && (relative_to(path, root)->0.len() == 2
            || relative_to(path, root)->0[2] == '/')),
{
    let rel = relative_to(path, root)->0;
    if path == root {
        assert(rel.len() == 0);
        assert(segments(rel) =~= seq![Seq::<char>::empty()]);
        assert(!has_parent_segment(rel));
    } else if root.len() > 0 && root.last() == '/' && starts_with(path, root) {
        assert(path[root.len() - 1] == root.last()) by {
            assert(path.subrange(0, root.len() as int)[root.len() - 1] == path[root.len() - 1]);
        }
        lemma_suffix_segments(path, root.len() - 1);
    } else {
        lemma_suffix_segments(path, root.len() as int);
    }
    if starts_with(rel, seq!['.', '.']) && (rel.len() == 2 || rel[2] == '/') {
        lemma_leading_parent(rel);
    }
}

// ---------------------------------------------------------------------
// Per-entry decisions
// ---------------------------------------------------------------------

/// What the walker and the filesystem report of one entry before its
/// content is read.
#[derive(Debug, Clone)]
pub struct EntryFacts {
    /// The entry's final path segment.
    pub file_name: String,
    /// Whether the entry is a symlink; `None` when its metadata could not be read.
    pub is_symlink: Option<bool>,
    /// For a symlink, whether its canonical target lies inside the
    /// canonical root; `None` when it could not be resolved.
    pub target_within_root: Option<bool>,
    /// The entry is a directory.
    pub is_dir: bool,
    /// The entry's size in bytes; `None` when its metadata could not be read.
    pub size: Option<u64>,
}

/// What to do with one entry before its content is read.
#[derive(Debug, Clone, Copy, PartialEq, Eq, Structural)]
pub enum EntryAction {
    /// Not a candidate at all (a store file or a directory); not counted.
    Ignore,
    /// Counted as skipped.
    Skip,
    /// Counted as skipped: its metadata could not be read.
    MetadataFailed,
    /// Read its content, of the given size.
    Read(u64),
}

pub open spec fn entry_action(c: IndexerConfig, f: EntryFacts) -> EntryAction {
    if is_db_file_name(f.file_name@) {
        EntryAction::Ignore
    } else if f.is_symlink is None {
        EntryAction::Skip
    } else if f.is_symlink == Some(true) && !c.follow_symlinks {
        EntryAction::Skip
    } else if f.is_symlink == Some(true) && f.target_within_root != Some(true) {
        EntryAction::Skip
    } else if f.is_dir {
        EntryAction::Ignore
    } else {
        match f.size {
            None => EntryAction::MetadataFailed,
            Some(n) => if n > c.max_file_size {
                EntryAction::Skip
            } else {
                EntryAction::Read(n)
            },
        }
    }
}

/// Decides an entry before reading it: store files are ignored; a symlink
/// is skipped unless links are followed and its target stays inside the
/// root; directories are ignored; files over the size limit are skipped.
pub fn decide_entry(config: &IndexerConfig, facts: &EntryFacts) -> (r: EntryAction)
    ensures
        r == entry_action(*config, *facts),
{
    if is_database_file(facts.file_name.as_str()) {
        return EntryAction::Ignore;
    }
    match facts.is_symlink {
        None => {
            return EntryAction::Skip;
        },
        Some(true) => {
            if !config.follow_symlinks {
                return EntryAction::Skip;
            }
            match facts.target_within_root {
                Some(true) => {},
                _ => {
                    return EntryAction::Skip;
                },
            }
        },
        Some(false) => {},
    }
    if facts.is_dir {
        return EntryAction::Ignore;
    }
    match facts.size {
        None => EntryAction::MetadataFailed,
        Some(n) => if n > config.max_file_size {
            EntryAction::Skip
        } else {
            EntryAction::Read(n)
        },
    }
}

/// How many bytes to read at most: one more than the limit, so that a
/// file that grew past it is noticed.
pub fn read_limit(max_file_size: u64) -> (r: u64)
    ensures
        r == if max_file_size == u64::MAX { u64::MAX } else { (max_file_size + 1) as u64 },
{
    if max_file_size == u64::MAX {
        u64::MAX
    } else {
        max_file_size + 1
    }
}

/// Whether content of `len` bytes that was read stays within the limit.
pub fn read_within_limit(len: usize, max_file_size: u64) -> (r: bool)
    ensures
        r == (len as int <= max_file_size as int),
{
    (len as u64) <= max_file_size
}

/// Converts a metadata value to the store's signed 64-bit integer, with
/// an explicit range check instead of a silent truncation.
pub fn checked_i64_from_u64(value: u64) -> (r: Option<i64>)
    ensures
        r == if value <= i64::MAX as u64 { Some(value as i64) } else { None::<i64> },
{
    if value > i64::MAX as u64 {
        None
    } else {
        Some(value as i64)
    }
}

// ---------------------------------------------------------------------
// Conditional transaction batching
// ---------------------------------------------------------------------

/// Below this many written entries a run relies on auto-commit.
pub const TRANSACTION_THRESHOLD: usize = 50;

/// A statement that controls the store's transactions.
#[derive(Debug, Clone, Copy, PartialEq, Eq, Structural)]
pub enum TxStatement {
    BeginImmediate,
    Commit,
    Rollback,
}

/// How one entry ended.
#[derive(Debug, Clone, Copy, PartialEq, Eq, Structural)]
pub enum EntryOutcome {
    /// Written to the store, with its size.
    Indexed(u64),
    /// Counted as skipped (a per-file error or a skip decision).
    Skipped,
    /// Neither written nor counted.
    Ignored,
    /// The store failed: the run aborts.
    StoreFailed,
}

/// The state of an indexing run between entries.
#[derive(Debug, Clone, Copy)]
pub struct IndexRun {
    pub batch_count: usize,
    pub transaction_started: bool,
    pub stats: IndexStats,
    pub batch_size: usize,
}

/// The state after a written entry, and the statements to issue.
pub open spec fn after_write(batch_count: nat, started: bool, batch_size: nat) -> (nat, bool, Seq<TxStatement>) {
    let c = if batch_count < usize::MAX { batch_count + 1 } else { batch_count };
    let begin = c == TRANSACTION_THRESHOLD && !started;
    let s1 = started || begin;
    let pre = if begin { seq![TxStatement::BeginImmediate] } else { Seq::empty() };
    if s1 && c >= batch_size {
        (TRANSACTION_THRESHOLD as nat, s1, pre + seq![TxStatement::Commit, TxStatement::BeginImmediate])
    } else {
        (c, s1, pre)
    }
}

impl IndexRun {
    /// A run that has seen no entry.
    pub fn new(config: &IndexerConfig) -> (r: Self)
        ensures
            r.batch_count == 0,
            !r.transaction_started,
            r.stats.files_indexed == 0 && r.stats.files_skipped == 0 && r.stats.bytes_indexed == 0,
            r.batch_size == config.batch_size,
    {
        IndexRun {
            batch_count: 0,
            transaction_started: false,
            stats: IndexStats::new(),
            batch_size: config.batch_size,
        }
    }

    /// Accounts for one entry and returns the transaction statements to
    /// issue next. A written entry counts toward the batch: on reaching the
    /// threshold outside a transaction one is begun; inside one, every
    /// `batch_size` entries it is committed and a new one begun, the count
    /// going back to the threshold. A store failure rolls back an open
    /// transaction. Counters saturate rather than wrap.
    pub fn record(&mut self, outcome: EntryOutcome) -> (r: Vec<TxStatement>)
        ensures
            final(self).batch_size == old(self).batch_size,
            outcome matches EntryOutcome::Indexed(n) ==> {
                let (c, s, stmts) = after_write(
                    old(self).batch_count as nat,
                    old(self).transaction_started,
                    old(self).batch_size as nat,
                );
                &&& final(self).batch_count == c
                &&& final(self).transaction_started == s
                &&& r@ == stmts
                &&& final(self).stats.files_indexed == sat_add(old(self).stats.files_indexed, 1)
                &&& final(self).stats.bytes_indexed == sat_add(old(self).stats.bytes_indexed, n)
                &&& final(self).stats.files_skipped == old(self).stats.files_skipped
            },
            outcome is Skipped ==> final(self).batch_count == old(self).batch_count
                && final(self).transaction_started == old(self).transaction_started
                && r@.len() == 0
                && final(self).stats.files_skipped == sat_add(old(self).stats.files_skipped, 1)
                && final(self).stats.files_indexed == old(self).stats.files_indexed
                && final(self).stats.bytes_indexed == old(self).stats.bytes_indexed,
            outcome is Ignored ==> final(self).batch_count == old(self).batch_count
                && final(self).transaction_started == old(self).transaction_started
                && r@.len() == 0 && final(self).stats == old(self).stats,
            outcome is StoreFailed ==> final(self).stats == old(self).stats && !final(self).transaction_started
                && r@ == if old(self).transaction_started {
                seq![TxStatement::Rollback]
            } else {
                Seq::empty()
            },
    {
        let mut out: Vec<TxStatement> = Vec::new();
        match outcome {
            EntryOutcome::Indexed(n) => {
                self.stats.files_indexed = saturating_add(self.stats.files_indexed, 1);
                self.stats.bytes_indexed = saturating_add(self.stats.bytes_indexed, n);
                if self.batch_count < usize::MAX {
                    self.batch_count = self.batch_count + 1;
                }
                if self.batch_count == TRANSACTION_THRESHOLD && !self.transaction_started {
                    out.push(TxStatement::BeginImmediate);
                    self.transaction_started = true;
                }
                if self.transaction_started && self.batch_count >= self.batch_size {
                    out.push(TxStatement::Commit);
                    out.push(TxStatement::BeginImmediate);
                    self.batch_count = TRANSACTION_THRESHOLD;
                }
                proof {
                    assert(out@ =~= after_write(
                        old(self).batch_count as nat,
                        old(self).transaction_started,
                        old(self).batch_size as nat,
                    ).2);
                }
            },
            EntryOutcome::Skipped => {
                self.stats.files_skipped = saturating_add(self.stats.files_skipped, 1);
            },
            EntryOutcome::Ignored => {},
            EntryOutcome::StoreFailed => {
                if self.transaction_started {
                    out.push(TxStatement::Rollback);
                }
                self.transaction_started = false;
                assert(out@ =~= if old(self).transaction_started {
                    seq![TxStatement::Rollback]
                } else {
                    Seq::empty()
                });
            },
        }
        out
    }

    /// The statements that end a completed walk: the final batch is
    /// committed if a transaction is open.
    pub fn finish(&mut self) -> (r: Vec<TxStatement>)
        ensures
            r@ == if old(self).transaction_started {
                seq![TxStatement::Commit]
            } else {
                Seq::empty()
            },
            !final(self).transaction_started,
            final(self).stats == old(self).stats,
            final(self).batch_size == old(self).batch_size,
    {
        let mut out: Vec<TxStatement> = Vec::new();
        if self.transaction_started {
            out.push(TxStatement::Commit);
        }
        self.transaction_started = false;
        assert(out@ =~= if old(self).transaction_started {
            seq![TxStatement::Commit]
        } else {
            Seq::empty()
        });
        out
    }
}

pub open spec fn sat_add(a: u64, b: u64) -> u64 {
    if a + b > u64::MAX {
        u64::MAX
    } else {
        (a + b) as u64
    }
}

fn saturating_add(a: u64, b: u64) -> (r: u64)
    ensures
        r == sat_add(a, b),
{
    if a > u64::MAX - b {
        u64::MAX
    } else {
        a + b
    }
}

/// Once a run is in batched mode its count never drops below the
/// threshold, and a transaction is begun exactly when a written entry
/// brings the count to the threshold outside a transaction.
pub proof fn lemma_batching(batch_count: nat, started: bool, batch_size: nat)
    requires
        started ==> batch_count >= TRANSACTION_THRESHOLD,
        batch_count <= usize::MAX,
    ensures
        ({
            let (c, s, stmts) = after_write(batch_count, started, batch_size);
            &&& s ==> c >= TRANSACTION_THRESHOLD
            &&& (stmts.len() > 0 && stmts[0] == TxStatement::BeginImmediate) <==> (!started
                && batch_count + 1 == TRANSACTION_THRESHOLD)
            &&& s == (started || batch_count + 1 == TRANSACTION_THRESHOLD)
            &&& c <= usize::MAX
        }),
{
}

} // verus!
