//! Store-side rules: tuning knobs and their validation, the schema
//! completeness check, the filename column derived from a path, and the
//! conversions applied to values read from the store.
use vstd::prelude::*;
use crate::number::{parse_i64, i64_of};
use crate::text::{chars_of, string_from_str, string_of};

verus! {

/// Whether two strings hold the same characters.
pub fn str_eq(a: &str, b: &str) -> (r: bool)
    ensures
        r == (a@ == b@),
{
    let x = chars_of(a);
    let y = chars_of(b);
    if x.len() != y.len() {
        return false;
    }
    let mut i: usize = 0;
    while i < x.len()
        invariant
            x.len() == y.len(),
            x@ == a@,
            y@ == b@,
            i <= x.len(),
            forall|k: int| 0 <= k < i ==> x@[k] == y@[k],
        decreases x.len() - i,
    {
        if x[i] != y[i] {
            assert(a@[i as int] != b@[i as int]);
            return false;
        }
        i = i + 1;
    }
    assert(x@ =~= y@);
    true
}

// ---------------------------------------------------------------------
// Tuning knobs
// ---------------------------------------------------------------------

/// The largest accepted memory-map size: 256 MiB.
pub const MAX_MMAP_SIZE: i64 = 268435456;

/// Database configuration for PRAGMA settings.
#[derive(Debug, Clone)]
pub struct PragmaConfig {
    pub journal_mode: String,
    pub synchronous: String,
    pub cache_size: i64,
    pub temp_store: String,
    pub mmap_size: i64,
    pub page_size: i64,
    pub busy_timeout_ms: i64,
}

impl PragmaConfig {
    /// Default memory-mapped I/O size: 256 MiB.
    pub fn default_mmap_size() -> (r: i64)
        ensures
            r == MAX_MMAP_SIZE,
    {
        256 * 1024 * 1024
    }
}

impl Default for PragmaConfig {
    fn default() -> (r: Self)
        ensures
            r.journal_mode@ == "WAL"@,
            r.synchronous@ == "NORMAL"@,
            r.cache_size == -32000,
            r.temp_store@ == "MEMORY"@,
            r.mmap_size == MAX_MMAP_SIZE,
            r.page_size == 4096,
            r.busy_timeout_ms == 5000,
    {
        PragmaConfig {
            journal_mode: string_from_str("WAL"),
            synchronous: string_from_str("NORMAL"),
            cache_size: -32000,
            temp_store: string_from_str("MEMORY"),
            mmap_size: PragmaConfig::default_mmap_size(),
            page_size: 4096,
            busy_timeout_ms: 5000,
        }
    }
}

/// An accepted cache size: positive (pages) or -1000 to -1000000 (KiB).
pub open spec fn cache_size_ok(v: i64) -> bool {
    v > 0 || (-1_000_000 <= v && v <= -1_000)
}

/// An accepted memory-map size: 0 to 256 MiB.
pub open spec fn mmap_size_ok(v: i64) -> bool {
    0 <= v && v <= MAX_MMAP_SIZE
}

/// An accepted page size: a power of two from 512 to 65536.
pub open spec fn page_size_ok(v: i64) -> bool {
    v == 512 || v == 1024 || v == 2048 || v == 4096 || v == 8192 || v == 16384 || v == 32768
        || v == 65536
}

/// An accepted busy timeout: not negative.
pub open spec fn busy_timeout_ok(v: i64) -> bool {
    v >= 0
}

/// The outcome of checking one integer knob given as text.
pub open spec fn knob_result(s: Seq<char>, ok: spec_fn(i64) -> bool) -> Option<i64> {
    match i64_of(s) {
        Some(v) => if ok(v) {
            Some(v)
        } else {
            None
        },
        None => None,
    }
}

/// Validates `cache_size`: must be positive (pages) or -1000 to -1000000 (KiB).
pub fn validate_cache_size(s: &str) -> (r: Result<i64, String>)
    ensures
        r matches Ok(v) ==> knob_result(s@, |v: i64| cache_size_ok(v)) == Some(v),
        r is Err ==> knob_result(s@, |v: i64| cache_size_ok(v)) is None,
{
    match parse_i64(s) {
        None => Err(string_from_str("invalid integer")),
        Some(v) => {
            if v > 0 || (-1_000_000 <= v && v <= -1_000) {
                Ok(v)
            } else {
                Err(string_from_str("must be positive (pages) or -1000 to -1000000 (KB)"))
            }
        },
    }
}

/// Validates `mmap_size`: must be between 0 and 256 MiB.
pub fn validate_mmap_size(s: &str) -> (r: Result<i64, String>)
    ensures
        r matches Ok(v) ==> knob_result(s@, |v: i64| mmap_size_ok(v)) == Some(v),
        r is Err ==> knob_result(s@, |v: i64| mmap_size_ok(v)) is None,
{
    match parse_i64(s) {
        None => Err(string_from_str("invalid integer")),
        Some(v) => {
            if v < 0 {
                Err(string_from_str("must be >= 0"))
            } else if v > MAX_MMAP_SIZE {
                Err(string_from_str("must be <= 268435456 (256MB)"))
            } else {
                Ok(v)
            }
        },
    }
}

/// Validates `page_size`: must be a power of two between 512 and 65536.
pub fn validate_page_size(s: &str) -> (r: Result<i64, String>)
    ensures
        r matches Ok(v) ==> knob_result(s@, |v: i64| page_size_ok(v)) == Some(v),
        r is Err ==> knob_result(s@, |v: i64| page_size_ok(v)) is None,
{
    match parse_i64(s) {
        None => Err(string_from_str("invalid integer")),
        Some(v) => {
            if v < 512 || v > 65536 {
                Err(string_from_str("must be between 512 and 65536"))
            } else if v != 512 && v != 1024 && v != 2048 && v != 4096 && v != 8192 && v != 16384
                && v != 32768 && v != 65536 {
                Err(string_from_str("must be a power of 2"))
            } else {
                Ok(v)
            }
        },
    }
}

/// Validates `busy_timeout`: must be non-negative.
pub fn validate_busy_timeout(s: &str) -> (r: Result<i64, String>)
    ensures
        r matches Ok(v) ==> knob_result(s@, |v: i64| busy_timeout_ok(v)) == Some(v),
        r is Err ==> knob_result(s@, |v: i64| busy_timeout_ok(v)) is None,
{
    match parse_i64(s) {
        None => Err(string_from_str("invalid integer")),
        Some(v) => {
            if v < 0 {
                Err(string_from_str("must be >= 0"))
            } else {
                Ok(v)
            }
        },
    }
}

/// The upper-case form of a string under Unicode case mapping.
pub uninterp spec fn upper_of(s: Seq<char>) -> Seq<char>;

/// Relies on `str::to_uppercase`: the result depends on the characters alone.
#[verifier::external_body]
fn to_upper(s: &str) -> (r: String)
    ensures
        r@ == upper_of(s@),
{
    s.to_uppercase()
}

/// The accepted synchronous modes.
pub open spec fn sync_mode_ok(m: Seq<char>) -> bool {
    m == "OFF"@ || m == "NORMAL"@ || m == "FULL"@ || m == "EXTRA"@
}

/// Validates a synchronous mode given in upper-case form.
pub fn validate_synchronous_upper(upper: String) -> (r: Result<String, String>)
    ensures
        r matches Ok(m) ==> m@ == upper@ && sync_mode_ok(upper@),
        r is Err ==> !sync_mode_ok(upper@),
{
    let t = upper.as_str();
    if str_eq(t, "OFF") || str_eq(t, "NORMAL") || str_eq(t, "FULL") || str_eq(t, "EXTRA") {
        Ok(upper)
    } else {
        Err(string_from_str("must be OFF, NORMAL, FULL, or EXTRA"))
    }
}

/// Validates the synchronous mode: its upper-case form must be OFF,
/// NORMAL, FULL or EXTRA, and is what is kept.
pub fn validate_synchronous(s: &str) -> (r: Result<String, String>)
    ensures
        r matches Ok(m) ==> m@ == upper_of(s@) && sync_mode_ok(upper_of(s@)),
        r is Err ==> !sync_mode_ok(upper_of(s@)),
{
    let u = to_upper(s);
    validate_synchronous_upper(u)
}

/// Checks the knobs that the store itself cannot reject: the busy timeout
/// must not be negative.
pub fn check_busy_timeout(config: &PragmaConfig) -> (r: Result<u64, ()>)
    ensures
        r matches Ok(ms) ==> config.busy_timeout_ms >= 0 && ms == config.busy_timeout_ms,
        r is Err <==> config.busy_timeout_ms < 0,
{
    if config.busy_timeout_ms < 0 {
        Err(())
    } else {
        Ok(config.busy_timeout_ms as u64)
    }
}

// ---------------------------------------------------------------------
// Schema check
// ---------------------------------------------------------------------

/// Result of schema completeness check.
#[derive(Debug, Clone, Copy, PartialEq, Eq, Structural)]
pub struct SchemaCheck {
    pub has_files_table: bool,
    pub has_fts_table: bool,
    pub has_insert_trigger: bool,
    pub has_update_trigger: bool,
    pub has_delete_trigger: bool,
    pub has_mtime_index: bool,
    pub has_path_index: bool,
    pub has_hash_index: bool,
}

pub open spec fn count_of(b: bool) -> int {
    if b {
        1
    } else {
        0
    }
}

pub open spec fn listed(b: bool, name: Seq<char>) -> Seq<Seq<char>> {
    if b {
        seq![name]
    } else {
        Seq::empty()
    }
}

impl Default for SchemaCheck {
    fn default() -> (r: Self)
        ensures
            !r.has_files_table && !r.has_fts_table && !r.has_insert_trigger
                && !r.has_update_trigger && !r.has_delete_trigger && !r.has_mtime_index
                && !r.has_path_index && !r.has_hash_index,
    {
        SchemaCheck {
            has_files_table: false,
            has_fts_table: false,
            has_insert_trigger: false,
            has_update_trigger: false,
            has_delete_trigger: false,
            has_mtime_index: false,
            has_path_index: false,
            has_hash_index: false,
        }
    }
}

impl SchemaCheck {
    /// The schema objects named by the catalog counts, in the order: files
    /// table, full-text table, insert, update and delete triggers, mtime,
    /// path and hash indexes. A count above zero means present.
    pub fn from_counts(c: [i64; 8]) -> (r: Self)
        ensures
            r.has_files_table == (c@[0] > 0),
            r.has_fts_table == (c@[1] > 0),
            r.has_insert_trigger == (c@[2] > 0),
            r.has_update_trigger == (c@[3] > 0),
            r.has_delete_trigger == (c@[4] > 0),
            r.has_mtime_index == (c@[5] > 0),
            r.has_path_index == (c@[6] > 0),
            r.has_hash_index == (c@[7] > 0),
    {
        SchemaCheck {
            has_files_table: c[0] > 0,
            has_fts_table: c[1] > 0,
            has_insert_trigger: c[2] > 0,
            has_update_trigger: c[3] > 0,
            has_delete_trigger: c[4] > 0,
            has_mtime_index: c[5] > 0,
            has_path_index: c[6] > 0,
            has_hash_index: c[7] > 0,
        }
    }

    /// Returns true if all required schema objects exist.
    pub fn is_complete(&self) -> (r: bool)
        ensures
            r == (self.has_files_table && self.has_fts_table && self.has_insert_trigger
                && self.has_update_trigger && self.has_delete_trigger && self.has_mtime_index
                && self.has_path_index && self.has_hash_index),
    {
        self.has_files_table && self.has_fts_table && self.has_insert_trigger
            && self.has_update_trigger && self.has_delete_trigger && self.has_mtime_index
            && self.has_path_index && self.has_hash_index
    }

    /// Count of tables (expected: 2).
    pub fn table_count(&self) -> (r: usize)
        ensures
            r == count_of(self.has_files_table) + count_of(self.has_fts_table),
    {
        let mut count: usize = 0;
        if self.has_files_table {
            count += 1;
        }
        if self.has_fts_table {
            count += 1;
        }
        count
    }

    /// Count of triggers (expected: 3).
    pub fn trigger_count(&self) -> (r: usize)
        ensures
            r == count_of(self.has_insert_trigger) + count_of(self.has_update_trigger) + count_of(
                self.has_delete_trigger,
            ),
    {
        let mut count: usize = 0;
        if self.has_insert_trigger {
            count += 1;
        }
        if self.has_update_trigger {
            count += 1;
        }
        if self.has_delete_trigger {
            count += 1;
        }
        count
    }

    /// Count of indexes (expected: 3).
    pub fn index_count(&self) -> (r: usize)
        ensures
            r == count_of(self.has_mtime_index) + count_of(self.has_path_index) + count_of(
                self.has_hash_index,
            ),
    {
        let mut count: usize = 0;
        if self.has_mtime_index {
            count += 1;
        }
        if self.has_path_index {
            count += 1;
        }
        if self.has_hash_index {
            count += 1;
        }
        count
    }

    /// The names of the missing objects, in the order in which they are checked.
    pub open spec fn missing_view(self) -> Seq<Seq<char>> {
        listed(!self.has_files_table, "table: files"@) + listed(
            !self.has_fts_table,
            "table: files_fts"@,
        ) + listed(!self.has_insert_trigger, "trigger: files_ai"@) + listed(
            !self.has_update_trigger,
            "trigger: files_au"@,
        ) + listed(!self.has_delete_trigger, "trigger: files_ad"@) + listed(
            !self.has_mtime_index,
            "index: idx_files_mtime"@,
        ) + listed(!self.has_path_index, "index: idx_files_path"@) + listed(
            !self.has_hash_index,
            "index: idx_files_hash"@,
        )
    }

    /// Get list of missing objects.
    pub fn missing_objects(&self) -> (r: Vec<&'static str>)
        ensures
            names(r@) == self.missing_view(),
    {
        let mut missing: Vec<&'static str> = Vec::new();
        assert(names(missing@) =~= Seq::<Seq<char>>::empty());
        push_if(&mut missing, !self.has_files_table, "table: files");
        push_if(&mut missing, !self.has_fts_table, "table: files_fts");
        push_if(&mut missing, !self.has_insert_trigger, "trigger: files_ai");
        push_if(&mut missing, !self.has_update_trigger, "trigger: files_au");
        push_if(&mut missing, !self.has_delete_trigger, "trigger: files_ad");
        push_if(&mut missing, !self.has_mtime_index, "index: idx_files_mtime");
        push_if(&mut missing, !self.has_path_index, "index: idx_files_path");
        push_if(&mut missing, !self.has_hash_index, "index: idx_files_hash");
        assert(names(missing@) =~= self.missing_view());
        missing
    }
}

/// The views of a sequence of static strings.
pub open spec fn names(v: Seq<&'static str>) -> Seq<Seq<char>> {
    v.map_values(|s: &'static str| s@)
}

fn push_if(v: &mut Vec<&'static str>, b: bool, name: &'static str)
    ensures
        names(final(v)@) == names(old(v)@) + listed(b, name@),
{
    if b {
        v.push(name);
    }
    assert(names(final(v)@) =~= names(old(v)@) + listed(b, name@));
}

/// A schema is complete exactly when no object is missing.
pub proof fn lemma_complete_iff_nothing_missing(c: SchemaCheck)
    ensures
        (c.has_files_table && c.has_fts_table && c.has_insert_trigger && c.has_update_trigger
            && c.has_delete_trigger && c.has_mtime_index && c.has_path_index && c.has_hash_index)
            <==> c.missing_view().len() == 0,
{
}

// ---------------------------------------------------------------------
// Values read from the store
// ---------------------------------------------------------------------

/// Database size from the page count and the page size: `None` when
/// either is negative or the product does not fit in a signed 64-bit value.
pub fn db_size_bytes(page_count: i64, page_size: i64) -> (r: Option<u64>)
    ensures
        r == if 0 <= page_count && 0 <= page_size && page_count * page_size <= i64::MAX {
            Some((page_count * page_size) as u64)
        } else {
            None::<u64>
        },
{
    if page_count < 0 || page_size < 0 {
        return None;
    }
    let pc = page_count as u64;
    let ps = page_size as u64;
    if ps != 0 && pc > (i64::MAX as u64) / ps {
        proof {
            assert(pc * ps > i64::MAX) by (nonlinear_arith)
                requires
                    ps != 0,
                    pc > (i64::MAX as u64) / ps,
            ;
        }
        return None;
    }
    proof {
        assert(pc * ps <= i64::MAX) by (nonlinear_arith)
            requires
                ps == 0 || pc <= (i64::MAX as u64) / ps,
        ;
    }
    Some(pc * ps)
}

/// The row count returned by the store as a count of files; a negative
/// count (which the store never returns) is `None`.
pub fn file_count_from_stored(n: i64) -> (r: Option<u64>)
    ensures
        r == if n >= 0 { Some(n as u64) } else { None::<u64> },
{
    if n >= 0 {
        Some(n as u64)
    } else {
        None
    }
}

// ---------------------------------------------------------------------
// The filename column
// ---------------------------------------------------------------------

/// `p` without trailing `/` separators.
pub open spec fn strip_slashes(p: Seq<char>) -> Seq<char>
    decreases p.len(),
{
    if p.len() > 0 && p.last() == '/' {
        strip_slashes(p.drop_last())
    } else {
        p
    }
}

/// The text after the last `/` of `p` (all of `p` when it has none).
pub open spec fn after_last_slash(p: Seq<char>) -> Seq<char>
    decreases p.len(),
{
    if p.len() == 0 {
        p
    } else if p.last() == '/' {
        Seq::empty()
    } else {
        after_last_slash(p.drop_last()).push(p.last())
    }
}

/// The final segment of a path, ignoring trailing separators; the whole
/// path when that segment is empty, `.` or `..`.
pub open spec fn filename_of(p: Seq<char>) -> Seq<char> {
    let seg = after_last_slash(strip_slashes(p));
    if seg.len() == 0 || seg == seq!['.'] || seg == seq!['.', '.'] {
        p
    } else {
        seg
    }
}

proof fn lemma_strip_slashes_to(p: Seq<char>, j: int)
    requires
        0 <= j <= p.len(),
        forall|k: int| j <= k < p.len() ==> #[trigger] p[k] == '/',
        j > 0 ==> p[j - 1] != '/',
    ensures
        strip_slashes(p) == p.subrange(0, j),
    decreases p.len() - j,
{
    if j < p.len() {
        lemma_strip_slashes_to(p.drop_last(), j);
        assert(p.drop_last().subrange(0, j) =~= p.subrange(0, j));
    } else {
        assert(p.subrange(0, j) =~= p);
    }
}

proof fn lemma_after_last_slash(p: Seq<char>, i: int)
    requires
        0 <= i <= p.len(),
        forall|k: int| i <= k < p.len() ==> #[trigger] p[k] != '/',
        i > 0 ==> p[i - 1] == '/',
    ensures
        after_last_slash(p) == p.subrange(i, p.len() as int),
    decreases p.len() - i,
{
    if i < p.len() {
        lemma_after_last_slash(p.drop_last(), i);
        assert(p.drop_last().subrange(i, p.len() - 1).push(p.last()) =~= p.subrange(
            i,
            p.len() as int,
        ));
    } else {
        assert(p.subrange(i, p.len() as int) =~= Seq::<char>::empty());
    }
}

/// The filename stored for a path: its final segment.
pub fn file_name_of(path: &str) -> (r: String)
    ensures
        r@ == filename_of(path@),
{
    let cs = chars_of(path);
    let mut j = cs.len();
    while j > 0 && cs[j - 1] == '/'
        invariant
            j <= cs.len(),
            forall|k: int| j <= k < cs.len() ==> #[trigger] cs@[k] == '/',
        decreases j,
    {
        j = j - 1;
    }
    let ghost stripped = cs@.subrange(0, j as int);
    proof {
        lemma_strip_slashes_to(cs@, j as int);
    }
    let mut i = j;
    while i > 0 && cs[i - 1] != '/'
        invariant
            i <= j <= cs.len(),
            forall|k: int| i <= k < j ==> #[trigger] cs@[k] != '/',
        decreases i,
    {
        i = i - 1;
    }
    proof {
        lemma_after_last_slash(stripped, i as int);
    }
    let mut seg: Vec<char> = Vec::new();
    let mut k = i;
    while k < j
        invariant
            i <= k <= j <= cs.len(),
            seg@ == cs@.subrange(i as int, k as int),
        decreases j - k,
    {
        seg.push(cs[k]);
        k = k + 1;
        assert(seg@ =~= cs@.subrange(i as int, k as int));
    }
    assert(stripped.subrange(i as int, j as int) =~= seg@);
    let n = seg.len();
    if n == 0 || (n == 1 && seg[0] == '.') || (n == 2 && seg[0] == '.' && seg[1] == '.') {
        proof {
            if n == 1 {
                assert(seg@ =~= seq!['.']);
            }
            if n == 2 {
                assert(seg@ =~= seq!['.', '.']);
            }
        }
        string_from_str(path)
    } else {
        proof {
            if n == 1 {
                assert(seg@ != seq!['.']) by {
                    assert(seg@[0] != seq!['.'][0]);
                }
            }
            if n == 2 {
                assert(seg@ != seq!['.', '.']) by {
                    if seg@ == seq!['.', '.'] {
                        assert(seg@[0] == '.' && seg@[1] == '.');
                    }
                }
            }
        }
        string_of(&seg)
    }
}

} // verus!
