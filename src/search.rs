//! The two-phase search: preparation of the filename-substring search and
//! the merge of its hits with the full-text hits.
use vstd::prelude::*;
use crate::query::{is_ws, trim, trim_end_by, trim_ws, is_whitespace};
use crate::text::{chars_of, string_of};

verus! {

/// The views of a sequence of strings.
pub open spec fn views(v: Seq<String>) -> Seq<Seq<char>> {
    v.map_values(|s: String| s@)
}

// ---------------------------------------------------------------------
// Filename substring search terms
// ---------------------------------------------------------------------

/// The text that a filename-substring search looks for: the trimmed query
/// without trailing `*` wildcards.
pub open spec fn filename_term(q: Seq<char>) -> Seq<char> {
    trim_end_by(trim(q), |c: char| c == '*')
}

/// The LIKE escape of one character: `\`, `%` and `_` get a backslash.
pub open spec fn escape_like_char(c: char) -> Seq<char> {
    if c == '\\' || c == '%' || c == '_' {
        seq!['\\', c]
    } else {
        seq![c]
    }
}

/// `s` with every LIKE wildcard and backslash escaped.
pub open spec fn escape_like(s: Seq<char>) -> Seq<char>
    decreases s.len(),
{
    if s.len() == 0 {
        s
    } else {
        escape_like(s.drop_last()) + escape_like_char(s.last())
    }
}

/// Escapes the LIKE wildcards `%` and `_` and the escape character `\`
/// with a backslash.
pub fn escape_like_pattern(input: &str) -> (r: String)
    ensures
        r@ == escape_like(input@),
{
    let cs = chars_of(input);
    let mut out: Vec<char> = Vec::new();
    let mut i: usize = 0;
    while i < cs.len()
        invariant
            i <= cs.len(),
            out@ == escape_like(cs@.subrange(0, i as int)),
        decreases cs.len() - i,
    {
        let c = cs[i];
        let ghost pre = cs@.subrange(0, i as int);
        assert(cs@.subrange(0, i + 1).drop_last() =~= pre);
        if c == '\\' || c == '%' || c == '_' {
            out.push('\\');
        }
        out.push(c);
        i = i + 1;
        assert(out@ =~= escape_like(cs@.subrange(0, i as int)));
    }
    assert(cs@.subrange(0, cs.len() as int) =~= cs@);
    string_of(&out)
}

/// Prepares a filename-substring search: `None` when nothing is left to
/// look for, otherwise the escaped LIKE term and the plain term.
pub fn filename_search_terms(query: &str) -> (r: Option<(String, String)>)
    ensures
        r is None <==> filename_term(query@).len() == 0,
        r matches Some((like, term)) ==> term@ == filename_term(query@) && like@ == escape_like(
            term@,
        ),
{
    let t = trim_ws(query);
    let cs = chars_of(t.as_str());
    let mut j = cs.len();
    while j > 0 && cs[j - 1] == '*'
        invariant
            j <= cs.len(),
            forall|k: int| j <= k < cs.len() ==> #[trigger] cs@[k] == '*',
        decreases j,
    {
        j = j - 1;
    }
    proof {
        lemma_strip_end_to(cs@, j as int);
    }
    if j == 0 {
        return None;
    }
    let mut term_chars: Vec<char> = Vec::new();
    let mut k: usize = 0;
    while k < j
        invariant
            k <= j <= cs.len(),
            term_chars@ == cs@.subrange(0, k as int),
        decreases j - k,
    {
        term_chars.push(cs[k]);
        k = k + 1;
        assert(term_chars@ =~= cs@.subrange(0, k as int));
    }
    let term = string_of(&term_chars);
    let like = escape_like_pattern(term.as_str());
    Some((like, term))
}

proof fn lemma_strip_end_to(s: Seq<char>, j: int)
    requires
        0 <= j <= s.len(),
        forall|k: int| j <= k < s.len() ==> #[trigger] s[k] == '*',
        j > 0 ==> s[j - 1] != '*',
    ensures
        trim_end_by(s, |c: char| c == '*') == s.subrange(0, j),
    decreases s.len() - j,
{
    if j < s.len() {
        assert(s.drop_last() =~= s.subrange(0, s.len() - 1));
        lemma_strip_end_to(s.drop_last(), j);
        assert(s.drop_last().subrange(0, j) =~= s.subrange(0, j));
    } else {
        assert(s.subrange(0, j) =~= s);
    }
}

// ---------------------------------------------------------------------
// First word
// ---------------------------------------------------------------------

/// The leading run of non-whitespace characters of `s`.
pub open spec fn take_word(s: Seq<char>) -> Seq<char>
    decreases s.len(),
{
    if s.len() == 0 || is_ws(s[0]) {
        Seq::empty()
    } else {
        seq![s[0]] + take_word(s.drop_first())
    }
}

/// The first whitespace-delimited word of `s` (empty when there is none).
pub open spec fn first_word(s: Seq<char>) -> Seq<char>
    decreases s.len(),
{
    if s.len() > 0 && is_ws(s[0]) {
        first_word(s.drop_first())
    } else {
        take_word(s)
    }
}

proof fn lemma_first_word_from(s: Seq<char>, i: int)
    requires
        0 <= i <= s.len(),
        forall|k: int| 0 <= k < i ==> is_ws(#[trigger] s[k]),
        i < s.len() ==> !is_ws(s[i]),
    ensures
        first_word(s) == take_word(s.subrange(i, s.len() as int)),
    decreases i,
{
    if i > 0 {
        lemma_first_word_from(s.drop_first(), i - 1);
        assert(s.drop_first().subrange(i - 1, s.drop_first().len() as int) =~= s.subrange(
            i,
            s.len() as int,
        ));
    } else {
        assert(s.subrange(0, s.len() as int) =~= s);
    }
}

proof fn lemma_take_word_to(s: Seq<char>, i: int, j: int)
    requires
        0 <= i <= j <= s.len(),
        forall|k: int| i <= k < j ==> !is_ws(#[trigger] s[k]),
        j < s.len() ==> is_ws(s[j]),
    ensures
        take_word(s.subrange(i, s.len() as int)) == s.subrange(i, j),
    decreases j - i,
{
    let t = s.subrange(i, s.len() as int);
    if i < j {
        lemma_take_word_to(s, i + 1, j);
        assert(t.drop_first() =~= s.subrange(i + 1, s.len() as int));
        assert(seq![s[i]] + s.subrange(i + 1, j) =~= s.subrange(i, j));
    } else {
        assert(s.subrange(i, j).len() == 0);
    }
}

/// The first whitespace-delimited word of a query.
pub fn first_token(s: &str) -> (r: String)
    ensures
        r@ == first_word(s@),
{
    let cs = chars_of(s);
    let mut i: usize = 0;
    while i < cs.len() && is_whitespace(cs[i])
        invariant
            i <= cs.len(),
            forall|k: int| 0 <= k < i ==> is_ws(#[trigger] cs@[k]),
        decreases cs.len() - i,
    {
        i = i + 1;
    }
    let mut word: Vec<char> = Vec::new();
    let mut j = i;
    while j < cs.len() && !is_whitespace(cs[j])
        invariant
            i <= j <= cs.len(),
            forall|k: int| i <= k < j ==> !is_ws(#[trigger] cs@[k]),
            word@ == cs@.subrange(i as int, j as int),
        decreases cs.len() - j,
    {
        word.push(cs[j]);
        j = j + 1;
        assert(word@ =~= cs@.subrange(i as int, j as int));
    }
    proof {
        lemma_first_word_from(cs@, i as int);
        lemma_take_word_to(cs@, i as int, j as int);
    }
    string_of(&word)
}

// ---------------------------------------------------------------------
// Merging the two phases
// ---------------------------------------------------------------------

/// One search hit: a path, and where it came from. A hit of the filename
/// phase has no full-text index; a hit of the full-text phase carries the
/// position of its row in the full-text result list (whose rank it keeps).
#[derive(Debug, Clone, PartialEq, Eq)]
pub struct SearchHit {
    pub path: String,
    pub fulltext_index: Option<usize>,
}

/// The indices of the full-text results that the merge keeps, scanning
/// from position `i` with `room` free slots: each path not seen before is
/// taken, in order, until the slots are filled.
pub open spec fn fill(seen: Seq<Seq<char>>, b: Seq<Seq<char>>, i: int, room: nat) -> Seq<int>
    decreases b.len() - i,
{
    if i >= b.len() || i < 0 || room == 0 {
        Seq::empty()
    } else if seen.contains(b[i]) {
        fill(seen, b, i + 1, room)
    } else {
        seq![i] + fill(seen.push(b[i]), b, i + 1, (room - 1) as nat)
    }
}

/// How many filename hits the merge keeps.
pub open spec fn phase_a_len(a_len: nat, max: nat) -> nat {
    if a_len < max {
        a_len
    } else {
        max
    }
}

/// The merged output, as (path, full-text index) pairs.
pub open spec fn merged(a: Seq<Seq<char>>, b: Seq<Seq<char>>, max: nat) -> Seq<
    (Seq<char>, Option<int>),
> {
    let k = phase_a_len(a.len(), max);
    let f = fill(a.subrange(0, k as int), b, 0, (max - k) as nat);
    a.subrange(0, k as int).map_values(|p: Seq<char>| (p, None::<int>)) + f.map_values(
        |j: int| (b[j], Some(j)),
    )
}

/// The view of a hit list as (path, full-text index) pairs.
pub open spec fn hits_view(h: Seq<SearchHit>) -> Seq<(Seq<char>, Option<int>)> {
    h.map_values(
        |x: SearchHit|
            (
                x.path@,
                match x.fulltext_index {
                    Some(j) => Some(j as int),
                    None => None,
                },
            ),
    )
}

fn contains_path(v: &Vec<String>, p: &String) -> (r: bool)
    ensures
        r == views(v@).contains(p@),
{
    let mut i: usize = 0;
    while i < v.len()
        invariant
            i <= v.len(),
            forall|k: int| 0 <= k < i ==> views(v@)[k] != p@,
        decreases v.len() - i,
    {
        if v[i] == *p {
            assert(views(v@)[i as int] == p@);
            return true;
        }
        i = i + 1;
    }
    false
}

/// Merges the filename hits `a` and the full-text hits `b` into at most
/// `max` results: first the filename hits in their order, then each
/// full-text hit whose path has not appeared yet, in its order.
pub fn merge_hits(a: &Vec<String>, b: &Vec<String>, max: usize) -> (r: Vec<SearchHit>)
    ensures
        hits_view(r@) == merged(views(a@), views(b@), max as nat),
        r@.len() <= max,
{
    let ghost av = views(a@);
    let ghost bv = views(b@);
    let k: usize = if a.len() < max { a.len() } else { max };
    let mut out: Vec<SearchHit> = Vec::new();
    let mut seen: Vec<String> = Vec::new();
    let mut i: usize = 0;
    while i < k
        invariant
            k <= a.len(),
            k <= max,
            i <= k,
            av == views(a@),
            out@.len() == i,
            views(seen@) == av.subrange(0, i as int),
            hits_view(out@) == av.subrange(0, i as int).map_values(
                |p: Seq<char>| (p, None::<int>),
            ),
        decreases k - i,
    {
        let p = a[i].clone();
        seen.push(a[i].clone());
        let ghost old_out = out@;
        out.push(SearchHit { path: p, fulltext_index: None });
        assert(av[i as int] == a@[i as int]@);
        assert(out@ == old_out.push(SearchHit { path: p, fulltext_index: None }));
        assert(hits_view(out@) =~= hits_view(old_out).push((av[i as int], None::<int>)));
        i = i + 1;
        assert(views(seen@) =~= av.subrange(0, i as int));
        assert(hits_view(out@) =~= av.subrange(0, i as int).map_values(
            |p: Seq<char>| (p, None::<int>),
        ));
    }
    let ghost total = fill(av.subrange(0, k as int), bv, 0, (max - k) as nat);
    let ghost head = hits_view(out@);
    let mut j: usize = 0;
    let ghost mut taken: Seq<int> = Seq::empty();
    while j < b.len() && out.len() < max
        invariant
            k <= max,
            j <= b.len(),
            bv == views(b@),
            k + taken.len() == out@.len(),
            out@.len() <= max,
            hits_view(out@) == head + taken.map_values(|x: int| (bv[x], Some(x))),
            taken + fill(views(seen@), bv, j as int, (max - out@.len()) as nat) == total,
        decreases b.len() - j,
    {
        let ghost room = (max - out@.len()) as nat;
        let ghost old_seen = views(seen@);
        let ghost old_out = out@;
        let dup = contains_path(&seen, &b[j]);
        assert(bv[j as int] == b@[j as int]@);
        if !dup {
            seen.push(b[j].clone());
            out.push(SearchHit { path: b[j].clone(), fulltext_index: Some(j) });
            proof {
                assert(views(seen@) =~= old_seen.push(bv[j as int]));
                assert(fill(old_seen, bv, j as int, room) == seq![j as int]
                    + fill(views(seen@), bv, j + 1, (room - 1) as nat));
                assert(hits_view(out@) =~= hits_view(old_out).push((bv[j as int], Some(j as int))));
                taken = taken.push(j as int);
                assert(taken + fill(views(seen@), bv, j + 1, (room - 1) as nat) =~= taken.drop_last()
                    + (seq![j as int] + fill(views(seen@), bv, j + 1, (room - 1) as nat)));
                assert(hits_view(out@) =~= head + taken.map_values(|x: int| (bv[x], Some(x))));
            }
        } else {
            assert(fill(old_seen, bv, j as int, room) == fill(old_seen, bv, j + 1, room));
        }
        j = j + 1;
    }
    proof {
        let room = (max - out@.len()) as nat;
        assert(fill(views(seen@), bv, j as int, room) =~= Seq::<int>::empty());
        assert(taken =~= total);
        assert(hits_view(out@) =~= merged(av, bv, max as nat));
    }
    out
}

/// Every filename hit comes before every full-text hit in a merged output.
pub proof fn lemma_filename_hits_first(a: Seq<Seq<char>>, b: Seq<Seq<char>>, max: nat, i: int, j: int)
    requires
        0 <= i < j < merged(a, b, max).len(),
        merged(a, b, max)[i].1 is Some,
    ensures
        merged(a, b, max)[j].1 is Some,
{
    let k = phase_a_len(a.len(), max);
    assert(i >= k);
}

/// A full-text result that a merge keeps never has a path among those
/// seen when the scan starts (the filename hits), and at most `room` are kept.
pub proof fn lemma_fill_fresh(seen: Seq<Seq<char>>, b: Seq<Seq<char>>, i: int, room: nat)
    ensures
        forall|x: int|
            0 <= x < fill(seen, b, i, room).len() ==> !seen.contains(
                b[#[trigger] fill(seen, b, i, room)[x]],
            ),
        fill(seen, b, i, room).len() <= room,
    decreases b.len() - i,
{
    if !(i >= b.len() || i < 0 || room == 0) {
        if seen.contains(b[i]) {
            lemma_fill_fresh(seen, b, i + 1, room);
        } else {
            lemma_fill_fresh(seen.push(b[i]), b, i + 1, (room - 1) as nat);
            let f = fill(seen, b, i, room);
            let g = fill(seen.push(b[i]), b, i + 1, (room - 1) as nat);
            assert forall|x: int| 0 <= x < f.len() implies !seen.contains(b[#[trigger] f[x]]) by {
                if x > 0 {
                    assert(f[x] == g[x - 1]);
                    if seen.contains(b[f[x]]) {
                        let w = choose|w: int| 0 <= w < seen.len() && seen[w] == b[f[x]];
                        assert(seen.push(b[i])[w] == b[f[x]]);
                    }
                }
            }
        }
    }
}

/// Configuration for search operations.
#[derive(Debug, Clone, Copy, PartialEq, Eq, Structural)]
pub struct SearchConfig {
    /// Search paths only (no content).
    pub paths_only: bool,
    /// Output format.
    pub format: crate::cli::OutputFormat,
    /// Maximum results to return.
    pub max_results: u32,
}

impl Default for SearchConfig {
    fn default() -> (r: Self)
        ensures
            !r.paths_only && r.format == crate::cli::OutputFormat::Plain && r.max_results == 15,
    {
        SearchConfig { paths_only: false, format: crate::cli::OutputFormat::Plain, max_results: 15 }
    }
}

/// The number of distinct paths in `s`.
pub open spec fn distinct_count(s: Seq<Seq<char>>) -> nat
    decreases s.len(),
{
    if s.len() == 0 {
        0
    } else {
        distinct_count(s.drop_last()) + if s.drop_last().contains(s.last()) {
            0nat
        } else {
            1nat
        }
    }
}

proof fn lemma_distinct_bound(s: Seq<Seq<char>>)
    ensures
        distinct_count(s) <= s.len(),
    decreases s.len(),
{
    if s.len() > 0 {
        lemma_distinct_bound(s.drop_last());
    }
}

/// The size of the full-text request after the filename phase found `a`:
/// none when the filename hits already fill `max` slots; otherwise the free
/// slots plus the distinct paths taken, since deduplication may drop that
/// many full-text rows again.
pub open spec fn fulltext_request_spec(max: nat, a: Seq<Seq<char>>) -> Option<nat> {
    let k = phase_a_len(a.len(), max);
    if k >= max {
        None
    } else {
        Some((max - k + distinct_count(a.subrange(0, k as int))) as nat)
    }
}

/// How many full-text results to request after the filename phase.
pub fn fulltext_request(max_results: u32, phase_a: &Vec<String>) -> (r: Option<u32>)
    ensures
        r matches Some(n) ==> fulltext_request_spec(max_results as nat, views(phase_a@)) == Some(
            n as nat,
        ),
        r is None ==> fulltext_request_spec(max_results as nat, views(phase_a@)) is None,
{
    let ghost av = views(phase_a@);
    let max = max_results as usize;
    let k: usize = if phase_a.len() < max { phase_a.len() } else { max };
    if k >= max {
        return None;
    }
    let mut seen: Vec<String> = Vec::new();
    let mut i: usize = 0;
    while i < k
        invariant
            k <= phase_a.len(),
            i <= k,
            av == views(phase_a@),
            seen@.len() == distinct_count(av.subrange(0, i as int)),
            forall|x: Seq<char>| views(seen@).contains(x) <==> av.subrange(0, i as int).contains(x),
        decreases k - i,
    {
        let ghost pre = av.subrange(0, i as int);
        assert(av.subrange(0, i + 1).drop_last() =~= pre);
        assert(av.subrange(0, i + 1).last() == phase_a@[i as int]@);
        let ghost old_seen = views(seen@);
        let ghost y = phase_a@[i as int]@;
        let found = contains_path(&seen, &phase_a[i]);
        if !found {
            seen.push(phase_a[i].clone());
            assert(views(seen@) =~= old_seen.push(y));
        } else {
            assert(views(seen@) == old_seen);
        }
        proof {
            let now = av.subrange(0, i + 1);
            assert(now[i as int] == y);
            assert forall|x: Seq<char>| views(seen@).contains(x) <==> now.contains(x) by {
                if now.contains(x) {
                    let w = choose|w: int| 0 <= w < now.len() && now[w] == x;
                    if w < i {
                        assert(pre[w] == x);
                        assert(old_seen.contains(x));
                        let u = choose|u: int| 0 <= u < old_seen.len() && old_seen[u] == x;
                        assert(views(seen@)[u] == x);
                    } else {
                        if !found {
                            assert(views(seen@)[old_seen.len() as int] == x);
                        }
                    }
                }
                if views(seen@).contains(x) {
                    let u = choose|u: int| 0 <= u < views(seen@).len() && views(seen@)[u] == x;
                    if u < old_seen.len() {
                        assert(old_seen[u] == x);
                        assert(old_seen.contains(x));
                        assert(pre.contains(x));
                        let w = choose|w: int| 0 <= w < pre.len() && pre[w] == x;
                        assert(now[w] == x);
                    } else {
                        assert(x == y);
                    }
                }
            }
            assert(pre.contains(y) == found);
        }
        i = i + 1;
    }
    proof {
        lemma_distinct_bound(av.subrange(0, k as int));
    }
    let d = seen.len();
    Some(max_results - (k as u32) + (d as u32))
}

} // verus!
