//! Query text handling: whitespace, trimming, the full-text query
//! sanitizer and the LIKE-pattern escaping of filename searches.
use vstd::prelude::*;
use crate::text::{chars_of, string_of};

verus! {

/// Unicode `White_Space`, the set that `char::is_whitespace` tests.
pub open spec fn is_ws(c: char) -> bool {
    let u = c as u32;
    (0x9 <= u && u <= 0xD) || u == 0x20 || u == 0x85 || u == 0xA0 || u == 0x1680
        || (0x2000 <= u && u <= 0x200A) || u == 0x2028 || u == 0x2029 || u == 0x202F
        || u == 0x205F || u == 0x3000
}

/// Tests whether `c` is Unicode whitespace.
pub fn is_whitespace(c: char) -> (r: bool)
    ensures
        r == is_ws(c),
{
    let u = c as u32;
    (0x9 <= u && u <= 0xD) || u == 0x20 || u == 0x85 || u == 0xA0 || u == 0x1680
        || (0x2000 <= u && u <= 0x200A) || u == 0x2028 || u == 0x2029 || u == 0x202F
        || u == 0x205F || u == 0x3000
}

/// `s` without its leading whitespace.
pub open spec fn trim_start(s: Seq<char>) -> Seq<char>
    decreases s.len(),
{
    if s.len() > 0 && is_ws(s[0]) {
        trim_start(s.drop_first())
    } else {
        s
    }
}

/// `s` without its trailing characters that satisfy `strip`.
pub open spec fn trim_end_by(s: Seq<char>, strip: spec_fn(char) -> bool) -> Seq<char>
    decreases s.len(),
{
    if s.len() > 0 && strip(s.last()) {
        trim_end_by(s.drop_last(), strip)
    } else {
        s
    }
}

/// `s` without leading and trailing whitespace.
pub open spec fn trim(s: Seq<char>) -> Seq<char> {
    trim_end_by(trim_start(s), |c: char| is_ws(c))
}

/// Whether every character of `s` is whitespace (the empty sequence included).
pub open spec fn is_blank(s: Seq<char>) -> bool {
    forall|i: int| 0 <= i < s.len() ==> is_ws(#[trigger] s[i])
}

proof fn lemma_trim_start_from(s: Seq<char>, i: int)
    requires
        0 <= i <= s.len(),
        forall|k: int| 0 <= k < i ==> is_ws(#[trigger] s[k]),
    ensures
        trim_start(s) == trim_start(s.subrange(i, s.len() as int)),
    decreases i,
{
    if i > 0 {
        assert(s.drop_first() =~= s.subrange(1, s.len() as int));
        lemma_trim_start_from(s.drop_first(), i - 1);
        assert(s.drop_first().subrange(i - 1, s.drop_first().len() as int)
            =~= s.subrange(i, s.len() as int));
    } else {
        assert(s.subrange(0, s.len() as int) =~= s);
    }
}

proof fn lemma_trim_end_to(s: Seq<char>, j: int, strip: spec_fn(char) -> bool)
    requires
        0 <= j <= s.len(),
        forall|k: int| j <= k < s.len() ==> strip(#[trigger] s[k]),
    ensures
        trim_end_by(s, strip) == trim_end_by(s.subrange(0, j), strip),
    decreases s.len() - j,
{
    if j < s.len() {
        assert(s.drop_last() =~= s.subrange(0, s.len() - 1));
        lemma_trim_end_to(s.drop_last(), j, strip);
        assert(s.drop_last().subrange(0, j) =~= s.subrange(0, j));
    } else {
        assert(s.subrange(0, j) =~= s);
    }
}

/// Index of the first non-whitespace character of `cs` at or after `from`
/// (or the length).
fn skip_ws(cs: &Vec<char>, from: usize) -> (i: usize)
    requires
        from <= cs.len(),
    ensures
        from <= i <= cs.len(),
        forall|k: int| from <= k < i ==> is_ws(#[trigger] cs@[k]),
        i < cs.len() ==> !is_ws(cs@[i as int]),
{
    let mut i = from;
    while i < cs.len() && is_whitespace(cs[i])
        invariant
            from <= i <= cs.len(),
            forall|k: int| from <= k < i ==> is_ws(#[trigger] cs@[k]),
        decreases cs.len() - i,
    {
        i = i + 1;
    }
    i
}

/// Returns `s` without leading and trailing whitespace.
pub fn trim_ws(s: &str) -> (r: String)
    ensures
        r@ == trim(s@),
{
    let cs = chars_of(s);
    let i = skip_ws(&cs, 0);
    proof { lemma_trim_start_from(cs@, i as int); }
    let mut j = cs.len();
    while j > i && is_whitespace(cs[j - 1])
        invariant
            i <= j <= cs.len(),
            forall|k: int| j <= k < cs.len() ==> is_ws(#[trigger] cs@[k]),
        decreases j,
    {
        j = j - 1;
    }
    let ghost t = cs@.subrange(i as int, cs.len() as int);
    assert(trim_start(cs@) == t) by {
        if i < cs.len() {
            assert(t[0] == cs@[i as int]);
        } else {
            assert(t.len() == 0);
        }
    }
    proof { lemma_trim_end_to(t, j - i, |c: char| is_ws(c)); }
    let mut out: Vec<char> = Vec::new();
    let mut k = i;
    while k < j
        invariant
            i <= k <= j <= cs.len(),
            out@ == cs@.subrange(i as int, k as int),
        decreases j - k,
    {
        out.push(cs[k]);
        k = k + 1;
        assert(out@ =~= cs@.subrange(i as int, k as int));
    }
    assert(t.subrange(0, (j - i) as int) =~= cs@.subrange(i as int, j as int));
    let r = string_of(&out);
    assert(trim_end_by(t, |c: char| is_ws(c)) == trim(s@));
    r
}

/// Returns true if `s` is empty or only whitespace.
pub fn is_blank_str(s: &str) -> (r: bool)
    ensures
        r == is_blank(s@),
{
    let cs = chars_of(s);
    let i = skip_ws(&cs, 0);
    i == cs.len()
}

/// Returns true if every part of a query is blank (or there is none).
pub fn query_is_empty(parts: &Vec<String>) -> (r: bool)
    ensures
        r == forall|i: int| 0 <= i < parts@.len() ==> is_blank(#[trigger] parts@[i]@),
{
    let mut i: usize = 0;
    while i < parts.len()
        invariant
            i <= parts.len(),
            forall|k: int| 0 <= k < i ==> is_blank(#[trigger] parts@[k]@),
        decreases parts.len() - i,
    {
        if !is_blank_str(parts[i].as_str()) {
            return false;
        }
        i = i + 1;
    }
    true
}

// ---------------------------------------------------------------------
// Sanitizer
// ---------------------------------------------------------------------

/// Characters that carry full-text query syntax or break tokens; the
/// sanitizer turns each into a space.
pub open spec fn is_special(c: char) -> bool {
    c == '*' || c == '"' || c == '(' || c == ')' || c == ':' || c == '^' || c == '@' || c == '~'
        || c == '-' || c == '_' || c == '.' || c == '/' || c == '\\' || c == '[' || c == ']'
        || c == '{' || c == '}' || c == '+' || c == '!' || c == '=' || c == '>' || c == '<'
        || c == '&' || c == '|'
}

/// The sanitizer's per-character replacement.
pub open spec fn map_char(c: char) -> char {
    if is_special(c) {
        ' '
    } else {
        c
    }
}

pub open spec fn mapped(s: Seq<char>) -> Seq<char> {
    s.map_values(|c: char| map_char(c))
}

/// `s` with every run of whitespace reduced to one space, and leading and
/// trailing whitespace dropped: its whitespace-separated words joined by
/// single spaces.
pub open spec fn collapse(s: Seq<char>) -> Seq<char>
    decreases s.len(),
{
    if s.len() == 0 {
        s
    } else {
        let init = s.drop_last();
        let c = s.last();
        let prev = collapse(init);
        if is_ws(c) {
            prev
        } else if init.len() > 0 && is_ws(init.last()) && prev.len() > 0 {
            prev.push(' ').push(c)
        } else {
            prev.push(c)
        }
    }
}

/// The input asks for a prefix query: its last non-whitespace character
/// is `-` or `_`.
pub open spec fn wants_prefix(q: Seq<char>) -> bool {
    let t = trim_end_by(q, |c: char| is_ws(c));
    t.len() > 0 && (t.last() == '-' || t.last() == '_')
}

/// The full-text-safe form of a raw query.
pub open spec fn sanitized(q: Seq<char>) -> Seq<char> {
    let body = collapse(mapped(q));
    if wants_prefix(q) && body.len() > 0 {
        body.push('*')
    } else {
        body
    }
}

fn map_char_exec(c: char) -> (r: char)
    ensures
        r == map_char(c),
{
    if c == '*' || c == '"' || c == '(' || c == ')' || c == ':' || c == '^' || c == '@' || c
        == '~' || c == '-' || c == '_' || c == '.' || c == '/' || c == '\\' || c == '[' || c
        == ']' || c == '{' || c == '}' || c == '+' || c == '!' || c == '=' || c == '>' || c
        == '<' || c == '&' || c == '|' {
        ' '
    } else {
        c
    }
}

/// Whether the last non-whitespace character of `cs` is `-` or `_`.
fn ends_with_prefix_marker(cs: &Vec<char>) -> (r: bool)
    ensures
        r == wants_prefix(cs@),
{
    let mut j = cs.len();
    while j > 0 && is_whitespace(cs[j - 1])
        invariant
            j <= cs.len(),
            forall|k: int| j <= k < cs.len() ==> is_ws(#[trigger] cs@[k]),
        decreases j,
    {
        j = j - 1;
    }
    proof { lemma_trim_end_to(cs@, j as int, |c: char| is_ws(c)); }
    let ghost t = cs@.subrange(0, j as int);
    if j > 0 {
        assert(trim_end_by(t, |c: char| is_ws(c)) == t);
        cs[j - 1] == '-' || cs[j - 1] == '_'
    } else {
        assert(trim_end_by(t, |c: char| is_ws(c)) == t);
        false
    }
}

/// Sanitizes a raw query for a full-text MATCH: query operators and
/// token-breaking punctuation become spaces, whitespace runs collapse to
/// one space with no space at either end, and a query whose last
/// non-whitespace character is `-` or `_` gets a trailing `*`.
pub fn sanitize_query(query: &str) -> (r: String)
    ensures
        r@ == sanitized(query@),
{
    let cs = chars_of(query);
    let auto_prefix = ends_with_prefix_marker(&cs);
    let ghost m = mapped(cs@);
    let mut out: Vec<char> = Vec::new();
    let mut prev_ws = false;
    let mut i: usize = 0;
    while i < cs.len()
        invariant
            i <= cs.len(),
            m == mapped(cs@),
            m.len() == cs@.len(),
            out@ == collapse(m.subrange(0, i as int)),
            prev_ws == (i > 0 && is_ws(m[i - 1])),
        decreases cs.len() - i,
    {
        let c = map_char_exec(cs[i]);
        assert(c == m[i as int]);
        let ghost pre = m.subrange(0, i as int);
        assert(m.subrange(0, i + 1) =~= pre.push(c));
        assert(m.subrange(0, i + 1).drop_last() =~= pre);
        if is_whitespace(c) {
            prev_ws = true;
        } else {
            if prev_ws && out.len() > 0 {
                out.push(' ');
            }
            out.push(c);
            prev_ws = false;
        }
        i = i + 1;
    }
    assert(m.subrange(0, cs.len() as int) =~= m);
    if auto_prefix && out.len() > 0 {
        out.push('*');
    }
    string_of(&out)
}

// ---------------------------------------------------------------------
// Normal form and idempotence
// ---------------------------------------------------------------------

/// A sequence in collapsed form: no whitespace at either end, every
/// whitespace character is a single space between two other characters.
pub open spec fn is_collapsed(x: Seq<char>) -> bool {
    &&& (x.len() == 0 || (!is_ws(x[0]) && !is_ws(x.last())))
    &&& forall|i: int|
        0 <= i < x.len() && is_ws(#[trigger] x[i]) ==> x[i] == ' ' && (i + 1 < x.len() ==> !is_ws(
            x[i + 1],
        ))
}

proof fn lemma_collapse_shape(s: Seq<char>)
    ensures
        is_collapsed(collapse(s)),
        forall|i: int|
            0 <= i < collapse(s).len() ==> #[trigger] collapse(s)[i] == ' ' || s.contains(
                collapse(s)[i],
            ),
    decreases s.len(),
{
    if s.len() > 0 {
        let init = s.drop_last();
        lemma_collapse_shape(init);
        let prev = collapse(init);
        let r = collapse(s);
        assert forall|i: int| 0 <= i < r.len() implies #[trigger] r[i] == ' ' || s.contains(
            r[i],
        ) by {
            if i < prev.len() {
                assert(r[i] == prev[i]);
                if prev[i] != ' ' {
                    let k = choose|k: int| 0 <= k < init.len() && init[k] == prev[i];
                    assert(s[k] == prev[i]);
                }
            } else {
                if r[i] != ' ' {
                    assert(r[i] == s.last());
                    assert(s[s.len() - 1] == r[i]);
                }
            }
        }
    }
}

proof fn lemma_collapse_fixed(x: Seq<char>)
    requires
        is_collapsed(x),
    ensures
        collapse(x) == x,
    decreases x.len(),
{
    if x.len() > 0 {
        let y = x.drop_last();
        if y.len() > 0 && is_ws(y.last()) {
            let z = y.drop_last();
            assert(y.last() == x[x.len() - 2]);
            assert(z.len() > 0);
            assert(!is_ws(z.last())) by {
                assert(z.last() == x[x.len() - 3]);
            }
            assert(is_collapsed(z)) by {
                assert(z[0] == x[0]);
                assert forall|i: int| 0 <= i < z.len() && is_ws(#[trigger] z[i]) implies z[i]
                    == ' ' && (i + 1 < z.len() ==> !is_ws(z[i + 1])) by {
                    assert(z[i] == x[i]);
                    if i + 1 < z.len() {
                        assert(z[i + 1] == x[i + 1]);
                    }
                }
            }
            lemma_collapse_fixed(z);
            assert(collapse(y) == collapse(z));
            assert(y.last() == ' ');
            assert(z.push(' ').push(x.last()) =~= x);
        } else {
            assert(is_collapsed(y)) by {
                if y.len() > 0 {
                    assert(y[0] == x[0]);
                }
                assert forall|i: int| 0 <= i < y.len() && is_ws(#[trigger] y[i]) implies y[i]
                    == ' ' && (i + 1 < y.len() ==> !is_ws(y[i + 1])) by {
                    assert(y[i] == x[i]);
                    if i + 1 < y.len() {
                        assert(y[i + 1] == x[i + 1]);
                    }
                }
            }
            lemma_collapse_fixed(y);
            assert(y.push(x.last()) =~= x);
        }
    }
}

/// Sanitizing is idempotent on every query that does not ask for a prefix
/// match (or whose prefix request is dropped because nothing else is left).
pub proof fn lemma_sanitize_idempotent(q: Seq<char>)
    requires
        !wants_prefix(q) || collapse(mapped(q)).len() == 0,
    ensures
        sanitized(sanitized(q)) == sanitized(q),
{
    let b = collapse(mapped(q));
    assert(sanitized(q) == b);
    lemma_collapse_shape(mapped(q));
    assert forall|i: int| 0 <= i < b.len() implies !is_special(#[trigger] b[i]) by {
        if b[i] != ' ' {
            let k = choose|k: int| 0 <= k < mapped(q).len() && mapped(q)[k] == b[i];
            assert(mapped(q)[k] == map_char(q[k]));
        }
    }
    assert(mapped(b) =~= b);
    lemma_collapse_fixed(b);
    assert(!wants_prefix(b)) by {
        if b.len() > 0 {
            assert(!is_ws(b.last()));
            assert(trim_end_by(b, |c: char| is_ws(c)) == b);
            assert(!is_special(b[b.len() - 1]));
        } else {
            assert(trim_end_by(b, |c: char| is_ws(c)) == b);
        }
    }
}

/// A query whose prefix request is honoured settles after a second pass:
/// the wildcard is removed and nothing else changes.
pub proof fn lemma_sanitize_prefix_settles(q: Seq<char>)
    requires
        wants_prefix(q),
        collapse(mapped(q)).len() > 0,
    ensures
        sanitized(sanitized(q)) == collapse(mapped(q)),
        sanitized(q) == collapse(mapped(q)).push('*'),
{
    let b = collapse(mapped(q));
    let r = b.push('*');
    lemma_collapse_shape(mapped(q));
    assert forall|i: int| 0 <= i < b.len() implies !is_special(#[trigger] b[i]) by {
        if b[i] != ' ' {
            let k = choose|k: int| 0 <= k < mapped(q).len() && mapped(q)[k] == b[i];
            assert(mapped(q)[k] == map_char(q[k]));
        }
    }
    assert(mapped(r) =~= b.push(' '));
    lemma_collapse_fixed(b);
    assert(b.push(' ').drop_last() =~= b);
    assert(collapse(b.push(' ')) == b);
    assert(trim_end_by(r, |c: char| is_ws(c)) == r) by {
        assert(!is_ws(r.last()));
    }
    assert(!wants_prefix(r));
}

} // verus!
