//! Diagnostic check summaries and byte-size rendering.
use vstd::prelude::*;
use crate::number::{decimal, decimal_string};

verus! {

/// Check severity levels.
#[derive(Debug, Clone, Copy, PartialEq, Eq, Structural)]
pub enum Severity {
    Pass,
    Info,
    Warning,
    Error,
}

/// Summary of all doctor checks.
#[derive(Debug, Clone, Copy, PartialEq, Eq, Structural)]
pub struct DoctorSummary {
    pub pass: usize,
    pub info: usize,
    pub warn: usize,
    pub fail: usize,
}

/// How many of `s` equal `x`.
pub open spec fn count_sev(s: Seq<Severity>, x: Severity) -> nat
    decreases s.len(),
{
    if s.len() == 0 {
        0
    } else {
        count_sev(s.drop_last(), x) + if s.last() == x {
            1nat
        } else {
            0
        }
    }
}

proof fn lemma_count_bound(s: Seq<Severity>, x: Severity)
    ensures
        count_sev(s, x) <= s.len(),
    decreases s.len(),
{
    if s.len() > 0 {
        lemma_count_bound(s.drop_last(), x);
    }
}

impl DoctorSummary {
    /// Counts the checks of each severity.
    pub fn from_severities(checks: &Vec<Severity>) -> (r: Self)
        ensures
            r.pass == count_sev(checks@, Severity::Pass),
            r.info == count_sev(checks@, Severity::Info),
            r.warn == count_sev(checks@, Severity::Warning),
            r.fail == count_sev(checks@, Severity::Error),
    {
        let mut r = DoctorSummary { pass: 0, info: 0, warn: 0, fail: 0 };
        let mut i: usize = 0;
        while i < checks.len()
            invariant
                i <= checks.len(),
                r.pass == count_sev(checks@.subrange(0, i as int), Severity::Pass),
                r.info == count_sev(checks@.subrange(0, i as int), Severity::Info),
                r.warn == count_sev(checks@.subrange(0, i as int), Severity::Warning),
                r.fail == count_sev(checks@.subrange(0, i as int), Severity::Error),
            decreases checks.len() - i,
        {
            let ghost pre = checks@.subrange(0, i as int);
            proof {
                lemma_count_bound(pre, Severity::Pass);
                lemma_count_bound(pre, Severity::Info);
                lemma_count_bound(pre, Severity::Warning);
                lemma_count_bound(pre, Severity::Error);
            }
            assert(checks@.subrange(0, i + 1).drop_last() =~= pre);
            match checks[i] {
                Severity::Pass => r.pass = r.pass + 1,
                Severity::Info => r.info = r.info + 1,
                Severity::Warning => r.warn = r.warn + 1,
                Severity::Error => r.fail = r.fail + 1,
            }
            i = i + 1;
        }
        assert(checks@.subrange(0, checks.len() as int) =~= checks@);
        r
    }

    /// Returns true if any errors were found.
    pub fn has_errors(&self) -> (r: bool)
        ensures
            r == (self.fail > 0),
    {
        self.fail > 0
    }

    /// Returns true if any warnings were found.
    pub fn has_warnings(&self) -> (r: bool)
        ensures
            r == (self.warn > 0),
    {
        self.warn > 0
    }
}

/// `b / unit` in tenths, rounded to nearest with ties to even.
pub open spec fn tenths(b: nat, unit: nat) -> nat
    recommends
        unit > 0,
{
    let q = (b * 10) / unit;
    let rem = (b * 10) % unit;
    if rem * 2 > unit || (rem * 2 == unit && q % 2 == 1) {
        q + 1
    } else {
        q
    }
}

/// A count of tenths written with one decimal place.
pub open spec fn one_decimal(t: nat) -> Seq<char> {
    decimal(t / 10) + seq!['.'] + decimal(t % 10)
}

/// The human-readable size of `b` bytes.
pub open spec fn bytes_text(b: nat) -> Seq<char> {
    let kb: nat = 1024;
    let mb: nat = 1024 * 1024;
    let gb: nat = 1024 * 1024 * 1024;
    if b >= gb {
        one_decimal(tenths(b, gb)) + " GB"@
    } else if b >= mb {
        one_decimal(tenths(b, mb)) + " MB"@
    } else if b >= kb {
        one_decimal(tenths(b, kb)) + " KB"@
    } else {
        decimal(b) + " bytes"@
    }
}

fn tenths_exec(b: u64, unit: u64) -> (r: u64)
    requires
        unit == 1024 || unit == 1024 * 1024 || unit == 1024 * 1024 * 1024,
    ensures
        r == tenths(b as nat, unit as nat),
{
    let wide: u128 = (b as u128) * 10;
    let q: u128 = wide / (unit as u128);
    let rem: u128 = wide % (unit as u128);
    assert(q <= wide) by (nonlinear_arith)
        requires
            q == wide / (unit as u128),
            unit >= 1,
    ;
    let t = if rem * 2 > unit as u128 || (rem * 2 == unit as u128 && q % 2 == 1) {
        q + 1
    } else {
        q
    };
    assert(t <= u64::MAX) by (nonlinear_arith)
        requires
            q == wide / (unit as u128),
            wide == (b as u128) * 10,
            unit >= 1024,
            t <= q + 1,
            b <= u64::MAX,
    ;
    t as u64
}

fn one_decimal_exec(t: u64) -> (r: String)
    ensures
        r@ == one_decimal(t as nat),
{
    let whole = decimal_string(t / 10);
    let frac = decimal_string(t % 10);
    let s = whole.concat(".");
    let r = s.concat(frac.as_str());
    assert(r@ =~= one_decimal(t as nat)) by {
        reveal_strlit(".");
    }
    r
}

/// Renders a byte count: below 1 KiB as `<n> bytes`, otherwise in KB, MB
/// or GB (powers of 1024) with one decimal place.
pub fn format_bytes(bytes: u64) -> (r: String)
    ensures
        r@ == bytes_text(bytes as nat),
{
    let kb: u64 = 1024;
    let mb: u64 = 1024 * 1024;
    let gb: u64 = 1024 * 1024 * 1024;
    if bytes >= gb {
        one_decimal_exec(tenths_exec(bytes, gb)).concat(" GB")
    } else if bytes >= mb {
        one_decimal_exec(tenths_exec(bytes, mb)).concat(" MB")
    } else if bytes >= kb {
        one_decimal_exec(tenths_exec(bytes, kb)).concat(" KB")
    } else {
        decimal_string(bytes).concat(" bytes")
    }
}

} // verus!
