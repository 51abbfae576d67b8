//! Content hashing: a 64-bit wyhash digest with seed zero, written as
//! sixteen lowercase hexadecimal digits.
use vstd::prelude::*;
use crate::text::string_of;

verus! {

/// The 64-bit wyhash digest of a byte sequence under seed zero.
pub uninterp spec fn wyhash_of(b: Seq<u8>) -> u64;

/// Relies on `wyhash::wyhash` with seed 0: the digest depends on the bytes alone.
#[verifier::external_body]
fn wyhash_raw(content: &[u8]) -> (r: u64)
    ensures
        r == wyhash_of(content@),
{
    wyhash::wyhash(content, 0)
}

/// The sixteen lowercase hexadecimal digits.
pub open spec fn hex_alphabet() -> Seq<char> {
    seq!['0', '1', '2', '3', '4', '5', '6', '7', '8', '9', 'a', 'b', 'c', 'd', 'e', 'f']
}

/// Whether `c` is a lowercase hexadecimal digit.
pub open spec fn is_lower_hex(c: char) -> bool {
    hex_alphabet().contains(c)
}

/// The nibble of `h` at hexadecimal position `i`, counted from the most significant one.
pub open spec fn nibble(h: u64, i: int) -> u64 {
    (h >> ((4 * (15 - i)) as u64)) & 15u64
}

/// `h` written big-endian as sixteen lowercase hex digits, zero padded.
pub open spec fn hex16(h: u64) -> Seq<char> {
    Seq::new(16, |i: int| hex_alphabet()[nibble(h, i) as int])
}

/// The content hash of a byte sequence, as stored in the file table.
pub open spec fn content_hash(b: Seq<u8>) -> Seq<char> {
    hex16(wyhash_of(b))
}

/// One lowercase hexadecimal digit.
pub fn hex_digit(d: u64) -> (c: char)
    requires
        d < 16,
    ensures
        c == hex_alphabet()[d as int],
{
    match d {
        0 => '0',
        1 => '1',
        2 => '2',
        3 => '3',
        4 => '4',
        5 => '5',
        6 => '6',
        7 => '7',
        8 => '8',
        9 => '9',
        10 => 'a',
        11 => 'b',
        12 => 'c',
        13 => 'd',
        14 => 'e',
        _ => 'f',
    }
}

/// Writes `h` as sixteen lowercase hexadecimal digits, most significant first.
pub fn hex_u64(h: u64) -> (r: String)
    ensures
        r@ == hex16(h),
{
    let mut digits: Vec<char> = Vec::new();
    let mut i: u64 = 0;
    while i < 16
        invariant
            i <= 16,
            digits@.len() == i,
            forall|k: int| 0 <= k < i ==> digits@[k] == hex_alphabet()[nibble(h, k) as int],
        decreases 16 - i,
    {
        let shift: u64 = 4 * (15 - i);
        let d = (h >> shift) & 15u64;
        assert(d < 16) by (bit_vector)
            requires
                d == (h >> shift) & 15u64,
        ;
        assert(d == nibble(h, i as int));
        let c = hex_digit(d);
        digits.push(c);
        i = i + 1;
    }
    assert(digits@ =~= hex16(h));
    string_of(&digits)
}

/// Content digest used for lazy invalidation: wyhash with the fixed seed
/// zero, rendered as sixteen lowercase hexadecimal characters.
pub fn wyhash(content: &[u8]) -> (r: String)
    ensures
        r@ == content_hash(content@),
{
    let h = wyhash_raw(content);
    hex_u64(h)
}

/// Hashing is deterministic, and every digest is sixteen lowercase hex digits.
pub proof fn lemma_content_hash_shape(a: Seq<u8>, b: Seq<u8>)
    ensures
        a == b ==> content_hash(a) == content_hash(b),
        content_hash(a).len() == 16,
        forall|i: int| 0 <= i < 16 ==> #[trigger] is_lower_hex(content_hash(a)[i]),
{
    let h = wyhash_of(a);
    assert forall|i: int| 0 <= i < 16 implies #[trigger] is_lower_hex(content_hash(a)[i]) by {
        let n = nibble(h, i);
        let s = (4 * (15 - i)) as u64;
        assert(((h >> s) & 15u64) < 16) by (bit_vector);
        assert(hex_alphabet()[n as int] == content_hash(a)[i]);
    }
}

} // verus!
