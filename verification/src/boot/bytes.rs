//! Little-endian field reads, byte comparisons and the byte sum used by the
//! firmware table checksums.
use vstd::prelude::*;

verus! {

/// The little-endian 16-bit value at `off`.
pub open spec fn le_u16(s: Seq<u8>, off: int) -> int {
    s[off] + 256 * s[off + 1]
}

/// The little-endian 32-bit value at `off`.
pub open spec fn le_u32(s: Seq<u8>, off: int) -> int {
    le_u16(s, off) + 65536 * le_u16(s, off + 2)
}

/// The little-endian 64-bit value at `off`.
pub open spec fn le_u64(s: Seq<u8>, off: int) -> int {
    le_u32(s, off) + 4294967296 * le_u32(s, off + 4)
}

/// The sum of all bytes, as a natural number.
pub open spec fn byte_sum(s: Seq<u8>) -> nat
    decreases s.len(),
{
    if s.len() == 0 {
        0
    } else {
        byte_sum(s.drop_last()) + s.last() as nat
    }
}

/// Reads the little-endian `u16` at `off`.
pub fn read_u16_le(b: &[u8], off: usize) -> (r: u16)
    requires
        off + 2 <= b.len(),
    ensures
        r == le_u16(b@, off as int),
{
    (b[off] as u16) + (b[off + 1] as u16) * 256
}

/// Reads the little-endian `u32` at `off`.
pub fn read_u32_le(b: &[u8], off: usize) -> (r: u32)
    requires
        off + 4 <= b.len(),
    ensures
        r == le_u32(b@, off as int),
{
    let lo = read_u16_le(b, off);
    let hi = read_u16_le(b, off + 2);
    (lo as u32) + (hi as u32) * 65536
}

/// Reads the little-endian `u64` at `off`.
pub fn read_u64_le(b: &[u8], off: usize) -> (r: u64)
    requires
        off + 8 <= b.len(),
    ensures
        r == le_u64(b@, off as int),
{
    let lo = read_u32_le(b, off);
    let hi = read_u32_le(b, off + 4);
    (lo as u64) + (hi as u64) * 4294967296
}

/// Whether `b` holds the bytes of `pattern` starting at `off`.
pub fn matches_at(b: &[u8], off: usize, pattern: &[u8]) -> (r: bool)
    requires
        off + pattern@.len() <= b.len(),
    ensures
        r == (b@.subrange(off as int, off + pattern@.len()) == pattern@),
{
    let mut i: usize = 0;
    while i < pattern.len()
        invariant
            i <= pattern@.len(),
            off + pattern@.len() <= b.len(),
            forall|j: int| 0 <= j < i ==> b@[off + j] == pattern@[j],
        decreases pattern@.len() - i,
    {
        if b[off + i] != pattern[i] {
            assert(b@.subrange(off as int, off + pattern@.len())[i as int] != pattern@[i as int]);
            return false;
        }
        i = i + 1;
    }
    assert(b@.subrange(off as int, off + pattern@.len()) =~= pattern@);
    true
}

/// Adding one byte to a prefix extends its sum by that byte.
proof fn lemma_byte_sum_step(s: Seq<u8>, i: int)
    requires
        0 <= i < s.len(),
    ensures
        byte_sum(s.subrange(0, i + 1)) == byte_sum(s.subrange(0, i)) + s[i],
{
    assert(s.subrange(0, i + 1).drop_last() =~= s.subrange(0, i));
}

/// The sum modulo 256 of the `len` bytes of `b` starting at `off`: the value
/// that a valid firmware table checksum makes zero.
pub fn checksum_range(b: &[u8], off: usize, len: usize) -> (r: u8)
    requires
        off + len <= b.len(),
    ensures
        r == byte_sum(b@.subrange(off as int, off + len)) % 256,
{
    let ghost s = b@.subrange(off as int, off + len);
    let mut sum: u8 = 0;
    let mut i: usize = 0;
    while i < len
        invariant
            i <= len,
            off + len <= b.len(),
            s == b@.subrange(off as int, off + len),
            sum == byte_sum(s.subrange(0, i as int)) % 256,
        decreases len - i,
    {
        let byte = b[off + i];
        proof {
            lemma_byte_sum_step(s, i as int);
            vstd::arithmetic::div_mod::lemma_add_mod_noop(
                byte_sum(s.subrange(0, i as int)) as int,
                byte as int,
                256,
            );
        }
        sum = ((sum as u32 + byte as u32) % 256) as u8;
        i = i + 1;
    }
    assert(s.subrange(0, len as int) =~= s);
    sum
}

} // verus!
