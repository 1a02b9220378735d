//! Little-endian field reads, NUL-terminated string scanning and byte
//! comparison over a byte region, with their mathematical descriptions.

use vstd::prelude::*;
use vstd::slice::slice_index_get;

verus! {

/// Value of the byte at offset `i`.
pub open spec fn le8(s: Seq<u8>, i: int) -> int {
    s[i] as int
}

/// Little-endian 16-bit value at offset `i`.
pub open spec fn le16(s: Seq<u8>, i: int) -> int
    recommends
        0 <= i,
        i + 2 <= s.len(),
{
    s[i] + s[i + 1] * 0x100
}

/// Little-endian 32-bit value at offset `i`.
pub open spec fn le32(s: Seq<u8>, i: int) -> int
    recommends
        0 <= i,
        i + 4 <= s.len(),
{
    le16(s, i) + le16(s, i + 2) * 0x1_0000
}

/// Little-endian 64-bit value at offset `i`.
pub open spec fn le64(s: Seq<u8>, i: int) -> int
    recommends
        0 <= i,
        i + 8 <= s.len(),
{
    le32(s, i) + le32(s, i + 4) * 0x1_0000_0000
}

/// An 8-bit read is non-negative and fits its width.
pub broadcast proof fn lemma_le8_bounds(s: Seq<u8>, i: int)
    ensures
        0 <= #[trigger] le8(s, i) < 0x100,
{
}

/// A 16-bit read is non-negative and fits its width.
pub broadcast proof fn lemma_le16_bounds(s: Seq<u8>, i: int)
    ensures
        0 <= #[trigger] le16(s, i) < 0x1_0000,
{
}

/// A 32-bit read is non-negative and fits its width.
pub broadcast proof fn lemma_le32_bounds(s: Seq<u8>, i: int)
    ensures
        0 <= #[trigger] le32(s, i) < 0x1_0000_0000,
{
    lemma_le16_bounds(s, i);
    lemma_le16_bounds(s, i + 2);
}

/// A 64-bit read is non-negative and fits its width.
pub broadcast proof fn lemma_le64_bounds(s: Seq<u8>, i: int)
    ensures
        0 <= #[trigger] le64(s, i) < 0x1_0000_0000_0000_0000,
{
    lemma_le32_bounds(s, i);
    lemma_le32_bounds(s, i + 4);
}

/// A borrowed region is never longer than the address space.
pub broadcast proof fn lemma_region_len_fits(bytes: &[u8])
    ensures
        #[trigger] bytes@.len() <= usize::MAX,
{
    assert(bytes.len() == bytes@.len());
}

/// Ambient facts for reasoning about region reads: every little-endian
/// read is non-negative and fits its width, and a region's length fits
/// the address space.
pub broadcast group group_le_bounds {
    lemma_region_len_fits,
    lemma_le8_bounds,
    lemma_le16_bounds,
    lemma_le32_bounds,
    lemma_le64_bounds,
}

/// Reads the byte at `off`.
pub fn read_u8(bytes: &[u8], off: usize) -> (r: u8)
    requires
        off < bytes@.len(),
    ensures
        r as int == le8(bytes@, off as int),
{
    *slice_index_get(bytes, off)
}

/// Reads the little-endian 16-bit value at `off`.
pub fn read_u16(bytes: &[u8], off: usize) -> (r: u16)
    requires
        off + 2 <= bytes.len(),
    ensures
        r as int == le16(bytes@, off as int),
{
    let b0 = *slice_index_get(bytes, off);
    let b1 = *slice_index_get(bytes, off + 1);
    b0 as u16 + b1 as u16 * 0x100
}

/// Reads the little-endian 32-bit value at `off`.
pub fn read_u32(bytes: &[u8], off: usize) -> (r: u32)
    requires
        off + 4 <= bytes.len(),
    ensures
        r as int == le32(bytes@, off as int),
{
    let lo = read_u16(bytes, off);
    let hi = read_u16(bytes, off + 2);
    lo as u32 + hi as u32 * 0x1_0000
}

/// Reads the little-endian 64-bit value at `off`.
pub fn read_u64(bytes: &[u8], off: usize) -> (r: u64)
    requires
        off + 8 <= bytes.len(),
    ensures
        r as int == le64(bytes@, off as int),
{
    let lo = read_u32(bytes, off);
    let hi = read_u32(bytes, off + 4);
    lo as u64 + hi as u64 * 0x1_0000_0000
}

/// Number of bytes before the first NUL at or after offset `i`; zero when
/// `i` lies outside the region.
pub open spec fn nul_len(s: Seq<u8>, i: int) -> int
    decreases s.len() - i,
{
    if i < 0 || i >= s.len() {
        0
    } else if s[i] == 0 {
        0
    } else {
        1 + nul_len(s, i + 1)
    }
}

/// A NUL scan never runs past the end of the region.
pub proof fn lemma_nul_len_bounds(s: Seq<u8>, i: int)
    requires
        0 <= i <= s.len(),
    ensures
        0 <= nul_len(s, i),
        i + nul_len(s, i) <= s.len(),
    decreases s.len() - i,
{
    if i < s.len() && s[i] != 0 {
        lemma_nul_len_bounds(s, i + 1);
    }
}

/// The NUL-terminated byte string that starts at offset `i`: the bytes up
/// to but not including the first NUL, cut short at the end of the region.
pub open spec fn c_str_at(s: Seq<u8>, i: int) -> Seq<u8> {
    if 0 <= i <= s.len() {
        s.subrange(i, i + nul_len(s, i))
    } else {
        Seq::empty()
    }
}

/// Scans for the NUL that ends the byte string starting at `start`.
pub fn scan_nul(bytes: &[u8], start: usize) -> (n: usize)
    requires
        start <= bytes@.len(),
    ensures
        n as int == nul_len(bytes@, start as int),
{
    let ghost s = bytes@;
    let mut j = start;
    while j < bytes.len() && *slice_index_get(bytes, j) != 0
        invariant
            start <= j <= s.len(),
            bytes@ == s,
            nul_len(s, start as int) == j - start + nul_len(s, j as int),
        decreases s.len() - j,
    {
        j = j + 1;
    }
    j - start
}

/// Byte-exact comparison of two regions.
pub fn bytes_equal(a: &[u8], b: &[u8]) -> (r: bool)
    ensures
        r == (a@ == b@),
{
    if a.len() != b.len() {
        proof {
            assert(a@.len() != b@.len());
        }
        return false;
    }
    let mut i: usize = 0;
    while i < a.len()
        invariant
            0 <= i <= a@.len(),
            a@.len() == b@.len(),
            forall|k: int| 0 <= k < i ==> a@[k] == b@[k],
        decreases a@.len() - i,
    {
        if *slice_index_get(a, i) != *slice_index_get(b, i) {
            return false;
        }
        i = i + 1;
    }
    proof {
        assert(a@ =~= b@);
    }
    true
}

/// A 16-bit read inside a subrange is a read of the base region.
pub proof fn lemma_le16_subrange(s: Seq<u8>, a: int, b: int, k: int)
    requires
        0 <= a <= b <= s.len(),
        0 <= k,
        k + 2 <= b - a,
    ensures
        le16(s.subrange(a, b), k) == le16(s, a + k),
{
}

/// A 32-bit read inside a subrange is a read of the base region.
pub proof fn lemma_le32_subrange(s: Seq<u8>, a: int, b: int, k: int)
    requires
        0 <= a <= b <= s.len(),
        0 <= k,
        k + 4 <= b - a,
    ensures
        le32(s.subrange(a, b), k) == le32(s, a + k),
{
    lemma_le16_subrange(s, a, b, k);
    lemma_le16_subrange(s, a, b, k + 2);
}

/// Compares the NUL-terminated byte string at `off` against `target`.
pub fn c_str_equals(bytes: &[u8], off: usize, target: &[u8]) -> (r: bool)
    ensures
        r == (c_str_at(bytes@, off as int) == target@),
{
    if off > bytes.len() {
        if target.len() == 0 {
            proof {
                assert(c_str_at(bytes@, off as int) =~= target@);
            }
            return true;
        } else {
            return false;
        }
    }
    let n = scan_nul(bytes, off);
    proof {
        lemma_nul_len_bounds(bytes@, off as int);
    }
    let sub = vstd::slice::slice_subrange(bytes, off, off + n);
    bytes_equal(sub, target)
}

/// Compares a masked byte string against the NUL-terminated byte string
/// at `off`, under the repeating `key`.
pub fn c_str_xor_equals(bytes: &[u8], off: usize, masked: &[u8], key: &[u8]) -> (r: bool)
    requires
        key@.len() > 0,
    ensures
        r == xor_masked_eq(masked@, c_str_at(bytes@, off as int), key@),
{
    if off > bytes.len() {
        proof {
            assert(c_str_at(bytes@, off as int) =~= Seq::<u8>::empty());
        }
        return masked.len() == 0;
    }
    let n = scan_nul(bytes, off);
    proof {
        lemma_nul_len_bounds(bytes@, off as int);
    }
    let sub = vstd::slice::slice_subrange(bytes, off, off + n);
    xor_bytes_equal(masked, sub, key)
}

/// True when `masked`, unmasked with the repeating `key`, equals `plain`.
pub open spec fn xor_masked_eq(masked: Seq<u8>, plain: Seq<u8>, key: Seq<u8>) -> bool
    recommends
        key.len() > 0,
{
    &&& masked.len() == plain.len()
    &&& forall|i: int|
        0 <= i < masked.len() ==> (#[trigger] masked[i] ^ key[i % (key.len() as int)]) == plain[i]
}

/// Compares a masked byte string against a plain one under the repeating
/// `key`, so the plain string never has to appear in the caller's data.
pub fn xor_bytes_equal(masked: &[u8], plain: &[u8], key: &[u8]) -> (r: bool)
    requires
        key@.len() > 0,
    ensures
        r == xor_masked_eq(masked@, plain@, key@),
{
    if masked.len() != plain.len() {
        proof {
            assert(masked@.len() != plain@.len());
        }
        return false;
    }
    let mut i: usize = 0;
    while i < masked.len()
        invariant
            0 <= i <= masked@.len(),
            masked@.len() == plain@.len(),
            key@.len() > 0,
            forall|k: int|
                0 <= k < i ==> (#[trigger] masked@[k] ^ key@[k % (key@.len() as int)])
                    == plain@[k],
        decreases masked@.len() - i,
    {
        let m = *slice_index_get(masked, i);
        let k = *slice_index_get(key, i % key.len());
        let p = *slice_index_get(plain, i);
        if (m ^ k) != p {
            return false;
        }
        i = i + 1;
    }
    true
}

} // verus!
