//! The address translator: maps a virtual offset (a position once the
//! image is loaded) to a file offset (the position in the on-disk byte
//! layout), driven by the section table.

use vstd::prelude::*;
use crate::sections::{parse_section_headers, sections_spec, SectionHeader};
use crate::headers::wf_image;

verus! {

broadcast use crate::bytes::group_le_bounds;

/// A virtual offset falls to a section when it lies in the section's
/// virtual range; the range's upper end is inclusive, as the platform's
/// own loader convention has it.
pub open spec fn section_match(sec: SectionHeader, rva: int) -> bool {
    sec.virtual_address <= rva <= sec.virtual_address + sec.size_of_raw_data
}

/// The first section, in declaration order, whose virtual range holds the
/// offset.
pub open spec fn first_section_match(secs: Seq<SectionHeader>, rva: int) -> Option<SectionHeader>
    decreases secs.len(),
{
    if secs.len() == 0 {
        None
    } else if section_match(secs[0], rva) {
        Some(secs[0])
    } else {
        first_section_match(secs.drop_first(), rva)
    }
}

/// File offset of a virtual offset. An offset below the first section's
/// file pointer lies in the header region, which sits at the same place
/// in both addressing schemes, and is returned unchanged. Otherwise the
/// first matching section maps it linearly; no matching section, an empty
/// section table, or a mapped-back offset beyond the 32-bit range is a
/// translation failure.
pub open spec fn rva_to_foa_spec(s: Seq<u8>, rva: u32) -> Option<u32> {
    let secs = sections_spec(s);
    if secs.len() == 0 {
        None
    } else if (rva as int) < secs[0].pointer_to_raw_data {
        Some(rva)
    } else {
        match first_section_match(secs, rva as int) {
            Some(sec) => {
                let foa = sec.pointer_to_raw_data + rva - sec.virtual_address;
                if foa <= u32::MAX {
                    Some(foa as u32)
                } else {
                    None
                }
            },
            None => None,
        }
    }
}

/// A virtual offset in the header region translates to itself.
pub proof fn lemma_translate_header_region(s: Seq<u8>, rva: u32)
    requires
        sections_spec(s).len() > 0,
        (rva as int) < sections_spec(s)[0].pointer_to_raw_data,
    ensures
        rva_to_foa_spec(s, rva) == Some(rva),
{
}

proof fn lemma_first_match_step(secs: Seq<SectionHeader>, rva: int, i: int)
    requires
        0 <= i < secs.len(),
        !section_match(secs[i], rva),
    ensures
        first_section_match(secs.skip(i), rva) == first_section_match(secs.skip(i + 1), rva),
{
    assert(secs.skip(i)[0] == secs[i]);
    assert(secs.skip(i).drop_first() =~= secs.skip(i + 1));
}

/// Where in the region a virtual offset's bytes sit: the offset itself
/// for a mapped image, the translated file offset for an on-disk layout.
pub open spec fn vbase(s: Seq<u8>, mapped: bool, rva: u32) -> Option<int> {
    if mapped {
        Some(rva as int)
    } else {
        match rva_to_foa_spec(s, rva) {
            Some(f) => Some(f as int),
            None => None,
        }
    }
}

/// The `n` bytes a virtual offset denotes under the image's addressing
/// scheme, when they lie inside the region.
pub open spec fn vread(s: Seq<u8>, mapped: bool, rva: u32, n: int) -> Option<Seq<u8>> {
    match vbase(s, mapped, rva) {
        Some(b) => if b + n <= s.len() {
            Some(s.subrange(b, b + n))
        } else {
            None
        },
        None => None,
    }
}

/// Resolves a virtual offset to a region offset and checks that `n`
/// bytes from there lie inside the region.
pub fn locate_range(bytes: &[u8], mapped: bool, rva: u32, n: u64) -> (r: Option<usize>)
    requires
        wf_image(bytes@),
    ensures
        match r {
            Some(off) => vbase(bytes@, mapped, rva) == Some(off as int) && off + n
                <= bytes@.len() && vread(bytes@, mapped, rva, n as int) == Some(
                bytes@.subrange(off as int, off + n),
            ),
            None => vread(bytes@, mapped, rva, n as int) is None,
        },
{
    let len: usize = bytes.len();
    let base: u32 = if mapped {
        rva
    } else {
        match translate_rva(bytes, rva) {
            Some(f) => f,
            None => {
                return None;
            },
        }
    };
    if base as u64 <= len as u64 && n <= len as u64 - base as u64 {
        Some(base as usize)
    } else {
        None
    }
}

/// Two regions carry the same bytes from `f` in the first and `v` in the
/// second, all the way to their ends.
pub open spec fn tails_agree(d: Seq<u8>, f: int, m: Seq<u8>, v: int) -> bool {
    &&& 0 <= f <= d.len()
    &&& 0 <= v <= m.len()
    &&& d.len() - f == m.len() - v
    &&& forall|k: int| 0 <= k < d.len() - f ==> #[trigger] d[f + k] == m[v + k]
}

/// Under agreeing tails, bytes at corresponding positions are equal.
pub proof fn lemma_byte_agree(d: Seq<u8>, f: int, m: Seq<u8>, v: int, x: int)
    requires
        tails_agree(d, f, m, v),
        f <= x < d.len(),
    ensures
        d[x] == m[v + (x - f)],
{
    assert(d[f + (x - f)] == m[v + (x - f)]);
}

/// Under agreeing tails, 16-bit reads at corresponding positions are
/// equal.
pub proof fn lemma_le16_agree(d: Seq<u8>, f: int, m: Seq<u8>, v: int, rel: int)
    requires
        tails_agree(d, f, m, v),
        0 <= rel,
        rel + 2 <= d.len() - f,
    ensures
        crate::bytes::le16(d, f + rel) == crate::bytes::le16(m, v + rel),
{
    lemma_byte_agree(d, f, m, v, f + rel);
    lemma_byte_agree(d, f, m, v, f + rel + 1);
}

/// Under agreeing tails, 32-bit reads at corresponding positions are
/// equal.
pub proof fn lemma_le32_agree(d: Seq<u8>, f: int, m: Seq<u8>, v: int, rel: int)
    requires
        tails_agree(d, f, m, v),
        0 <= rel,
        rel + 4 <= d.len() - f,
    ensures
        crate::bytes::le32(d, f + rel) == crate::bytes::le32(m, v + rel),
{
    lemma_le16_agree(d, f, m, v, rel);
    lemma_le16_agree(d, f, m, v, rel + 2);
}

/// Under agreeing tails, NUL scans at corresponding positions are equal.
pub proof fn lemma_nul_len_agree(d: Seq<u8>, f: int, m: Seq<u8>, v: int, rel: int)
    requires
        tails_agree(d, f, m, v),
        0 <= rel,
    ensures
        crate::bytes::nul_len(d, f + rel) == crate::bytes::nul_len(m, v + rel),
    decreases d.len() - f - rel,
{
    if f + rel < d.len() {
        lemma_byte_agree(d, f, m, v, f + rel);
        if d[f + rel] != 0 {
            lemma_nul_len_agree(d, f, m, v, rel + 1);
        }
    }
}

/// Under agreeing tails, the NUL-terminated strings at corresponding
/// positions are equal.
pub proof fn lemma_c_str_agree(d: Seq<u8>, f: int, m: Seq<u8>, v: int, rel: int)
    requires
        tails_agree(d, f, m, v),
        0 <= rel,
    ensures
        crate::bytes::c_str_at(d, f + rel) == crate::bytes::c_str_at(m, v + rel),
{
    lemma_nul_len_agree(d, f, m, v, rel);
    if f + rel <= d.len() {
        crate::bytes::lemma_nul_len_bounds(d, f + rel);
        let n = crate::bytes::nul_len(d, f + rel);
        assert forall|k: int| 0 <= k < n implies #[trigger] crate::bytes::c_str_at(d, f + rel)[k]
            == crate::bytes::c_str_at(m, v + rel)[k] by {
            lemma_byte_agree(d, f, m, v, f + rel + k);
        }
        assert(crate::bytes::c_str_at(d, f + rel) =~= crate::bytes::c_str_at(m, v + rel));
    } else {
        assert(crate::bytes::c_str_at(d, f + rel) =~= crate::bytes::c_str_at(m, v + rel));
    }
}

/// When an on-disk region `d` and a mapped region `m` denote the same
/// bytes for every virtual range, a virtual offset whose translated file
/// offset lies inside `d` opens agreeing tails in the two regions.
pub proof fn lemma_layout_tails(d: Seq<u8>, m: Seq<u8>, rva: u32, f: int)
    requires
        forall|r: u32, n: int| 0 <= n ==> #[trigger] vread(d, false, r, n) == vread(m, true, r, n),
        vbase(d, false, rva) == Some(f),
        f <= d.len(),
    ensures
        rva <= m.len(),
        tails_agree(d, f, m, rva as int),
{
    assert(vread(d, false, rva, 0) == vread(m, true, rva, 0));
    let t = d.len() - f;
    assert(vread(d, false, rva, t) == vread(m, true, rva, t));
    assert(rva + t <= m.len());
    assert(vread(d, false, rva, m.len() - rva) == vread(m, true, rva, m.len() - rva));
    assert(f + (m.len() - rva) <= d.len());
    assert forall|k: int| 0 <= k < t implies #[trigger] d[f + k] == m[rva + k] by {
        assert(vread(d, false, rva, k + 1) == vread(m, true, rva, k + 1));
        assert(d.subrange(f, f + k + 1)[k] == m.subrange(rva as int, rva + k + 1)[k]);
    }
}

/// Translates a virtual offset to a file offset over the image's section
/// table.
pub fn translate_rva(bytes: &[u8], rva: u32) -> (r: Option<u32>)
    requires
        wf_image(bytes@),
    ensures
        r == rva_to_foa_spec(bytes@, rva),
{
    let secs = parse_section_headers(bytes);
    if secs.len() == 0 {
        return None;
    }
    if rva < secs[0].pointer_to_raw_data {
        return Some(rva);
    }
    proof {
        assert(secs@.skip(0) =~= secs@);
    }
    let mut i: usize = 0;
    while i < secs.len()
        invariant
            wf_image(bytes@),
            secs@ == sections_spec(bytes@),
            secs@.len() > 0,
            secs@[0].pointer_to_raw_data <= rva,
            0 <= i <= secs@.len(),
            first_section_match(secs@, rva as int) == first_section_match(
                secs@.skip(i as int),
                rva as int,
            ),
        decreases secs@.len() - i,
    {
        let sec = secs[i];
        if rva >= sec.virtual_address && rva as u64 <= sec.virtual_address as u64
            + sec.size_of_raw_data as u64 {
            proof {
                assert(secs@.skip(i as int)[0] == secs@[i as int]);
                assert(first_section_match(secs@, rva as int) == Some(sec));
            }
            let foa = sec.pointer_to_raw_data as u64 + (rva - sec.virtual_address) as u64;
            if foa <= u32::MAX as u64 {
                return Some(foa as u32);
            } else {
                return None;
            }
        }
        proof {
            lemma_first_match_step(secs@, rva as int, i as int);
        }
        i = i + 1;
    }
    proof {
        assert(secs@.skip(secs@.len() as int) =~= Seq::empty());
    }
    None
}

} // verus!
