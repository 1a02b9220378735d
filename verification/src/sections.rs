//! The section table: an ordered sequence of section descriptors that
//! follows the NT header, with its declared length capped by an
//! engineering maximum against maliciously inflated counts.

use vstd::prelude::*;
use crate::bytes::{le32, read_u16, read_u32};
use crate::headers::{
    lfanew, nt_size, opt_u32_split, wf_image, IMAGE_FILE_MACHINE_AMD64,
};

verus! {

broadcast use crate::bytes::group_le_bounds;

/// Cap on how many section descriptors are ever walked, whatever count an
/// image declares; the platform loader itself refuses images with more.
pub const MAX_SECTION_COUNT: u32 = 96;

/// One section descriptor: where the section lives virtually and where
/// its raw bytes sit in the on-disk layout.
#[derive(Clone, Copy, Debug, PartialEq, Eq, Structural)]
pub struct SectionHeader {
    pub virtual_size: u32,
    pub virtual_address: u32,
    pub size_of_raw_data: u32,
    pub pointer_to_raw_data: u32,
}

/// The optional header's declared directory count, which also drives how
/// many section descriptors are walked.
pub open spec fn num_rva_and_sizes(s: Seq<u8>) -> int {
    opt_u32_split(s, 92, 108)
}

/// Offset of the section table: it starts right after the NT header.
pub open spec fn sections_off(s: Seq<u8>) -> int {
    lfanew(s) + nt_size(s)
}

/// How many section descriptors are walked: the declared count, capped by
/// the engineering maximum and by how many whole descriptors the region
/// still holds.
pub open spec fn section_count(s: Seq<u8>) -> int {
    let declared = if num_rva_and_sizes(s) < MAX_SECTION_COUNT {
        num_rva_and_sizes(s)
    } else {
        MAX_SECTION_COUNT as int
    };
    let avail = if sections_off(s) <= s.len() {
        (s.len() - sections_off(s)) / 40
    } else {
        0
    };
    if declared <= avail {
        declared
    } else {
        avail
    }
}

/// The section descriptor whose 40 bytes start at offset `off`.
pub open spec fn section_at(s: Seq<u8>, off: int) -> SectionHeader {
    SectionHeader {
        virtual_size: le32(s, off + 8) as u32,
        virtual_address: le32(s, off + 12) as u32,
        size_of_raw_data: le32(s, off + 16) as u32,
        pointer_to_raw_data: le32(s, off + 20) as u32,
    }
}

/// The walked section table of the image.
pub open spec fn sections_spec(s: Seq<u8>) -> Seq<SectionHeader> {
    Seq::new(section_count(s) as nat, |i: int| section_at(s, sections_off(s) + 40 * i))
}

/// Parses the walked section table out of the region.
pub fn parse_section_headers(bytes: &[u8]) -> (v: Vec<SectionHeader>)
    requires
        wf_image(bytes@),
    ensures
        v@ == sections_spec(bytes@),
{
    let ghost s = bytes@;
    let len: usize = bytes.len();
    let lfa = read_u32(bytes, 0x3C) as usize;
    let is64 = read_u16(bytes, lfa + 4) == IMAGE_FILE_MACHINE_AMD64;
    let opt = lfa + 24;
    let nrva = if is64 {
        read_u32(bytes, opt + 108)
    } else {
        read_u32(bytes, opt + 92)
    };
    let declared: u32 = if nrva < MAX_SECTION_COUNT {
        nrva
    } else {
        MAX_SECTION_COUNT
    };
    let sec_off: usize = if is64 {
        lfa + 264
    } else {
        lfa + 248
    };
    let avail: usize = (len - sec_off) / 40;
    let count: usize = if (declared as usize) <= avail {
        declared as usize
    } else {
        avail
    };
    proof {
        assert(count == section_count(s));
        assert(40 * avail <= len - sec_off) by (nonlinear_arith)
            requires
                avail == (len - sec_off) / 40,
                sec_off <= len,
        ;
    }
    let mut v: Vec<SectionHeader> = Vec::new();
    let mut i: usize = 0;
    while i < count
        invariant
            bytes@ == s,
            wf_image(s),
            count == section_count(s),
            sec_off == sections_off(s),
            count <= avail,
            40 * avail <= len - sec_off,
            len == s.len(),
            0 <= i <= count,
            v@.len() == i,
            forall|j: int| 0 <= j < i ==> v@[j] == section_at(s, sections_off(s) + 40 * j),
        decreases count - i,
    {
        proof {
            assert(40 * i + 40 <= 40 * avail) by (nonlinear_arith)
                requires
                    i < count,
                    count <= avail,
            ;
        }
        let off = sec_off + 40 * i;
        let sec = SectionHeader {
            virtual_size: read_u32(bytes, off + 8),
            virtual_address: read_u32(bytes, off + 12),
            size_of_raw_data: read_u32(bytes, off + 16),
            pointer_to_raw_data: read_u32(bytes, off + 20),
        };
        v.push(sec);
        i = i + 1;
    }
    proof {
        assert(v@ =~= sections_spec(s));
    }
    v
}

} // verus!
