//! Heuristic that classifies the backing bytes as an already-mapped image
//! or a raw on-disk layout. It inspects each import descriptor's module
//! name through file-offset translation; a name that is not pure 7-bit
//! text means the bytes are not laid out as a file, so the image is taken
//! to be mapped. The signal is fragile — it leans on loader-specific
//! memory reuse — and a failed translation or an empty import directory
//! classifies the image as unmapped.

use vstd::prelude::*;
use vstd::slice::slice_index_get;
use crate::bytes::{c_str_at, le32, nul_len, read_u32};
use crate::headers::{dd_size, dd_va, wf_image, IMAGE_DIRECTORY_ENTRY_IMPORT};
use crate::translate::{rva_to_foa_spec, translate_rva};

verus! {

broadcast use crate::bytes::group_le_bounds;

/// True when some byte of the string is outside the 7-bit range.
pub open spec fn has_high_byte(b: Seq<u8>) -> bool {
    exists|i: int| 0 <= i < b.len() && b[i] >= 0x80
}

/// Walk of the import descriptors at table offset `tbl`: true as soon as
/// one descriptor's module name, located through file-offset translation,
/// holds a byte outside the 7-bit range. A descriptor that no longer fits
/// in the region stops the walk.
pub open spec fn import_scan(s: Seq<u8>, tbl: int, n: int, i: int) -> bool
    decreases n - i,
{
    if i >= n {
        false
    } else if tbl + 20 * i + 16 > s.len() {
        false
    } else {
        let name_rva = le32(s, tbl + 20 * i + 12);
        let name_off = match rva_to_foa_spec(s, name_rva as u32) {
            Some(f) => f as int,
            None => 0,
        };
        if has_high_byte(c_str_at(s, name_off)) {
            true
        } else {
            import_scan(s, tbl, n, i + 1)
        }
    }
}

/// The mapped-state heuristic over the whole image: locate the import
/// descriptor table through the import data directory and scan it. An
/// untranslatable table offset or an empty descriptor table classifies
/// the image as unmapped.
pub open spec fn mapped_heuristic(s: Seq<u8>) -> bool {
    match rva_to_foa_spec(s, dd_va(s, IMAGE_DIRECTORY_ENTRY_IMPORT as int) as u32) {
        None => false,
        Some(tbl) => {
            let count = dd_size(s, IMAGE_DIRECTORY_ENTRY_IMPORT as int) / 20;
            if count == 0 {
                false
            } else {
                import_scan(s, tbl as int, count - 1, 0)
            }
        },
    }
}

/// True when the NUL-terminated string at `off` holds a byte outside the
/// 7-bit range.
fn c_str_has_high_byte(bytes: &[u8], off: usize) -> (r: bool)
    ensures
        r == has_high_byte(c_str_at(bytes@, off as int)),
{
    let ghost s = bytes@;
    if off > bytes.len() {
        return false;
    }
    let mut j = off;
    while j < bytes.len() && *slice_index_get(bytes, j) != 0
        invariant
            bytes@ == s,
            off <= j <= s.len(),
            nul_len(s, off as int) == j - off + nul_len(s, j as int),
            forall|k: int| off <= k < j ==> s[k] < 0x80,
        decreases s.len() - j,
    {
        let b = *slice_index_get(bytes, j);
        if b >= 0x80 {
            proof {
                crate::bytes::lemma_nul_len_bounds(s, j as int + 1);
                assert(nul_len(s, j as int) == 1 + nul_len(s, j as int + 1));
                let cs = c_str_at(s, off as int);
                assert(cs[j - off] == s[j as int]);
            }
            return true;
        }
        j = j + 1;
    }
    proof {
        assert(nul_len(s, j as int) == 0);
        let cs = c_str_at(s, off as int);
        assert(forall|k: int| 0 <= k < cs.len() ==> cs[k] == s[off + k] && s[off + k] < 0x80);
    }
    false
}

/// Runs the mapped-state heuristic over the region.
pub(crate) fn detect_mapped(bytes: &[u8]) -> (r: bool)
    requires
        wf_image(bytes@),
    ensures
        r == mapped_heuristic(bytes@),
{
    let ghost s = bytes@;
    let len: usize = bytes.len();
    let dd = crate::headers::read_data_directory(bytes, IMAGE_DIRECTORY_ENTRY_IMPORT);
    let tbl = match translate_rva(bytes, dd.virtual_address) {
        Some(t) => t,
        None => {
            return false;
        },
    };
    let count: u32 = dd.size / 20;
    if count == 0 {
        return false;
    }
    let n = count - 1;
    let mut i: u32 = 0;
    while i < n
        invariant
            bytes@ == s,
            wf_image(s),
            len == s.len(),
            0 <= i <= n,
            mapped_heuristic(s) == import_scan(s, tbl as int, n as int, i as int),
        decreases n - i,
    {
        if tbl as u64 + 20 * (i as u64) + 16 > len as u64 {
            return false;
        }
        let name_rva = read_u32(bytes, tbl as usize + 20 * (i as usize) + 12);
        let name_off = match translate_rva(bytes, name_rva) {
            Some(f) => f,
            None => 0,
        };
        if c_str_has_high_byte(bytes, name_off as usize) {
            return true;
        }
        i = i + 1;
    }
    false
}

} // verus!
