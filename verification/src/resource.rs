//! Resource extraction: walking the three-level resource directory tree
//! (type, name-or-id, language) to an embedded blob. The root table is
//! found through its data-directory entry, address-translated when the
//! image is an on-disk layout; every offset inside the tree is relative
//! to the root table, and every read is checked against the region.

use vstd::prelude::*;
use vstd::slice::slice_subrange;
use crate::bytes::{c_str_at, c_str_equals, le16, le32, read_u16, read_u32};
use crate::headers::{
    dd_va, read_data_directory, IMAGE_DIRECTORY_ENTRY_RESOURCE,
};
use crate::mapped::mapped_heuristic;
use crate::pe::{Base, PE};
use crate::translate::{
    lemma_layout_tails, lemma_le16_agree, lemma_le32_agree, locate_range, tails_agree,
    translate_rva, vbase, vread,
};

verus! {

broadcast use crate::bytes::group_le_bounds;

/// The resource type under which raw-data blobs are filed.
pub const RT_RCDATA: u32 = 10;

/// Count of name-keyed entries in the directory table at `tb`.
pub open spec fn rsrc_num_name_entries(s: Seq<u8>, tb: int) -> int {
    le16(s, tb + 12)
}

/// Count of id-keyed entries in the directory table at `tb`.
pub open spec fn rsrc_num_id_entries(s: Seq<u8>, tb: int) -> int {
    le16(s, tb + 14)
}

/// Walk of the id-keyed entries of the directory table at `tb`, from
/// entry index `i`: the recorded offset of the first entry whose id is
/// `id`. Id-keyed entries follow the table header and the name-keyed
/// entries. An entry that no longer fits in the region stops the walk.
pub open spec fn find_id_entry(s: Seq<u8>, tb: int, id: u32, i: int) -> Option<u32>
    decreases rsrc_num_id_entries(s, tb) - i,
{
    if i >= rsrc_num_id_entries(s, tb) {
        None
    } else {
        let e = tb + 16 + 8 * rsrc_num_name_entries(s, tb) + 8 * i;
        if e + 8 > s.len() {
            None
        } else if le32(s, e) == id {
            Some(le32(s, e + 4) as u32)
        } else {
            find_id_entry(s, tb, id, i + 1)
        }
    }
}

/// Id-keyed search over the directory table at `tb`, when the table
/// header itself lies inside the region.
pub open spec fn lookup_by_id(s: Seq<u8>, tb: int, id: u32) -> Option<u32> {
    if tb < 0 || tb + 16 > s.len() {
        None
    } else {
        find_id_entry(s, tb, id, 0)
    }
}

/// Walk of the name-keyed entries of the directory table at `tb`, from
/// entry index `i`: the recorded offset of the first entry whose
/// NUL-terminated name, read relative to the table, equals `name`.
/// Name-keyed entries directly follow the table header.
pub open spec fn find_name_entry(s: Seq<u8>, tb: int, name: Seq<u8>, i: int) -> Option<u32>
    decreases rsrc_num_name_entries(s, tb) - i,
{
    if i >= rsrc_num_name_entries(s, tb) {
        None
    } else {
        let e = tb + 16 + 8 * i;
        if e + 8 > s.len() {
            None
        } else if c_str_at(s, tb + le32(s, e)) == name {
            Some(le32(s, e + 4) as u32)
        } else {
            find_name_entry(s, tb, name, i + 1)
        }
    }
}

/// Name-keyed search over the directory table at `tb`, when the table
/// header itself lies inside the region.
pub open spec fn lookup_by_name(s: Seq<u8>, tb: int, name: Seq<u8>) -> Option<u32> {
    if tb < 0 || tb + 16 > s.len() {
        None
    } else {
        find_name_entry(s, tb, name, 0)
    }
}

/// The three-level walk from the root table at `root`: find the raw-data
/// type among the id-keyed type entries, find `id` in that subdirectory,
/// unconditionally take the first entry of the language subdirectory, and
/// read the leaf's (data offset, size) pair. Subdirectory offsets have
/// their top bit cleared before reuse, and all of them are relative to
/// the root table.
pub open spec fn rsrc_walk(s: Seq<u8>, root: int, id: u32) -> Option<(u32, u32)> {
    match lookup_by_id(s, root, RT_RCDATA) {
        None => None,
        Some(o1) => {
            let t2 = root + (o1 & 0x7FFF_FFFF);
            match lookup_by_id(s, t2, id) {
                None => None,
                Some(o2) => {
                    let t3 = root + (o2 & 0x7FFF_FFFF);
                    if t3 + 24 > s.len() {
                        None
                    } else {
                        let de = root + le32(s, t3 + 20);
                        if de + 8 > s.len() {
                            None
                        } else {
                            Some((le32(s, de) as u32, le32(s, de + 4) as u32))
                        }
                    }
                },
            }
        },
    }
}

/// The embedded blob filed under numeric id `id`: the bytes the leaf's
/// (data offset, size) pair denotes under the image's addressing scheme.
/// An all-zero resource data-directory entry marks the tree absent.
pub open spec fn pe_resource_spec(s: Seq<u8>, mapped: bool, id: u32) -> Option<Seq<u8>> {
    if dd_va(s, IMAGE_DIRECTORY_ENTRY_RESOURCE as int) == 0 {
        None
    } else {
        match vbase(s, mapped, dd_va(s, IMAGE_DIRECTORY_ENTRY_RESOURCE as int) as u32) {
            None => None,
            Some(root) => match rsrc_walk(s, root, id) {
                None => None,
                Some((drva, dsz)) => vread(s, mapped, drva, dsz as int),
            },
        }
    }
}

/// Law: a resource data-directory entry whose offset no section covers
/// makes extraction on an on-disk image report not-found.
pub proof fn lemma_untranslatable_resource_directory(s: Seq<u8>, id: u32)
    requires
        crate::translate::rva_to_foa_spec(
            s,
            dd_va(s, IMAGE_DIRECTORY_ENTRY_RESOURCE as int) as u32,
        ) is None,
    ensures
        pe_resource_spec(s, false, id) is None,
{
}

proof fn lemma_find_id_agree(d: Seq<u8>, f: int, m: Seq<u8>, v: int, tb: int, id: u32, i: int)
    requires
        tails_agree(d, f, m, v),
        0 <= tb,
        tb + 16 <= d.len() - f,
        0 <= i,
    ensures
        find_id_entry(d, f + tb, id, i) == find_id_entry(m, v + tb, id, i),
    decreases rsrc_num_id_entries(d, f + tb) - i,
{
    lemma_le16_agree(d, f, m, v, tb + 12);
    lemma_le16_agree(d, f, m, v, tb + 14);
    if i < rsrc_num_id_entries(d, f + tb) {
        let e = tb + 16 + 8 * rsrc_num_name_entries(d, f + tb) + 8 * i;
        if e + 8 <= d.len() - f {
            lemma_le32_agree(d, f, m, v, e);
            lemma_le32_agree(d, f, m, v, e + 4);
            if le32(d, f + tb + 16 + 8 * rsrc_num_name_entries(d, f + tb) + 8 * i) != id {
                lemma_find_id_agree(d, f, m, v, tb, id, i + 1);
            }
        }
    }
}

proof fn lemma_lookup_id_agree(d: Seq<u8>, f: int, m: Seq<u8>, v: int, tb: int, id: u32)
    requires
        tails_agree(d, f, m, v),
        0 <= tb,
    ensures
        lookup_by_id(d, f + tb, id) == lookup_by_id(m, v + tb, id),
{
    if tb + 16 <= d.len() - f {
        lemma_find_id_agree(d, f, m, v, tb, id, 0);
    }
}

proof fn lemma_walk_agree(d: Seq<u8>, f: int, m: Seq<u8>, v: int, id: u32)
    requires
        tails_agree(d, f, m, v),
    ensures
        rsrc_walk(d, f, id) == rsrc_walk(m, v, id),
{
    lemma_lookup_id_agree(d, f, m, v, 0, RT_RCDATA);
    match lookup_by_id(d, f, RT_RCDATA) {
        None => {},
        Some(o1) => {
            let t2 = (o1 & 0x7FFF_FFFF) as int;
            lemma_lookup_id_agree(d, f, m, v, t2, id);
            match lookup_by_id(d, f + t2, id) {
                None => {},
                Some(o2) => {
                    let t3 = (o2 & 0x7FFF_FFFF) as int;
                    if f + t3 + 24 <= d.len() {
                        lemma_le32_agree(d, f, m, v, t3 + 20);
                        let leaf = le32(d, f + t3 + 20);
                        if f + leaf + 8 <= d.len() {
                            lemma_le32_agree(d, f, m, v, leaf);
                            lemma_le32_agree(d, f, m, v, leaf + 4);
                        }
                    }
                },
            }
        },
    }
}

/// Law: extraction is layout-independent. When an on-disk image `d` and a
/// mapped image `m` record the same resource data-directory entry and
/// every virtual range denotes the same bytes in both — `d` through
/// file-offset translation, `m` directly — then for every numeric id the
/// two extractions return byte-identical content.
pub proof fn lemma_resource_layout_independent(d: Seq<u8>, m: Seq<u8>, id: u32)
    requires
        dd_va(d, IMAGE_DIRECTORY_ENTRY_RESOURCE as int) == dd_va(
            m,
            IMAGE_DIRECTORY_ENTRY_RESOURCE as int,
        ),
        forall|rva: u32, n: int|
            0 <= n ==> #[trigger] vread(d, false, rva, n) == vread(m, true, rva, n),
    ensures
        pe_resource_spec(d, false, id) == pe_resource_spec(m, true, id),
{
    broadcast use crate::bytes::group_le_bounds;

    let va_int = dd_va(d, IMAGE_DIRECTORY_ENTRY_RESOURCE as int);
    if va_int != 0 {
        let va = va_int as u32;
        match crate::translate::rva_to_foa_spec(d, va) {
            None => {
                assert(vread(d, false, va, 0) == vread(m, true, va, 0));
                assert(va > m.len());
            },
            Some(foa) => {
                let f = foa as int;
                let v = va as int;
                assert(vread(d, false, va, 0) == vread(m, true, va, 0));
                if f <= d.len() {
                    lemma_layout_tails(d, m, va, f);
                    lemma_walk_agree(d, f, m, v, id);
                    match rsrc_walk(d, f, id) {
                        None => {},
                        Some((drva, dsz)) => {
                            assert(vread(d, false, drva, dsz as int) == vread(
                                m,
                                true,
                                drva,
                                dsz as int,
                            ));
                        },
                    }
                } else {
                    assert(v > m.len());
                }
            },
        }
    }
}

/// Searches the id-keyed entries of the directory table at `table_off`
/// for `id`.
pub fn get_entry_offset_by_id(bytes: &[u8], table_off: u64, id: u32) -> (r: Option<u32>)
    ensures
        r == lookup_by_id(bytes@, table_off as int, id),
{
    let ghost s = bytes@;
    let len: usize = bytes.len();
    if table_off > len as u64 || (len as u64) - table_off < 16 {
        return None;
    }
    let tb = table_off as usize;
    let n_name = read_u16(bytes, tb + 12);
    let n_id = read_u16(bytes, tb + 14);
    let mut i: u32 = 0;
    while i < n_id as u32
        invariant
            bytes@ == s,
            len == s.len(),
            tb + 16 <= s.len(),
            tb == table_off,
            n_name as int == rsrc_num_name_entries(s, tb as int),
            n_id as int == rsrc_num_id_entries(s, tb as int),
            0 <= i <= n_id as u32,
            find_id_entry(s, tb as int, id, 0) == find_id_entry(s, tb as int, id, i as int),
        decreases n_id as u32 - i,
    {
        let rel: u64 = 16 + 8 * (n_name as u64) + 8 * (i as u64);
        if rel + 8 > len as u64 - tb as u64 {
            return None;
        }
        let eu = tb + rel as usize;
        let entry_id = read_u32(bytes, eu);
        if entry_id == id {
            return Some(read_u32(bytes, eu + 4));
        }
        i = i + 1;
    }
    None
}

/// Searches the name-keyed entries of the directory table at `table_off`
/// for a NUL-terminated name equal to `name`; the entries' name offsets
/// are relative to the table.
pub fn get_entry_offset_by_name(bytes: &[u8], table_off: u64, name: &[u8]) -> (r: Option<u32>)
    ensures
        r == lookup_by_name(bytes@, table_off as int, name@),
{
    let ghost s = bytes@;
    let len: usize = bytes.len();
    if table_off > len as u64 || (len as u64) - table_off < 16 {
        return None;
    }
    let tb = table_off as usize;
    let n_name = read_u16(bytes, tb + 12);
    let mut i: u32 = 0;
    while i < n_name as u32
        invariant
            bytes@ == s,
            len == s.len(),
            tb + 16 <= s.len(),
            tb == table_off,
            n_name as int == rsrc_num_name_entries(s, tb as int),
            0 <= i <= n_name as u32,
            find_name_entry(s, tb as int, name@, 0) == find_name_entry(s, tb as int, name@, i as int),
        decreases n_name as u32 - i,
    {
        let rel: u64 = 16 + 8 * (i as u64);
        if rel + 8 > len as u64 - tb as u64 {
            return None;
        }
        let eu = tb + rel as usize;
        let name_rel = read_u32(bytes, eu);
        let matched: bool = if name_rel as u64 <= len as u64 - tb as u64 {
            c_str_equals(bytes, tb + name_rel as usize, name)
        } else {
            proof {
                assert(c_str_at(s, tb + name_rel as int) =~= Seq::<u8>::empty());
            }
            name.len() == 0
        };
        if matched {
            proof {
                if name.len() == 0 && name_rel as u64 > len as u64 - tb as u64 {
                    assert(c_str_at(s, tb + name_rel as int) =~= name@);
                }
            }
            return Some(read_u32(bytes, eu + 4));
        }
        i = i + 1;
    }
    None
}

/// Walks the three-level tree from the root table at `root` to the
/// leaf's (data offset, size) pair for numeric id `resource_id`.
pub fn get_resource_data_entry(bytes: &[u8], root: u64, resource_id: u32) -> (r: Option<
    (u32, u32),
>)
    ensures
        r == rsrc_walk(bytes@, root as int, resource_id),
{
    let ghost s = bytes@;
    let len: usize = bytes.len();
    let o1 = match get_entry_offset_by_id(bytes, root, RT_RCDATA) {
        Some(o) => o,
        None => {
            return None;
        },
    };
    let rem: u64 = len as u64 - root;
    let m1: u64 = (o1 & 0x7FFF_FFFF) as u64;
    if m1 > rem {
        return None;
    }
    let t2: u64 = root + m1;
    let o2 = match get_entry_offset_by_id(bytes, t2, resource_id) {
        Some(o) => o,
        None => {
            return None;
        },
    };
    let m2: u64 = (o2 & 0x7FFF_FFFF) as u64;
    if m2 > rem {
        return None;
    }
    let t3: u64 = root + m2;
    if len as u64 - t3 < 24 {
        return None;
    }
    let leaf = read_u32(bytes, t3 as usize + 20);
    if leaf as u64 > rem {
        return None;
    }
    let de: u64 = root + leaf as u64;
    if len as u64 - de < 8 {
        return None;
    }
    Some((read_u32(bytes, de as usize), read_u32(bytes, de as usize + 4)))
}

impl<'a> PE<'a, Base> {
    /// Extracts the embedded blob filed under numeric id `resource_id`:
    /// the exact byte range the leaf's (data offset, size) pair denotes,
    /// translated when the image is an on-disk layout. Any level's failed
    /// search, a failed translation, or a range outside the region is
    /// not-found.
    pub fn get_pe_resource(&self, resource_id: u32) -> (r: Option<&'a [u8]>)
        ensures
            match pe_resource_spec(self@, mapped_heuristic(self@), resource_id) {
                Some(b) => r matches Some(x) && x@ == b,
                None => r is None,
            },
    {
        let (bytes, mapped) = self.parts();
        let ghost s = bytes@;
        let dd = read_data_directory(bytes, IMAGE_DIRECTORY_ENTRY_RESOURCE);
        if dd.virtual_address == 0 {
            return None;
        }
        let root: u32 = if mapped {
            dd.virtual_address
        } else {
            match translate_rva(bytes, dd.virtual_address) {
                Some(f) => f,
                None => {
                    return None;
                },
            }
        };
        let (data_rva, data_size) = match get_resource_data_entry(bytes, root as u64, resource_id) {
            Some(p) => p,
            None => {
                return None;
            },
        };
        let data_off = match locate_range(bytes, mapped, data_rva, data_size as u64) {
            Some(o) => o,
            None => {
                return None;
            },
        };
        Some(slice_subrange(bytes, data_off, data_off + data_size as usize))
    }
}

} // verus!
