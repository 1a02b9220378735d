//! Export resolution: locating a symbol's virtual offset by exact name,
//! by numeric ordinal, or by XOR-masked name. All three lookups share one
//! directory-location step: the export directory is found through its
//! data-directory entry, address-translated when the image is an on-disk
//! layout, and its function-address, name and name-ordinal tables are
//! read with every offset checked against the region.

use vstd::prelude::*;
use crate::bytes::{
    c_str_at, c_str_equals, c_str_xor_equals, le16, le32, lemma_le16_subrange,
    lemma_le32_subrange, read_u16, read_u32, xor_masked_eq,
};
use crate::headers::{
    dd_va, read_data_directory, wf_image, IMAGE_DIRECTORY_ENTRY_EXPORT,
};
use crate::mapped::mapped_heuristic;
use crate::pe::{Base, PE};
use crate::translate::{translate_rva, vbase, vread};

verus! {

broadcast use crate::bytes::group_le_bounds;

/// The export directory's navigation fields, as mathematical values.
pub struct ExportDirView {
    /// First ordinal the function-address table covers.
    pub base: int,
    /// Entries in the function-address table.
    pub number_of_functions: int,
    /// Entries in the name and name-ordinal tables.
    pub number_of_names: int,
    /// Virtual offset of the function-address table.
    pub address_of_functions: int,
    /// Virtual offset of the name table.
    pub address_of_names: int,
    /// Virtual offset of the name-ordinal table.
    pub address_of_name_ordinals: int,
}

/// The export directory of the image, when its data-directory entry is
/// present and its 40 bytes lie inside the region. An all-zero entry
/// marks the directory absent.
pub open spec fn export_view(s: Seq<u8>, mapped: bool) -> Option<ExportDirView> {
    if dd_va(s, IMAGE_DIRECTORY_ENTRY_EXPORT as int) == 0 {
        None
    } else {
        match vread(s, mapped, dd_va(s, IMAGE_DIRECTORY_ENTRY_EXPORT as int) as u32, 40) {
            None => None,
            Some(d) => Some(
                ExportDirView {
                    base: le32(d, 16),
                    number_of_functions: le32(d, 20),
                    number_of_names: le32(d, 24),
                    address_of_functions: le32(d, 28),
                    address_of_names: le32(d, 32),
                    address_of_name_ordinals: le32(d, 36),
                },
            ),
        }
    }
}

/// The function-address table's bytes, when the whole table lies inside
/// the region.
pub open spec fn export_functions(s: Seq<u8>, mapped: bool) -> Option<Seq<u8>> {
    match export_view(s, mapped) {
        None => None,
        Some(e) => vread(s, mapped, e.address_of_functions as u32, 4 * e.number_of_functions),
    }
}

/// Virtual offset of the export whose ordinal is `ordinal`: the
/// function-address-table entry at `ordinal - base`, when the ordinal
/// falls in the declared range.
pub open spec fn export_rva_by_ordinal_spec(s: Seq<u8>, mapped: bool, ordinal: int) -> Option<
    u32,
> {
    match export_view(s, mapped) {
        None => None,
        Some(e) => match export_functions(s, mapped) {
            None => None,
            Some(eat) => if e.base <= ordinal < e.base + e.number_of_functions {
                Some(le32(eat, 4 * (ordinal - e.base)) as u32)
            } else {
                None
            },
        },
    }
}

/// Outcome of walking the name table for a match.
pub enum NameScan {
    /// The name at this table index matched.
    Found(int),
    /// No name matched.
    Absent,
    /// A name's string offset could not be translated.
    Fail,
}

/// Walk of the name table from index `i`: the first index whose
/// NUL-terminated string equals `target`. A string offset that fails
/// translation aborts the walk, as the lookup cannot examine that
/// candidate.
pub open spec fn scan_names(
    s: Seq<u8>,
    mapped: bool,
    names: Seq<u8>,
    count: int,
    target: Seq<u8>,
    i: int,
) -> NameScan
    decreases count - i,
{
    if i >= count {
        NameScan::Absent
    } else {
        match vbase(s, mapped, le32(names, 4 * i) as u32) {
            None => NameScan::Fail,
            Some(off) => if c_str_at(s, off) == target {
                NameScan::Found(i)
            } else {
                scan_names(s, mapped, names, count, target, i + 1)
            },
        }
    }
}

/// Walk of the name table from index `i` for an XOR-masked match under
/// `key`.
pub open spec fn scan_names_xor(
    s: Seq<u8>,
    mapped: bool,
    names: Seq<u8>,
    count: int,
    masked: Seq<u8>,
    key: Seq<u8>,
    i: int,
) -> NameScan
    decreases count - i,
{
    if i >= count {
        NameScan::Absent
    } else {
        match vbase(s, mapped, le32(names, 4 * i) as u32) {
            None => NameScan::Fail,
            Some(off) => if xor_masked_eq(masked, c_str_at(s, off), key) {
                NameScan::Found(i)
            } else {
                scan_names_xor(s, mapped, names, count, masked, key, i + 1)
            },
        }
    }
}

/// Virtual offset reached from a name-table match at index `i`: the
/// name-ordinal table entry at `i` indexes the function-address table,
/// and an entry outside that table's declared range is out of bounds.
pub open spec fn export_rva_at_index(
    s: Seq<u8>,
    mapped: bool,
    e: ExportDirView,
    eat: Seq<u8>,
    i: int,
) -> Option<u32> {
    match vread(s, mapped, e.address_of_name_ordinals as u32, 2 * e.number_of_names) {
        None => None,
        Some(hints) => {
            let h = le16(hints, 2 * i);
            if h < e.number_of_functions {
                Some(le32(eat, 4 * h) as u32)
            } else {
                None
            }
        },
    }
}

/// Virtual offset of the export named `target` (byte-exact comparison):
/// the first name-table match, taken through the name-ordinal table into
/// the function-address table.
pub open spec fn export_rva_by_name_spec(s: Seq<u8>, mapped: bool, target: Seq<u8>) -> Option<
    u32,
> {
    match export_view(s, mapped) {
        None => None,
        Some(e) => match export_functions(s, mapped) {
            None => None,
            Some(eat) => match vread(s, mapped, e.address_of_names as u32, 4 * e.number_of_names) {
                None => None,
                Some(names) => match scan_names(s, mapped, names, e.number_of_names, target, 0) {
                    NameScan::Found(i) => export_rva_at_index(s, mapped, e, eat, i),
                    NameScan::Absent => None,
                    NameScan::Fail => None,
                },
            },
        },
    }
}

/// Virtual offset of the export whose name, masked with `key`, equals
/// `masked`.
pub open spec fn export_rva_xor_spec(
    s: Seq<u8>,
    mapped: bool,
    masked: Seq<u8>,
    key: Seq<u8>,
) -> Option<u32> {
    match export_view(s, mapped) {
        None => None,
        Some(e) => match export_functions(s, mapped) {
            None => None,
            Some(eat) => match vread(s, mapped, e.address_of_names as u32, 4 * e.number_of_names) {
                None => None,
                Some(names) => match scan_names_xor(
                    s,
                    mapped,
                    names,
                    e.number_of_names,
                    masked,
                    key,
                    0,
                ) {
                    NameScan::Found(i) => export_rva_at_index(s, mapped, e, eat, i),
                    NameScan::Absent => None,
                    NameScan::Fail => None,
                },
            },
        },
    }
}

/// How a lookup input is disambiguated, following the platform's own
/// resolution convention: a four-byte probe whose upper 16 bits are zero
/// is an ordinal, anything else is a name.
pub open spec fn export_lookup_spec(s: Seq<u8>, mapped: bool, q: Seq<u8>) -> Option<u32> {
    if q.len() >= 4 && le32(q, 0) < 0x1_0000 {
        export_rva_by_ordinal_spec(s, mapped, le16(q, 0))
    } else {
        export_rva_by_name_spec(s, mapped, q)
    }
}

/// The numeric ordinal a name designates: the ordinal base plus the
/// name-ordinal table entry at the name's first name-table match.
pub open spec fn true_ordinal(s: Seq<u8>, mapped: bool, target: Seq<u8>) -> int {
    match export_view(s, mapped) {
        None => 0,
        Some(e) => match vread(s, mapped, e.address_of_names as u32, 4 * e.number_of_names) {
            None => 0,
            Some(names) => match scan_names(s, mapped, names, e.number_of_names, target, 0) {
                NameScan::Found(i) => match vread(
                    s,
                    mapped,
                    e.address_of_name_ordinals as u32,
                    2 * e.number_of_names,
                ) {
                    None => 0,
                    Some(hints) => e.base + le16(hints, 2 * i),
                },
                NameScan::Absent => 0,
                NameScan::Fail => 0,
            },
        },
    }
}

/// Law: name-based and ordinal-based resolution agree. Whenever resolving
/// an export by exact name succeeds, resolving by that symbol's true
/// numeric ordinal returns the same virtual offset.
pub proof fn lemma_name_ordinal_agree(s: Seq<u8>, mapped: bool, target: Seq<u8>)
    requires
        export_rva_by_name_spec(s, mapped, target) is Some,
    ensures
        export_rva_by_ordinal_spec(s, mapped, true_ordinal(s, mapped, target))
            == export_rva_by_name_spec(s, mapped, target),
{
}

/// Law: an export data-directory entry whose offset no section covers
/// makes every export lookup on an on-disk image report not-found.
pub proof fn lemma_untranslatable_export_directory(
    s: Seq<u8>,
    target: Seq<u8>,
    ordinal: int,
    masked: Seq<u8>,
    key: Seq<u8>,
)
    requires
        crate::translate::rva_to_foa_spec(
            s,
            dd_va(s, IMAGE_DIRECTORY_ENTRY_EXPORT as int) as u32,
        ) is None,
    ensures
        export_rva_by_name_spec(s, false, target) is None,
        export_rva_by_ordinal_spec(s, false, ordinal) is None,
        export_rva_xor_spec(s, false, masked, key) is None,
        export_lookup_spec(s, false, target) is None,
{
}

proof fn lemma_scan_names_layout_agree(
    d: Seq<u8>,
    m: Seq<u8>,
    names: Seq<u8>,
    count: int,
    target: Seq<u8>,
    i: int,
)
    requires
        forall|r: u32, n: int| 0 <= n ==> #[trigger] vread(d, false, r, n) == vread(m, true, r, n),
        scan_names(d, false, names, count, target, i) != NameScan::Fail,
        0 <= i,
    ensures
        scan_names(m, true, names, count, target, i) == scan_names(
            d,
            false,
            names,
            count,
            target,
            i,
        ),
    decreases count - i,
{
    if i < count {
        let str_rva = le32(names, 4 * i) as u32;
        match vbase(d, false, str_rva) {
            None => {},
            Some(f) => {
                if f <= d.len() {
                    crate::translate::lemma_layout_tails(d, m, str_rva, f);
                    crate::translate::lemma_c_str_agree(d, f, m, str_rva as int, 0);
                } else {
                    assert(vread(d, false, str_rva, 0) == vread(m, true, str_rva, 0));
                    assert(str_rva > m.len());
                    assert(c_str_at(d, f) =~= c_str_at(m, str_rva as int));
                }
                if c_str_at(m, str_rva as int) != target {
                    lemma_scan_names_layout_agree(d, m, names, count, target, i + 1);
                }
            },
        }
    }
}

/// Law: ordinal-based resolution is layout-independent. On an on-disk
/// image and a mapped image that record the same export data-directory
/// entry and denote the same bytes for every virtual range — the first
/// through file-offset translation, the second directly — every ordinal
/// resolves to the same outcome.
pub proof fn lemma_export_ordinal_layout_independent(d: Seq<u8>, m: Seq<u8>, ordinal: int)
    requires
        dd_va(d, IMAGE_DIRECTORY_ENTRY_EXPORT as int) == dd_va(
            m,
            IMAGE_DIRECTORY_ENTRY_EXPORT as int,
        ),
        forall|r: u32, n: int| 0 <= n ==> #[trigger] vread(d, false, r, n) == vread(m, true, r, n),
    ensures
        export_rva_by_ordinal_spec(d, false, ordinal) == export_rva_by_ordinal_spec(
            m,
            true,
            ordinal,
        ),
{
    let va = dd_va(d, IMAGE_DIRECTORY_ENTRY_EXPORT as int) as u32;
    assert(vread(d, false, va, 40) == vread(m, true, va, 40));
    match export_view(d, false) {
        None => {},
        Some(e) => {
            assert(vread(d, false, e.address_of_functions as u32, 4 * e.number_of_functions)
                == vread(m, true, e.address_of_functions as u32, 4 * e.number_of_functions));
        },
    }
}

/// Law: name-based resolution is layout-independent whenever the on-disk
/// lookup succeeds. Under the same correspondence as the ordinal law, a
/// name the on-disk image resolves to a virtual offset resolves to the
/// same offset on the mapped image. (A lookup the on-disk image reports
/// not-found may abort early on an untranslatable name offset that the
/// mapped image can still read past, so only success transfers.)
pub proof fn lemma_export_name_layout_independent(d: Seq<u8>, m: Seq<u8>, target: Seq<u8>)
    requires
        dd_va(d, IMAGE_DIRECTORY_ENTRY_EXPORT as int) == dd_va(
            m,
            IMAGE_DIRECTORY_ENTRY_EXPORT as int,
        ),
        forall|r: u32, n: int| 0 <= n ==> #[trigger] vread(d, false, r, n) == vread(m, true, r, n),
        export_rva_by_name_spec(d, false, target) is Some,
    ensures
        export_rva_by_name_spec(m, true, target) == export_rva_by_name_spec(d, false, target),
{
    let va = dd_va(d, IMAGE_DIRECTORY_ENTRY_EXPORT as int) as u32;
    assert(vread(d, false, va, 40) == vread(m, true, va, 40));
    match export_view(d, false) {
        None => {},
        Some(e) => {
            assert(vread(d, false, e.address_of_functions as u32, 4 * e.number_of_functions)
                == vread(m, true, e.address_of_functions as u32, 4 * e.number_of_functions));
            assert(vread(d, false, e.address_of_names as u32, 4 * e.number_of_names) == vread(
                m,
                true,
                e.address_of_names as u32,
                4 * e.number_of_names,
            ));
            assert(vread(d, false, e.address_of_name_ordinals as u32, 2 * e.number_of_names)
                == vread(m, true, e.address_of_name_ordinals as u32, 2 * e.number_of_names));
            match vread(d, false, e.address_of_names as u32, 4 * e.number_of_names) {
                None => {},
                Some(names) => {
                    lemma_scan_names_layout_agree(d, m, names, e.number_of_names, target, 0);
                },
            }
        },
    }
}

/// The located export tables: directory fields plus the checked region
/// offset of the function-address table.
struct ExportTables {
    base: u32,
    number_of_functions: u32,
    number_of_names: u32,
    names_rva: u32,
    hints_rva: u32,
    eat_off: usize,
}

/// Shared directory-location step: finds the export directory and checks
/// that the whole function-address table lies inside the region.
fn locate_export_tables(bytes: &[u8], mapped: bool) -> (r: Option<ExportTables>)
    requires
        wf_image(bytes@),
    ensures
        match r {
            Some(t) => {
                &&& export_view(bytes@, mapped) matches Some(e)
                    && e.base == t.base as int
                    && e.number_of_functions == t.number_of_functions as int
                    && e.number_of_names == t.number_of_names as int
                    && e.address_of_names == t.names_rva as int
                    && e.address_of_name_ordinals == t.hints_rva as int
                &&& t.eat_off + 4 * (t.number_of_functions as int) <= bytes@.len()
                &&& export_functions(bytes@, mapped) == Some(
                    bytes@.subrange(
                        t.eat_off as int,
                        t.eat_off + 4 * (t.number_of_functions as int),
                    ),
                )
            },
            None => export_view(bytes@, mapped) is None || export_functions(bytes@, mapped)
                is None,
        },
{
    let ghost s = bytes@;
    let dd = read_data_directory(bytes, IMAGE_DIRECTORY_ENTRY_EXPORT);
    if dd.virtual_address == 0 {
        return None;
    }
    let dir_off = match crate::translate::locate_range(bytes, mapped, dd.virtual_address, 40) {
        Some(o) => o,
        None => {
            return None;
        },
    };
    proof {
        lemma_le32_subrange(s, dir_off as int, dir_off + 40, 16);
        lemma_le32_subrange(s, dir_off as int, dir_off + 40, 20);
        lemma_le32_subrange(s, dir_off as int, dir_off + 40, 24);
        lemma_le32_subrange(s, dir_off as int, dir_off + 40, 28);
        lemma_le32_subrange(s, dir_off as int, dir_off + 40, 32);
        lemma_le32_subrange(s, dir_off as int, dir_off + 40, 36);
    }
    let base = read_u32(bytes, dir_off + 16);
    let number_of_functions = read_u32(bytes, dir_off + 20);
    let number_of_names = read_u32(bytes, dir_off + 24);
    let eat_rva = read_u32(bytes, dir_off + 28);
    let names_rva = read_u32(bytes, dir_off + 32);
    let hints_rva = read_u32(bytes, dir_off + 36);
    let eat_off = match crate::translate::locate_range(
        bytes,
        mapped,
        eat_rva,
        4u64 * number_of_functions as u64,
    ) {
        Some(o) => o,
        None => {
            return None;
        },
    };
    Some(
        ExportTables {
            base,
            number_of_functions,
            number_of_names,
            names_rva,
            hints_rva,
            eat_off,
        },
    )
}

impl<'a> PE<'a, Base> {
    /// Resolves an export by numeric ordinal: the ordinal is checked
    /// against the declared range `[base, base + number_of_functions)`
    /// and indexes the function-address table directly.
    pub fn get_export_rva_by_ordinal(&self, ordinal: u32) -> (r: Option<u32>)
        ensures
            r == export_rva_by_ordinal_spec(self@, mapped_heuristic(self@), ordinal as int),
    {
        let (bytes, mapped) = self.parts();
        let ghost s = bytes@;
        let t = match locate_export_tables(bytes, mapped) {
            Some(t) => t,
            None => {
                return None;
            },
        };
        if ordinal >= t.base && (ordinal as u64) < t.base as u64 + t.number_of_functions as u64 {
            let idx = (ordinal - t.base) as usize;
            proof {
                assert(4 * idx + 4 <= 4 * (t.number_of_functions as int));
                lemma_le32_subrange(
                    s,
                    t.eat_off as int,
                    t.eat_off + 4 * (t.number_of_functions as int),
                    4 * idx,
                );
            }
            Some(read_u32(bytes, t.eat_off + 4 * idx))
        } else {
            None
        }
    }

    /// Resolves an export by exact name: the name table is scanned in
    /// order, each candidate string is compared byte for byte, and the
    /// first match indexes the function-address table through the
    /// name-ordinal table.
    pub fn get_export_rva_by_name(&self, export_name: &[u8]) -> (r: Option<u32>)
        ensures
            r == export_rva_by_name_spec(self@, mapped_heuristic(self@), export_name@),
    {
        let (bytes, mapped) = self.parts();
        let ghost s = bytes@;
        let t = match locate_export_tables(bytes, mapped) {
            Some(t) => t,
            None => {
                return None;
            },
        };
        let nnames = t.number_of_names;
        let names_off = match crate::translate::locate_range(
            bytes,
            mapped,
            t.names_rva,
            4u64 * nnames as u64,
        ) {
            Some(o) => o,
            None => {
                return None;
            },
        };
        let ghost names_seq = s.subrange(names_off as int, names_off + 4 * (nnames as int));
        let mut i: u32 = 0;
        while i < nnames
            invariant
                wf_image(s),
                bytes@ == s,
                s == self@,
                mapped == mapped_heuristic(s),
                export_view(s, mapped) matches Some(e) && e.base == t.base as int
                    && e.number_of_functions == t.number_of_functions as int
                    && e.number_of_names == t.number_of_names as int
                    && e.address_of_names == t.names_rva as int
                    && e.address_of_name_ordinals == t.hints_rva as int,
                t.eat_off + 4 * (t.number_of_functions as int) <= s.len(),
                export_functions(s, mapped) == Some(
                    s.subrange(t.eat_off as int, t.eat_off + 4 * (t.number_of_functions as int)),
                ),
                nnames == t.number_of_names,
                names_off + 4 * (nnames as int) <= s.len(),
                vread(s, mapped, t.names_rva, 4 * (nnames as int)) == Some(names_seq),
                names_seq == s.subrange(names_off as int, names_off + 4 * (nnames as int)),
                0 <= i <= nnames,
                scan_names(s, mapped, names_seq, nnames as int, export_name@, 0) == scan_names(
                    s,
                    mapped,
                    names_seq,
                    nnames as int,
                    export_name@,
                    i as int,
                ),
            decreases nnames - i,
        {
            proof {
                assert(4 * (i as int) + 4 <= 4 * (nnames as int));
                lemma_le32_subrange(
                    s,
                    names_off as int,
                    names_off + 4 * (nnames as int),
                    4 * (i as int),
                );
            }
            let str_rva = read_u32(bytes, names_off + 4 * (i as usize));
            let str_off: u32 = if mapped {
                str_rva
            } else {
                match translate_rva(bytes, str_rva) {
                    Some(f) => f,
                    None => {
                        return None;
                    },
                }
            };
            if c_str_equals(bytes, str_off as usize, export_name) {
                return self.export_rva_for_index(bytes, mapped, &t, i, Ghost(names_seq), Ghost(
                    export_name@,
                ), Ghost(Seq::empty()), Ghost(false));
            }
            i = i + 1;
        }
        None
    }

    /// Resolves an export whose name is supplied XOR-masked: the scan is
    /// the exact-name scan, but each candidate is compared against the
    /// masked pattern under the caller's key, so the symbol name never
    /// appears verbatim in the caller's own data.
    pub fn get_export_rva_xor_string(&self, xor_name: &[u8], key: &[u8]) -> (r: Option<u32>)
        requires
            key@.len() > 0,
        ensures
            r == export_rva_xor_spec(self@, mapped_heuristic(self@), xor_name@, key@),
    {
        let (bytes, mapped) = self.parts();
        let ghost s = bytes@;
        let t = match locate_export_tables(bytes, mapped) {
            Some(t) => t,
            None => {
                return None;
            },
        };
        let nnames = t.number_of_names;
        let names_off = match crate::translate::locate_range(
            bytes,
            mapped,
            t.names_rva,
            4u64 * nnames as u64,
        ) {
            Some(o) => o,
            None => {
                return None;
            },
        };
        let ghost names_seq = s.subrange(names_off as int, names_off + 4 * (nnames as int));
        let mut i: u32 = 0;
        while i < nnames
            invariant
                wf_image(s),
                bytes@ == s,
                s == self@,
                key@.len() > 0,
                mapped == mapped_heuristic(s),
                export_view(s, mapped) matches Some(e) && e.base == t.base as int
                    && e.number_of_functions == t.number_of_functions as int
                    && e.number_of_names == t.number_of_names as int
                    && e.address_of_names == t.names_rva as int
                    && e.address_of_name_ordinals == t.hints_rva as int,
                t.eat_off + 4 * (t.number_of_functions as int) <= s.len(),
                export_functions(s, mapped) == Some(
                    s.subrange(t.eat_off as int, t.eat_off + 4 * (t.number_of_functions as int)),
                ),
                nnames == t.number_of_names,
                names_off + 4 * (nnames as int) <= s.len(),
                vread(s, mapped, t.names_rva, 4 * (nnames as int)) == Some(names_seq),
                names_seq == s.subrange(names_off as int, names_off + 4 * (nnames as int)),
                0 <= i <= nnames,
                scan_names_xor(s, mapped, names_seq, nnames as int, xor_name@, key@, 0)
                    == scan_names_xor(
                    s,
                    mapped,
                    names_seq,
                    nnames as int,
                    xor_name@,
                    key@,
                    i as int,
                ),
            decreases nnames - i,
        {
            proof {
                assert(4 * (i as int) + 4 <= 4 * (nnames as int));
                lemma_le32_subrange(
                    s,
                    names_off as int,
                    names_off + 4 * (nnames as int),
                    4 * (i as int),
                );
            }
            let str_rva = read_u32(bytes, names_off + 4 * (i as usize));
            let str_off: u32 = if mapped {
                str_rva
            } else {
                match translate_rva(bytes, str_rva) {
                    Some(f) => f,
                    None => {
                        return None;
                    },
                }
            };
            if c_str_xor_equals(bytes, str_off as usize, xor_name, key) {
                return self.export_rva_for_index(bytes, mapped, &t, i, Ghost(names_seq), Ghost(
                    xor_name@,
                ), Ghost(key@), Ghost(true));
            }
            i = i + 1;
        }
        None
    }

    /// Resolves an export from a lookup input, disambiguated by the
    /// platform's own convention: an input of at least four bytes whose
    /// four-byte probe has zero upper 16 bits is taken as an ordinal,
    /// anything else as an exact name.
    pub fn get_export_rva(&self, export_name: &[u8]) -> (r: Option<u32>)
        ensures
            r == export_lookup_spec(self@, mapped_heuristic(self@), export_name@),
    {
        if export_name.len() >= 4 {
            let probe = read_u32(export_name, 0);
            if probe < 0x1_0000 {
                return self.get_export_rva_by_ordinal(probe);
            }
        }
        self.get_export_rva_by_name(export_name)
    }

    /// Shared tail of the two name scans: takes the matched name-table
    /// index through the name-ordinal table into the function-address
    /// table.
    fn export_rva_for_index(
        &self,
        bytes: &'a [u8],
        mapped: bool,
        t: &ExportTables,
        i: u32,
        Ghost(names_seq): Ghost<Seq<u8>>,
        Ghost(pattern): Ghost<Seq<u8>>,
        Ghost(key): Ghost<Seq<u8>>,
        Ghost(xor): Ghost<bool>,
    ) -> (r: Option<u32>)
        requires
            wf_image(bytes@),
            bytes@ == self@,
            mapped == mapped_heuristic(self@),
            export_view(bytes@, mapped) matches Some(e) && e.base == t.base as int
                && e.number_of_functions == t.number_of_functions as int
                && e.number_of_names == t.number_of_names as int
                && e.address_of_names == t.names_rva as int
                && e.address_of_name_ordinals == t.hints_rva as int,
            t.eat_off + 4 * (t.number_of_functions as int) <= bytes@.len(),
            export_functions(bytes@, mapped) == Some(
                bytes@.subrange(t.eat_off as int, t.eat_off + 4 * (t.number_of_functions as int)),
            ),
            vread(bytes@, mapped, t.names_rva, 4 * (t.number_of_names as int)) == Some(names_seq),
            i < t.number_of_names,
            !xor ==> scan_names(
                bytes@,
                mapped,
                names_seq,
                t.number_of_names as int,
                pattern,
                0,
            ) == NameScan::Found(i as int),
            xor ==> scan_names_xor(
                bytes@,
                mapped,
                names_seq,
                t.number_of_names as int,
                pattern,
                key,
                0,
            ) == NameScan::Found(i as int),
        ensures
            !xor ==> r == export_rva_by_name_spec(self@, mapped_heuristic(self@), pattern),
            xor ==> r == export_rva_xor_spec(self@, mapped_heuristic(self@), pattern, key),
    {
        let ghost s = bytes@;
        let nnames = t.number_of_names;
        let hints_off = match crate::translate::locate_range(
            bytes,
            mapped,
            t.hints_rva,
            2u64 * nnames as u64,
        ) {
            Some(o) => o,
            None => {
                return None;
            },
        };
        proof {
            assert(2 * (i as int) + 2 <= 2 * (nnames as int));
            lemma_le16_subrange(
                s,
                hints_off as int,
                hints_off + 2 * (nnames as int),
                2 * (i as int),
            );
        }
        let hint = read_u16(bytes, hints_off + 2 * (i as usize));
        if (hint as u32) < t.number_of_functions {
            proof {
                assert(4 * (hint as int) + 4 <= 4 * (t.number_of_functions as int));
                lemma_le32_subrange(
                    s,
                    t.eat_off as int,
                    t.eat_off + 4 * (t.number_of_functions as int),
                    4 * (hint as int),
                );
            }
            Some(read_u32(bytes, t.eat_off + 4 * (hint as usize)))
        } else {
            None
        }
    }
}

} // verus!
