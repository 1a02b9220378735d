//! The image header chain as a mathematical description of a byte region:
//! DOS header, NT header (file header plus bit-width-dependent optional
//! header) and the 16-entry data-directory array.

use vstd::prelude::*;
use crate::bytes::{le8, le16, le32, le64};

verus! {

broadcast use crate::bytes::group_le_bounds;

/// The two-byte signature that opens a DOS header.
pub const IMAGE_DOS_SIGNATURE: u16 = 0x5A4D;

/// The four-byte signature that opens an NT header.
pub const IMAGE_NT_SIGNATURE: u32 = 0x4550;

/// File-header machine-type value that marks a 64-bit image; any other
/// value is treated as 32-bit.
pub const IMAGE_FILE_MACHINE_AMD64: u16 = 0x8664;

/// Data-directory slot of the export directory.
pub const IMAGE_DIRECTORY_ENTRY_EXPORT: usize = 0;

/// Data-directory slot of the import directory.
pub const IMAGE_DIRECTORY_ENTRY_IMPORT: usize = 1;

/// Data-directory slot of the resource directory.
pub const IMAGE_DIRECTORY_ENTRY_RESOURCE: usize = 2;

/// Offset of the NT header, read from the DOS header's `e_lfanew` field.
pub open spec fn lfanew(s: Seq<u8>) -> int {
    le32(s, 0x3C)
}

/// The file header's machine-type field.
pub open spec fn machine(s: Seq<u8>) -> int {
    le16(s, lfanew(s) + 4)
}

/// A machine type of `IMAGE_FILE_MACHINE_AMD64` marks a 64-bit image.
pub open spec fn is_64_image(s: Seq<u8>) -> bool {
    machine(s) == IMAGE_FILE_MACHINE_AMD64
}

/// Offset of the optional header: it follows the 4-byte NT signature and
/// the 20-byte file header.
pub open spec fn opt_off(s: Seq<u8>) -> int {
    lfanew(s) + 24
}

/// Size of the optional header, fixed by the image's bit-width.
pub open spec fn opt_size(s: Seq<u8>) -> int {
    if is_64_image(s) {
        240
    } else {
        224
    }
}

/// Size of the whole NT header: signature, file header, optional header.
pub open spec fn nt_size(s: Seq<u8>) -> int {
    24 + opt_size(s)
}

/// A well-formed image: the region holds a full DOS header, both
/// signatures are valid, and the complete NT header (for the bit-width
/// the file header declares) lies inside the region.
pub open spec fn wf_image(s: Seq<u8>) -> bool {
    &&& s.len() >= 64
    &&& lfanew(s) + 24 <= s.len()
    &&& le16(s, 0) == IMAGE_DOS_SIGNATURE
    &&& le32(s, lfanew(s)) == IMAGE_NT_SIGNATURE
    &&& lfanew(s) + nt_size(s) <= s.len()
}

/// A 16-bit optional-header field that sits at the same offset in both
/// bit-width layouts.
pub open spec fn opt_u16(s: Seq<u8>, off: int) -> int {
    le16(s, opt_off(s) + off)
}

/// An 8-bit optional-header field at the same offset in both layouts.
pub open spec fn opt_u8(s: Seq<u8>, off: int) -> int {
    le8(s, opt_off(s) + off)
}

/// A 32-bit optional-header field at the same offset in both layouts.
pub open spec fn opt_u32(s: Seq<u8>, off: int) -> int {
    le32(s, opt_off(s) + off)
}

/// A 32-bit optional-header field whose offset depends on the bit-width.
pub open spec fn opt_u32_split(s: Seq<u8>, off32: int, off64: int) -> int {
    if is_64_image(s) {
        le32(s, opt_off(s) + off64)
    } else {
        le32(s, opt_off(s) + off32)
    }
}

/// An optional-header field that is 32 bits wide in the 32-bit layout and
/// 64 bits wide in the 64-bit layout, widened to the 64-bit value.
pub open spec fn opt_u64_split(s: Seq<u8>, off32: int, off64: int) -> int {
    if is_64_image(s) {
        le64(s, opt_off(s) + off64)
    } else {
        le32(s, opt_off(s) + off32)
    }
}

/// Offset of the 16-entry data-directory array.
pub open spec fn dd_off(s: Seq<u8>) -> int {
    if is_64_image(s) {
        opt_off(s) + 112
    } else {
        opt_off(s) + 96
    }
}

/// Virtual offset recorded in data-directory slot `i`.
pub open spec fn dd_va(s: Seq<u8>, i: int) -> int {
    le32(s, dd_off(s) + 8 * i)
}

/// Size recorded in data-directory slot `i`.
pub open spec fn dd_size(s: Seq<u8>, i: int) -> int {
    le32(s, dd_off(s) + 8 * i + 4)
}

/// The DOS header fields the header chain navigates by.
#[derive(Clone, Copy, Debug, PartialEq, Eq, Structural)]
pub struct ImageDosHeader {
    pub e_magic: u16,
    pub e_lfanew: u32,
}

/// The NT header's file header.
#[derive(Clone, Copy, Debug, PartialEq, Eq, Structural)]
pub struct ImageFileHeader {
    pub machine: u16,
    pub number_of_sections: u16,
    pub time_date_stamp: u32,
    pub pointer_to_symbol_table: u32,
    pub number_of_symbols: u32,
    pub size_of_optional_header: u16,
    pub characteristics: u16,
}

/// One data-directory entry: a virtual offset and a size.
#[derive(Clone, Copy, Debug, PartialEq, Eq, Structural)]
pub struct ImageDataDirectory {
    pub virtual_address: u32,
    pub size: u32,
}

/// Reads data-directory slot `i` of a well-formed image.
pub fn read_data_directory(bytes: &[u8], i: usize) -> (r: ImageDataDirectory)
    requires
        wf_image(bytes@),
        i < 16,
    ensures
        r.virtual_address as int == dd_va(bytes@, i as int),
        r.size as int == dd_size(bytes@, i as int),
{
    let lfa = crate::bytes::read_u32(bytes, 0x3C) as usize;
    let is64 = crate::bytes::read_u16(bytes, lfa + 4) == IMAGE_FILE_MACHINE_AMD64;
    let ddo = if is64 {
        lfa + 24 + 112
    } else {
        lfa + 24 + 96
    };
    ImageDataDirectory {
        virtual_address: crate::bytes::read_u32(bytes, ddo + 8 * i),
        size: crate::bytes::read_u32(bytes, ddo + 8 * i + 4),
    }
}

} // verus!
