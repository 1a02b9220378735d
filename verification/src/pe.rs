//! The image handle and its staged header navigation. A `PE` value
//! borrows the backing byte region and fixes two facts at construction:
//! the bit-width (from the file header's machine type) and the mapped
//! state (from the import-name heuristic). Navigation is staged by a
//! type tag — the base view steps to an NT-header view and from there to
//! an optional-header view — so querying a later stage before the chain
//! is validated cannot compile.

use core::marker::PhantomData;
use vstd::prelude::*;
use crate::bytes::{le16, le32, read_u16, read_u32, read_u64, read_u8};
use crate::headers::{
    dd_size, dd_va, is_64_image, lfanew, machine, nt_size, opt_off, opt_size, opt_u16,
    opt_u32, opt_u32_split, opt_u64_split, opt_u8, wf_image, ImageDataDirectory, ImageDosHeader,
    ImageFileHeader, IMAGE_DOS_SIGNATURE, IMAGE_FILE_MACHINE_AMD64, IMAGE_NT_SIGNATURE,
};
use crate::mapped::{detect_mapped, mapped_heuristic};
use crate::sections::{parse_section_headers, sections_spec, SectionHeader};
use crate::translate::{rva_to_foa_spec, translate_rva};

verus! {

broadcast use crate::bytes::group_le_bounds;

/// Stage tag: only the validated header chain is exposed.
pub struct Base;

/// Stage tag: the NT header may be queried.
pub struct NtHeaders;

/// Stage tag: the optional header may be queried.
pub struct ImageOptionalHeader;

/// A validated image over a borrowed byte region. All offsets the views
/// report are relative to the start of that region.
pub struct PE<'a, T> {
    bytes: &'a [u8],
    lfanew: u32,
    is_64bit: bool,
    is_mapped: bool,
    stage: PhantomData<T>,
}

impl<'a, T> View for PE<'a, T> {
    type V = Seq<u8>;

    /// The backing byte region.
    closed spec fn view(&self) -> Seq<u8> {
        self.bytes@
    }
}

impl<'a, T> PE<'a, T> {
    #[verifier::type_invariant]
    spec fn inv(self) -> bool {
        &&& wf_image(self.bytes@)
        &&& self.lfanew as int == lfanew(self.bytes@)
        &&& self.is_64bit == is_64_image(self.bytes@)
        &&& self.is_mapped == mapped_heuristic(self.bytes@)
    }

    /// The backing region and the mapped-state fact, for the resolver and
    /// extractor modules.
    pub(crate) fn parts(&self) -> (r: (&'a [u8], bool))
        ensures
            r.0@ == self@,
            wf_image(self@),
            r.1 == mapped_heuristic(self@),
    {
        proof {
            use_type_invariant(&*self);
        }
        (self.bytes, self.is_mapped)
    }

    /// Start of the image. Every offset the views report is relative to
    /// the start of the backing region, so the image itself begins at
    /// offset zero.
    pub fn base_address(&self) -> (r: usize)
        ensures
            r == 0,
    {
        0
    }

    /// The bit-width fact fixed at construction: true exactly when the
    /// file header's machine type carries the 64-bit encoding.
    pub fn is_64bit(&self) -> (r: bool)
        ensures
            r == is_64_image(self@),
    {
        proof {
            use_type_invariant(&*self);
        }
        self.is_64bit
    }

    /// The mapped-state fact fixed at construction by the import-name
    /// heuristic.
    pub fn is_mapped(&self) -> (r: bool)
        ensures
            r == mapped_heuristic(self@),
    {
        proof {
            use_type_invariant(&*self);
        }
        self.is_mapped
    }
}

impl<'a> PE<'a, Base> {
    /// Validates a byte region as an image: the region must hold a full
    /// DOS header, both signatures must be valid, and the whole NT header
    /// for the declared bit-width must lie inside the region. Any other
    /// region is rejected as a format error.
    pub fn from_slice(bytes: &'a [u8]) -> (r: Result<Self, ()>)
        ensures
            r is Ok <==> wf_image(bytes@),
            r matches Ok(pe) ==> pe@ == bytes@,
    {
        let len: usize = bytes.len();
        if len < 64 {
            return Err(());
        }
        let lfa = read_u32(bytes, 0x3C);
        if lfa as u64 + 24 > len as u64 {
            return Err(());
        }
        let lf = lfa as usize;
        if read_u16(bytes, 0) != IMAGE_DOS_SIGNATURE {
            return Err(());
        }
        if read_u32(bytes, lf) != IMAGE_NT_SIGNATURE {
            return Err(());
        }
        let is64 = read_u16(bytes, lf + 4) == IMAGE_FILE_MACHINE_AMD64;
        let ntsz: u64 = if is64 {
            264
        } else {
            248
        };
        if lfa as u64 + ntsz > len as u64 {
            return Err(());
        }
        let mapped = detect_mapped(bytes);
        Ok(PE { bytes, lfanew: lfa, is_64bit: is64, is_mapped: mapped, stage: PhantomData })
    }

    /// Start of the image within the backing region.
    pub fn address(&self) -> (r: usize)
        ensures
            r == 0,
    {
        0
    }

    /// The validated DOS header fields.
    pub fn dos_header(&self) -> (r: ImageDosHeader)
        ensures
            r.e_magic as int == le16(self@, 0),
            r.e_lfanew as int == lfanew(self@),
    {
        proof {
            use_type_invariant(&*self);
        }
        ImageDosHeader { e_magic: read_u16(self.bytes, 0), e_lfanew: self.lfanew }
    }

    /// Steps to the NT-header view of the same image.
    pub fn nt_headers(&self) -> (r: PE<'a, NtHeaders>)
        ensures
            r@ == self@,
    {
        proof {
            use_type_invariant(&*self);
        }
        PE {
            bytes: self.bytes,
            lfanew: self.lfanew,
            is_64bit: self.is_64bit,
            is_mapped: self.is_mapped,
            stage: PhantomData,
        }
    }

    /// The walked section table.
    pub fn section_headers(&self) -> (v: Vec<SectionHeader>)
        ensures
            v@ == sections_spec(self@),
    {
        proof {
            use_type_invariant(&*self);
        }
        parse_section_headers(self.bytes)
    }

    /// Translates a virtual offset to a file offset over the section
    /// table.
    pub fn rva_to_foa(&self, rva: u32) -> (r: Option<u32>)
        ensures
            r == rva_to_foa_spec(self@, rva),
    {
        proof {
            use_type_invariant(&*self);
        }
        translate_rva(self.bytes, rva)
    }
}

impl<'a> PE<'a, NtHeaders> {
    /// Offset of the NT header within the backing region.
    pub fn address(&self) -> (r: usize)
        ensures
            r as int == lfanew(self@),
    {
        proof {
            use_type_invariant(&*self);
        }
        self.lfanew as usize
    }

    /// The NT signature.
    pub fn signature(&self) -> (r: u32)
        ensures
            r as int == le32(self@, lfanew(self@)),
            r == IMAGE_NT_SIGNATURE,
    {
        proof {
            use_type_invariant(&*self);
        }
        read_u32(self.bytes, self.lfanew as usize)
    }

    /// The file header that follows the NT signature.
    pub fn file_header(&self) -> (r: ImageFileHeader)
        ensures
            r.machine as int == machine(self@),
            r.number_of_sections as int == le16(self@, lfanew(self@) + 6),
            r.time_date_stamp as int == le32(self@, lfanew(self@) + 8),
            r.pointer_to_symbol_table as int == le32(self@, lfanew(self@) + 12),
            r.number_of_symbols as int == le32(self@, lfanew(self@) + 16),
            r.size_of_optional_header as int == le16(self@, lfanew(self@) + 20),
            r.characteristics as int == le16(self@, lfanew(self@) + 22),
    {
        proof {
            use_type_invariant(&*self);
        }
        let lf = self.lfanew as usize;
        ImageFileHeader {
            machine: read_u16(self.bytes, lf + 4),
            number_of_sections: read_u16(self.bytes, lf + 6),
            time_date_stamp: read_u32(self.bytes, lf + 8),
            pointer_to_symbol_table: read_u32(self.bytes, lf + 12),
            number_of_symbols: read_u32(self.bytes, lf + 16),
            size_of_optional_header: read_u16(self.bytes, lf + 20),
            characteristics: read_u16(self.bytes, lf + 22),
        }
    }

    /// Steps to the optional-header view of the same image.
    pub fn optional_header(&self) -> (r: PE<'a, ImageOptionalHeader>)
        ensures
            r@ == self@,
    {
        proof {
            use_type_invariant(&*self);
        }
        PE {
            bytes: self.bytes,
            lfanew: self.lfanew,
            is_64bit: self.is_64bit,
            is_mapped: self.is_mapped,
            stage: PhantomData,
        }
    }

    /// Size of the whole NT header for the image's bit-width.
    pub fn size_of(&self) -> (r: usize)
        ensures
            r as int == nt_size(self@),
    {
        proof {
            use_type_invariant(&*self);
        }
        if self.is_64bit {
            264
        } else {
            248
        }
    }
}

impl<'a> PE<'a, ImageOptionalHeader> {
    /// Offset of the optional header within the backing region.
    pub fn address(&self) -> (r: usize)
        ensures
            r as int == opt_off(self@),
    {
        proof {
            use_type_invariant(&*self);
        }
        self.lfanew as usize + 24
    }

    /// The optional header's magic field.
    pub fn magic(&self) -> (r: u16)
        ensures
            r as int == opt_u16(self@, 0),
    {
        proof {
            use_type_invariant(&*self);
        }
        read_u16(self.bytes, self.lfanew as usize + 24)
    }

    /// The linker's major version.
    pub fn major_linker_version(&self) -> (r: u8)
        ensures
            r as int == opt_u8(self@, 2),
    {
        proof {
            use_type_invariant(&*self);
        }
        read_u8(self.bytes, self.lfanew as usize + 24 + 2)
    }

    /// The linker's minor version.
    pub fn minor_linker_version(&self) -> (r: u8)
        ensures
            r as int == opt_u8(self@, 3),
    {
        proof {
            use_type_invariant(&*self);
        }
        read_u8(self.bytes, self.lfanew as usize + 24 + 3)
    }

    /// Total size of the code sections.
    pub fn size_of_code(&self) -> (r: u32)
        ensures
            r as int == opt_u32(self@, 4),
    {
        proof {
            use_type_invariant(&*self);
        }
        read_u32(self.bytes, self.lfanew as usize + 24 + 4)
    }

    /// Total size of the initialized-data sections.
    pub fn size_of_initialized_data(&self) -> (r: u32)
        ensures
            r as int == opt_u32(self@, 8),
    {
        proof {
            use_type_invariant(&*self);
        }
        read_u32(self.bytes, self.lfanew as usize + 24 + 8)
    }

    /// Total size of the uninitialized-data sections.
    pub fn size_of_uninitialized_data(&self) -> (r: u32)
        ensures
            r as int == opt_u32(self@, 12),
    {
        proof {
            use_type_invariant(&*self);
        }
        read_u32(self.bytes, self.lfanew as usize + 24 + 12)
    }

    /// Virtual offset of the entry point.
    pub fn address_of_entry_point(&self) -> (r: u32)
        ensures
            r as int == opt_u32(self@, 16),
    {
        proof {
            use_type_invariant(&*self);
        }
        read_u32(self.bytes, self.lfanew as usize + 24 + 16)
    }

    /// Virtual offset of the first code section.
    pub fn base_of_code(&self) -> (r: u32)
        ensures
            r as int == opt_u32(self@, 20),
    {
        proof {
            use_type_invariant(&*self);
        }
        read_u32(self.bytes, self.lfanew as usize + 24 + 20)
    }

    /// The preferred load address; 32 bits wide in the 32-bit layout.
    pub fn image_base(&self) -> (r: u64)
        ensures
            r as int == opt_u64_split(self@, 28, 24),
    {
        proof {
            use_type_invariant(&*self);
        }
        if self.is_64bit {
            read_u64(self.bytes, self.lfanew as usize + 24 + 24)
        } else {
            read_u32(self.bytes, self.lfanew as usize + 24 + 28) as u64
        }
    }

    /// Alignment of sections once the image is mapped.
    pub fn section_alignment(&self) -> (r: u32)
        ensures
            r as int == opt_u32(self@, 32),
    {
        proof {
            use_type_invariant(&*self);
        }
        read_u32(self.bytes, self.lfanew as usize + 24 + 32)
    }

    /// Alignment of raw section data in the on-disk layout.
    pub fn file_alignment(&self) -> (r: u32)
        ensures
            r as int == opt_u32(self@, 36),
    {
        proof {
            use_type_invariant(&*self);
        }
        read_u32(self.bytes, self.lfanew as usize + 24 + 36)
    }

    /// Required operating system, major version.
    pub fn major_operating_system_version(&self) -> (r: u16)
        ensures
            r as int == opt_u16(self@, 40),
    {
        proof {
            use_type_invariant(&*self);
        }
        read_u16(self.bytes, self.lfanew as usize + 24 + 40)
    }

    /// Required operating system, minor version.
    pub fn minor_operating_system_version(&self) -> (r: u16)
        ensures
            r as int == opt_u16(self@, 42),
    {
        proof {
            use_type_invariant(&*self);
        }
        read_u16(self.bytes, self.lfanew as usize + 24 + 42)
    }

    /// The image's major version.
    pub fn major_image_version(&self) -> (r: u16)
        ensures
            r as int == opt_u16(self@, 44),
    {
        proof {
            use_type_invariant(&*self);
        }
        read_u16(self.bytes, self.lfanew as usize + 24 + 44)
    }

    /// The image's minor version.
    pub fn minor_image_version(&self) -> (r: u16)
        ensures
            r as int == opt_u16(self@, 46),
    {
        proof {
            use_type_invariant(&*self);
        }
        read_u16(self.bytes, self.lfanew as usize + 24 + 46)
    }

    /// The subsystem's major version.
    pub fn major_subsystem_version(&self) -> (r: u16)
        ensures
            r as int == opt_u16(self@, 48),
    {
        proof {
            use_type_invariant(&*self);
        }
        read_u16(self.bytes, self.lfanew as usize + 24 + 48)
    }

    /// The subsystem's minor version.
    pub fn minor_subsystem_version(&self) -> (r: u16)
        ensures
            r as int == opt_u16(self@, 50),
    {
        proof {
            use_type_invariant(&*self);
        }
        read_u16(self.bytes, self.lfanew as usize + 24 + 50)
    }

    /// Reserved version field.
    pub fn win32_version_value(&self) -> (r: u32)
        ensures
            r as int == opt_u32(self@, 52),
    {
        proof {
            use_type_invariant(&*self);
        }
        read_u32(self.bytes, self.lfanew as usize + 24 + 52)
    }

    /// Size of the image once mapped.
    pub fn size_of_image(&self) -> (r: u32)
        ensures
            r as int == opt_u32(self@, 56),
    {
        proof {
            use_type_invariant(&*self);
        }
        read_u32(self.bytes, self.lfanew as usize + 24 + 56)
    }

    /// Combined size of all headers in the on-disk layout.
    pub fn size_of_headers(&self) -> (r: u32)
        ensures
            r as int == opt_u32(self@, 60),
    {
        proof {
            use_type_invariant(&*self);
        }
        read_u32(self.bytes, self.lfanew as usize + 24 + 60)
    }

    /// The declared image checksum.
    pub fn check_sum(&self) -> (r: u32)
        ensures
            r as int == opt_u32(self@, 64),
    {
        proof {
            use_type_invariant(&*self);
        }
        read_u32(self.bytes, self.lfanew as usize + 24 + 64)
    }

    /// The subsystem the image targets.
    pub fn subsystem(&self) -> (r: u16)
        ensures
            r as int == opt_u16(self@, 68),
    {
        proof {
            use_type_invariant(&*self);
        }
        read_u16(self.bytes, self.lfanew as usize + 24 + 68)
    }

    /// The module's characteristics flags.
    pub fn dll_characteristics(&self) -> (r: u16)
        ensures
            r as int == opt_u16(self@, 70),
    {
        proof {
            use_type_invariant(&*self);
        }
        read_u16(self.bytes, self.lfanew as usize + 24 + 70)
    }

    /// Stack bytes to reserve; 32 bits wide in the 32-bit layout.
    pub fn size_of_stack_reserve(&self) -> (r: u64)
        ensures
            r as int == opt_u64_split(self@, 72, 72),
    {
        proof {
            use_type_invariant(&*self);
        }
        if self.is_64bit {
            read_u64(self.bytes, self.lfanew as usize + 24 + 72)
        } else {
            read_u32(self.bytes, self.lfanew as usize + 24 + 72) as u64
        }
    }

    /// Stack bytes to commit; 32 bits wide in the 32-bit layout.
    pub fn size_of_stack_commit(&self) -> (r: u64)
        ensures
            r as int == opt_u64_split(self@, 76, 80),
    {
        proof {
            use_type_invariant(&*self);
        }
        if self.is_64bit {
            read_u64(self.bytes, self.lfanew as usize + 24 + 80)
        } else {
            read_u32(self.bytes, self.lfanew as usize + 24 + 76) as u64
        }
    }

    /// Heap bytes to reserve; 32 bits wide in the 32-bit layout.
    pub fn size_of_heap_reserve(&self) -> (r: u64)
        ensures
            r as int == opt_u64_split(self@, 80, 88),
    {
        proof {
            use_type_invariant(&*self);
        }
        if self.is_64bit {
            read_u64(self.bytes, self.lfanew as usize + 24 + 88)
        } else {
            read_u32(self.bytes, self.lfanew as usize + 24 + 80) as u64
        }
    }

    /// Heap bytes to commit; 32 bits wide in the 32-bit layout.
    pub fn size_of_heap_commit(&self) -> (r: u64)
        ensures
            r as int == opt_u64_split(self@, 84, 96),
    {
        proof {
            use_type_invariant(&*self);
        }
        if self.is_64bit {
            read_u64(self.bytes, self.lfanew as usize + 24 + 96)
        } else {
            read_u32(self.bytes, self.lfanew as usize + 24 + 84) as u64
        }
    }

    /// Reserved loader flags.
    pub fn loader_flags(&self) -> (r: u32)
        ensures
            r as int == opt_u32_split(self@, 88, 104),
    {
        proof {
            use_type_invariant(&*self);
        }
        if self.is_64bit {
            read_u32(self.bytes, self.lfanew as usize + 24 + 104)
        } else {
            read_u32(self.bytes, self.lfanew as usize + 24 + 88)
        }
    }

    /// The declared data-directory count.
    pub fn number_of_rva_and_sizes(&self) -> (r: u32)
        ensures
            r as int == crate::sections::num_rva_and_sizes(self@),
    {
        proof {
            use_type_invariant(&*self);
        }
        if self.is_64bit {
            read_u32(self.bytes, self.lfanew as usize + 24 + 108)
        } else {
            read_u32(self.bytes, self.lfanew as usize + 24 + 92)
        }
    }

    /// The 16-entry data-directory array.
    pub fn data_directory(&self) -> (v: Vec<ImageDataDirectory>)
        ensures
            v@.len() == 16,
            forall|i: int|
                0 <= i < 16 ==> (#[trigger] v@[i]).virtual_address as int == dd_va(self@, i)
                    && v@[i].size as int == dd_size(self@, i),
    {
        proof {
            use_type_invariant(&*self);
        }
        let mut v: Vec<ImageDataDirectory> = Vec::new();
        let mut i: usize = 0;
        while i < 16
            invariant
                wf_image(self@),
                0 <= i <= 16,
                v@.len() == i,
                forall|j: int|
                    0 <= j < i ==> (#[trigger] v@[j]).virtual_address as int == dd_va(self@, j)
                        && v@[j].size as int == dd_size(self@, j),
            decreases 16 - i,
        {
            v.push(crate::headers::read_data_directory(self.bytes, i));
            i = i + 1;
        }
        v
    }

    /// Size of the optional header for the image's bit-width.
    pub fn size_of(&self) -> (r: usize)
        ensures
            r as int == opt_size(self@),
    {
        proof {
            use_type_invariant(&*self);
        }
        if self.is_64bit {
            240
        } else {
            224
        }
    }
}

} // verus!
