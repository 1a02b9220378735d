use pe_image::headers::ImageDataDirectory;
use pe_image::pe::{Base, PE};
use pe_image::resource::{get_entry_offset_by_id, get_entry_offset_by_name};
use pe_image::sections::SectionHeader;

fn put_u16(v: &mut Vec<u8>, off: usize, val: u16) {
    v[off..off + 2].copy_from_slice(&val.to_le_bytes());
}

fn put_u32(v: &mut Vec<u8>, off: usize, val: u32) {
    v[off..off + 4].copy_from_slice(&val.to_le_bytes());
}

fn put_u64(v: &mut Vec<u8>, off: usize, val: u64) {
    v[off..off + 8].copy_from_slice(&val.to_le_bytes());
}

fn put_bytes(v: &mut Vec<u8>, off: usize, val: &[u8]) {
    v[off..off + val.len()].copy_from_slice(val);
}

const LFANEW: usize = 0x80;
const OPT64: usize = LFANEW + 24;
const SEC64: usize = LFANEW + 264;
const OPT32: usize = LFANEW + 24;
const SEC32: usize = LFANEW + 248;

/// Builds the on-disk layout of a minimal 64-bit image with one section
/// (virtual 0x1000..0x1200, raw 0x200..0x400), an export directory with
/// two names ("Alpha" -> 0x3333 at ordinal 3, "Beta" -> 0x4444 at
/// ordinal 4), an import descriptor table, and one resource blob
/// b"RSRCDATA" under numeric id 42.
fn build_disk_image_64() -> Vec<u8> {
    let mut v = vec![0u8; 0x400];
    put_u16(&mut v, 0, 0x5A4D);
    put_u32(&mut v, 0x3C, LFANEW as u32);
    put_u32(&mut v, LFANEW, 0x4550);
    put_u16(&mut v, LFANEW + 4, 0x8664);
    put_u16(&mut v, LFANEW + 6, 1); // NumberOfSections
    put_u16(&mut v, LFANEW + 20, 240); // SizeOfOptionalHeader
    put_u16(&mut v, OPT64, 0x20B); // magic
    v[OPT64 + 2] = 14; // MajorLinkerVersion
    v[OPT64 + 3] = 29; // MinorLinkerVersion
    put_u32(&mut v, OPT64 + 4, 0x600); // SizeOfCode
    put_u32(&mut v, OPT64 + 16, 0x1010); // AddressOfEntryPoint
    put_u64(&mut v, OPT64 + 24, 0x1_8000_0000); // ImageBase
    put_u32(&mut v, OPT64 + 32, 0x1000); // SectionAlignment
    put_u32(&mut v, OPT64 + 36, 0x200); // FileAlignment
    put_u16(&mut v, OPT64 + 40, 10); // MajorOperatingSystemVersion
    put_u16(&mut v, OPT64 + 48, 6); // MajorSubsystemVersion
    put_u32(&mut v, OPT64 + 56, 0x1200); // SizeOfImage
    put_u32(&mut v, OPT64 + 60, 0x400); // SizeOfHeaders
    put_u16(&mut v, OPT64 + 68, 2); // Subsystem
    put_u64(&mut v, OPT64 + 72, 0x100000); // SizeOfStackReserve
    put_u64(&mut v, OPT64 + 80, 0x1000); // SizeOfStackCommit
    put_u64(&mut v, OPT64 + 88, 0x200000); // SizeOfHeapReserve
    put_u64(&mut v, OPT64 + 96, 0x2000); // SizeOfHeapCommit
    put_u32(&mut v, OPT64 + 108, 1); // NumberOfRvaAndSizes drives section count
    let dd = OPT64 + 112;
    put_u32(&mut v, dd, 0x1000); // export directory
    put_u32(&mut v, dd + 4, 0x100);
    put_u32(&mut v, dd + 8, 0x1180); // import descriptors
    put_u32(&mut v, dd + 12, 40);
    put_u32(&mut v, dd + 16, 0x1100); // resource tree
    put_u32(&mut v, dd + 20, 0x100);
    // one section: virtual 0x1000 (size 0x1000), raw 0x200 at file 0x200
    put_u32(&mut v, SEC64 + 8, 0x1000);
    put_u32(&mut v, SEC64 + 12, 0x1000);
    put_u32(&mut v, SEC64 + 16, 0x200);
    put_u32(&mut v, SEC64 + 20, 0x200);
    // export directory at rva 0x1000 = file 0x200
    put_u32(&mut v, 0x210, 3); // Base
    put_u32(&mut v, 0x214, 2); // NumberOfFunctions
    put_u32(&mut v, 0x218, 2); // NumberOfNames
    put_u32(&mut v, 0x21C, 0x1040); // AddressOfFunctions
    put_u32(&mut v, 0x220, 0x1050); // AddressOfNames
    put_u32(&mut v, 0x224, 0x1060); // AddressOfNameOrdinals
    put_u32(&mut v, 0x240, 0x3333); // function 0
    put_u32(&mut v, 0x244, 0x4444); // function 1
    put_u32(&mut v, 0x250, 0x1070); // name 0 string rva
    put_u32(&mut v, 0x254, 0x1080); // name 1 string rva
    put_u16(&mut v, 0x260, 0); // hint for name 0
    put_u16(&mut v, 0x262, 1); // hint for name 1
    put_bytes(&mut v, 0x270, b"Alpha\0");
    put_bytes(&mut v, 0x280, b"Beta\0");
    // import descriptor at rva 0x1180 = file 0x380: module name rva 0x11F0
    put_u32(&mut v, 0x38C, 0x11F0);
    put_bytes(&mut v, 0x3F0, b"k32.dll\0"); // plain 7-bit text on disk
    // resource tree at rva 0x1100 = file 0x300
    put_u16(&mut v, 0x30C, 0); // root: name-keyed entries
    put_u16(&mut v, 0x30E, 1); // root: id-keyed entries
    put_u32(&mut v, 0x310, 10); // type entry: raw-data type
    put_u32(&mut v, 0x314, 0x30 | 0x8000_0000); // subdirectory at root+0x30
    put_u16(&mut v, 0x33C, 0); // level 2: name-keyed entries
    put_u16(&mut v, 0x33E, 1); // level 2: id-keyed entries
    put_u32(&mut v, 0x340, 42); // id entry
    put_u32(&mut v, 0x344, 0x60 | 0x8000_0000); // subdirectory at root+0x60
    put_u32(&mut v, 0x370, 0); // level 3: first entry, language id
    put_u32(&mut v, 0x374, 0x90); // leaf: data entry at root+0x90
    put_u32(&mut v, 0x390, 0x11C0); // data rva
    put_u32(&mut v, 0x394, 8); // data size
    put_bytes(&mut v, 0x3C0, b"RSRCDATA");
    v
}

/// The equivalent already-mapped layout: identical headers, the section's
/// raw bytes moved to its virtual range, and loader-reused memory between
/// the headers and the section holding a byte outside the 7-bit range
/// where the import-name heuristic looks.
fn build_mapped_image_64() -> Vec<u8> {
    let disk = build_disk_image_64();
    let mut v = vec![0u8; 0x1200];
    v[..0x200].copy_from_slice(&disk[..0x200]);
    v[0x1000..0x1200].copy_from_slice(&disk[0x200..0x400]);
    // the heuristic reads the import descriptors and their names through
    // file-offset translation; in this layout those offsets fall between
    // the headers and the section, where a loader leaves reused memory
    put_u32(&mut v, 0x38C, 0x11F0);
    v[0x3F0] = 0xFF;
    v
}

/// A minimal 32-bit image: headers only, one section, no directories.
fn build_disk_image_32() -> Vec<u8> {
    let mut v = vec![0u8; 0x400];
    put_u16(&mut v, 0, 0x5A4D);
    put_u32(&mut v, 0x3C, LFANEW as u32);
    put_u32(&mut v, LFANEW, 0x4550);
    put_u16(&mut v, LFANEW + 4, 0x014C);
    put_u16(&mut v, LFANEW + 20, 224);
    put_u16(&mut v, OPT32, 0x10B);
    put_u32(&mut v, OPT32 + 28, 0x40_0000); // ImageBase
    put_u32(&mut v, OPT32 + 32, 0x1000); // SectionAlignment
    put_u32(&mut v, OPT32 + 36, 0x200); // FileAlignment
    put_u32(&mut v, OPT32 + 56, 0x1200); // SizeOfImage
    put_u16(&mut v, OPT32 + 68, 3); // Subsystem
    put_u32(&mut v, OPT32 + 72, 0x100000); // SizeOfStackReserve
    put_u32(&mut v, OPT32 + 76, 0x1000); // SizeOfStackCommit
    put_u32(&mut v, OPT32 + 80, 0x200000); // SizeOfHeapReserve
    put_u32(&mut v, OPT32 + 84, 0x2000); // SizeOfHeapCommit
    put_u32(&mut v, OPT32 + 92, 1); // NumberOfRvaAndSizes
    put_u32(&mut v, SEC32 + 12, 0x1000);
    put_u32(&mut v, SEC32 + 16, 0x200);
    put_u32(&mut v, SEC32 + 20, 0x200);
    v
}

/// A 32-bit image with one section and an export directory holding one
/// name ("Gamma" -> 0x7777 at ordinal 1).
fn build_disk_image_32_with_exports() -> Vec<u8> {
    let mut v = build_disk_image_32();
    let dd = OPT32 + 96;
    put_u32(&mut v, dd, 0x1000);
    put_u32(&mut v, dd + 4, 0x100);
    put_u32(&mut v, 0x210, 1); // Base
    put_u32(&mut v, 0x214, 1); // NumberOfFunctions
    put_u32(&mut v, 0x218, 1); // NumberOfNames
    put_u32(&mut v, 0x21C, 0x1040);
    put_u32(&mut v, 0x220, 0x1050);
    put_u32(&mut v, 0x224, 0x1060);
    put_u32(&mut v, 0x240, 0x7777);
    put_u32(&mut v, 0x250, 0x1070);
    put_u16(&mut v, 0x260, 0);
    put_bytes(&mut v, 0x270, b"Gamma\0");
    v
}

fn open(bytes: &[u8]) -> PE<'_, Base> {
    PE::from_slice(bytes).expect("well-formed image")
}

#[test]
fn construction_succeeds_and_reports_bit_width() {
    let disk64 = build_disk_image_64();
    let pe = open(&disk64);
    assert!(pe.is_64bit());
    assert_eq!(pe.nt_headers().file_header().machine, 0x8664);

    let disk32 = build_disk_image_32();
    let pe32 = open(&disk32);
    assert!(!pe32.is_64bit());
    assert_eq!(pe32.nt_headers().file_header().machine, 0x014C);
}

#[test]
fn construction_rejects_bad_signatures() {
    let good = build_disk_image_64();

    let mut bad_dos = good.clone();
    put_u16(&mut bad_dos, 0, 0x4D5A);
    assert!(PE::from_slice(&bad_dos).is_err());

    let mut bad_nt = good.clone();
    put_u32(&mut bad_nt, LFANEW, 0x4551);
    assert!(PE::from_slice(&bad_nt).is_err());

    // one valid signature alone is not enough: reject unless both hold
    let mut only_dos = good.clone();
    put_u32(&mut only_dos, LFANEW, 0);
    assert!(PE::from_slice(&only_dos).is_err());

    assert!(PE::from_slice(&good[..0x20]).is_err());
    assert!(PE::from_slice(&good[..LFANEW + 100]).is_err());
    assert!(PE::from_slice(&[]).is_err());
}

#[test]
fn header_accessors_report_documented_fields_64() {
    let disk = build_disk_image_64();
    let pe = open(&disk);
    assert_eq!(pe.base_address(), 0);
    assert_eq!(pe.address(), 0);
    let dos = pe.dos_header();
    assert_eq!(dos.e_magic, 0x5A4D);
    assert_eq!(dos.e_lfanew, LFANEW as u32);
    let nt = pe.nt_headers();
    assert_eq!(nt.address(), LFANEW);
    assert_eq!(nt.signature(), 0x4550);
    assert_eq!(nt.size_of(), 264);
    let fh = nt.file_header();
    assert_eq!(fh.machine, 0x8664);
    assert_eq!(fh.number_of_sections, 1);
    assert_eq!(fh.size_of_optional_header, 240);
    let opt = nt.optional_header();
    assert_eq!(opt.address(), OPT64);
    assert_eq!(opt.size_of(), 240);
    assert_eq!(opt.magic(), 0x20B);
    assert_eq!(opt.major_linker_version(), 14);
    assert_eq!(opt.minor_linker_version(), 29);
    assert_eq!(opt.size_of_code(), 0x600);
    assert_eq!(opt.size_of_initialized_data(), 0);
    assert_eq!(opt.size_of_uninitialized_data(), 0);
    assert_eq!(opt.address_of_entry_point(), 0x1010);
    assert_eq!(opt.base_of_code(), 0);
    assert_eq!(opt.image_base(), 0x1_8000_0000);
    assert_eq!(opt.section_alignment(), 0x1000);
    assert_eq!(opt.file_alignment(), 0x200);
    assert_eq!(opt.major_operating_system_version(), 10);
    assert_eq!(opt.minor_operating_system_version(), 0);
    assert_eq!(opt.major_image_version(), 0);
    assert_eq!(opt.minor_image_version(), 0);
    assert_eq!(opt.major_subsystem_version(), 6);
    assert_eq!(opt.minor_subsystem_version(), 0);
    assert_eq!(opt.win32_version_value(), 0);
    assert_eq!(opt.size_of_image(), 0x1200);
    assert_eq!(opt.size_of_headers(), 0x400);
    assert_eq!(opt.check_sum(), 0);
    assert_eq!(opt.subsystem(), 2);
    assert_eq!(opt.dll_characteristics(), 0);
    assert_eq!(opt.size_of_stack_reserve(), 0x100000);
    assert_eq!(opt.size_of_stack_commit(), 0x1000);
    assert_eq!(opt.size_of_heap_reserve(), 0x200000);
    assert_eq!(opt.size_of_heap_commit(), 0x2000);
    assert_eq!(opt.loader_flags(), 0);
    assert_eq!(opt.number_of_rva_and_sizes(), 1);
    let dd: Vec<ImageDataDirectory> = opt.data_directory();
    assert_eq!(dd.len(), 16);
    assert_eq!(dd[0].virtual_address, 0x1000);
    assert_eq!(dd[0].size, 0x100);
    assert_eq!(dd[2].virtual_address, 0x1100);
    assert_eq!(dd[15].virtual_address, 0);
}

#[test]
fn header_accessors_report_documented_fields_32() {
    let disk = build_disk_image_32();
    let pe = open(&disk);
    let nt = pe.nt_headers();
    assert_eq!(nt.size_of(), 248);
    let opt = nt.optional_header();
    assert_eq!(opt.size_of(), 224);
    assert_eq!(opt.magic(), 0x10B);
    assert_eq!(opt.image_base(), 0x40_0000);
    assert_eq!(opt.section_alignment(), 0x1000);
    assert_eq!(opt.subsystem(), 3);
    assert_eq!(opt.size_of_stack_reserve(), 0x100000);
    assert_eq!(opt.size_of_stack_commit(), 0x1000);
    assert_eq!(opt.size_of_heap_reserve(), 0x200000);
    assert_eq!(opt.size_of_heap_commit(), 0x2000);
    assert_eq!(opt.number_of_rva_and_sizes(), 1);
}

#[test]
fn section_table_is_walked_and_capped() {
    let disk = build_disk_image_64();
    let pe = open(&disk);
    let secs: Vec<SectionHeader> = pe.section_headers();
    assert_eq!(secs.len(), 1);
    assert_eq!(secs[0].virtual_address, 0x1000);
    assert_eq!(secs[0].virtual_size, 0x1000);
    assert_eq!(secs[0].size_of_raw_data, 0x200);
    assert_eq!(secs[0].pointer_to_raw_data, 0x200);

    // a maliciously large declared count is capped by what the region holds
    let mut inflated = build_disk_image_64();
    put_u32(&mut inflated, OPT64 + 108, 0xFFFF_FFFF);
    let pe2 = open(&inflated);
    let secs2 = pe2.section_headers();
    assert_eq!(secs2.len(), (0x400 - SEC64) / 40);
}

#[test]
fn translate_maps_section_range_linearly() {
    let disk = build_disk_image_64();
    let pe = open(&disk);
    assert_eq!(pe.rva_to_foa(0x1000), Some(0x200));
    assert_eq!(pe.rva_to_foa(0x1070), Some(0x270));
    // the virtual range's upper end is inclusive
    assert_eq!(pe.rva_to_foa(0x1200), Some(0x400));
    assert_eq!(pe.rva_to_foa(0x1201), None);
    assert_eq!(pe.rva_to_foa(0x9000), None);
}

#[test]
fn translate_returns_header_region_offsets_unchanged() {
    let disk = build_disk_image_64();
    let pe = open(&disk);
    // below the first section's file pointer the offset is its own image
    assert_eq!(pe.rva_to_foa(0), Some(0));
    assert_eq!(pe.rva_to_foa(0x50), Some(0x50));
    assert_eq!(pe.rva_to_foa(0x1FF), Some(0x1FF));
}

#[test]
fn translate_without_sections_finds_nothing() {
    let mut disk = build_disk_image_64();
    put_u32(&mut disk, OPT64 + 108, 0); // declared count zero
    let pe = open(&disk);
    assert_eq!(pe.rva_to_foa(0x10), None);
}

#[test]
fn export_by_name_finds_each_symbol() {
    let disk = build_disk_image_64();
    let pe = open(&disk);
    assert_eq!(pe.get_export_rva_by_name(b"Alpha"), Some(0x3333));
    assert_eq!(pe.get_export_rva_by_name(b"Beta"), Some(0x4444));
    assert_eq!(pe.get_export_rva_by_name(b"Gamma"), None);
    assert_eq!(pe.get_export_rva_by_name(b"Alph"), None);
    assert_eq!(pe.get_export_rva_by_name(b"Alphas"), None);
}

#[test]
fn export_by_ordinal_checks_declared_range() {
    let disk = build_disk_image_64();
    let pe = open(&disk);
    assert_eq!(pe.get_export_rva_by_ordinal(3), Some(0x3333));
    assert_eq!(pe.get_export_rva_by_ordinal(4), Some(0x4444));
    // outside [base, base + number_of_functions): out of bounds
    assert_eq!(pe.get_export_rva_by_ordinal(2), None);
    assert_eq!(pe.get_export_rva_by_ordinal(5), None);
    assert_eq!(pe.get_export_rva_by_ordinal(0), None);
}

#[test]
fn export_lookup_disambiguates_ordinal_from_name() {
    let disk = build_disk_image_64();
    let pe = open(&disk);
    let ordinal: u32 = 3;
    assert_eq!(pe.get_export_rva(ordinal.to_le_bytes().as_slice()), Some(0x3333));
    assert_eq!(pe.get_export_rva(b"Alpha"), Some(0x3333));
    assert_eq!(pe.get_export_rva(b"Beta"), Some(0x4444));
}

#[test]
fn export_name_and_ordinal_resolutions_agree() {
    let disk = build_disk_image_64();
    let pe = open(&disk);
    // "Alpha" sits at hint 0, so its true ordinal is the base, 3
    let by_name = pe.get_export_rva(b"Alpha");
    let by_ordinal = pe.get_export_rva(3u32.to_le_bytes().as_slice());
    assert!(by_name.is_some());
    assert_eq!(by_name, by_ordinal);
    let by_name_b = pe.get_export_rva(b"Beta");
    let by_ordinal_b = pe.get_export_rva(4u32.to_le_bytes().as_slice());
    assert!(by_name_b.is_some());
    assert_eq!(by_name_b, by_ordinal_b);
}

#[test]
fn export_by_masked_name_never_holds_the_name() {
    let disk = build_disk_image_64();
    let pe = open(&disk);
    let key = [0x5Au8, 0x12];
    let masked: Vec<u8> = b"Alpha"
        .iter()
        .enumerate()
        .map(|(i, b)| b ^ key[i % key.len()])
        .collect();
    assert_eq!(pe.get_export_rva_xor_string(&masked, &key), Some(0x3333));
    assert_eq!(pe.get_export_rva_xor_string(b"Alpha", &key), None);
}

#[test]
fn export_hint_outside_function_table_is_out_of_bounds() {
    let mut disk = build_disk_image_64();
    put_u16(&mut disk, 0x260, 7); // hint for "Alpha" beyond NumberOfFunctions
    let pe = open(&disk);
    assert_eq!(pe.get_export_rva_by_name(b"Alpha"), None);
    assert_eq!(pe.get_export_rva_by_name(b"Beta"), Some(0x4444));
}

#[test]
fn export_absent_directory_is_not_found() {
    let mut disk = build_disk_image_64();
    put_u32(&mut disk, OPT64 + 112, 0); // export entry zeroed
    let pe = open(&disk);
    assert_eq!(pe.get_export_rva(b"Alpha"), None);
    assert_eq!(pe.get_export_rva_by_ordinal(3), None);
}

#[test]
fn corrupted_directories_report_not_found() {
    // the directory entries point past every section's range
    let mut disk = build_disk_image_64();
    put_u32(&mut disk, OPT64 + 112, 0x9000);
    put_u32(&mut disk, OPT64 + 112 + 16, 0x9000);
    let pe = open(&disk);
    assert_eq!(pe.rva_to_foa(0x9000), None);
    assert_eq!(pe.get_export_rva(b"Alpha"), None);
    assert_eq!(pe.get_export_rva_by_name(b"Alpha"), None);
    assert_eq!(pe.get_export_rva_by_ordinal(3), None);
    let key = [0x77u8];
    assert_eq!(pe.get_export_rva_xor_string(b"xx", &key), None);
    assert_eq!(pe.get_pe_resource(42), None);
}

#[test]
fn resource_walks_three_levels_to_the_blob() {
    let disk = build_disk_image_64();
    let pe = open(&disk);
    assert_eq!(pe.get_pe_resource(42), Some(b"RSRCDATA".as_slice()));
    assert_eq!(pe.get_pe_resource(41), None);
}

#[test]
fn resource_absent_directory_is_not_found() {
    let mut disk = build_disk_image_64();
    put_u32(&mut disk, OPT64 + 112 + 16, 0);
    let pe = open(&disk);
    assert_eq!(pe.get_pe_resource(42), None);
}

#[test]
fn resource_extraction_is_layout_independent() {
    let disk = build_disk_image_64();
    let mapped = build_mapped_image_64();
    let pe_disk = open(&disk);
    let pe_mapped = open(&mapped);
    assert!(!pe_disk.is_mapped());
    assert!(pe_mapped.is_mapped());
    let from_disk = pe_disk.get_pe_resource(42).expect("blob on disk");
    let from_mapped = pe_mapped.get_pe_resource(42).expect("blob in memory");
    assert_eq!(from_disk, from_mapped);
    assert_eq!(from_disk, b"RSRCDATA");
}

#[test]
fn resource_entry_search_by_id_and_by_name() {
    // a standalone directory table at offset 0x40: one name-keyed entry
    // ("BLOB" at table-relative 0x60) and one id-keyed entry (7)
    let mut v = vec![0u8; 0x100];
    put_u16(&mut v, 0x40 + 12, 1);
    put_u16(&mut v, 0x40 + 14, 1);
    put_u32(&mut v, 0x40 + 16, 0x60); // name offset, relative to the table
    put_u32(&mut v, 0x40 + 20, 0xAAAA);
    put_u32(&mut v, 0x40 + 24, 7);
    put_u32(&mut v, 0x40 + 28, 0xBBBB);
    put_bytes(&mut v, 0x40 + 0x60, b"BLOB\0");
    assert_eq!(get_entry_offset_by_id(&v, 0x40, 7), Some(0xBBBB));
    assert_eq!(get_entry_offset_by_id(&v, 0x40, 8), None);
    assert_eq!(get_entry_offset_by_name(&v, 0x40, b"BLOB"), Some(0xAAAA));
    assert_eq!(get_entry_offset_by_name(&v, 0x40, b"BLOD"), None);
    assert_eq!(get_entry_offset_by_id(&v, 0xF8, 7), None); // header out of range
}

#[test]
fn end_to_end_64bit_library_scenario() {
    // a 64-bit library's on-disk bytes: bit-width, name and ordinal
    // resolution agree; the same image already mapped resolves to the
    // same virtual offset, so base plus offset is the loaded address
    let disk = build_disk_image_64();
    let pe = open(&disk);
    assert!(pe.is_64bit());
    let by_name = pe.get_export_rva(b"Alpha").expect("known export");
    let by_ordinal = pe
        .get_export_rva(3u32.to_le_bytes().as_slice())
        .expect("known ordinal");
    assert_eq!(by_name, by_ordinal);

    let mapped = build_mapped_image_64();
    let pe_mapped = open(&mapped);
    assert!(pe_mapped.is_64bit());
    let in_memory = pe_mapped.get_export_rva(b"Alpha").expect("known export");
    assert_eq!(in_memory, by_name);
    assert_eq!(pe_mapped.base_address() as u32 + in_memory, 0x3333);
}

#[test]
fn export_resolution_on_a_32bit_image() {
    let disk = build_disk_image_32_with_exports();
    let pe = open(&disk);
    assert!(!pe.is_64bit());
    assert_eq!(pe.get_export_rva_by_name(b"Gamma"), Some(0x7777));
    assert_eq!(pe.get_export_rva(b"Gamma"), Some(0x7777));
    assert_eq!(pe.get_export_rva(1u32.to_le_bytes().as_slice()), Some(0x7777));
    assert_eq!(pe.get_export_rva(2u32.to_le_bytes().as_slice()), None);
    assert_eq!(pe.get_export_rva_by_name(b"Alpha"), None);
}

#[test]
fn section_walk_stops_at_the_engineering_cap() {
    // headers declare the largest possible count; the region holds more
    // than the cap's worth of descriptors, so exactly the cap is walked
    let len = SEC64 + 120 * 40;
    let mut v = vec![0u8; len];
    put_u16(&mut v, 0, 0x5A4D);
    put_u32(&mut v, 0x3C, LFANEW as u32);
    put_u32(&mut v, LFANEW, 0x4550);
    put_u16(&mut v, LFANEW + 4, 0x8664);
    put_u32(&mut v, OPT64 + 108, 0xFFFF_FFFF);
    let pe = open(&v);
    assert_eq!(pe.section_headers().len(), 96);
}

#[test]
fn translate_picks_the_first_matching_section() {
    // two sections whose virtual ranges overlap: declaration order wins
    let mut v = build_disk_image_64();
    put_u32(&mut v, OPT64 + 108, 2); // walk two descriptors
    put_u32(&mut v, SEC64 + 40 + 8, 0x1000);
    put_u32(&mut v, SEC64 + 40 + 12, 0x1100); // overlaps the first section
    put_u32(&mut v, SEC64 + 40 + 16, 0x200);
    put_u32(&mut v, SEC64 + 40 + 20, 0x380);
    let pe = open(&v);
    assert_eq!(pe.section_headers().len(), 2);
    // both sections cover 0x1150; the first declared one wins
    assert_eq!(pe.rva_to_foa(0x1150), Some(0x350));
    // past the first section's inclusive end, the second covers it
    assert_eq!(pe.rva_to_foa(0x1201), Some(0x481));
}

#[test]
fn export_lookup_on_the_mapped_image() {
    let mapped = build_mapped_image_64();
    let pe = open(&mapped);
    assert_eq!(pe.get_export_rva_by_name(b"Beta"), Some(0x4444));
    assert_eq!(pe.get_export_rva_by_ordinal(4), Some(0x4444));
    let key = [0x33u8, 0x44, 0x55];
    let masked: Vec<u8> = b"Beta"
        .iter()
        .enumerate()
        .map(|(i, b)| b ^ key[i % key.len()])
        .collect();
    assert_eq!(pe.get_export_rva_xor_string(&masked, &key), Some(0x4444));
}

#[test]
fn export_lookup_shorter_than_a_probe_is_a_name() {
    let disk = build_disk_image_64();
    let pe = open(&disk);
    // fewer than four bytes cannot carry the ordinal probe
    assert_eq!(pe.get_export_rva(b"Abc"), None);
    assert_eq!(pe.get_export_rva(b""), None);
}

#[test]
fn mapped_state_heuristic_reads_import_names() {
    let disk = build_disk_image_64();
    assert!(!open(&disk).is_mapped());

    let mapped = build_mapped_image_64();
    assert!(open(&mapped).is_mapped());

    // an empty import directory classifies the image as unmapped
    let mut no_imports = build_disk_image_64();
    put_u32(&mut no_imports, OPT64 + 112 + 12, 0);
    assert!(!open(&no_imports).is_mapped());
}
