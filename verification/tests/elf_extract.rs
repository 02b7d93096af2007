use hf2::elf::{elf_to_bin, flatten_segments, ProgramHeader};
use hf2::utils::UtilError;

fn load_header(p_offset: u64, p_paddr: u64, p_filesz: u64) -> ProgramHeader {
    ProgramHeader { p_type: 1, p_flags: 4, p_offset, p_paddr, p_filesz }
}

fn numbered_file(len: usize) -> Vec<u8> {
    let mut v = Vec::new();
    for i in 0..len {
        v.push((i % 256) as u8);
    }
    v
}

#[test]
fn gap_fill_correctness() {
    // Two loadable segments 16 bytes apart in the address space: the image
    // is 40 bytes, with the gap zero-filled.
    let file = numbered_file(100);
    let headers = vec![load_header(52, 0x4000, 16), load_header(68, 0x4020, 8)];
    let (data, addr) = flatten_segments(&file, 52, &headers).unwrap();
    assert_eq!(addr, 0x4000);
    assert_eq!(data.len(), 40);
    assert_eq!(&data[0..16], &file[52..68]);
    assert!(data[16..32].iter().all(|b| *b == 0));
    assert_eq!(&data[32..40], &file[68..76]);
}

#[test]
fn adjacent_segments_get_no_gap() {
    let file = numbered_file(100);
    let headers = vec![load_header(52, 0x4000, 16), load_header(68, 0x4010, 8)];
    let (data, _) = flatten_segments(&file, 52, &headers).unwrap();
    assert_eq!(data.len(), 24);
    assert_eq!(&data[16..24], &file[68..76]);
}

#[test]
fn overlapping_segment_appends_without_gap() {
    // The second segment starts before the first one's end: nothing is
    // filled, its bytes simply follow.
    let file = numbered_file(100);
    let headers = vec![load_header(52, 0x4000, 16), load_header(68, 0x4008, 8)];
    let (data, _) = flatten_segments(&file, 52, &headers).unwrap();
    assert_eq!(data.len(), 24);
    assert_eq!(&data[16..24], &file[68..76]);
}

#[test]
fn non_loadable_headers_are_skipped() {
    let file = numbered_file(100);
    let headers = vec![
        ProgramHeader { p_type: 6, p_flags: 4, p_offset: 52, p_paddr: 0, p_filesz: 16 },
        ProgramHeader { p_type: 1, p_flags: 4, p_offset: 52, p_paddr: 0x100, p_filesz: 0 },
        ProgramHeader { p_type: 1, p_flags: 4, p_offset: 2, p_paddr: 0x200, p_filesz: 8 },
        ProgramHeader { p_type: 1, p_flags: 2, p_offset: 60, p_paddr: 0x300, p_filesz: 8 },
        load_header(80, 0x4000, 4),
    ];
    let (data, addr) = flatten_segments(&file, 52, &headers).unwrap();
    assert_eq!(addr, 0x4000);
    assert_eq!(&data[..], &file[80..84]);
}

#[test]
fn no_loadable_header_is_invalid() {
    let file = numbered_file(100);
    let headers = vec![ProgramHeader { p_type: 6, p_flags: 4, p_offset: 52, p_paddr: 0, p_filesz: 16 }];
    assert_eq!(flatten_segments(&file, 52, &headers), Err(UtilError::InvalidBinary));
}

#[test]
fn segment_outside_file_is_rejected() {
    let file = numbered_file(100);
    let headers = vec![load_header(90, 0x4000, 16)];
    assert_eq!(flatten_segments(&file, 52, &headers), Err(UtilError::Elf));
}

fn minimal_elf() -> Vec<u8> {
    // A hand-built 32-bit little-endian ELF: a 52-byte header, two
    // PT_LOAD program headers, and 24 bytes of segment contents.
    let mut elf: Vec<u8> = Vec::new();
    elf.extend_from_slice(&[0x7F, b'E', b'L', b'F', 1, 1, 1, 0]);
    elf.extend_from_slice(&[0; 8]);
    elf.extend_from_slice(&2u16.to_le_bytes()); // e_type: executable
    elf.extend_from_slice(&40u16.to_le_bytes()); // e_machine: ARM
    elf.extend_from_slice(&1u32.to_le_bytes()); // e_version
    elf.extend_from_slice(&0x4000u32.to_le_bytes()); // e_entry
    elf.extend_from_slice(&52u32.to_le_bytes()); // e_phoff
    elf.extend_from_slice(&0u32.to_le_bytes()); // e_shoff
    elf.extend_from_slice(&0u32.to_le_bytes()); // e_flags
    elf.extend_from_slice(&52u16.to_le_bytes()); // e_ehsize
    elf.extend_from_slice(&32u16.to_le_bytes()); // e_phentsize
    elf.extend_from_slice(&2u16.to_le_bytes()); // e_phnum
    elf.extend_from_slice(&40u16.to_le_bytes()); // e_shentsize
    elf.extend_from_slice(&0u16.to_le_bytes()); // e_shnum
    elf.extend_from_slice(&0u16.to_le_bytes()); // e_shstrndx
    assert_eq!(elf.len(), 52);
    // First segment: 16 bytes at 0x4000, taken from file offset 116.
    for (p_offset, p_paddr, p_filesz) in [(116u32, 0x4000u32, 16u32), (132, 0x4020, 8)] {
        elf.extend_from_slice(&1u32.to_le_bytes()); // p_type: PT_LOAD
        elf.extend_from_slice(&p_offset.to_le_bytes());
        elf.extend_from_slice(&p_paddr.to_le_bytes()); // p_vaddr
        elf.extend_from_slice(&p_paddr.to_le_bytes());
        elf.extend_from_slice(&p_filesz.to_le_bytes());
        elf.extend_from_slice(&p_filesz.to_le_bytes()); // p_memsz
        elf.extend_from_slice(&5u32.to_le_bytes()); // p_flags: read + execute
        elf.extend_from_slice(&4u32.to_le_bytes()); // p_align
    }
    assert_eq!(elf.len(), 116);
    for i in 0..24u8 {
        elf.push(0xA0 + i);
    }
    elf
}

#[test]
fn elf_extraction_end_to_end() {
    let bytes = minimal_elf();
    let (data, addr) = elf_to_bin(&bytes).unwrap();
    assert_eq!(addr, 0x4000);
    assert_eq!(data.len(), 40);
    assert_eq!(&data[0..16], &bytes[116..132]);
    assert!(data[16..32].iter().all(|b| *b == 0));
    assert_eq!(&data[32..40], &bytes[132..140]);
}

#[test]
fn elf_rejects_garbage() {
    let bytes = numbered_file(64);
    assert_eq!(elf_to_bin(&bytes), Err(UtilError::Elf));
}
