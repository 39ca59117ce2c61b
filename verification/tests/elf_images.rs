use std::io::Cursor;

use armv6m_sim::elf::{extract, ElfError, ElfImage, SectionData, CODE_SECTION};
use armv6m_sim::loader::{load_image, ImageSource, LoadResult};
use armv6m_sim::memory::AddressSpace;

const HEADER_SIZE: u32 = 52;
const SECTION_HEADER_SIZE: u16 = 40;
const PROGRAM_DATA: u32 = 1;
const STRING_TABLE: u32 = 3;
const NULL_SECTION: u32 = 0;

fn push_u16(image: &mut Vec<u8>, value: u16) {
    image.extend_from_slice(&value.to_le_bytes());
}

fn push_u32(image: &mut Vec<u8>, value: u32) {
    image.extend_from_slice(&value.to_le_bytes());
}

fn push_section_header(image: &mut Vec<u8>, name: u32, kind: u32, offset: u32, size: u32) {
    for field in [name, kind, 0, 0, offset, size, 0, 0, 0, 0] {
        push_u32(image, field);
    }
}

/// A little-endian ELF32 image for ARM with an empty first section, one
/// section named `name` of the given kind, and the table of section names.
fn elf32(entry: u32, name: &str, kind: u32, content: &[u8]) -> Vec<u8> {
    let mut names: Vec<u8> = vec![0];
    names.extend_from_slice(name.as_bytes());
    names.push(0);
    names.extend_from_slice(b".shstrtab");
    let content_offset = HEADER_SIZE;
    let names_offset = content_offset + content.len() as u32;
    let headers_offset = names_offset + names.len() as u32;

    let mut image: Vec<u8> = vec![0x7F, b'E', b'L', b'F', 1, 1, 1, 0, 0];
    image.extend_from_slice(&[0; 7]);
    push_u16(&mut image, 2);
    push_u16(&mut image, 0x28);
    push_u32(&mut image, 1);
    push_u32(&mut image, entry);
    push_u32(&mut image, 0);
    push_u32(&mut image, headers_offset);
    push_u32(&mut image, 0);
    push_u16(&mut image, HEADER_SIZE as u16);
    push_u16(&mut image, 32);
    push_u16(&mut image, 0);
    push_u16(&mut image, SECTION_HEADER_SIZE);
    push_u16(&mut image, 3);
    push_u16(&mut image, 2);
    assert_eq!(image.len(), HEADER_SIZE as usize);

    image.extend_from_slice(content);
    image.extend_from_slice(&names);
    push_section_header(&mut image, 0, NULL_SECTION, 0, 0);
    push_section_header(&mut image, 1, kind, content_offset, content.len() as u32);
    push_section_header(
        &mut image,
        name.len() as u32 + 2,
        STRING_TABLE,
        names_offset,
        names.len() as u32,
    );
    image
}

fn read_image(bytes: Vec<u8>) -> ElfImage {
    let elf = elfy::Elf::parse(&mut Cursor::new(bytes)).unwrap();
    let code = elf.try_get_section(CODE_SECTION).map(|section| match section.data() {
        elfy::types::SectionData::Bytes(bytes) => SectionData::Bytes(bytes.clone()),
        _ => SectionData::Other,
    });
    ElfImage { entry: elf.header().entry(), code }
}

#[test]
fn text_section_of_sixteen_bytes_is_loaded() {
    let code: Vec<u8> = (0xA0..0xB0).collect();
    let image = read_image(elf32(0x0000_00C1, ".text", PROGRAM_DATA, &code));
    assert_eq!(image.entry, 0xC1);
    let mut memory = AddressSpace::new(64);
    let outcome = load_image(&mut memory, &ImageSource::Elf(image), false);
    assert_eq!(outcome.result, Ok(LoadResult { bytes_written: 16, origin: 0xC1 }));
    assert_eq!(&memory.as_slice()[0..16], code.as_slice());
    assert!(memory.as_slice()[16..].iter().all(|b| *b == 0));
}

#[test]
fn image_without_text_section_is_rejected() {
    let image = read_image(elf32(0, ".init", PROGRAM_DATA, &[1, 2, 3, 4]));
    let mut memory = AddressSpace::new(64);
    assert_eq!(extract(&mut memory, &image), Err(ElfError::SectionNotFound));
    assert!(memory.as_slice().iter().all(|b| *b == 0));
}

#[test]
fn text_section_that_holds_strings_is_rejected() {
    let image = read_image(elf32(0, ".text", STRING_TABLE, b"one\0two"));
    let mut memory = AddressSpace::new(64);
    assert_eq!(extract(&mut memory, &image), Err(ElfError::DataAbsent));
    assert!(memory.as_slice().iter().all(|b| *b == 0));
}
