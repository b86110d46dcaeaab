use elf2tab::relocs::{
    get_relocation_type, is_text_symbol, produce_relocs, replace_crt0, RelocationType,
};
use elf2tab::types::Section;

fn words_section(name: &str, addr: u64, addralign: u64, words: &[u32]) -> Section {
    let mut data = Vec::new();
    for w in words {
        data.extend_from_slice(&w.to_le_bytes());
    }
    Section {
        name: name.as_bytes().to_vec(),
        offset: 0,
        addr,
        size: data.len() as u64,
        shtype: 1,
        flags: 3,
        data,
        addralign,
    }
}

#[test]
fn relocation_type_decodes_low_byte() {
    assert_eq!(get_relocation_type(2), RelocationType::Abs32);
    assert_eq!(get_relocation_type(0x0102), RelocationType::Abs32);
    assert_eq!(get_relocation_type(3), RelocationType::Other);
    assert_eq!(get_relocation_type(0), RelocationType::Other);
}

#[test]
fn text_symbols_have_top_bit_set() {
    assert!(is_text_symbol(0x8000_0000));
    assert!(is_text_symbol(0xffff_ffff));
    assert!(!is_text_symbol(0x7fff_ffff));
    assert!(!is_text_symbol(0));
}

#[test]
fn produce_relocs_keeps_abs32_text_records() {
    // Words at 0x1000: a text address, a plain value, another text address.
    let section = words_section(".data", 0x1000, 4, &[0x8000_0010, 0x0000_0040, 0x8000_0020]);
    // Records: (address, info). Only records with info low byte 2 and a
    // text-symbol word are kept.
    let rel = words_section(
        ".rel.data",
        0x2000,
        4,
        &[0x1000, 2, 0x1004, 2, 0x1008, 1],
    );
    let out = produce_relocs(&section, &rel);
    // Only the first record qualifies: offset 0.
    assert_eq!(out, 0u32.to_le_bytes().to_vec());
}

#[test]
fn produce_relocs_emits_offsets_in_record_order() {
    let section = words_section(".data", 0x100, 4, &[0x8000_0000, 0x8000_0004]);
    let rel = words_section(".rel.data", 0x200, 8, &[0x104, 2, 0x100, 2]);
    let out = produce_relocs(&section, &rel);
    let mut expected = 4u32.to_le_bytes().to_vec();
    expected.extend_from_slice(&0u32.to_le_bytes());
    assert_eq!(out, expected);
}

#[test]
fn replace_crt0_sets_got_fields_only() {
    let mut data = vec![0u8; 44];
    for (i, b) in data.iter_mut().enumerate() {
        *b = i as u8;
    }
    let crt0 = Section {
        name: b"crt0".to_vec(),
        offset: 0,
        addr: 0,
        size: 44,
        shtype: 1,
        flags: 4,
        data: data.clone(),
        addralign: 4,
    };
    let out = replace_crt0(&crt0, 0x11223344, 0x55667788);
    assert_eq!(&out[0..4], &data[0..4]);
    assert_eq!(&out[4..8], &0x11223344u32.to_le_bytes());
    assert_eq!(&out[8..12], &0x55667788u32.to_le_bytes());
    assert_eq!(&out[12..], &data[12..]);
}
