use elf2tab::classify::{compute_minimum_ram_size, minimum_ram_base};
use elf2tab::elf_to_tbf;
use elf2tab::header::parse_header;
use elf2tab::patch::{patch_crt_header, scan_vtable_symbols};
use elf2tab::size::compute_padding;
use elf2tab::sort::sort_sections_by_offset;
use elf2tab::types::{ElfInput, Section, Segment, Symbol, TbfError};

fn sec(name: &str, offset: u64, addr: u64, shtype: u32, flags: u64, data: Vec<u8>) -> Section {
    Section {
        name: name.as_bytes().to_vec(),
        offset,
        addr,
        size: data.len() as u64,
        shtype,
        flags,
        data,
        addralign: 4,
    }
}

fn le32(bytes: &[u8], i: usize) -> u32 {
    bytes[i] as u32
        | (bytes[i + 1] as u32) << 8
        | (bytes[i + 2] as u32) << 16
        | (bytes[i + 3] as u32) << 24
}

fn crt_record(data_start: u32) -> Vec<u8> {
    let mut v = vec![0u8; 40];
    v[16..20].copy_from_slice(&data_start.to_le_bytes());
    v
}

fn convert(input: &ElfInput, name: &str) -> elf2tab::TbfOutput {
    elf_to_tbf(input, &name.as_bytes().to_vec(), 2048, 1024, 512).unwrap()
}

#[test]
fn total_size_power_of_two_with_floor() {
    // Unpadded size 20 + 37 + 4 = 61: rounded up to the 512-byte floor.
    let input = ElfInput {
        sections: vec![sec(".text", 0x100, 0x8000_0000, 1, 4, vec![0xaa; 37])],
        segments: vec![],
        entry: 0,
        symbols: vec![],
    };
    let out = convert(&input, "");
    let total = out.total_size as u64;
    assert!(total >= 512);
    assert_eq!(total & (total - 1), 0);
    assert_eq!(out.bytes.len() as u64, total);
    assert_eq!(le32(&out.bytes, 0) as u64, total);
    // Unpadded size 20 + 488 + 4 = 512 already: kept, no padding.
    let input = ElfInput {
        sections: vec![sec(".text", 0x100, 0x8000_0000, 1, 4, vec![0xaa; 488])],
        segments: vec![],
        entry: 0,
        symbols: vec![],
    };
    let out = convert(&input, "");
    assert_eq!(out.total_size, 512);
    assert_eq!(out.pad, 0);
}

#[test]
fn small_power_of_two_total_is_kept_unpadded() {
    // Unpadded size 23 + 37 + 4 = 64 is already an exact power of two, so
    // the normalizer keeps it, even below the 512-byte floor.
    let input = ElfInput {
        sections: vec![sec(".text", 0x100, 0x8000_0000, 1, 4, vec![0xaa; 37])],
        segments: vec![],
        entry: 0,
        symbols: vec![],
    };
    let out = convert(&input, "app");
    assert_eq!(out.total_size, 64);
    assert_eq!(out.pad, 0);
    assert_eq!(out.bytes.len(), 64);
}

#[test]
fn sections_in_ascending_offset_order() {
    // Declared out of order: the section at the lower file offset comes
    // first in the body regardless of declaration order.
    let later = sec(".b", 0x200, 0x20, 1, 4, vec![2u8; 8]);
    let earlier = sec(".a", 0x100, 0x10, 1, 4, vec![1u8; 8]);
    let input = ElfInput {
        sections: vec![later, earlier],
        segments: vec![],
        entry: 0,
        symbols: vec![],
    };
    let out = convert(&input, "");
    let hlen = 20; // no regions, empty name
    assert_eq!(&out.bytes[hlen..hlen + 8], &[1u8; 8]);
    assert_eq!(&out.bytes[hlen + 8..hlen + 16], &[2u8; 8]);
}

#[test]
fn sort_is_stable_on_equal_offsets() {
    let a = sec(".a", 0x100, 0, 1, 4, vec![1]);
    let b = sec(".b", 0x100, 0, 1, 4, vec![2]);
    let c = sec(".c", 0x50, 0, 1, 4, vec![3]);
    let order = sort_sections_by_offset(&vec![a, b, c]);
    assert_eq!(order, vec![2, 0, 1]);
}

#[test]
fn init_fn_offset_from_entry_section() {
    let a = sec(".text", 0x100, 0x8000_0100, 1, 4, vec![0u8; 8]);
    let b = sec(".more", 0x200, 0x8000_0200, 1, 4, vec![0u8; 12]);
    let input = ElfInput {
        sections: vec![a, b],
        segments: vec![],
        entry: 0x8000_0204,
        symbols: vec![],
    };
    let out = convert(&input, "");
    // entry - section vaddr = 4; the section sits 8 bytes past the
    // protected region.
    assert_eq!(out.init_fn_offset, 4 + 8);
    assert_eq!(le32(&out.bytes, 4), 4 + 8);
}

#[test]
fn writeable_flash_region_table_matches_sections() {
    let w1 = sec(".wfr.one", 0x100, 0, 1, 1, vec![9u8; 16]);
    let t = sec(".text", 0x200, 0, 1, 4, vec![0u8; 8]);
    let w2 = sec(".wfr.two", 0x300, 0, 1, 1, vec![7u8; 4]);
    let input = ElfInput {
        sections: vec![w1, t, w2],
        segments: vec![],
        entry: 0,
        symbols: vec![],
    };
    let out = convert(&input, "");
    let parsed = parse_header(&out.bytes).unwrap();
    assert_eq!(parsed.regions.len(), 2);
    let hlen = 20 + 8 * 2;
    assert_eq!(parsed.regions[0].offset as usize, hlen);
    assert_eq!(parsed.regions[0].size, 16);
    assert_eq!(parsed.regions[1].offset as usize, hlen + 16 + 8);
    assert_eq!(parsed.regions[1].size, 4);
}

#[test]
fn empty_region_table_still_serializes() {
    let input = ElfInput {
        sections: vec![sec(".text", 0x100, 0, 1, 4, vec![0u8; 4])],
        segments: vec![],
        entry: 0,
        symbols: vec![],
    };
    let out = convert(&input, "pkg");
    let parsed = parse_header(&out.bytes).unwrap();
    assert_eq!(parsed.regions.len(), 0);
    assert_eq!(parsed.package_name, b"pkg".to_vec());
}

#[test]
fn relocation_length_prefix_is_exact() {
    // Flags exactly write+alloc make .data a relocation candidate; its
    // ".rel" companion's bytes follow the body behind their length.
    let data = sec(".data", 0x100, 0, 1, 3, vec![5u8; 8]);
    let rel = sec(".rel.data", 0x200, 0, 9, 0, vec![0xabu8; 12]);
    let input = ElfInput {
        sections: vec![data, rel],
        segments: vec![],
        entry: 0,
        symbols: vec![],
    };
    let out = convert(&input, "");
    let hlen = 20;
    let body_len = 8;
    let at = hlen + body_len;
    assert_eq!(le32(&out.bytes, at), 12);
    assert_eq!(&out.bytes[at + 4..at + 16], &[0xabu8; 12]);
}

#[test]
fn absent_relocation_companion_contributes_nothing() {
    let data = sec(".data", 0x100, 0, 1, 3, vec![5u8; 8]);
    let input = ElfInput {
        sections: vec![data],
        segments: vec![],
        entry: 0,
        symbols: vec![],
    };
    let out = convert(&input, "");
    assert_eq!(le32(&out.bytes, 20 + 8), 0);
}

#[test]
fn minimum_ram_from_segment_and_requests() {
    let segments = vec![Segment { progtype: 1, flags: 6, memsz: 1024 }];
    let ram = compute_minimum_ram_size(&segments, 2048, 1024, 512);
    assert_eq!(ram, 1024 + 2048 + 1024 + 512);
}

#[test]
fn minimum_ram_first_matching_segment_wins() {
    let segments = vec![
        Segment { progtype: 1, flags: 5, memsz: 9999 },
        Segment { progtype: 1, flags: 6, memsz: 111 },
        Segment { progtype: 1, flags: 6, memsz: 222 },
    ];
    assert_eq!(minimum_ram_base(&segments), 111);
}

#[test]
fn minimum_ram_rounds_up_unaligned_requests() {
    let segments = vec![];
    // stack to 8 bytes, heaps to 4 bytes
    assert_eq!(compute_minimum_ram_size(&segments, 9, 5, 3), 16 + 8 + 4);
}

#[test]
fn crt_record_is_patched_with_vtable_placement() {
    let crt = sec("crt0.init", 0x100, 0x40, 1, 4, crt_record(100));
    let input = ElfInput {
        sections: vec![crt],
        segments: vec![],
        entry: 0,
        symbols: vec![
            Symbol { name: b"x.unnamed.1".to_vec(), value: 180, size: 25 },
            Symbol { name: b"plain".to_vec(), value: 9, size: 9 },
            Symbol { name: b"y.unnamed.2".to_vec(), value: 300, size: 15 },
        ],
    };
    let out = convert(&input, "");
    let hlen = 20;
    // bss_start = 180 - 100 = 80, bss_size = 25 + 15 = 40
    assert_eq!(le32(&out.bytes, hlen + 24), 80);
    assert_eq!(le32(&out.bytes, hlen + 28), 40);
    // data_start itself passes through unchanged
    assert_eq!(le32(&out.bytes, hlen + 16), 100);
}

#[test]
fn scan_vtable_symbols_first_match_and_total() {
    let symbols = vec![
        Symbol { name: b"other".to_vec(), value: 7, size: 3 },
        Symbol { name: b"a.unnamed".to_vec(), value: 50, size: 10 },
        Symbol { name: b"b.unnamed".to_vec(), value: 20, size: 6 },
    ];
    assert_eq!(scan_vtable_symbols(&symbols), (50, 16));
    assert_eq!(scan_vtable_symbols(&vec![]), (0, 0));
}

#[test]
fn malformed_crt_section_is_rejected() {
    let crt = sec("crt0", 0x100, 0, 1, 4, vec![0u8; 39]);
    let input = ElfInput {
        sections: vec![crt],
        segments: vec![],
        entry: 0,
        symbols: vec![],
    };
    let r = elf_to_tbf(&input, &Vec::new(), 0, 0, 0);
    assert_eq!(r.err().unwrap(), TbfError::CrtRecordSizeMismatch);
}

#[test]
fn patch_crt_header_rejects_wrong_length() {
    assert_eq!(
        patch_crt_header(&vec![0u8; 41], 0, 0).err().unwrap(),
        TbfError::CrtRecordSizeMismatch
    );
    let patched = patch_crt_header(&crt_record(100), 180, 40).unwrap();
    assert_eq!(le32(&patched, 24), 80);
    assert_eq!(le32(&patched, 28), 40);
}

#[test]
fn header_round_trip_preserves_finalized_fields() {
    let w = sec(".wfr", 0x80, 0, 1, 1, vec![1u8; 8]);
    let t = sec(".text", 0x100, 0x20, 1, 4, vec![2u8; 24]);
    let input = ElfInput {
        sections: vec![w, t],
        segments: vec![Segment { progtype: 1, flags: 6, memsz: 64 }],
        entry: 0x28,
        symbols: vec![],
    };
    let out = convert(&input, "roundtrip");
    let parsed = parse_header(&out.bytes).unwrap();
    assert_eq!(parsed.total_size, out.total_size);
    assert_eq!(parsed.init_fn_offset, out.init_fn_offset);
    assert_eq!(parsed.minimum_ram_size, 64 + 2048 + 1024 + 512);
    assert_eq!(parsed.regions.len(), 1);
    assert_eq!(parsed.regions[0].offset as usize, 20 + 8 + 9);
    assert_eq!(parsed.regions[0].size, 8);
    assert_eq!(parsed.package_name, b"roundtrip".to_vec());
}

#[test]
fn parse_header_rejects_truncated_bytes() {
    assert!(parse_header(&vec![0u8; 19]).is_none());
}

#[test]
fn padding_rounds_up_to_power_of_two() {
    assert_eq!(compute_padding(600), (1024, 424));
    assert_eq!(compute_padding(100), (512, 412));
    assert_eq!(compute_padding(512), (512, 0));
    assert_eq!(compute_padding(1024), (1024, 0));
    // an exact power of two below the floor is kept as it is
    assert_eq!(compute_padding(256), (256, 0));
    assert_eq!(compute_padding(0), (0, 0));
}

#[test]
fn misaligned_placement_is_advised_not_fatal() {
    let odd = sec(".a", 0x100, 0, 1, 4, vec![1u8; 3]);
    let next = sec(".b", 0x200, 0, 1, 4, vec![2u8; 5]);
    let input = ElfInput {
        sections: vec![odd, next],
        segments: vec![],
        entry: 0,
        symbols: vec![],
    };
    let out = convert(&input, "");
    // header is 20 bytes (aligned); ".b" lands at 23.
    assert_eq!(out.section_advisories, vec![23]);
    assert_eq!(&out.bytes[20..23], &[1u8; 3]);
    assert_eq!(&out.bytes[23..28], &[2u8; 5]);
}

#[test]
fn empty_input_yields_padded_header_only_image() {
    let input = ElfInput { sections: vec![], segments: vec![], entry: 0, symbols: vec![] };
    let out = convert(&input, "");
    // header (20 bytes) + empty body + zero relocation length = 24, padded
    // up to the 512-byte floor.
    assert_eq!(out.total_size, 512);
    assert_eq!(out.bytes.len(), 512);
    assert_eq!(le32(&out.bytes, 20), 0);
    assert!(out.bytes[24..].iter().all(|b| *b == 0));
    assert_eq!(out.init_fn_offset, 0);
}

#[test]
fn misaligned_relocation_data_is_advised() {
    let data = sec(".data", 0x100, 0, 1, 3, vec![5u8; 3]);
    let rel = sec(".rel.data", 0x200, 0, 9, 0, vec![0xcdu8; 4]);
    let input = ElfInput {
        sections: vec![data, rel],
        segments: vec![],
        entry: 0,
        symbols: vec![],
    };
    let out = convert(&input, "");
    // the relocation block lands at 20 + 3 = 23, which is not 4-byte aligned
    assert_eq!(out.relocation_advisories, vec![23]);
}
