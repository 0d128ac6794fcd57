use std::collections::HashMap;

use ebpf_loader::btf::{
    BpfCoreRelo, BpfCoreReloKind, Btf, BtfExt, BtfExtHeader, BtfExtInfoSec, BtfHeader, BtfKind,
    BtfMember, BtfType, BtfTypeDetail,
};
use ebpf_loader::common::BpfError;
use ebpf_loader::elf::{core_relocate, extract_struct, relocate, BpfRelocationType, Elf64Rel};

fn rel(r_offset: u64, rel_type: BpfRelocationType, sym_idx: u32) -> Elf64Rel {
    Elf64Rel { r_offset, rel_type, sym_idx }
}

#[test]
fn map_relocation_patches_site() {
    // After rewriting, the instruction's source register field marks a map
    // fd (bit 4 of byte 1 set) and the immediate carries the descriptor.
    let mut data = vec![
        0x18, 0x01, 0, 0, 0x01, 0, 0, 0, // lddw r1, imm 1
        0, 0, 0, 0, 0, 0, 0, 0,
    ];
    let mut map: HashMap<u32, i64> = HashMap::new();
    map.insert(3, 42);
    let rels = vec![rel(0, BpfRelocationType::RBpf64_64, 3)];
    relocate(&mut data, &rels, &map).expect("supported kinds");
    assert_eq!(data[1], 0x11); // dst r1, src register = 1
    assert_eq!(data[1] & 0x10, 0x10);
    assert_eq!(u32::from_le_bytes([data[4], data[5], data[6], data[7]]), 43);
}

#[test]
fn map_relocation_immediate_equals_fd() {
    // With a zero immediate at the site, the rewritten immediate is exactly
    // the map file descriptor.
    let mut data = vec![0x18, 0x01, 0, 0, 0, 0, 0, 0, 0, 0, 0, 0, 0, 0, 0, 0];
    let mut map: HashMap<u32, i64> = HashMap::new();
    map.insert(3, 7);
    let rels = vec![rel(0, BpfRelocationType::RBpf64_64, 3)];
    relocate(&mut data, &rels, &map).expect("supported kinds");
    assert_eq!(data[1] & 0xf0, 0x10); // source register = 1
    assert_eq!(u32::from_le_bytes([data[4], data[5], data[6], data[7]]), 7);
}

#[test]
fn map_relocation_immediate_wraps() {
    let mut data = vec![0, 0, 0, 0, 0xff, 0xff, 0xff, 0xff];
    let mut map: HashMap<u32, i64> = HashMap::new();
    map.insert(0, 2);
    let rels = vec![rel(0, BpfRelocationType::RBpf64_64, 0)];
    relocate(&mut data, &rels, &map).expect("supported kinds");
    assert_eq!(u32::from_le_bytes([data[4], data[5], data[6], data[7]]), 1);
}

#[test]
fn map_relocation_skips_unknown_symbol() {
    let mut data = vec![0x18, 0x01, 0, 0, 0x01, 0, 0, 0];
    let map: HashMap<u32, i64> = HashMap::new();
    let rels = vec![rel(0, BpfRelocationType::RBpf64_64, 5)];
    relocate(&mut data, &rels, &map).expect("supported kinds");
    assert_eq!(data, vec![0x18, 0x01, 0, 0, 0x01, 0, 0, 0]);
}

#[test]
fn map_relocation_none_kind_changes_nothing() {
    let mut data = vec![1, 2, 3, 4, 5, 6, 7, 8];
    let mut map: HashMap<u32, i64> = HashMap::new();
    map.insert(0, 9);
    let rels = vec![rel(0, BpfRelocationType::RBpfNone, 0)];
    relocate(&mut data, &rels, &map).expect("supported kinds");
    assert_eq!(data, vec![1, 2, 3, 4, 5, 6, 7, 8]);
}

#[test]
fn map_relocation_unimplemented_kind_fails_without_rewrite() {
    let mut data = vec![0x18, 0x01, 0, 0, 0x01, 0, 0, 0];
    let mut map: HashMap<u32, i64> = HashMap::new();
    map.insert(0, 9);
    // The supported record stands first, but the pass must fail as a whole
    // and leave the bytecode untouched.
    let rels = vec![
        rel(0, BpfRelocationType::RBpf64_64, 0),
        rel(0, BpfRelocationType::RBpf64Abs32, 0),
    ];
    let r = relocate(&mut data, &rels, &map);
    assert!(matches!(r, Err(BpfError::Unimplemented)));
    assert_eq!(data, vec![0x18, 0x01, 0, 0, 0x01, 0, 0, 0]);
}

fn void_type() -> BtfType {
    BtfType {
        name_off: 0,
        vlen: 0,
        kind: BtfKind::Int,
        kind_flag: false,
        size_or_type: 0,
        detail: BtfTypeDetail::Empty,
    }
}

fn struct_type(name_off: u32, members: Vec<BtfMember>) -> BtfType {
    BtfType {
        name_off,
        vlen: members.len() as u16,
        kind: BtfKind::Struct,
        kind_flag: false,
        size_or_type: 8 * members.len() as u32,
        detail: BtfTypeDetail::Struct(members),
    }
}

fn header_for(strings: &[u8]) -> BtfHeader {
    BtfHeader {
        magic: 0xeb9f,
        version: 1,
        flags: 0,
        hdr_len: 24,
        type_off: 0,
        type_len: 0,
        str_off: 0,
        str_len: strings.len() as u32,
    }
}

/// Program BTF: struct `iphdr` with `check` at bit 64 and `protocol` at bit
/// 72; access string "0:1" names `protocol` by index.
fn prog_btf() -> Btf {
    let strings = b"\0iphdr\0check\0protocol\00:1\0xdp\0".to_vec();
    let types = vec![
        void_type(),
        struct_type(
            1,
            vec![
                BtfMember { name_off: 7, type_id: 0, offset: 64 },
                BtfMember { name_off: 13, type_id: 0, offset: 72 },
            ],
        ),
    ];
    Btf { header: header_for(&strings), string_section: strings, type_section: types }
}

/// Target BTF: struct `iphdr` whose `protocol` sits at bit 80 instead.
fn kernel_btf() -> Btf {
    let strings = b"\0iphdr\0protocol\0".to_vec();
    let types = vec![
        void_type(),
        struct_type(1, vec![BtfMember { name_off: 7, type_id: 0, offset: 80 }]),
    ];
    Btf { header: header_for(&strings), string_section: strings, type_section: types }
}

fn ext_with(relos: Vec<BpfCoreRelo>) -> BtfExt {
    BtfExt {
        header: BtfExtHeader {
            magic: 0xeb9f,
            version: 1,
            flags: 0,
            hdr_len: 32,
            func_info_off: 0,
            func_info_len: 0,
            line_info_off: 0,
            line_info_len: 0,
            core_relo_off: 0,
            core_relo_len: 4 + 8 + 16 * relos.len() as u32,
        },
        core_relo_part: vec![BtfExtInfoSec { sec_name_off: 26, data: relos }],
    }
}

fn field_byte_offset_relo() -> BpfCoreRelo {
    BpfCoreRelo { insn_off: 0, type_id: 1, access_str_off: 22, kind: BpfCoreReloKind::FieldByteOffset }
}

#[test]
fn core_relocation_patches_displacement() {
    // Program sees protocol at bit 72 (byte 9); the running kernel has it at
    // bit 80 (byte 10): the 16-bit displacement at insn_off + 2 is rewritten
    // from 9 to 10.
    let mut data = vec![0x61, 0x12, 0x09, 0x00, 0, 0, 0, 0];
    let ext = ext_with(vec![field_byte_offset_relo()]);
    core_relocate(&mut data, "xdp", &kernel_btf(), &prog_btf(), &ext).expect("pass succeeds");
    assert_eq!(u16::from_le_bytes([data[2], data[3]]), 10);
    assert_eq!(data, vec![0x61, 0x12, 0x0a, 0x00, 0, 0, 0, 0]);
}

#[test]
fn core_relocation_skips_other_sections() {
    let mut data = vec![0x61, 0x12, 0x09, 0x00, 0, 0, 0, 0];
    let ext = ext_with(vec![field_byte_offset_relo()]);
    core_relocate(&mut data, "main", &kernel_btf(), &prog_btf(), &ext).expect("pass succeeds");
    assert_eq!(data, vec![0x61, 0x12, 0x09, 0x00, 0, 0, 0, 0]);
}

#[test]
fn core_relocation_agreeing_offsets_change_nothing() {
    let mut data = vec![0x61, 0x12, 0x09, 0x00, 0, 0, 0, 0];
    // A target whose protocol offset matches the program's.
    let strings = b"\0iphdr\0protocol\0".to_vec();
    let same = Btf {
        header: header_for(&strings),
        string_section: strings,
        type_section: vec![
            void_type(),
            struct_type(1, vec![BtfMember { name_off: 7, type_id: 0, offset: 72 }]),
        ],
    };
    let ext = ext_with(vec![field_byte_offset_relo()]);
    core_relocate(&mut data, "xdp", &same, &prog_btf(), &ext).expect("pass succeeds");
    assert_eq!(data, vec![0x61, 0x12, 0x09, 0x00, 0, 0, 0, 0]);
}

#[test]
fn core_relocation_missing_struct_is_unresolved() {
    let mut data = vec![0x61, 0x12, 0x09, 0x00, 0, 0, 0, 0];
    let strings = b"\0other\0protocol\0".to_vec();
    let vml = Btf {
        header: header_for(&strings),
        string_section: strings,
        type_section: vec![
            void_type(),
            struct_type(1, vec![BtfMember { name_off: 7, type_id: 0, offset: 80 }]),
        ],
    };
    let ext = ext_with(vec![field_byte_offset_relo()]);
    let r = core_relocate(&mut data, "xdp", &vml, &prog_btf(), &ext);
    assert!(matches!(r, Err(BpfError::UnresolvedCoreRelo)));
    assert_eq!(data, vec![0x61, 0x12, 0x09, 0x00, 0, 0, 0, 0]);
}

#[test]
fn core_relocation_missing_field_is_unresolved() {
    let mut data = vec![0x61, 0x12, 0x09, 0x00, 0, 0, 0, 0];
    let strings = b"\0iphdr\0saddr\0".to_vec();
    let vml = Btf {
        header: header_for(&strings),
        string_section: strings,
        type_section: vec![
            void_type(),
            struct_type(1, vec![BtfMember { name_off: 7, type_id: 0, offset: 80 }]),
        ],
    };
    let ext = ext_with(vec![field_byte_offset_relo()]);
    let r = core_relocate(&mut data, "xdp", &vml, &prog_btf(), &ext);
    assert!(matches!(r, Err(BpfError::UnresolvedCoreRelo)));
    assert_eq!(data, vec![0x61, 0x12, 0x09, 0x00, 0, 0, 0, 0]);
}

#[test]
fn core_relocation_other_kind_is_unimplemented() {
    let mut data = vec![0x61, 0x12, 0x09, 0x00, 0, 0, 0, 0];
    let mut relo = field_byte_offset_relo();
    relo.kind = BpfCoreReloKind::FieldExists;
    let ext = ext_with(vec![relo]);
    let r = core_relocate(&mut data, "xdp", &kernel_btf(), &prog_btf(), &ext);
    assert!(matches!(r, Err(BpfError::Unimplemented)));
    assert_eq!(data, vec![0x61, 0x12, 0x09, 0x00, 0, 0, 0, 0]);
}

#[test]
fn extract_struct_lists_struct_types() {
    let btf = prog_btf();
    let entries = extract_struct(&btf).expect("names resolve");
    assert_eq!(entries.len(), 1);
    assert_eq!(entries[0].name, b"iphdr".to_vec());
    assert_eq!(entries[0].type_idx, 1);
}
