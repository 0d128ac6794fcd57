use ebpf_loader::common::BpfError;
use ebpf_loader::elf::{serialize_section_header, read_shdr, BpfRelocationType};
use ebpf_loader::elf_parser::parse_elf;

fn ehdr_bytes(shoff: u64, shnum: u16, shstrndx: u16) -> Vec<u8> {
    let mut v = vec![0x7f, b'E', b'L', b'F', 2, 1, 1, 0, 0, 0, 0, 0, 0, 0, 0, 0];
    v.extend_from_slice(&1u16.to_le_bytes()); // e_type: relocatable
    v.extend_from_slice(&247u16.to_le_bytes()); // e_machine: BPF
    v.extend_from_slice(&1u32.to_le_bytes()); // e_version
    v.extend_from_slice(&0u64.to_le_bytes()); // e_entry
    v.extend_from_slice(&0u64.to_le_bytes()); // e_phoff
    v.extend_from_slice(&shoff.to_le_bytes()); // e_shoff
    v.extend_from_slice(&0u32.to_le_bytes()); // e_flags
    v.extend_from_slice(&64u16.to_le_bytes()); // e_ehsize
    v.extend_from_slice(&0u16.to_le_bytes()); // e_phentsize
    v.extend_from_slice(&0u16.to_le_bytes()); // e_phnum
    v.extend_from_slice(&64u16.to_le_bytes()); // e_shentsize
    v.extend_from_slice(&shnum.to_le_bytes());
    v.extend_from_slice(&shstrndx.to_le_bytes());
    assert_eq!(v.len(), 64);
    v
}

fn shdr_raw(name_off: u32, sh_type: u32, offset: u64, size: u64) -> Vec<u8> {
    let mut v = Vec::new();
    v.extend_from_slice(&name_off.to_le_bytes());
    v.extend_from_slice(&sh_type.to_le_bytes());
    v.extend_from_slice(&0u64.to_le_bytes()); // sh_flags
    v.extend_from_slice(&0u64.to_le_bytes()); // sh_addr
    v.extend_from_slice(&offset.to_le_bytes());
    v.extend_from_slice(&size.to_le_bytes());
    v.extend_from_slice(&0u32.to_le_bytes()); // sh_link
    v.extend_from_slice(&0u32.to_le_bytes()); // sh_info
    v.extend_from_slice(&0u64.to_le_bytes()); // sh_addralign
    v.extend_from_slice(&0u64.to_le_bytes()); // sh_entsize
    assert_eq!(v.len(), 64);
    v
}

/// Builds a relocatable object: the null section, `.shstrtab`, then one
/// section per (name, body) pair, bodies laid out after the header table.
fn build_object(sections: &[(&str, Vec<u8>)]) -> Vec<u8> {
    let mut strtab: Vec<u8> = vec![0];
    let mut name_offs: Vec<u32> = Vec::new();
    let shstrtab_name_off = strtab.len() as u32;
    strtab.extend_from_slice(b".shstrtab\0");
    for (name, _) in sections {
        name_offs.push(strtab.len() as u32);
        strtab.extend_from_slice(name.as_bytes());
        strtab.push(0);
    }
    let shnum = 2 + sections.len() as u16;
    let shoff = 64u64;
    let bodies_start = 64 + 64 * (shnum as u64);
    let mut bodies: Vec<u8> = Vec::new();
    let mut headers: Vec<u8> = Vec::new();
    headers.extend_from_slice(&shdr_raw(0, 0, 0, 0)); // null section
    let strtab_off = bodies_start + bodies.len() as u64;
    headers.extend_from_slice(&shdr_raw(shstrtab_name_off, 3, strtab_off, strtab.len() as u64));
    bodies.extend_from_slice(&strtab);
    for (i, (_, body)) in sections.iter().enumerate() {
        let off = bodies_start + bodies.len() as u64;
        headers.extend_from_slice(&shdr_raw(name_offs[i], 1, off, body.len() as u64));
        bodies.extend_from_slice(body);
    }
    let mut obj = ehdr_bytes(shoff, shnum, 1);
    obj.extend_from_slice(&headers);
    obj.extend_from_slice(&bodies);
    obj
}

#[test]
fn parse_minimal_object() {
    let obj = build_object(&[("xdp", vec![0xb7, 0, 0, 0, 1, 0, 0, 0])]);
    let elf = parse_elf(obj).expect("object parses");
    assert_eq!(elf.ehdr.e_shentsize, 64);
    assert_eq!(elf.ehdr.e_shnum, 3);
    let body = elf.get_section_body("xdp").expect("xdp section present");
    assert_eq!(body, vec![0xb7, 0, 0, 0, 1, 0, 0, 0]);
    assert!(elf.get_section_body("maps").is_none());
}

#[test]
fn xdp_drop_object_sections() {
    // A 704-byte object whose xdp section holds a two-instruction program
    // returning XDP_DROP, with a GPL license section.
    let prog = vec![
        0xb7, 0, 0, 0, 1, 0, 0, 0, // mov64 r0, 1 (XDP_DROP)
        0x95, 0, 0, 0, 0, 0, 0, 0, // exit
    ];
    let mut obj = build_object(&[("xdp", prog.clone()), ("license", b"GPL\0".to_vec())]);
    assert!(obj.len() <= 704);
    obj.resize(704, 0);
    assert_eq!(obj.len(), 704);
    let elf = parse_elf(obj).expect("object parses");
    assert_eq!(elf.get_section_body("xdp").unwrap(), prog);
    assert_eq!(elf.get_section_body("license").unwrap(), b"GPL\0".to_vec());
    assert!(elf.parse_relocation_section(".relxdp").is_none());
}

#[test]
fn malformed_magic_is_not_an_elf() {
    // Bytes beginning \x7FEL? must fail with NotAnElf.
    let mut obj = build_object(&[("xdp", vec![0x95, 0, 0, 0, 0, 0, 0, 0])]);
    obj[3] = b'?';
    assert!(matches!(parse_elf(obj), Err(BpfError::NotAnElf)));
}

#[test]
fn short_input_is_out_of_bounds() {
    assert!(matches!(parse_elf(vec![0x7f, b'E', b'L', b'F']), Err(BpfError::OutOfBounds)));
}

#[test]
fn wrong_class_is_format_mismatch() {
    let mut obj = build_object(&[]);
    obj[4] = 1; // 32-bit class
    assert!(matches!(parse_elf(obj), Err(BpfError::FormatMismatch)));
}

#[test]
fn wrong_endianness_is_format_mismatch() {
    let mut obj = build_object(&[]);
    obj[5] = 2; // big-endian
    assert!(matches!(parse_elf(obj), Err(BpfError::FormatMismatch)));
}

#[test]
fn wrong_shentsize_is_format_mismatch() {
    let mut obj = build_object(&[]);
    obj[58] = 32; // e_shentsize low byte
    assert!(matches!(parse_elf(obj), Err(BpfError::FormatMismatch)));
}

#[test]
fn bad_shstrndx_is_missing_section_names() {
    let mut obj = build_object(&[]);
    obj[62] = 9; // e_shstrndx past e_shnum
    assert!(matches!(parse_elf(obj), Err(BpfError::MissingSectionNames)));
}

#[test]
fn section_past_end_is_out_of_bounds() {
    // Grow a section's declared size past the end of the object: the
    // name-to-header map may not hold a section that leaves the buffer.
    let mut obj = build_object(&[("xdp", vec![0u8; 8])]);
    let size_field = 64 + 64 * 2 + 32; // sh_size of the xdp header
    obj[size_field] = 0xff;
    assert!(matches!(parse_elf(obj), Err(BpfError::OutOfBounds)));
}

#[test]
fn duplicate_names_retain_first() {
    let obj = build_object(&[("dup", vec![1, 2, 3]), ("dup", vec![4, 5, 6])]);
    let elf = parse_elf(obj).expect("object parses");
    assert_eq!(elf.get_section_body("dup").unwrap(), vec![1, 2, 3]);
}

#[test]
fn parse_outputs_are_deterministic() {
    let obj = build_object(&[("xdp", vec![0x95, 0, 0, 0, 0, 0, 0, 0])]);
    let a = parse_elf(obj.clone()).expect("object parses");
    let b = parse_elf(obj).expect("object parses");
    assert_eq!(a.shdrs.len(), b.shdrs.len());
    for (x, y) in a.shdrs.iter().zip(b.shdrs.iter()) {
        assert_eq!(x.name, y.name);
        assert_eq!(x.shdr, y.shdr);
    }
    assert_eq!(a.data, b.data);
    assert_eq!(a.section_name_table, b.section_name_table);
}

#[test]
fn section_header_round_trip() {
    // Re-serializing every parsed section header yields the input bytes of
    // its 64-byte slot in the header table.
    let obj = build_object(&[("xdp", vec![0x95, 0, 0, 0, 0, 0, 0, 0]), ("license", b"GPL\0".to_vec())]);
    let shoff = 64usize;
    for i in 0..4usize {
        let off = shoff + i * 64;
        let sh = read_shdr(&obj, off).expect("header in bounds");
        let back = serialize_section_header(&sh);
        assert_eq!(&obj[off..off + 64], back.as_slice());
    }
}

#[test]
fn map_gated_object_relocates() {
    // An object with xdp, .relxdp and maps sections: decode the relocation
    // records, create a descriptor for the map symbol, and rewrite the
    // bytecode so the load instruction carries the descriptor.
    let prog = vec![
        0x18, 0x01, 0, 0, 0, 0, 0, 0, // lddw r1, <map>
        0, 0, 0, 0, 0, 0, 0, 0,
        0x95, 0, 0, 0, 0, 0, 0, 0, // exit
    ];
    let mut rel: Vec<u8> = Vec::new();
    rel.extend_from_slice(&0u64.to_le_bytes());
    rel.extend_from_slice(&1u32.to_le_bytes());
    rel.extend_from_slice(&3u32.to_le_bytes());
    let maps = vec![0u8; 16];
    let obj = build_object(&[("xdp", prog), (".relxdp", rel), ("maps", maps)]);
    let elf = ebpf_loader::elf_parser::parse_elf(obj).expect("object parses");
    let mut bytecode = elf.get_section_body("xdp").expect("xdp section");
    let rels = elf.parse_relocation_section(".relxdp").expect("records decode");
    let map_fd: i64 = 5;
    let rel_map: std::collections::HashMap<u32, i64> =
        vec![(3u32, map_fd)].into_iter().collect();
    ebpf_loader::elf::relocate(&mut bytecode, &rels, &rel_map).expect("supported kinds");
    assert_eq!(bytecode[1], 0x11); // dst r1, source register = 1
    assert_eq!(
        u32::from_le_bytes([bytecode[4], bytecode[5], bytecode[6], bytecode[7]]),
        map_fd as u32
    );
}

#[test]
fn relocation_section_decodes_records() {
    let mut rel: Vec<u8> = Vec::new();
    rel.extend_from_slice(&16u64.to_le_bytes()); // r_offset
    rel.extend_from_slice(&1u32.to_le_bytes()); // kind: R_BPF_64_64
    rel.extend_from_slice(&3u32.to_le_bytes()); // symbol index
    rel.extend_from_slice(&8u64.to_le_bytes()); // r_offset
    rel.extend_from_slice(&7u32.to_le_bytes()); // unknown kind: dropped
    rel.extend_from_slice(&9u32.to_le_bytes());
    let obj = build_object(&[(".relxdp", rel)]);
    let elf = parse_elf(obj).expect("object parses");
    let rels = elf.parse_relocation_section(".relxdp").expect("records decode");
    assert_eq!(rels.len(), 1);
    assert_eq!(rels[0].r_offset, 16);
    assert!(matches!(rels[0].rel_type, BpfRelocationType::RBpf64_64));
    assert_eq!(rels[0].sym_idx, 3);
}
