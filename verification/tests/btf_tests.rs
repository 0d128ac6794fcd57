use ebpf_loader::btf::{BtfKind, BtfMember, BtfTypeDetail, BpfCoreReloKind};
use ebpf_loader::btf_parser::{parse_btf, parse_btf_ext};
use ebpf_loader::common::BpfError;

fn btf_header(type_len: u32, str_off: u32, str_len: u32) -> Vec<u8> {
    let mut v = Vec::new();
    v.extend_from_slice(&0xeb9fu16.to_le_bytes());
    v.push(1); // version
    v.push(0); // flags
    v.extend_from_slice(&24u32.to_le_bytes()); // hdr_len
    v.extend_from_slice(&0u32.to_le_bytes()); // type_off
    v.extend_from_slice(&type_len.to_le_bytes());
    v.extend_from_slice(&str_off.to_le_bytes());
    v.extend_from_slice(&str_len.to_le_bytes());
    assert_eq!(v.len(), 24);
    v
}

fn type_prefix(name_off: u32, kind: u32, vlen: u16, kind_flag: bool, size_or_type: u32) -> Vec<u8> {
    let mut v = Vec::new();
    v.extend_from_slice(&name_off.to_le_bytes());
    let info = (vlen as u32) | (kind << 24) | if kind_flag { 1u32 << 31 } else { 0 };
    v.extend_from_slice(&info.to_le_bytes());
    v.extend_from_slice(&size_or_type.to_le_bytes());
    v
}

fn member(name_off: u32, type_id: u32, offset: u32) -> Vec<u8> {
    let mut v = Vec::new();
    v.extend_from_slice(&name_off.to_le_bytes());
    v.extend_from_slice(&type_id.to_le_bytes());
    v.extend_from_slice(&offset.to_le_bytes());
    v
}

/// A BTF blob with an Int type, a Ptr type, and a two-member struct `pair`.
fn sample_btf() -> Vec<u8> {
    let strings = b"\0int\0pair\0first\0second\0".to_vec();
    let mut types: Vec<u8> = Vec::new();
    types.extend_from_slice(&type_prefix(1, 1, 0, false, 4)); // int
    types.extend_from_slice(&0u32.to_le_bytes()); // int payload
    types.extend_from_slice(&type_prefix(0, 2, 0, false, 1)); // ptr to int
    types.extend_from_slice(&type_prefix(5, 4, 2, false, 8)); // struct pair
    types.extend_from_slice(&member(10, 1, 0)); // first: int at bit 0
    types.extend_from_slice(&member(16, 1, 32)); // second: int at bit 32
    let mut blob = btf_header(types.len() as u32, types.len() as u32, strings.len() as u32);
    blob.extend_from_slice(&types);
    blob.extend_from_slice(&strings);
    blob
}

#[test]
fn parse_btf_types_and_sentinel() {
    let blob = sample_btf();
    let btf = parse_btf(&blob, 0).expect("blob parses");
    // index 0 is the void sentinel; type ids are 1-based
    assert_eq!(btf.type_section.len(), 4);
    assert_eq!(btf.type_section[0].name_off, 0);
    assert_eq!(btf.type_section[0].vlen, 0);
    assert!(matches!(btf.type_section[0].detail, BtfTypeDetail::Empty));
    assert_eq!(btf.type_section[1].kind, BtfKind::Int);
    assert_eq!(btf.type_section[2].kind, BtfKind::Ptr);
    assert_eq!(btf.type_section[2].size_or_type, 1);
    assert_eq!(btf.type_section[3].kind, BtfKind::Struct);
    match &btf.type_section[3].detail {
        BtfTypeDetail::Struct(members) => {
            assert_eq!(members.len(), 2);
            assert_eq!(members[0].name_off, 10);
            assert_eq!(members[0].type_id, 1);
            assert_eq!(members[0].offset, 0);
            assert_eq!(members[1].offset, 32);
        },
        _ => panic!("struct detail expected"),
    }
    assert_eq!(btf.string_section, b"\0int\0pair\0first\0second\0".to_vec());
}

#[test]
fn btf_parse_is_deterministic() {
    let blob = sample_btf();
    let a = parse_btf(&blob, 0).expect("blob parses");
    let b = parse_btf(&blob, 0).expect("blob parses");
    assert_eq!(a.type_section.len(), b.type_section.len());
    for (x, y) in a.type_section.iter().zip(b.type_section.iter()) {
        assert_eq!(x.name_off, y.name_off);
        assert_eq!(x.kind, y.kind);
        assert_eq!(x.vlen, y.vlen);
        assert_eq!(x.kind_flag, y.kind_flag);
        assert_eq!(x.size_or_type, y.size_or_type);
    }
    assert_eq!(a.string_section, b.string_section);
}

#[test]
fn btf_bad_magic_is_not_btf() {
    let mut blob = sample_btf();
    blob[0] = 0xAA;
    assert!(matches!(parse_btf(&blob, 0), Err(BpfError::NotBtf)));
}

#[test]
fn btf_type_len_mismatch_is_format_mismatch() {
    // Cutting one byte off the declared type section length makes the
    // records no longer tile it exactly.
    let strings = b"\0int\0".to_vec();
    let mut types: Vec<u8> = Vec::new();
    types.extend_from_slice(&type_prefix(1, 1, 0, false, 4));
    types.extend_from_slice(&0u32.to_le_bytes());
    let declared = types.len() as u32 - 1;
    let mut blob = btf_header(declared, types.len() as u32, strings.len() as u32);
    blob.extend_from_slice(&types);
    blob.extend_from_slice(&strings);
    assert!(matches!(parse_btf(&blob, 0), Err(BpfError::FormatMismatch)));
}

#[test]
fn btf_dangling_member_reference_is_format_mismatch() {
    // A struct whose member references type id 99 in a two-entry table:
    // the reference leaves the table, so the blob is inconsistent.
    let strings = b"\0pair\0first\0".to_vec();
    let mut types: Vec<u8> = Vec::new();
    types.extend_from_slice(&type_prefix(1, 4, 1, false, 4)); // struct pair
    types.extend_from_slice(&member(6, 99, 0)); // first: dangling type id
    let mut blob = btf_header(types.len() as u32, types.len() as u32, strings.len() as u32);
    blob.extend_from_slice(&types);
    blob.extend_from_slice(&strings);
    assert!(matches!(parse_btf(&blob, 0), Err(BpfError::FormatMismatch)));
}

#[test]
fn btf_dangling_ptr_reference_is_format_mismatch() {
    // A pointer whose referenced type id 7 exceeds the two-entry table.
    let strings = b"\0".to_vec();
    let mut types: Vec<u8> = Vec::new();
    types.extend_from_slice(&type_prefix(0, 2, 0, false, 7)); // ptr to id 7
    let mut blob = btf_header(types.len() as u32, types.len() as u32, strings.len() as u32);
    blob.extend_from_slice(&types);
    blob.extend_from_slice(&strings);
    assert!(matches!(parse_btf(&blob, 0), Err(BpfError::FormatMismatch)));
}

#[test]
fn btf_unknown_kind_code() {
    let strings = b"\0x\0".to_vec();
    let mut types: Vec<u8> = Vec::new();
    types.extend_from_slice(&type_prefix(1, 30, 0, false, 0)); // kind code 30: undefined
    let mut blob = btf_header(types.len() as u32, types.len() as u32, strings.len() as u32);
    blob.extend_from_slice(&types);
    blob.extend_from_slice(&strings);
    assert!(matches!(parse_btf(&blob, 0), Err(BpfError::UnknownKind)));
}

#[test]
fn btf_string_section_out_of_bounds() {
    let blob = btf_header(0, 0, 100);
    assert!(matches!(parse_btf(&blob, 0), Err(BpfError::OutOfBounds)));
}

#[test]
fn member_offset_respects_kind_flag() {
    // With the kind-flag set, the low 24 bits are the bit offset and the
    // high 8 bits the bitfield size.
    let m = BtfMember { name_off: 0, type_id: 1, offset: 0x0500_0048 };
    assert_eq!(m.get_offset(true), 0x48);
    assert_eq!(m.get_bit_size(true), 5);
    assert_eq!(m.get_offset(false), 0x0500_0048);
    assert_eq!(m.get_bit_size(false), 0);
}

#[test]
fn btf_kind_codes_decode() {
    assert_eq!(BtfKind::try_from(1).unwrap(), BtfKind::Int);
    assert_eq!(BtfKind::try_from(4).unwrap(), BtfKind::Struct);
    assert_eq!(BtfKind::try_from(19).unwrap(), BtfKind::Enum64);
    assert!(matches!(BtfKind::try_from(0), Err(BpfError::UnknownKind)));
    assert!(matches!(BtfKind::try_from(20), Err(BpfError::UnknownKind)));
}

fn btf_ext_header(core_relo_off: u32, core_relo_len: u32, hdr_len: u32) -> Vec<u8> {
    let mut v = Vec::new();
    v.extend_from_slice(&0xeb9fu16.to_le_bytes());
    v.push(1);
    v.push(0);
    v.extend_from_slice(&hdr_len.to_le_bytes());
    v.extend_from_slice(&0u32.to_le_bytes()); // func_info_off
    v.extend_from_slice(&0u32.to_le_bytes()); // func_info_len
    v.extend_from_slice(&0u32.to_le_bytes()); // line_info_off
    v.extend_from_slice(&0u32.to_le_bytes()); // line_info_len
    v.extend_from_slice(&core_relo_off.to_le_bytes());
    v.extend_from_slice(&core_relo_len.to_le_bytes());
    assert_eq!(v.len(), 32);
    v
}

fn core_relo(insn_off: u32, type_id: u32, access_str_off: u32, kind: u32) -> Vec<u8> {
    let mut v = Vec::new();
    v.extend_from_slice(&insn_off.to_le_bytes());
    v.extend_from_slice(&type_id.to_le_bytes());
    v.extend_from_slice(&access_str_off.to_le_bytes());
    v.extend_from_slice(&kind.to_le_bytes());
    v
}

fn sample_btf_ext(rec_size: u32) -> Vec<u8> {
    let mut region: Vec<u8> = Vec::new();
    region.extend_from_slice(&rec_size.to_le_bytes());
    region.extend_from_slice(&30u32.to_le_bytes()); // section name offset
    region.extend_from_slice(&1u32.to_le_bytes()); // one record
    region.extend_from_slice(&core_relo(8, 3, 40, 0));
    let mut blob = btf_ext_header(0, region.len() as u32, 32);
    blob.extend_from_slice(&region);
    blob
}

#[test]
fn parse_btf_ext_core_relos() {
    let blob = sample_btf_ext(16);
    let ext = parse_btf_ext(&blob, 0).expect("blob parses");
    assert_eq!(ext.core_relo_part.len(), 1);
    assert_eq!(ext.core_relo_part[0].sec_name_off, 30);
    let relos = &ext.core_relo_part[0].data;
    assert_eq!(relos.len(), 1);
    assert_eq!(relos[0].insn_off, 8);
    assert_eq!(relos[0].type_id, 3);
    assert_eq!(relos[0].access_str_off, 40);
    assert!(matches!(relos[0].kind, BpfCoreReloKind::FieldByteOffset));
}

#[test]
fn btf_ext_wrong_record_size_is_format_mismatch() {
    // A CO-RE record size other than 16 must fail before any rewrite.
    let blob = sample_btf_ext(8);
    assert!(matches!(parse_btf_ext(&blob, 0), Err(BpfError::FormatMismatch)));
}

#[test]
fn btf_ext_wrong_header_len_is_format_mismatch() {
    let mut region: Vec<u8> = Vec::new();
    region.extend_from_slice(&16u32.to_le_bytes());
    let mut blob = btf_ext_header(0, region.len() as u32, 24);
    blob.extend_from_slice(&region);
    assert!(matches!(parse_btf_ext(&blob, 0), Err(BpfError::FormatMismatch)));
}

#[test]
fn btf_ext_bad_magic_is_not_btf() {
    let mut blob = sample_btf_ext(16);
    blob[1] = 0;
    assert!(matches!(parse_btf_ext(&blob, 0), Err(BpfError::NotBtf)));
}

#[test]
fn btf_ext_info_region_out_of_bounds() {
    // Func-info and line-info bodies are ignored, but a declared range that
    // leaves the buffer is rejected.
    let mut region: Vec<u8> = Vec::new();
    region.extend_from_slice(&16u32.to_le_bytes());
    let region_len = region.len() as u32;

    let mut with_bad_func = Vec::new();
    with_bad_func.extend_from_slice(&0xeb9fu16.to_le_bytes());
    with_bad_func.push(1);
    with_bad_func.push(0);
    with_bad_func.extend_from_slice(&32u32.to_le_bytes()); // hdr_len
    with_bad_func.extend_from_slice(&0u32.to_le_bytes()); // func_info_off
    with_bad_func.extend_from_slice(&4096u32.to_le_bytes()); // func_info_len: past end
    with_bad_func.extend_from_slice(&0u32.to_le_bytes()); // line_info_off
    with_bad_func.extend_from_slice(&0u32.to_le_bytes()); // line_info_len
    with_bad_func.extend_from_slice(&0u32.to_le_bytes()); // core_relo_off
    with_bad_func.extend_from_slice(&region_len.to_le_bytes());
    with_bad_func.extend_from_slice(&region);
    assert!(matches!(parse_btf_ext(&with_bad_func, 0), Err(BpfError::OutOfBounds)));

    let mut with_bad_line = Vec::new();
    with_bad_line.extend_from_slice(&0xeb9fu16.to_le_bytes());
    with_bad_line.push(1);
    with_bad_line.push(0);
    with_bad_line.extend_from_slice(&32u32.to_le_bytes());
    with_bad_line.extend_from_slice(&0u32.to_le_bytes());
    with_bad_line.extend_from_slice(&0u32.to_le_bytes());
    with_bad_line.extend_from_slice(&0u32.to_le_bytes()); // line_info_off
    with_bad_line.extend_from_slice(&4096u32.to_le_bytes()); // line_info_len: past end
    with_bad_line.extend_from_slice(&0u32.to_le_bytes());
    with_bad_line.extend_from_slice(&region_len.to_le_bytes());
    with_bad_line.extend_from_slice(&region);
    assert!(matches!(parse_btf_ext(&with_bad_line, 0), Err(BpfError::OutOfBounds)));
}

#[test]
fn btf_ext_unknown_relo_kind() {
    let mut region: Vec<u8> = Vec::new();
    region.extend_from_slice(&16u32.to_le_bytes());
    region.extend_from_slice(&30u32.to_le_bytes());
    region.extend_from_slice(&1u32.to_le_bytes());
    region.extend_from_slice(&core_relo(8, 3, 40, 13)); // kind 13: undefined
    let mut blob = btf_ext_header(0, region.len() as u32, 32);
    blob.extend_from_slice(&region);
    assert!(matches!(parse_btf_ext(&blob, 0), Err(BpfError::UnknownKind)));
}
