use ebpf_loader::common::{
    check_utf8, get_name_from_string_section, nul_terminated_prefix, parse_decimal, read_u16_le,
    read_u32_le, read_u64_le, BpfError,
};
use ebpf_loader::syscalls_wrapper::{
    handle_error, insn_count, BpfAttachType, BpfCmd, BpfMapType, BpfMapUpdateFlag, BpfProgType,
    Flags, PerfEventAttr, PERF_EVENT_ATTR_SIZE,
};

#[test]
fn little_endian_reads() {
    let data = [0x01u8, 0x02, 0x03, 0x04, 0x05, 0x06, 0x07, 0x08];
    assert_eq!(read_u16_le(&data, 0), Some(0x0201));
    assert_eq!(read_u32_le(&data, 0), Some(0x04030201));
    assert_eq!(read_u64_le(&data, 0), Some(0x0807060504030201));
    assert_eq!(read_u32_le(&data, 4), Some(0x08070605));
    assert_eq!(read_u32_le(&data, 5), None);
    assert_eq!(read_u16_le(&data, 7), None);
}

#[test]
fn string_table_names() {
    let table = b"abc\0def";
    assert_eq!(get_name_from_string_section(table, 0).unwrap(), b"abc".to_vec());
    // No NUL after "def": the name runs to the end of the table.
    assert_eq!(get_name_from_string_section(table, 4).unwrap(), b"def".to_vec());
    assert_eq!(get_name_from_string_section(table, 3).unwrap(), b"".to_vec());
    assert_eq!(get_name_from_string_section(table, 7).unwrap(), b"".to_vec());
    assert!(matches!(
        get_name_from_string_section(table, 8),
        Err(BpfError::OutOfBounds)
    ));
    assert!(matches!(
        get_name_from_string_section(&[0xff, 0x00], 0),
        Err(BpfError::InvalidEncoding)
    ));
}

#[test]
fn utf8_validation() {
    assert!(check_utf8(b"plain ascii"));
    assert!(check_utf8(&[0xc3, 0xa9])); // two-byte sequence
    assert!(check_utf8(&[0xe2, 0x82, 0xac])); // three-byte sequence
    assert!(check_utf8(&[0xf0, 0x9f, 0x92, 0xbb])); // four-byte sequence
    assert!(!check_utf8(&[0xc0, 0x80])); // overlong
    assert!(!check_utf8(&[0xed, 0xa0, 0x80])); // surrogate
    assert!(!check_utf8(&[0xf4, 0x90, 0x80, 0x80])); // beyond U+10FFFF
    assert!(!check_utf8(&[0xc3])); // truncated
    assert!(!check_utf8(&[0x80])); // lone continuation
}

#[test]
fn decimal_field_indices() {
    assert_eq!(parse_decimal(b"0"), Some(0));
    assert_eq!(parse_decimal(b"12"), Some(12));
    assert_eq!(parse_decimal(b""), None);
    assert_eq!(parse_decimal(b"1:2"), None);
    assert_eq!(parse_decimal(b"99999999999999999999999999"), None);
}

#[test]
fn verifier_log_prefix() {
    assert_eq!(nul_terminated_prefix(b"bad prog\0junk"), b"bad prog".to_vec());
    assert_eq!(nul_terminated_prefix(b"\0junk"), b"".to_vec());
    assert_eq!(nul_terminated_prefix(b"all"), b"all".to_vec());
}

#[test]
fn syscall_return_decoding() {
    assert_eq!(handle_error(-1, 13), Err(BpfError::Syscall(13)));
    assert_eq!(handle_error(0, 13), Ok(0));
    assert_eq!(handle_error(7, 0), Ok(7));
}

#[test]
fn kernel_codes() {
    assert_eq!(BpfMapType::Array.code(), 2);
    assert_eq!(BpfMapType::Hash.code(), 1);
    assert_eq!(BpfMapType::ProgArray.code(), 3);
    assert_eq!(BpfMapUpdateFlag::Any.code(), 0);
    assert_eq!(BpfMapUpdateFlag::Exist.code(), 2);
    assert_eq!(BpfProgType::Xdp.code(), 6);
    assert_eq!(BpfProgType::SocketFilter.code(), 1);
    assert_eq!(BpfAttachType::Xdp.code(), 37);
    assert_eq!(BpfCmd::MapCreate.code(), 0);
    assert_eq!(BpfCmd::MapUpdateElem.code(), 2);
    assert_eq!(BpfCmd::ProgLoad.code(), 5);
    assert_eq!(BpfCmd::LinkCreate.code(), 28);
}

#[test]
fn instruction_count() {
    assert_eq!(insn_count(0), 0);
    assert_eq!(insn_count(16), 2);
    assert_eq!(insn_count(23), 2);
}

#[test]
fn flag_bits() {
    let mut f = Flags { bits: 0 };
    f.set(0, true);
    f.set(38, true);
    assert!(f.get(0));
    assert!(f.get(38));
    assert!(!f.get(1));
    f.set(0, false);
    assert!(!f.get(0));
    assert!(f.get(38));
    f.set(64, true); // past the word: ignored
    assert_eq!(f.bits, 1u64 << 38);
    assert!(!f.get(64));
}

#[test]
fn perf_event_attr_default() {
    let attr = PerfEventAttr::default();
    assert_eq!(attr.size, PERF_EVENT_ATTR_SIZE);
    assert_eq!(attr.size, 136);
    assert_eq!(attr.config, 0);
    assert_eq!(attr.flags.bits, 0);
    assert_eq!(attr.sig_data, 0);
}
