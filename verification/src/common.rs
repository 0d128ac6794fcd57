//! Bounds-checked little-endian reads and C-string extraction from a string
//! table, shared by the ELF and BTF readers.

use vstd::prelude::*;

verus! {

/// The error taxonomy of the loader.  Parsers return the first error met;
/// nothing is recovered internally.
#[derive(Debug, Clone, Copy, PartialEq, Eq, Structural)]
pub enum BpfError {
    /// A parser ranged past the input buffer.
    OutOfBounds,
    /// The ELF magic bytes are missing.
    NotAnElf,
    /// The section-name string table index is out of range.
    MissingSectionNames,
    /// The BTF magic number is missing.
    NotBtf,
    /// A declared size is inconsistent with cursor arithmetic.
    FormatMismatch,
    /// A string table holds non-UTF-8 bytes.
    InvalidEncoding,
    /// A BTF kind or CO-RE kind code outside the defined set.
    UnknownKind,
    /// A CO-RE reference whose struct or field is missing from the target BTF.
    UnresolvedCoreRelo,
    /// A recognized but unsupported relocation kind was encountered.
    Unimplemented,
    /// The kernel returned -1; carries the captured `errno`.
    Syscall(i32),
}

/// The value of two bytes read as a little-endian 16-bit integer.
pub open spec fn u16_le_spec(b0: u8, b1: u8) -> u16 {
    (b0 as u16) | ((b1 as u16) << 8)
}

/// The value of four bytes read as a little-endian 32-bit integer.
pub open spec fn u32_le_spec(b0: u8, b1: u8, b2: u8, b3: u8) -> u32 {
    (b0 as u32) | ((b1 as u32) << 8) | ((b2 as u32) << 16) | ((b3 as u32) << 24)
}

/// The value of eight bytes read as a little-endian 64-bit integer.
pub open spec fn u64_le_spec(
    b0: u8,
    b1: u8,
    b2: u8,
    b3: u8,
    b4: u8,
    b5: u8,
    b6: u8,
    b7: u8,
) -> u64 {
    (b0 as u64) | ((b1 as u64) << 8) | ((b2 as u64) << 16) | ((b3 as u64) << 24) | ((b4 as u64)
        << 32) | ((b5 as u64) << 40) | ((b6 as u64) << 48) | ((b7 as u64) << 56)
}

/// The little-endian 16-bit integer at `offset` in `data`, if it fits.
pub open spec fn u16_le_at(data: Seq<u8>, offset: int) -> u16 {
    u16_le_spec(data[offset], data[offset + 1])
}

/// The little-endian 32-bit integer at `offset` in `data`, if it fits.
pub open spec fn u32_le_at(data: Seq<u8>, offset: int) -> u32 {
    u32_le_spec(data[offset], data[offset + 1], data[offset + 2], data[offset + 3])
}

/// The little-endian 64-bit integer at `offset` in `data`, if it fits.
pub open spec fn u64_le_at(data: Seq<u8>, offset: int) -> u64 {
    u64_le_spec(
        data[offset],
        data[offset + 1],
        data[offset + 2],
        data[offset + 3],
        data[offset + 4],
        data[offset + 5],
        data[offset + 6],
        data[offset + 7],
    )
}

/// Reads the little-endian 16-bit integer at `offset`, or fails when the
/// two bytes do not fit in the buffer.
pub fn read_u16_le(data: &[u8], offset: usize) -> (r: Option<u16>)
    ensures
        match r {
            Some(v) => offset + 2 <= data@.len() && v == u16_le_at(data@, offset as int),
            None => offset + 2 > data@.len(),
        },
{
    if data.len() >= 2 && offset <= data.len() - 2 {
        Some((data[offset] as u16) | ((data[offset + 1] as u16) << 8))
    } else {
        None
    }
}

/// Reads the little-endian 32-bit integer at `offset`, or fails when the
/// four bytes do not fit in the buffer.
pub fn read_u32_le(data: &[u8], offset: usize) -> (r: Option<u32>)
    ensures
        match r {
            Some(v) => offset + 4 <= data@.len() && v == u32_le_at(data@, offset as int),
            None => offset + 4 > data@.len(),
        },
{
    if data.len() >= 4 && offset <= data.len() - 4 {
        Some(
            (data[offset] as u32) | ((data[offset + 1] as u32) << 8) | ((data[offset + 2] as u32)
                << 16) | ((data[offset + 3] as u32) << 24),
        )
    } else {
        None
    }
}

/// Reads the little-endian 64-bit integer at `offset`, or fails when the
/// eight bytes do not fit in the buffer.
pub fn read_u64_le(data: &[u8], offset: usize) -> (r: Option<u64>)
    ensures
        match r {
            Some(v) => offset + 8 <= data@.len() && v == u64_le_at(data@, offset as int),
            None => offset + 8 > data@.len(),
        },
{
    if data.len() >= 8 && offset <= data.len() - 8 {
        Some(
            (data[offset] as u64) | ((data[offset + 1] as u64) << 8) | ((data[offset + 2] as u64)
                << 16) | ((data[offset + 3] as u64) << 24) | ((data[offset + 4] as u64) << 32) | ((
            data[offset + 5] as u64) << 40) | ((data[offset + 6] as u64) << 48) | ((data[offset
                + 7] as u64) << 56),
        )
    } else {
        None
    }
}

/// The index of the first NUL byte at or after `offset`, or the table's
/// length when none follows.
pub open spec fn cstr_end(table: Seq<u8>, offset: int) -> int
    decreases table.len() - offset,
{
    if offset < 0 || offset >= table.len() {
        table.len() as int
    } else if table[offset] == 0 {
        offset
    } else {
        cstr_end(table, offset + 1)
    }
}

/// The bytes from `offset` up to (excluding) the first NUL, or up to the end
/// of the table when no NUL follows.
pub open spec fn cstr_at(table: Seq<u8>, offset: int) -> Seq<u8> {
    table.subrange(offset, cstr_end(table, offset))
}

/// `cstr_end` is pinned down by its characterising facts: no NUL before it,
/// and a NUL (or the end of the table) at it.
pub proof fn lemma_cstr_end_is(table: Seq<u8>, offset: int, e: int)
    requires
        0 <= offset <= e <= table.len(),
        forall|j: int| offset <= j < e ==> table[j] != 0,
        e == table.len() || table[e] == 0,
    ensures
        cstr_end(table, offset) == e,
    decreases e - offset,
{
    if offset < e {
        lemma_cstr_end_is(table, offset + 1, e);
    }
}

/// The number of bytes a UTF-8 sequence led by `b` occupies, or 0 when `b`
/// cannot lead a sequence.
pub open spec fn utf8_seq_len(b: u8) -> int {
    if b < 0x80 {
        1
    } else if 0xC2 <= b && b < 0xE0 {
        2
    } else if 0xE0 <= b && b < 0xF0 {
        3
    } else if 0xF0 <= b && b < 0xF5 {
        4
    } else {
        0
    }
}

/// Whether `b` is a UTF-8 continuation byte.
pub open spec fn is_utf8_cont(b: u8) -> bool {
    0x80 <= b && b < 0xC0
}

/// Whether a well-formed UTF-8 sequence starts at index `i` of `s`: a valid
/// lead byte, its continuation bytes in range, and no overlong, surrogate or
/// beyond-maximum encodings.
pub open spec fn valid_utf8_seq_at(s: Seq<u8>, i: int) -> bool {
    let n = utf8_seq_len(s[i]);
    &&& n >= 1
    &&& i + n <= s.len()
    &&& (n >= 2 ==> is_utf8_cont(s[i + 1]))
    &&& (n >= 3 ==> is_utf8_cont(s[i + 2]))
    &&& (n == 4 ==> is_utf8_cont(s[i + 3]))
    &&& (s[i] == 0xE0 ==> s[i + 1] >= 0xA0)
    &&& (s[i] == 0xED ==> s[i + 1] < 0xA0)
    &&& (s[i] == 0xF0 ==> s[i + 1] >= 0x90)
    &&& (s[i] == 0xF4 ==> s[i + 1] < 0x90)
}

/// Whether `s` is valid UTF-8 from index `i` to its end.
pub open spec fn is_valid_utf8_from(s: Seq<u8>, i: int) -> bool
    decreases s.len() - i,
{
    if i < 0 || i >= s.len() {
        true
    } else if valid_utf8_seq_at(s, i) {
        is_valid_utf8_from(s, i + utf8_seq_len(s[i]))
    } else {
        false
    }
}

/// Whether `s` is valid UTF-8.
pub open spec fn is_valid_utf8(s: Seq<u8>) -> bool {
    is_valid_utf8_from(s, 0)
}

/// Decides UTF-8 validity of `s`.
pub fn check_utf8(s: &[u8]) -> (r: bool)
    ensures
        r == is_valid_utf8(s@),
{
    let n = s.len();
    let mut i: usize = 0;
    while i < n
        invariant
            0 <= i <= n,
            n == s@.len(),
            is_valid_utf8(s@) == is_valid_utf8_from(s@, i as int),
        decreases n - i,
    {
        let b = s[i];
        let seq_len: usize = if b < 0x80 {
            1
        } else if 0xC2 <= b && b < 0xE0 {
            2
        } else if 0xE0 <= b && b < 0xF0 {
            3
        } else if 0xF0 <= b && b < 0xF5 {
            4
        } else {
            0
        };
        assert(seq_len == utf8_seq_len(b));
        if seq_len == 0 || n - i < seq_len {
            assert(!valid_utf8_seq_at(s@, i as int));
            return false;
        }
        if seq_len >= 2 {
            let b1 = s[i + 1];
            if !(0x80 <= b1 && b1 < 0xC0) {
                assert(!valid_utf8_seq_at(s@, i as int));
                return false;
            }
            if b == 0xE0 && b1 < 0xA0 {
                assert(!valid_utf8_seq_at(s@, i as int));
                return false;
            }
            if b == 0xED && b1 >= 0xA0 {
                assert(!valid_utf8_seq_at(s@, i as int));
                return false;
            }
            if b == 0xF0 && b1 < 0x90 {
                assert(!valid_utf8_seq_at(s@, i as int));
                return false;
            }
            if b == 0xF4 && b1 >= 0x90 {
                assert(!valid_utf8_seq_at(s@, i as int));
                return false;
            }
        }
        if seq_len >= 3 {
            let b2 = s[i + 2];
            if !(0x80 <= b2 && b2 < 0xC0) {
                assert(!valid_utf8_seq_at(s@, i as int));
                return false;
            }
        }
        if seq_len == 4 {
            let b3 = s[i + 3];
            if !(0x80 <= b3 && b3 < 0xC0) {
                assert(!valid_utf8_seq_at(s@, i as int));
                return false;
            }
        }
        assert(valid_utf8_seq_at(s@, i as int));
        i = i + seq_len;
    }
    true
}

/// The outcome of resolving the NUL-terminated name at `offset` of a string
/// table: the name's bytes, or the exact error.
pub open spec fn name_result(table: Seq<u8>, offset: int) -> Result<Seq<u8>, BpfError> {
    if offset > table.len() {
        Err(BpfError::OutOfBounds)
    } else if !is_valid_utf8(cstr_at(table, offset)) {
        Err(BpfError::InvalidEncoding)
    } else {
        Ok(cstr_at(table, offset))
    }
}

/// Extracts the NUL-terminated name starting at `offset` of a string table.
/// The name ends at the first NUL byte, or at the end of the table when no
/// NUL follows; its bytes must be valid UTF-8.
pub fn get_name_from_string_section(string_encoding: &[u8], offset: usize) -> (r: Result<
    Vec<u8>,
    BpfError,
>)
    ensures
        match r {
            Ok(name) => name_result(string_encoding@, offset as int) == Ok::<Seq<u8>, BpfError>(
                name@,
            ),
            Err(e) => name_result(string_encoding@, offset as int) == Err::<Seq<u8>, BpfError>(e),
        },
{
    let n = string_encoding.len();
    if offset > n {
        return Err(BpfError::OutOfBounds);
    }
    let mut end: usize = offset;
    while end < n && string_encoding[end] != 0
        invariant
            offset <= end <= n,
            n == string_encoding@.len(),
            forall|j: int| offset <= j < end ==> string_encoding@[j] != 0,
        decreases n - end,
    {
        end = end + 1;
    }
    proof {
        lemma_cstr_end_is(string_encoding@, offset as int, end as int);
    }
    let mut name: Vec<u8> = Vec::new();
    let mut j: usize = offset;
    while j < end
        invariant
            offset <= j <= end <= n,
            n == string_encoding@.len(),
            name@ == string_encoding@.subrange(offset as int, j as int),
        decreases end - j,
    {
        name.push(string_encoding[j]);
        j = j + 1;
        proof {
            assert(name@ =~= string_encoding@.subrange(offset as int, j as int));
        }
    }
    if check_utf8(name.as_slice()) {
        Ok(name)
    } else {
        Err(BpfError::InvalidEncoding)
    }
}

/// The decimal value spelled by the digits of `s` from index `i` on, over an
/// accumulator, or nothing when a non-digit byte appears.
pub open spec fn parse_dec_from(s: Seq<u8>, i: int, acc: int) -> Option<int>
    decreases s.len() - i,
{
    if i < 0 || i >= s.len() {
        Some(acc)
    } else if 0x30 <= s[i] && s[i] <= 0x39 {
        parse_dec_from(s, i + 1, acc * 10 + (s[i] - 0x30))
    } else {
        None
    }
}

/// The decimal value the whole byte string spells: one or more digit bytes.
pub open spec fn parse_dec(s: Seq<u8>) -> Option<int> {
    if s.len() == 0 {
        None
    } else {
        parse_dec_from(s, 0, 0)
    }
}

/// Appending digits never shrinks the value.
pub proof fn lemma_parse_dec_from_ge(s: Seq<u8>, i: int, acc: int)
    requires
        acc >= 0,
        parse_dec_from(s, i, acc) is Some,
    ensures
        parse_dec_from(s, i, acc).unwrap() >= acc,
    decreases s.len() - i,
{
    if 0 <= i < s.len() && 0x30 <= s[i] && s[i] <= 0x39 {
        lemma_parse_dec_from_ge(s, i + 1, acc * 10 + (s[i] - 0x30));
    }
}

/// Parses `s` as a decimal number: one or more ASCII digits.  Fails on an
/// empty string, a non-digit byte, or a value that does not fit in `usize`.
pub fn parse_decimal(s: &[u8]) -> (r: Option<usize>)
    ensures
        match r {
            Some(v) => parse_dec(s@) == Some(v as int),
            None => parse_dec(s@) is None || parse_dec(s@).unwrap() > usize::MAX,
        },
{
    let n = s.len();
    if n == 0 {
        return None;
    }
    let mut acc: usize = 0;
    let mut i: usize = 0;
    while i < n
        invariant
            0 <= i <= n,
            n == s@.len(),
            n > 0,
            parse_dec(s@) == parse_dec_from(s@, i as int, acc as int),
        decreases n - i,
    {
        let c = s[i];
        if !(0x30 <= c && c <= 0x39) {
            return None;
        }
        let d = (c - 0x30) as usize;
        let scaled = match acc.checked_mul(10) {
            Some(p) => p.checked_add(d),
            None => None,
        };
        match scaled {
            Some(v) => {
                acc = v;
            },
            None => {
                proof {
                    let big = acc * 10 + d;
                    if parse_dec_from(s@, i as int + 1, big) is Some {
                        lemma_parse_dec_from_ge(s@, i as int + 1, big);
                    }
                }
                return None;
            },
        }
        i = i + 1;
    }
    Some(acc)
}

/// The NUL-terminated prefix of a buffer: what a caller surfaces from the
/// kernel verifier's log after a failed program load.
pub fn nul_terminated_prefix(buf: &[u8]) -> (r: Vec<u8>)
    ensures
        r@ == cstr_at(buf@, 0),
{
    let n = buf.len();
    let mut end: usize = 0;
    while end < n && buf[end] != 0
        invariant
            0 <= end <= n,
            n == buf@.len(),
            forall|j: int| 0 <= j < end ==> buf@[j] != 0,
        decreases n - end,
    {
        end = end + 1;
    }
    proof {
        lemma_cstr_end_is(buf@, 0, end as int);
    }
    let mut r: Vec<u8> = Vec::new();
    let mut j: usize = 0;
    while j < end
        invariant
            0 <= j <= end <= n,
            n == buf@.len(),
            r@ == buf@.subrange(0, j as int),
        decreases end - j,
    {
        r.push(buf[j]);
        j = j + 1;
        proof {
            assert(r@ =~= buf@.subrange(0, j as int));
        }
    }
    r
}

} // verus!
