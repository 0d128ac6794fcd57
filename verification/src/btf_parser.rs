//! Parsers for `.BTF` and `.BTF.ext` blobs.  Each parser either returns a
//! fully validated structure or the first error encountered, and its result
//! equals a mathematical parse of the input bytes.

use vstd::prelude::*;

use crate::btf::{
    btf_kind_of, core_relo_kind_of, void_type_v, BpfCoreRelo, Btf, BtfExt, BtfExtHeader,
    BtfExtInfoSec, BtfExtInfoSecV, BtfExtV, BtfHeader, BtfKind, BtfMember, BtfType, BtfTypeDetail,
    BtfTypeDetailV, BtfTypeV, BtfV,
};
use crate::common::{read_u32_le, u16_le_at, u32_le_at, BpfError};

verus! {

/// Size in bytes of a serialized BTF header.
pub const BTF_HEADER_SIZE: usize = 24;

/// Size in bytes of a serialized BTF.ext header.
pub const BTF_EXT_HEADER_SIZE: usize = 32;

/// Size in bytes of one serialized CO-RE relocation record.
pub const CORE_RELO_RECORD_SIZE: usize = 16;

/// The BTF magic number.
pub const BTF_MAGIC: u16 = 0xeb9f;

/// The BTF header whose 24 bytes start at `offset` of `data`.
pub open spec fn btf_header_spec(data: Seq<u8>, offset: int) -> BtfHeader {
    BtfHeader {
        magic: u16_le_at(data, offset),
        version: data[offset + 2],
        flags: data[offset + 3],
        hdr_len: u32_le_at(data, offset + 4),
        type_off: u32_le_at(data, offset + 8),
        type_len: u32_le_at(data, offset + 12),
        str_off: u32_le_at(data, offset + 16),
        str_len: u32_le_at(data, offset + 20),
    }
}

/// The outcome of reading a BTF header at `offset`: the header, or the exact
/// error.
pub open spec fn btf_header_result(data: Seq<u8>, offset: int) -> Result<BtfHeader, BpfError> {
    if offset + BTF_HEADER_SIZE > data.len() {
        Err(BpfError::OutOfBounds)
    } else if btf_header_spec(data, offset).magic != BTF_MAGIC {
        Err(BpfError::NotBtf)
    } else {
        Ok(btf_header_spec(data, offset))
    }
}

/// Reads and validates the BTF header at `offset`.
pub fn parse_btf_header(data: &[u8], offset: usize) -> (r: Result<BtfHeader, BpfError>)
    ensures
        r == btf_header_result(data@, offset as int),
{
    if data.len() < BTF_HEADER_SIZE || offset > data.len() - BTF_HEADER_SIZE {
        return Err(BpfError::OutOfBounds);
    }
    let magic = (data[offset] as u16) | ((data[offset + 1] as u16) << 8);
    if magic != BTF_MAGIC {
        return Err(BpfError::NotBtf);
    }
    let header = BtfHeader {
        magic,
        version: data[offset + 2],
        flags: data[offset + 3],
        hdr_len: read_u32_le(data, offset + 4).unwrap(),
        type_off: read_u32_le(data, offset + 8).unwrap(),
        type_len: read_u32_le(data, offset + 12).unwrap(),
        str_off: read_u32_le(data, offset + 16).unwrap(),
        str_len: read_u32_le(data, offset + 20).unwrap(),
    };
    Ok(header)
}

/// The outcome of slicing the string section declared by `btf_header`, with
/// `offset` the position just past the header.
pub open spec fn btf_strings_result(data: Seq<u8>, offset: int, btf_header: BtfHeader) -> Result<
    Seq<u8>,
    BpfError,
> {
    let start = offset + btf_header.str_off;
    let end = start + btf_header.str_len;
    if end > data.len() {
        Err(BpfError::OutOfBounds)
    } else {
        Ok(data.subrange(start, end))
    }
}

/// Slices the string section declared by `btf_header` out of `data`, with
/// `offset` the position just past the header.
pub fn parse_btf_string_section(data: &[u8], offset: usize, btf_header: &BtfHeader) -> (r: Result<
    Vec<u8>,
    BpfError,
>)
    ensures
        match r {
            Ok(s) => btf_strings_result(data@, offset as int, *btf_header) == Ok::<Seq<u8>, BpfError>(s@),
            Err(e) => btf_strings_result(data@, offset as int, *btf_header) == Err::<
                Seq<u8>,
                BpfError,
            >(e),
        },
{
    let n = data.len();
    let start = match offset.checked_add(btf_header.str_off as usize) {
        Some(v) => v,
        None => {
            return Err(BpfError::OutOfBounds);
        },
    };
    let end = match start.checked_add(btf_header.str_len as usize) {
        Some(v) => v,
        None => {
            return Err(BpfError::OutOfBounds);
        },
    };
    if end > n {
        return Err(BpfError::OutOfBounds);
    }
    let mut s: Vec<u8> = Vec::new();
    s.extend_from_slice(&data[start..end]);
    proof {
        assert(s@ =~= data@.subrange(start as int, end as int));
    }
    Ok(s)
}

/// The byte size of the kind-dependent payload that follows a type record's
/// common prefix.
pub open spec fn btf_payload_size(kind: BtfKind, vlen: u16) -> int {
    match kind {
        BtfKind::Int => 4,
        BtfKind::Var => 4,
        BtfKind::DeclTag => 4,
        BtfKind::Array => 12,
        BtfKind::Struct => 12 * vlen,
        BtfKind::Union => 12 * vlen,
        BtfKind::Enum => 8 * vlen,
        BtfKind::FuncProto => 8 * vlen,
        BtfKind::DataSec => 12 * vlen,
        BtfKind::Enum64 => 12 * vlen,
        BtfKind::Ptr => 0,
        BtfKind::Fwd => 0,
        BtfKind::Typedef => 0,
        BtfKind::Volatile => 0,
        BtfKind::Const => 0,
        BtfKind::Restrict => 0,
        BtfKind::Func => 0,
        BtfKind::Float => 0,
        BtfKind::TypeTag => 0,
    }
}

/// The member record whose 12 bytes start at `offset`.
pub open spec fn btf_member_at(data: Seq<u8>, offset: int) -> BtfMember {
    BtfMember {
        name_off: u32_le_at(data, offset),
        type_id: u32_le_at(data, offset + 4),
        offset: u32_le_at(data, offset + 8),
    }
}

/// The `n` member records whose bytes start at `offset`.
pub open spec fn btf_members_spec(data: Seq<u8>, offset: int, n: int) -> Seq<BtfMember> {
    Seq::new(n as nat, |j: int| btf_member_at(data, offset + 12 * j))
}

/// The kind-dependent detail of a type record: retained members for Struct
/// and Union, nothing for kinds without payload, an opaque consumed payload
/// otherwise.
pub open spec fn btf_detail_spec(data: Seq<u8>, offset: int, kind: BtfKind, vlen: u16) -> BtfTypeDetailV {
    match kind {
        BtfKind::Struct => BtfTypeDetailV::Struct(btf_members_spec(data, offset, vlen as int)),
        BtfKind::Union => BtfTypeDetailV::Struct(btf_members_spec(data, offset, vlen as int)),
        BtfKind::Int => BtfTypeDetailV::Opaque,
        BtfKind::Var => BtfTypeDetailV::Opaque,
        BtfKind::DeclTag => BtfTypeDetailV::Opaque,
        BtfKind::Array => BtfTypeDetailV::Opaque,
        BtfKind::Enum => BtfTypeDetailV::Opaque,
        BtfKind::FuncProto => BtfTypeDetailV::Opaque,
        BtfKind::DataSec => BtfTypeDetailV::Opaque,
        BtfKind::Enum64 => BtfTypeDetailV::Opaque,
        BtfKind::Ptr => BtfTypeDetailV::Empty,
        BtfKind::Fwd => BtfTypeDetailV::Empty,
        BtfKind::Typedef => BtfTypeDetailV::Empty,
        BtfKind::Volatile => BtfTypeDetailV::Empty,
        BtfKind::Const => BtfTypeDetailV::Empty,
        BtfKind::Restrict => BtfTypeDetailV::Empty,
        BtfKind::Func => BtfTypeDetailV::Empty,
        BtfKind::Float => BtfTypeDetailV::Empty,
        BtfKind::TypeTag => BtfTypeDetailV::Empty,
    }
}

/// The type record whose common prefix starts at `offset`, assuming its kind
/// code decodes to `kind`.
pub open spec fn btf_type_at(data: Seq<u8>, offset: int, kind: BtfKind) -> BtfTypeV {
    let info = u32_le_at(data, offset + 4);
    BtfTypeV {
        name_off: u32_le_at(data, offset),
        vlen: (info & 0xffff) as u16,
        kind,
        kind_flag: (info >> 31) != 0,
        size_or_type: u32_le_at(data, offset + 8),
        detail: btf_detail_spec(data, offset + 12, kind, (info & 0xffff) as u16),
    }
}

/// The mathematical parse of the type records that tile `[start, end)`: the
/// record sequence, or the first error.  Records must tile the range exactly.
pub open spec fn parse_types_from(data: Seq<u8>, start: int, end: int) -> Result<
    Seq<BtfTypeV>,
    BpfError,
>
    decreases end - start,
{
    if start >= end {
        Ok(Seq::empty())
    } else if start + 12 > end {
        Err(BpfError::FormatMismatch)
    } else {
        let info = u32_le_at(data, start + 4);
        let vlen = (info & 0xffff) as u16;
        let kind_code = (info >> 24) & 0x1f;
        match btf_kind_of(kind_code) {
            None => Err(BpfError::UnknownKind),
            Some(kind) => {
                let psize = btf_payload_size(kind, vlen);
                if start + 12 + psize > end {
                    Err(BpfError::FormatMismatch)
                } else {
                    match parse_types_from(data, start + 12 + psize, end) {
                        Err(e) => Err(e),
                        Ok(rest) => Ok(seq![btf_type_at(data, start, kind)] + rest),
                    }
                }
            },
        }
    }
}

/// The outcome of parsing the type section declared by `btf_header`, with
/// `offset` the position just past the header: the records preceded by the
/// void sentinel, or the exact error.  A record whose retained type
/// reference points outside the table makes the blob internally
/// inconsistent and fails with `FormatMismatch`.
pub open spec fn btf_types_result(data: Seq<u8>, offset: int, btf_header: BtfHeader) -> Result<
    Seq<BtfTypeV>,
    BpfError,
> {
    let start = offset + btf_header.type_off;
    let end = start + btf_header.type_len;
    if end > data.len() {
        Err(BpfError::OutOfBounds)
    } else {
        match parse_types_from(data, start, end) {
            Err(e) => Err(e),
            Ok(types) => {
                if !crate::btf::type_refs_in_range(seq![void_type_v()] + types) {
                    Err(BpfError::FormatMismatch)
                } else {
                    Ok(seq![void_type_v()] + types)
                }
            },
        }
    }
}

/// The views of a sequence of type records.
pub open spec fn types_view(types: Seq<BtfType>) -> Seq<BtfTypeV> {
    types.map_values(|t: BtfType| t@)
}

/// Decides whether every retained type reference of the table stays inside
/// it: the `size_or_type` word of the reference kinds, and each struct or
/// union member's type id.
#[verifier::loop_isolation(false)]
fn check_type_refs(types: &Vec<BtfType>) -> (r: bool)
    ensures
        r == crate::btf::type_refs_in_range(types_view(types@)),
{
    let total = types.len();
    let mut i: usize = 0;
    while i < total
        invariant
            0 <= i <= total,
            total == types@.len(),
            forall|k: int|
                0 <= k < i ==> crate::btf::type_refs_ok(
                    #[trigger] types_view(types@)[k],
                    total as int,
                ),
        decreases total - i,
    {
        let t = &types[i];
        proof {
            assert(types_view(types@)[i as int] == types@[i as int]@);
        }
        let references_type = match t.kind {
            BtfKind::Ptr | BtfKind::Typedef | BtfKind::Volatile | BtfKind::Const
                | BtfKind::Restrict | BtfKind::Func | BtfKind::FuncProto | BtfKind::Var
                | BtfKind::DeclTag | BtfKind::TypeTag => true,
            _ => false,
        };
        if references_type && t.size_or_type as usize >= total {
            proof {
                assert(!crate::btf::type_refs_ok(types_view(types@)[i as int], total as int));
            }
            return false;
        }
        match &t.detail {
            BtfTypeDetail::Struct(members) => {
                let m = members.len();
                let mut j: usize = 0;
                while j < m
                    invariant
                        0 <= j <= m,
                        m == members@.len(),
                        forall|l: int| 0 <= l < j ==> (#[trigger] members@[l]).type_id < total,
                    decreases m - j,
                {
                    if members[j].type_id as usize >= total {
                        proof {
                            assert(types@[i as int]@.detail == BtfTypeDetailV::Struct(members@));
                            assert(members@[j as int].type_id >= total);
                            assert(!crate::btf::member_refs_ok(members@, total as int));
                            assert(!crate::btf::type_refs_ok(
                                types_view(types@)[i as int],
                                total as int,
                            ));
                        }
                        return false;
                    }
                    j = j + 1;
                }
                proof {
                    assert(types@[i as int]@.detail == BtfTypeDetailV::Struct(members@));
                    assert(crate::btf::member_refs_ok(members@, total as int));
                }
            },
            _ => {},
        }
        proof {
            assert(crate::btf::type_refs_ok(types_view(types@)[i as int], total as int));
        }
        i = i + 1;
    }
    true
}

/// Parses the type section declared by `btf_header`, with `offset` the
/// position just past the header.  The returned sequence holds the void
/// sentinel at index 0 followed by one entry per type record; the records
/// must consume the declared section length exactly, and every retained
/// type reference must point inside the table.
pub fn parse_btf_type_section(data: &[u8], offset: usize, btf_header: &BtfHeader) -> (r: Result<
    Vec<BtfType>,
    BpfError,
>)
    ensures
        match r {
            Ok(types) => btf_types_result(data@, offset as int, *btf_header) == Ok::<
                Seq<BtfTypeV>,
                BpfError,
            >(types_view(types@)),
            Err(e) => btf_types_result(data@, offset as int, *btf_header) == Err::<
                Seq<BtfTypeV>,
                BpfError,
            >(e),
        },
{
    let n = data.len();
    let start = match offset.checked_add(btf_header.type_off as usize) {
        Some(v) => v,
        None => {
            return Err(BpfError::OutOfBounds);
        },
    };
    let end = match start.checked_add(btf_header.type_len as usize) {
        Some(v) => v,
        None => {
            return Err(BpfError::OutOfBounds);
        },
    };
    if end > n {
        return Err(BpfError::OutOfBounds);
    }
    let dummy = BtfType {
        name_off: 0,
        vlen: 0,
        kind: BtfKind::Int,
        kind_flag: false,
        size_or_type: 0,
        detail: BtfTypeDetail::Empty,
    };
    let mut types: Vec<BtfType> = Vec::new();
    types.push(dummy);
    let ghost start0: int = start as int;
    proof {
        assert(types_view(types@) =~= seq![void_type_v()]);
        assert(types_view(types@).skip(1) =~= Seq::<BtfTypeV>::empty());
        match parse_types_from(data@, start0, end as int) {
            Ok(rest) => {
                assert(types_view(types@).skip(1) + rest =~= rest);
            },
            Err(_) => {},
        }
    }
    let mut cur: usize = start;
    while cur < end
        invariant
            start0 <= cur as int <= end as int,
            start0 == offset + btf_header.type_off,
            end as int == start0 + btf_header.type_len,
            end <= data@.len(),
            types@.len() >= 1,
            types_view(types@)[0] == void_type_v(),
            match parse_types_from(data@, cur as int, end as int) {
                Ok(rest) => parse_types_from(data@, start0, end as int) == Ok::<
                    Seq<BtfTypeV>,
                    BpfError,
                >(types_view(types@).skip(1) + rest),
                Err(e) => parse_types_from(data@, start0, end as int) == Err::<
                    Seq<BtfTypeV>,
                    BpfError,
                >(e),
            },
        decreases end - cur,
    {
        if end - cur < 12 {
            proof {
                assert(parse_types_from(data@, cur as int, end as int) == Err::<
                    Seq<BtfTypeV>,
                    BpfError,
                >(BpfError::FormatMismatch));
            }
            return Err(BpfError::FormatMismatch);
        }
        let name_off = read_u32_le(data, cur).unwrap();
        let info = read_u32_le(data, cur + 4).unwrap();
        let size_or_type = read_u32_le(data, cur + 8).unwrap();
        let vlen: u16 = (info & 0xffff) as u16;
        let kind_code: u32 = (info >> 24) & 0x1f;
        let kind_flag: bool = (info >> 31) != 0;
        let kind = match BtfKind::try_from(kind_code) {
            Ok(k) => k,
            Err(e) => {
                proof {
                    assert(parse_types_from(data@, cur as int, end as int) == Err::<
                        Seq<BtfTypeV>,
                        BpfError,
                    >(BpfError::UnknownKind));
                }
                return Err(e);
            },
        };
        let psize: usize = match kind {
            BtfKind::Int | BtfKind::Var | BtfKind::DeclTag => 4,
            BtfKind::Array => 12,
            BtfKind::Struct | BtfKind::Union => 12 * (vlen as usize),
            BtfKind::Enum | BtfKind::FuncProto => 8 * (vlen as usize),
            BtfKind::DataSec | BtfKind::Enum64 => 12 * (vlen as usize),
            _ => 0,
        };
        assert(psize == btf_payload_size(kind, vlen));
        if psize > end - cur - 12 {
            proof {
                assert(parse_types_from(data@, cur as int, end as int) == Err::<
                    Seq<BtfTypeV>,
                    BpfError,
                >(BpfError::FormatMismatch));
            }
            return Err(BpfError::FormatMismatch);
        }
        let detail: BtfTypeDetail = match kind {
            BtfKind::Struct | BtfKind::Union => {
                let mstart = cur + 12;
                let mut members: Vec<BtfMember> = Vec::new();
                let mut k: usize = 0;
                while k < vlen as usize
                    invariant
                        0 <= k <= vlen as usize,
                        mstart + 12 * (vlen as int) <= end <= data@.len(),
                        members@ == btf_members_spec(data@, mstart as int, k as int),
                    decreases vlen as usize - k,
                {
                    let moff = mstart + 12 * k;
                    let member = BtfMember {
                        name_off: read_u32_le(data, moff).unwrap(),
                        type_id: read_u32_le(data, moff + 4).unwrap(),
                        offset: read_u32_le(data, moff + 8).unwrap(),
                    };
                    members.push(member);
                    k = k + 1;
                    proof {
                        assert(members@ =~= btf_members_spec(data@, mstart as int, k as int));
                    }
                }
                BtfTypeDetail::Struct(members)
            },
            BtfKind::Ptr | BtfKind::Fwd | BtfKind::Typedef | BtfKind::Volatile | BtfKind::Const
                | BtfKind::Restrict | BtfKind::Func | BtfKind::Float | BtfKind::TypeTag => {
                BtfTypeDetail::Empty
            },
            _ => BtfTypeDetail::Opaque,
        };
        let t = BtfType { name_off, vlen, kind, kind_flag, size_or_type, detail };
        proof {
            assert(t@ == btf_type_at(data@, cur as int, kind));
        }
        let ghost old_types_v = types_view(types@);
        types.push(t);
        proof {
            assert(types_view(types@) =~= old_types_v.push(t@));
        }
        let next = cur + 12 + psize;
        proof {
            let rest_r = parse_types_from(data@, next as int, end as int);
            match rest_r {
                Ok(rest) => {
                    assert(parse_types_from(data@, cur as int, end as int) == Ok::<
                        Seq<BtfTypeV>,
                        BpfError,
                    >(seq![t@] + rest));
                    assert(types_view(types@).skip(1) + rest =~= old_types_v.skip(1) + (seq![t@]
                        + rest));
                },
                Err(e) => {
                    assert(parse_types_from(data@, cur as int, end as int) == Err::<
                        Seq<BtfTypeV>,
                        BpfError,
                    >(e));
                },
            }
        }
        cur = next;
    }
    proof {
        assert(parse_types_from(data@, cur as int, end as int) == Ok::<Seq<BtfTypeV>, BpfError>(
            Seq::empty(),
        ));
        assert(types_view(types@).skip(1) + Seq::<BtfTypeV>::empty() =~= types_view(types@).skip(
            1,
        ));
        assert(seq![void_type_v()] + types_view(types@).skip(1) =~= types_view(types@));
    }
    if !check_type_refs(&types) {
        return Err(BpfError::FormatMismatch);
    }
    Ok(types)
}

/// The outcome of parsing a whole `.BTF` blob at `offset`: header, string
/// section and type records, or the first error.
pub open spec fn btf_result(data: Seq<u8>, offset: int) -> Result<BtfV, BpfError> {
    match btf_header_result(data, offset) {
        Err(e) => Err(e),
        Ok(h) => {
            let offset2 = offset + h.hdr_len;
            match btf_strings_result(data, offset2, h) {
                Err(e) => Err(e),
                Ok(strings) => match btf_types_result(data, offset2, h) {
                    Err(e) => Err(e),
                    Ok(types) => Ok(BtfV { header: h, string_section: strings, type_section: types }),
                },
            }
        },
    }
}

/// Every type record of a successful mathematical parse carries a member
/// list exactly when its kind is Struct or Union.
proof fn lemma_parse_types_kinds(data: Seq<u8>, start: int, end: int)
    requires
        parse_types_from(data, start, end) is Ok,
    ensures
        forall|i: int|
            0 <= i < parse_types_from(data, start, end).unwrap().len() ==> {
                let t = #[trigger] parse_types_from(data, start, end).unwrap()[i];
                (t.kind == BtfKind::Struct || t.kind == BtfKind::Union) <==> t.detail is Struct
            },
    decreases end - start,
{
    if start >= end {
    } else {
        let info = u32_le_at(data, start + 4);
        let vlen = (info & 0xffff) as u16;
        let kind_code = (info >> 24) & 0x1f;
        let kind = btf_kind_of(kind_code).unwrap();
        let psize = btf_payload_size(kind, vlen);
        lemma_parse_types_kinds(data, start + 12 + psize, end);
        let rest = parse_types_from(data, start + 12 + psize, end).unwrap();
        let whole = parse_types_from(data, start, end).unwrap();
        assert(whole == seq![btf_type_at(data, start, kind)] + rest);
        assert forall|i: int| 0 <= i < whole.len() implies {
            let t = #[trigger] whole[i];
            (t.kind == BtfKind::Struct || t.kind == BtfKind::Union) <==> t.detail is Struct
        } by {
            if i >= 1 {
                assert(whole[i] == rest[i - 1]);
            }
        }
    }
}

/// Parses a `.BTF` blob starting at `offset`: validates the magic, then
/// slices the string section and walks the type section.  On success the
/// returned `Btf` is well formed: the void sentinel stands at index 0,
/// member lists accompany exactly the Struct and Union kinds, and every
/// retained type reference is an index into the table; a reference that
/// leaves the table fails with `FormatMismatch`.
pub fn parse_btf(data: &[u8], offset: usize) -> (r: Result<Btf, BpfError>)
    ensures
        match r {
            Ok(btf) => btf_result(data@, offset as int) == Ok::<BtfV, BpfError>(btf@) && btf.wf(),
            Err(e) => btf_result(data@, offset as int) == Err::<BtfV, BpfError>(e),
        },
{
    let n = data.len();
    let btf_header = match parse_btf_header(data, offset) {
        Ok(h) => h,
        Err(e) => {
            return Err(e);
        },
    };
    let offset2 = match offset.checked_add(btf_header.hdr_len as usize) {
        Some(v) => v,
        None => {
            // The header places both sections past the end of any buffer a
            // machine can hold, so each section slice is out of bounds.
            proof {
                let h = btf_header_result(data@, offset as int).unwrap();
                assert(n == data@.len());
                assert(offset + h.hdr_len + h.str_off + h.str_len > data@.len());
            }
            return Err(BpfError::OutOfBounds);
        },
    };
    let str_section = match parse_btf_string_section(data, offset2, &btf_header) {
        Ok(s) => s,
        Err(e) => {
            return Err(e);
        },
    };
    let type_section = match parse_btf_type_section(data, offset2, &btf_header) {
        Ok(t) => t,
        Err(e) => {
            return Err(e);
        },
    };
    let btf = Btf { header: btf_header, string_section: str_section, type_section };
    proof {
        let h = btf_header;
        let o2 = offset as int + h.hdr_len;
        let start = o2 + h.type_off;
        let end = start + h.type_len;
        lemma_parse_types_kinds(data@, start, end);
        assert(btf@.type_section =~= seq![void_type_v()] + parse_types_from(
            data@,
            start,
            end,
        ).unwrap());
        assert(btf.wf());
    }
    Ok(btf)
}

/// The BTF.ext header whose 32 bytes start at `offset` of `data`.
pub open spec fn btf_ext_header_spec(data: Seq<u8>, offset: int) -> BtfExtHeader {
    BtfExtHeader {
        magic: u16_le_at(data, offset),
        version: data[offset + 2],
        flags: data[offset + 3],
        hdr_len: u32_le_at(data, offset + 4),
        func_info_off: u32_le_at(data, offset + 8),
        func_info_len: u32_le_at(data, offset + 12),
        line_info_off: u32_le_at(data, offset + 16),
        line_info_len: u32_le_at(data, offset + 20),
        core_relo_off: u32_le_at(data, offset + 24),
        core_relo_len: u32_le_at(data, offset + 28),
    }
}

/// The outcome of reading a BTF.ext header at `offset`.  The declared header
/// length must equal the header size the loader targets, the variant that
/// carries the CO-RE relocation region.
pub open spec fn btf_ext_header_result(data: Seq<u8>, offset: int) -> Result<
    BtfExtHeader,
    BpfError,
> {
    if offset + BTF_EXT_HEADER_SIZE > data.len() {
        Err(BpfError::OutOfBounds)
    } else if btf_ext_header_spec(data, offset).magic != BTF_MAGIC {
        Err(BpfError::NotBtf)
    } else if btf_ext_header_spec(data, offset).hdr_len != BTF_EXT_HEADER_SIZE {
        Err(BpfError::FormatMismatch)
    } else {
        Ok(btf_ext_header_spec(data, offset))
    }
}

/// Reads and validates the BTF.ext header at `offset`.
pub fn parse_btf_ext_header(data: &[u8], offset: usize) -> (r: Result<BtfExtHeader, BpfError>)
    ensures
        r == btf_ext_header_result(data@, offset as int),
{
    if data.len() < BTF_EXT_HEADER_SIZE || offset > data.len() - BTF_EXT_HEADER_SIZE {
        return Err(BpfError::OutOfBounds);
    }
    let magic = (data[offset] as u16) | ((data[offset + 1] as u16) << 8);
    if magic != BTF_MAGIC {
        return Err(BpfError::NotBtf);
    }
    let header = BtfExtHeader {
        magic,
        version: data[offset + 2],
        flags: data[offset + 3],
        hdr_len: read_u32_le(data, offset + 4).unwrap(),
        func_info_off: read_u32_le(data, offset + 8).unwrap(),
        func_info_len: read_u32_le(data, offset + 12).unwrap(),
        line_info_off: read_u32_le(data, offset + 16).unwrap(),
        line_info_len: read_u32_le(data, offset + 20).unwrap(),
        core_relo_off: read_u32_le(data, offset + 24).unwrap(),
        core_relo_len: read_u32_le(data, offset + 28).unwrap(),
    };
    if header.hdr_len != BTF_EXT_HEADER_SIZE as u32 {
        return Err(BpfError::FormatMismatch);
    }
    Ok(header)
}

/// The CO-RE relocation record whose 16 bytes start at `offset`, assuming
/// its kind code decodes to `kind`.
pub open spec fn core_relo_at(data: Seq<u8>, offset: int, kind: crate::btf::BpfCoreReloKind) -> BpfCoreRelo {
    BpfCoreRelo {
        insn_off: u32_le_at(data, offset),
        type_id: u32_le_at(data, offset + 4),
        access_str_off: u32_le_at(data, offset + 8),
        kind,
    }
}

/// The mathematical parse of `n` consecutive CO-RE relocation records
/// starting at `offset`: the records, or the first undecodable kind.
pub open spec fn relo_records_from(data: Seq<u8>, offset: int, n: int) -> Result<
    Seq<BpfCoreRelo>,
    BpfError,
>
    decreases n,
{
    if n <= 0 {
        Ok(Seq::empty())
    } else {
        match core_relo_kind_of(u32_le_at(data, offset + 12)) {
            None => Err(BpfError::UnknownKind),
            Some(kind) => match relo_records_from(data, offset + 16, n - 1) {
                Err(e) => Err(e),
                Ok(rest) => Ok(seq![core_relo_at(data, offset, kind)] + rest),
            },
        }
    }
}

/// The mathematical parse of the per-section record groups that tile
/// `[start, end)` of the CO-RE relocation region: each group a section-name
/// offset, a record count, and that many records.
pub open spec fn core_sections_from(data: Seq<u8>, start: int, end: int) -> Result<
    Seq<BtfExtInfoSecV<BpfCoreRelo>>,
    BpfError,
>
    decreases end - start,
{
    if start >= end {
        Ok(Seq::empty())
    } else if start + 8 > end {
        Err(BpfError::FormatMismatch)
    } else {
        let sec_name_off = u32_le_at(data, start);
        let num = u32_le_at(data, start + 4);
        if start + 8 + 16 * num > end {
            Err(BpfError::FormatMismatch)
        } else {
            match relo_records_from(data, start + 8, num as int) {
                Err(e) => Err(e),
                Ok(records) => match core_sections_from(data, start + 8 + 16 * num, end) {
                    Err(e) => Err(e),
                    Ok(rest) => Ok(
                        seq![BtfExtInfoSecV { sec_name_off, data: records }] + rest,
                    ),
                },
            }
        }
    }
}

/// The outcome of parsing the CO-RE relocation region declared by the
/// BTF.ext header, with `offset` the position just past the header: the
/// region's leading record size must equal 16, then the per-section groups
/// tile the rest of the region exactly.
pub open spec fn core_relo_result(data: Seq<u8>, offset: int, h: BtfExtHeader) -> Result<
    Seq<BtfExtInfoSecV<BpfCoreRelo>>,
    BpfError,
> {
    let start = offset + h.core_relo_off;
    let end = start + h.core_relo_len;
    if end > data.len() {
        Err(BpfError::OutOfBounds)
    } else if h.core_relo_len < 4 {
        Err(BpfError::FormatMismatch)
    } else if u32_le_at(data, start) != CORE_RELO_RECORD_SIZE {
        Err(BpfError::FormatMismatch)
    } else {
        core_sections_from(data, start + 4, end)
    }
}

/// The views of a sequence of per-section record groups.
pub open spec fn secs_view(secs: Seq<BtfExtInfoSec<BpfCoreRelo>>) -> Seq<
    BtfExtInfoSecV<BpfCoreRelo>,
> {
    secs.map_values(|s: BtfExtInfoSec<BpfCoreRelo>| s@)
}

/// Parses the CO-RE relocation region declared by `btf_ext_header`, with
/// `offset` the position just past the header.  The leading 4-byte record
/// size must equal 16; the per-section groups must consume the declared
/// region length exactly.
/// Reads `num` consecutive 16-byte CO-RE relocation records starting at
/// `rstart`, failing on the first undecodable kind code.
#[verifier::loop_isolation(false)]
fn read_relo_records(data: &[u8], rstart: usize, num: u32) -> (r: Result<
    Vec<BpfCoreRelo>,
    BpfError,
>)
    requires
        rstart + 16 * (num as int) <= data@.len(),
    ensures
        match r {
            Ok(relos) => relo_records_from(data@, rstart as int, num as int) == Ok::<
                Seq<BpfCoreRelo>,
                BpfError,
            >(relos@),
            Err(e) => relo_records_from(data@, rstart as int, num as int) == Err::<
                Seq<BpfCoreRelo>,
                BpfError,
            >(e),
        },
{
    let n = data.len();
    let mut relos: Vec<BpfCoreRelo> = Vec::new();
    let mut k: usize = 0;
    while k < num as usize
        invariant
            0 <= k <= num as usize,
            n == data@.len(),
            match relo_records_from(data@, rstart + 16 * (k as int), num as int - k as int) {
                Ok(rest) => relo_records_from(data@, rstart as int, num as int) == Ok::<
                    Seq<BpfCoreRelo>,
                    BpfError,
                >(relos@ + rest),
                Err(e) => relo_records_from(data@, rstart as int, num as int) == Err::<
                    Seq<BpfCoreRelo>,
                    BpfError,
                >(e),
            },
        decreases num as usize - k,
    {
        let roff = rstart + 16 * k;
        let insn_off = read_u32_le(data, roff).unwrap();
        let type_id = read_u32_le(data, roff + 4).unwrap();
        let access_str_off = read_u32_le(data, roff + 8).unwrap();
        let kind_code = read_u32_le(data, roff + 12).unwrap();
        let kind = match crate::btf::BpfCoreReloKind::try_from(kind_code) {
            Ok(k) => k,
            Err(e) => {
                proof {
                    assert(relo_records_from(
                        data@,
                        rstart + 16 * (k as int),
                        num as int - k as int,
                    ) == Err::<Seq<BpfCoreRelo>, BpfError>(BpfError::UnknownKind));
                }
                return Err(e);
            },
        };
        let relo = BpfCoreRelo { insn_off, type_id, access_str_off, kind };
        let ghost old_relos = relos@;
        relos.push(relo);
        k = k + 1;
        proof {
            assert(relo == core_relo_at(data@, roff as int, kind));
            match relo_records_from(data@, rstart + 16 * (k as int), num as int - k as int) {
                Ok(rest) => {
                    assert(relo_records_from(data@, roff as int, num as int - (k - 1) as int)
                        == Ok::<Seq<BpfCoreRelo>, BpfError>(seq![relo] + rest));
                    assert(relos@ + rest =~= old_relos + (seq![relo] + rest));
                },
                Err(_) => {},
            }
        }
    }
    proof {
        assert(relo_records_from(data@, rstart + 16 * (k as int), 0) == Ok::<
            Seq<BpfCoreRelo>,
            BpfError,
        >(Seq::empty()));
        assert(relos@ + Seq::<BpfCoreRelo>::empty() =~= relos@);
    }
    Ok(relos)
}

#[verifier::loop_isolation(false)]
#[verifier::rlimit(100)]
pub fn parse_btf_ext_core_relo(data: &[u8], offset: usize, btf_ext_header: &BtfExtHeader) -> (r:
    Result<Vec<BtfExtInfoSec<BpfCoreRelo>>, BpfError>)
    ensures
        match r {
            Ok(secs) => core_relo_result(data@, offset as int, *btf_ext_header) == Ok::<
                Seq<BtfExtInfoSecV<BpfCoreRelo>>,
                BpfError,
            >(secs_view(secs@)),
            Err(e) => core_relo_result(data@, offset as int, *btf_ext_header) == Err::<
                Seq<BtfExtInfoSecV<BpfCoreRelo>>,
                BpfError,
            >(e),
        },
{
    let n = data.len();
    let start = match offset.checked_add(btf_ext_header.core_relo_off as usize) {
        Some(v) => v,
        None => {
            return Err(BpfError::OutOfBounds);
        },
    };
    let end = match start.checked_add(btf_ext_header.core_relo_len as usize) {
        Some(v) => v,
        None => {
            return Err(BpfError::OutOfBounds);
        },
    };
    if end > n {
        return Err(BpfError::OutOfBounds);
    }
    if btf_ext_header.core_relo_len < 4 {
        return Err(BpfError::FormatMismatch);
    }
    let rec_size = read_u32_le(data, start).unwrap();
    if rec_size != CORE_RELO_RECORD_SIZE as u32 {
        return Err(BpfError::FormatMismatch);
    }
    let mut sections: Vec<BtfExtInfoSec<BpfCoreRelo>> = Vec::new();
    let ghost start0: int = start + 4;
    proof {
        match core_sections_from(data@, start0, end as int) {
            Ok(rest) => {
                assert(secs_view(sections@) + rest =~= rest);
            },
            Err(_) => {},
        }
    }
    let mut cur: usize = start + 4;
    while cur < end
        invariant
            start0 <= cur as int <= end as int,
            start0 == offset + btf_ext_header.core_relo_off + 4,
            end as int == offset + btf_ext_header.core_relo_off + btf_ext_header.core_relo_len,
            btf_ext_header.core_relo_len >= 4,
            u32_le_at(data@, (offset + btf_ext_header.core_relo_off) as int) == 16,
            end <= data@.len(),
            match core_sections_from(data@, cur as int, end as int) {
                Ok(rest) => core_sections_from(data@, start0, end as int) == Ok::<
                    Seq<BtfExtInfoSecV<BpfCoreRelo>>,
                    BpfError,
                >(secs_view(sections@) + rest),
                Err(e) => core_sections_from(data@, start0, end as int) == Err::<
                    Seq<BtfExtInfoSecV<BpfCoreRelo>>,
                    BpfError,
                >(e),
            },
        decreases end - cur,
    {
        if end - cur < 8 {
            proof {
                assert(core_sections_from(data@, cur as int, end as int) == Err::<
                    Seq<BtfExtInfoSecV<BpfCoreRelo>>,
                    BpfError,
                >(BpfError::FormatMismatch));
            }
            return Err(BpfError::FormatMismatch);
        }
        let sec_name_off = read_u32_le(data, cur).unwrap();
        let num = read_u32_le(data, cur + 4).unwrap();
        let rem = end - cur - 8;
        let records_size = match (num as usize).checked_mul(16) {
            Some(p) => p,
            None => {
                proof {
                    assert(core_sections_from(data@, cur as int, end as int) == Err::<
                        Seq<BtfExtInfoSecV<BpfCoreRelo>>,
                        BpfError,
                    >(BpfError::FormatMismatch));
                }
                return Err(BpfError::FormatMismatch);
            },
        };
        if records_size > rem {
            proof {
                assert(core_sections_from(data@, cur as int, end as int) == Err::<
                    Seq<BtfExtInfoSecV<BpfCoreRelo>>,
                    BpfError,
                >(BpfError::FormatMismatch));
            }
            return Err(BpfError::FormatMismatch);
        }
        let rstart = cur + 8;
        let relos = match read_relo_records(data, rstart, num) {
            Ok(v) => v,
            Err(e) => {
                proof {
                    assert(core_sections_from(data@, cur as int, end as int) == Err::<
                        Seq<BtfExtInfoSecV<BpfCoreRelo>>,
                        BpfError,
                    >(e));
                }
                return Err(e);
            },
        };
        let sec = BtfExtInfoSec { sec_name_off, data: relos };
        let ghost old_secs_v = secs_view(sections@);
        sections.push(sec);
        let next = cur + 8 + records_size;
        proof {
            assert(secs_view(sections@) =~= old_secs_v.push(sec@));
            match core_sections_from(data@, next as int, end as int) {
                Ok(rest) => {
                    assert(core_sections_from(data@, cur as int, end as int) == Ok::<
                        Seq<BtfExtInfoSecV<BpfCoreRelo>>,
                        BpfError,
                    >(seq![sec@] + rest));
                    assert(secs_view(sections@) + rest =~= old_secs_v + (seq![sec@] + rest));
                },
                Err(_) => {},
            }
        }
        cur = next;
    }
    proof {
        assert(core_sections_from(data@, cur as int, end as int) == Ok::<
            Seq<BtfExtInfoSecV<BpfCoreRelo>>,
            BpfError,
        >(Seq::empty()));
        assert(secs_view(sections@) + Seq::<BtfExtInfoSecV<BpfCoreRelo>>::empty() =~= secs_view(
            sections@,
        ));
    }
    Ok(sections)
}

/// The outcome of parsing a whole `.BTF.ext` blob at `offset`.
pub open spec fn btf_ext_result(data: Seq<u8>, offset: int) -> Result<BtfExtV, BpfError> {
    match btf_ext_header_result(data, offset) {
        Err(e) => Err(e),
        Ok(h) => {
            let offset2 = offset + h.hdr_len;
            if offset2 + h.func_info_off + h.func_info_len > data.len() {
                Err(BpfError::OutOfBounds)
            } else if offset2 + h.line_info_off + h.line_info_len > data.len() {
                Err(BpfError::OutOfBounds)
            } else {
                match core_relo_result(data, offset2, h) {
                    Err(e) => Err(e),
                    Ok(secs) => Ok(BtfExtV { header: h, core_relo_part: secs }),
                }
            }
        },
    }
}

/// Parses a `.BTF.ext` blob starting at `offset`: validates the magic and
/// the header length, then decodes the CO-RE relocation region.  Func-info
/// and line-info bodies are tolerated and ignored, but their declared
/// ranges must fit in the buffer.
pub fn parse_btf_ext(data: &[u8], offset: usize) -> (r: Result<BtfExt, BpfError>)
    ensures
        match r {
            Ok(ext) => btf_ext_result(data@, offset as int) == Ok::<BtfExtV, BpfError>(ext@),
            Err(e) => btf_ext_result(data@, offset as int) == Err::<BtfExtV, BpfError>(e),
        },
{
    let n = data.len();
    let btf_ext_header = match parse_btf_ext_header(data, offset) {
        Ok(h) => h,
        Err(e) => {
            return Err(e);
        },
    };
    let offset2 = match offset.checked_add(btf_ext_header.hdr_len as usize) {
        Some(v) => v,
        None => {
            // The header places every declared region past the end of any
            // buffer a machine can hold, so each region slice is out of
            // bounds.
            proof {
                let h = btf_ext_header_result(data@, offset as int).unwrap();
                assert(n == data@.len());
                assert(offset + h.hdr_len + h.func_info_off + h.func_info_len > data@.len());
            }
            return Err(BpfError::OutOfBounds);
        },
    };
    // The func-info and line-info bodies are ignored, but the ranges the
    // header declares for them must lie inside the buffer.
    let func_end = match offset2.checked_add(btf_ext_header.func_info_off as usize) {
        Some(v) => v.checked_add(btf_ext_header.func_info_len as usize),
        None => None,
    };
    match func_end {
        Some(e) => {
            if e > n {
                return Err(BpfError::OutOfBounds);
            }
        },
        None => {
            return Err(BpfError::OutOfBounds);
        },
    }
    let line_end = match offset2.checked_add(btf_ext_header.line_info_off as usize) {
        Some(v) => v.checked_add(btf_ext_header.line_info_len as usize),
        None => None,
    };
    match line_end {
        Some(e) => {
            if e > n {
                return Err(BpfError::OutOfBounds);
            }
        },
        None => {
            return Err(BpfError::OutOfBounds);
        },
    }
    let core_relo_part = match parse_btf_ext_core_relo(data, offset2, &btf_ext_header) {
        Ok(s) => s,
        Err(e) => {
            return Err(e);
        },
    };
    Ok(BtfExt { header: btf_ext_header, core_relo_part })
}

/// Parsing is deterministic: two successful parses of the same BTF bytes
/// yield the same structure.  The parsers' contracts equate each result with
/// a mathematical parse of the input alone, so equal inputs cannot give
/// different outputs.
pub proof fn lemma_parse_btf_deterministic(data: Seq<u8>, offset: int, a: BtfV, b: BtfV)
    requires
        btf_result(data, offset) == Ok::<BtfV, BpfError>(a),
        btf_result(data, offset) == Ok::<BtfV, BpfError>(b),
    ensures
        a == b,
{
}

/// Parsing is deterministic for `.BTF.ext` blobs as well.
pub proof fn lemma_parse_btf_ext_deterministic(data: Seq<u8>, offset: int, a: BtfExtV, b: BtfExtV)
    requires
        btf_ext_result(data, offset) == Ok::<BtfExtV, BpfError>(a),
        btf_ext_result(data, offset) == Ok::<BtfExtV, BpfError>(b),
    ensures
        a == b,
{
}

/// The size in bytes of one type record: the common prefix plus the
/// kind-dependent payload.
pub open spec fn btf_record_size(t: BtfTypeV) -> int {
    12 + btf_payload_size(t.kind, t.vlen)
}

/// The cumulative size in bytes of a sequence of type records.
pub open spec fn btf_records_size(types: Seq<BtfTypeV>) -> int
    decreases types.len(),
{
    if types.len() == 0 {
        0
    } else {
        btf_record_size(types[0]) + btf_records_size(types.drop_first())
    }
}

/// The records of a successful mathematical parse consume the parsed range
/// exactly: their cumulative size equals `end - start`.
pub proof fn lemma_types_consume_exactly(data: Seq<u8>, start: int, end: int)
    requires
        start <= end,
        parse_types_from(data, start, end) is Ok,
    ensures
        btf_records_size(parse_types_from(data, start, end).unwrap()) == end - start,
    decreases end - start,
{
    if start >= end {
    } else {
        let info = u32_le_at(data, start + 4);
        let vlen = (info & 0xffff) as u16;
        let kind_code = (info >> 24) & 0x1f;
        let kind = btf_kind_of(kind_code).unwrap();
        let psize = btf_payload_size(kind, vlen);
        lemma_types_consume_exactly(data, start + 12 + psize, end);
        let rest = parse_types_from(data, start + 12 + psize, end).unwrap();
        let whole = parse_types_from(data, start, end).unwrap();
        assert(whole == seq![btf_type_at(data, start, kind)] + rest);
        assert(whole.drop_first() =~= rest);
    }
}

/// The cumulative size of the type records of every successfully parsed BTF
/// (the void sentinel aside, which no bytes encode) equals the declared
/// `type_len` exactly.
pub proof fn lemma_btf_types_consume_type_len(data: Seq<u8>, offset: int)
    requires
        btf_result(data, offset) is Ok,
    ensures
        btf_records_size(btf_result(data, offset).unwrap().type_section.drop_first())
            == btf_result(data, offset).unwrap().header.type_len,
{
    let h = btf_header_result(data, offset).unwrap();
    let offset2 = offset + h.hdr_len;
    let start = offset2 + h.type_off;
    let end = start + h.type_len;
    lemma_types_consume_exactly(data, start, end);
    let types = parse_types_from(data, start, end).unwrap();
    assert(btf_result(data, offset).unwrap().type_section == seq![void_type_v()] + types);
    assert((seq![void_type_v()] + types).drop_first() =~= types);
}

} // verus!
