//! The BTF data model: headers, type records, struct members and CO-RE
//! relocation records, together with their mathematical views.

use vstd::prelude::*;

use crate::common::BpfError;

verus! {

/// Header of a `.BTF` blob (magic `0xEB9F`, little-endian fields).
#[derive(Debug, Clone, Copy, PartialEq, Eq, Structural)]
pub struct BtfHeader {
    pub magic: u16,
    pub version: u8,
    pub flags: u8,
    pub hdr_len: u32,
    pub type_off: u32,
    pub type_len: u32,
    pub str_off: u32,
    pub str_len: u32,
}

/// The closed set of BTF type kinds.
#[derive(Debug, Clone, Copy, PartialEq, Eq, Structural)]
pub enum BtfKind {
    Int,
    Ptr,
    Array,
    Struct,
    Union,
    Enum,
    Fwd,
    Typedef,
    Volatile,
    Const,
    Restrict,
    Func,
    FuncProto,
    Var,
    DataSec,
    Float,
    DeclTag,
    TypeTag,
    Enum64,
}

/// The BTF kind encoded by `value` in a type record's info word, if any.
pub open spec fn btf_kind_of(value: u32) -> Option<BtfKind> {
    if value == 1 {
        Some(BtfKind::Int)
    } else if value == 2 {
        Some(BtfKind::Ptr)
    } else if value == 3 {
        Some(BtfKind::Array)
    } else if value == 4 {
        Some(BtfKind::Struct)
    } else if value == 5 {
        Some(BtfKind::Union)
    } else if value == 6 {
        Some(BtfKind::Enum)
    } else if value == 7 {
        Some(BtfKind::Fwd)
    } else if value == 8 {
        Some(BtfKind::Typedef)
    } else if value == 9 {
        Some(BtfKind::Volatile)
    } else if value == 10 {
        Some(BtfKind::Const)
    } else if value == 11 {
        Some(BtfKind::Restrict)
    } else if value == 12 {
        Some(BtfKind::Func)
    } else if value == 13 {
        Some(BtfKind::FuncProto)
    } else if value == 14 {
        Some(BtfKind::Var)
    } else if value == 15 {
        Some(BtfKind::DataSec)
    } else if value == 16 {
        Some(BtfKind::Float)
    } else if value == 17 {
        Some(BtfKind::DeclTag)
    } else if value == 18 {
        Some(BtfKind::TypeTag)
    } else if value == 19 {
        Some(BtfKind::Enum64)
    } else {
        None
    }
}

impl BtfKind {
    /// Decodes a kind code, rejecting codes outside the defined set.
    pub fn try_from(value: u32) -> (r: Result<BtfKind, BpfError>)
        ensures
            match btf_kind_of(value) {
                Some(k) => r == Ok::<BtfKind, BpfError>(k),
                None => r == Err::<BtfKind, BpfError>(BpfError::UnknownKind),
            },
    {
        match value {
            1 => Ok(BtfKind::Int),
            2 => Ok(BtfKind::Ptr),
            3 => Ok(BtfKind::Array),
            4 => Ok(BtfKind::Struct),
            5 => Ok(BtfKind::Union),
            6 => Ok(BtfKind::Enum),
            7 => Ok(BtfKind::Fwd),
            8 => Ok(BtfKind::Typedef),
            9 => Ok(BtfKind::Volatile),
            10 => Ok(BtfKind::Const),
            11 => Ok(BtfKind::Restrict),
            12 => Ok(BtfKind::Func),
            13 => Ok(BtfKind::FuncProto),
            14 => Ok(BtfKind::Var),
            15 => Ok(BtfKind::DataSec),
            16 => Ok(BtfKind::Float),
            17 => Ok(BtfKind::DeclTag),
            18 => Ok(BtfKind::TypeTag),
            19 => Ok(BtfKind::Enum64),
            _ => Err(BpfError::UnknownKind),
        }
    }
}

/// A member of a Struct or Union type: name offset, referenced type id, and
/// the packed offset word.
#[derive(Debug, Clone, Copy, PartialEq, Eq, Structural)]
pub struct BtfMember {
    pub name_off: u32,
    pub type_id: u32,
    pub offset: u32,
}

/// The member's bit offset.  With the enclosing type's kind-flag set, the
/// packed word holds the bit offset in its low 24 bits; otherwise the whole
/// word is the bit offset.
pub open spec fn member_offset_spec(offset: u32, kind_flag: bool) -> u32 {
    if kind_flag {
        offset & 0xffffff
    } else {
        offset
    }
}

impl BtfMember {
    /// The member's bit offset, respecting the enclosing type's kind-flag.
    pub fn get_offset(&self, kind_flag: bool) -> (r: u32)
        ensures
            r == member_offset_spec(self.offset, kind_flag),
            kind_flag ==> r == self.offset & 0xffffff,
            !kind_flag ==> r == self.offset,
    {
        if kind_flag {
            self.offset & 0xffffff
        } else {
            self.offset
        }
    }

    /// The member's bitfield size: the high 8 bits of the packed word when
    /// the enclosing type's kind-flag is set, and 0 otherwise.
    pub fn get_bit_size(&self, kind_flag: bool) -> (r: u32)
        ensures
            kind_flag ==> r == self.offset >> 24,
            !kind_flag ==> r == 0,
    {
        if kind_flag {
            self.offset >> 24
        } else {
            0
        }
    }
}

/// The kind-dependent payload of a type record: nothing, an opaque payload
/// that is consumed but discarded, or the member list of a Struct or Union.
#[derive(Debug, Clone)]
pub enum BtfTypeDetail {
    Empty,
    Opaque,
    Struct(Vec<BtfMember>),
}

/// Mathematical view of `BtfTypeDetail`.
pub enum BtfTypeDetailV {
    Empty,
    Opaque,
    Struct(Seq<BtfMember>),
}

impl View for BtfTypeDetail {
    type V = BtfTypeDetailV;

    open spec fn view(&self) -> BtfTypeDetailV {
        match self {
            BtfTypeDetail::Empty => BtfTypeDetailV::Empty,
            BtfTypeDetail::Opaque => BtfTypeDetailV::Opaque,
            BtfTypeDetail::Struct(members) => BtfTypeDetailV::Struct(members@),
        }
    }
}

/// A parsed BTF type record.
#[derive(Debug, Clone)]
pub struct BtfType {
    pub name_off: u32,
    pub vlen: u16,
    pub kind: BtfKind,
    pub kind_flag: bool,
    pub size_or_type: u32,
    pub detail: BtfTypeDetail,
}

/// Mathematical view of `BtfType`.
pub struct BtfTypeV {
    pub name_off: u32,
    pub vlen: u16,
    pub kind: BtfKind,
    pub kind_flag: bool,
    pub size_or_type: u32,
    pub detail: BtfTypeDetailV,
}

impl View for BtfType {
    type V = BtfTypeV;

    open spec fn view(&self) -> BtfTypeV {
        BtfTypeV {
            name_off: self.name_off,
            vlen: self.vlen,
            kind: self.kind,
            kind_flag: self.kind_flag,
            size_or_type: self.size_or_type,
            detail: self.detail@,
        }
    }
}

/// The synthetic void entry that stands at index 0 of every parsed type
/// sequence, so that natural 1-based type ids map directly.
pub open spec fn void_type_v() -> BtfTypeV {
    BtfTypeV {
        name_off: 0,
        vlen: 0,
        kind: BtfKind::Int,
        kind_flag: false,
        size_or_type: 0,
        detail: BtfTypeDetailV::Empty,
    }
}

/// Header of a `.BTF.ext` blob.
#[derive(Debug, Clone, Copy, PartialEq, Eq, Structural)]
pub struct BtfExtHeader {
    pub magic: u16,
    pub version: u8,
    pub flags: u8,
    pub hdr_len: u32,
    pub func_info_off: u32,
    pub func_info_len: u32,
    pub line_info_off: u32,
    pub line_info_len: u32,
    pub core_relo_off: u32,
    pub core_relo_len: u32,
}

/// The closed set of CO-RE relocation kinds.
#[derive(Debug, Clone, Copy, PartialEq, Eq, Structural)]
pub enum BpfCoreReloKind {
    FieldByteOffset,
    FieldByteSize,
    FieldExists,
    FieldSigned,
    FieldLShiftU64,
    FieldRShiftU64,
    TypeIdLocal,
    TypeIdTarget,
    TypeExists,
    TypeSize,
    EnumValExists,
    EnumValValue,
    TypeMatches,
}

/// The CO-RE relocation kind encoded by `value`, if any.
pub open spec fn core_relo_kind_of(value: u32) -> Option<BpfCoreReloKind> {
    if value == 0 {
        Some(BpfCoreReloKind::FieldByteOffset)
    } else if value == 1 {
        Some(BpfCoreReloKind::FieldByteSize)
    } else if value == 2 {
        Some(BpfCoreReloKind::FieldExists)
    } else if value == 3 {
        Some(BpfCoreReloKind::FieldSigned)
    } else if value == 4 {
        Some(BpfCoreReloKind::FieldLShiftU64)
    } else if value == 5 {
        Some(BpfCoreReloKind::FieldRShiftU64)
    } else if value == 6 {
        Some(BpfCoreReloKind::TypeIdLocal)
    } else if value == 7 {
        Some(BpfCoreReloKind::TypeIdTarget)
    } else if value == 8 {
        Some(BpfCoreReloKind::TypeExists)
    } else if value == 9 {
        Some(BpfCoreReloKind::TypeSize)
    } else if value == 10 {
        Some(BpfCoreReloKind::EnumValExists)
    } else if value == 11 {
        Some(BpfCoreReloKind::EnumValValue)
    } else if value == 12 {
        Some(BpfCoreReloKind::TypeMatches)
    } else {
        None
    }
}

impl BpfCoreReloKind {
    /// Decodes a CO-RE relocation kind code, rejecting codes outside the
    /// defined set.
    pub fn try_from(value: u32) -> (r: Result<BpfCoreReloKind, BpfError>)
        ensures
            match core_relo_kind_of(value) {
                Some(k) => r == Ok::<BpfCoreReloKind, BpfError>(k),
                None => r == Err::<BpfCoreReloKind, BpfError>(BpfError::UnknownKind),
            },
    {
        match value {
            0 => Ok(BpfCoreReloKind::FieldByteOffset),
            1 => Ok(BpfCoreReloKind::FieldByteSize),
            2 => Ok(BpfCoreReloKind::FieldExists),
            3 => Ok(BpfCoreReloKind::FieldSigned),
            4 => Ok(BpfCoreReloKind::FieldLShiftU64),
            5 => Ok(BpfCoreReloKind::FieldRShiftU64),
            6 => Ok(BpfCoreReloKind::TypeIdLocal),
            7 => Ok(BpfCoreReloKind::TypeIdTarget),
            8 => Ok(BpfCoreReloKind::TypeExists),
            9 => Ok(BpfCoreReloKind::TypeSize),
            10 => Ok(BpfCoreReloKind::EnumValExists),
            11 => Ok(BpfCoreReloKind::EnumValValue),
            12 => Ok(BpfCoreReloKind::TypeMatches),
            _ => Err(BpfError::UnknownKind),
        }
    }
}

/// One CO-RE relocation record: instruction offset inside the named section,
/// type id, access-string offset, and kind.
#[derive(Debug, Clone, Copy, PartialEq, Eq, Structural)]
pub struct BpfCoreRelo {
    pub insn_off: u32,
    pub type_id: u32,
    pub access_str_off: u32,
    pub kind: BpfCoreReloKind,
}

/// One per-section record group of a `.BTF.ext` info region.
#[derive(Debug, Clone)]
pub struct BtfExtInfoSec<T> {
    pub sec_name_off: u32,
    pub data: Vec<T>,
}

/// Mathematical view of `BtfExtInfoSec`.
pub struct BtfExtInfoSecV<T> {
    pub sec_name_off: u32,
    pub data: Seq<T>,
}

impl<T> View for BtfExtInfoSec<T> {
    type V = BtfExtInfoSecV<T>;

    open spec fn view(&self) -> BtfExtInfoSecV<T> {
        BtfExtInfoSecV { sec_name_off: self.sec_name_off, data: self.data@ }
    }
}

/// A parsed `.BTF` blob: header, owned string section, and the type records
/// with the void sentinel at index 0.
#[derive(Debug, Clone)]
pub struct Btf {
    pub header: BtfHeader,
    pub string_section: Vec<u8>,
    pub type_section: Vec<BtfType>,
}

/// Mathematical view of `Btf`.
pub struct BtfV {
    pub header: BtfHeader,
    pub string_section: Seq<u8>,
    pub type_section: Seq<BtfTypeV>,
}

impl View for Btf {
    type V = BtfV;

    open spec fn view(&self) -> BtfV {
        BtfV {
            header: self.header,
            string_section: self.string_section@,
            type_section: self.type_section@.map_values(|t: BtfType| t@),
        }
    }
}

/// Whether a kind's `size_or_type` word names another type, rather than a
/// byte size.
pub open spec fn kind_references_type(kind: BtfKind) -> bool {
    match kind {
        BtfKind::Ptr => true,
        BtfKind::Typedef => true,
        BtfKind::Volatile => true,
        BtfKind::Const => true,
        BtfKind::Restrict => true,
        BtfKind::Func => true,
        BtfKind::FuncProto => true,
        BtfKind::Var => true,
        BtfKind::DeclTag => true,
        BtfKind::TypeTag => true,
        BtfKind::Int => false,
        BtfKind::Array => false,
        BtfKind::Struct => false,
        BtfKind::Union => false,
        BtfKind::Enum => false,
        BtfKind::DataSec => false,
        BtfKind::Float => false,
        BtfKind::Fwd => false,
        BtfKind::Enum64 => false,
    }
}

/// Whether every member's type id is an index into a table of `count`
/// entries.
pub open spec fn member_refs_ok(members: Seq<BtfMember>, count: int) -> bool {
    forall|j: int| 0 <= j < members.len() ==> (#[trigger] members[j]).type_id < count
}

/// Whether every type reference the record retains stays inside a table of
/// `count` entries: the `size_or_type` word where the kind makes it a type
/// reference, and each struct or union member's type id.
pub open spec fn type_refs_ok(t: BtfTypeV, count: int) -> bool {
    &&& (kind_references_type(t.kind) ==> t.size_or_type < count)
    &&& match t.detail {
        BtfTypeDetailV::Struct(members) => member_refs_ok(members, count),
        _ => true,
    }
}

/// Whether every type reference retained by any record of the sequence stays
/// inside the sequence.  References inside payloads the parser consumes but
/// discards (array element types, function parameters, enum values, datasec
/// entries) carry no retained field and are outside this predicate.
pub open spec fn type_refs_in_range(types: Seq<BtfTypeV>) -> bool {
    forall|i: int| 0 <= i < types.len() ==> type_refs_ok(#[trigger] types[i], types.len() as int)
}

/// Well-formedness of a parsed BTF: the void sentinel stands at index 0, a
/// type carries a member list exactly when its kind is Struct or Union, and
/// every retained type reference is an index into the table.
pub open spec fn btf_wf(b: BtfV) -> bool {
    &&& b.type_section.len() >= 1
    &&& b.type_section[0] == void_type_v()
    &&& type_refs_in_range(b.type_section)
    &&& forall|i: int|
        0 <= i < b.type_section.len() ==> ((b.type_section[i].kind == BtfKind::Struct
            || b.type_section[i].kind == BtfKind::Union) <==> b.type_section[i].detail
            is Struct)
}

impl Btf {
    /// Well-formedness of this BTF (see `btf_wf`).
    pub open spec fn wf(self) -> bool {
        btf_wf(self@)
    }
}

/// A parsed `.BTF.ext` blob: header and the CO-RE relocation region.
#[derive(Debug, Clone)]
pub struct BtfExt {
    pub header: BtfExtHeader,
    pub core_relo_part: Vec<BtfExtInfoSec<BpfCoreRelo>>,
}

/// Mathematical view of `BtfExt`.
pub struct BtfExtV {
    pub header: BtfExtHeader,
    pub core_relo_part: Seq<BtfExtInfoSecV<BpfCoreRelo>>,
}

impl View for BtfExt {
    type V = BtfExtV;

    open spec fn view(&self) -> BtfExtV {
        BtfExtV {
            header: self.header,
            core_relo_part: self.core_relo_part@.map_values(|s: BtfExtInfoSec<BpfCoreRelo>| s@),
        }
    }
}

} // verus!
