//! The ELF data model and the bytecode rewriter: section headers indexed by
//! name, relocation decoding, map-reference relocation, and CO-RE
//! field-offset relocation.

use vstd::prelude::*;

use std::collections::HashMap;

use vstd::string::StringSliceAdditionalSpecFns;

use crate::btf::{member_offset_spec, BpfCoreRelo, Btf, BtfExtV, BtfKind, BtfTypeDetailV, BtfTypeV, BtfV};
use crate::common::{u32_le_at, u64_le_at, BpfError};

verus! {

broadcast use vstd::std_specs::hash::group_hash_axioms;

/// Size in bytes of a serialized ELF64 file header.
pub const ELF64_EHDR_SIZE: usize = 64;

/// Size in bytes of a serialized ELF64 section header.
pub const ELF64_SHDR_SIZE: usize = 64;

/// The ELF64 file header.
#[derive(Debug, Clone)]
pub struct Elf64Ehdr {
    pub e_ident: Vec<u8>,
    pub e_type: u16,
    pub e_machine: u16,
    pub e_version: u32,
    pub e_entry: u64,
    pub e_phoff: u64,
    pub e_shoff: u64,
    pub e_flags: u32,
    pub e_ehsize: u16,
    pub e_phentsize: u16,
    pub e_phnum: u16,
    pub e_shentsize: u16,
    pub e_shnum: u16,
    pub e_shstrndx: u16,
}

/// An ELF64 section header.
#[derive(Debug, Clone, Copy, PartialEq, Eq, Structural)]
pub struct Elf64Shdr {
    pub sh_name: u32,
    pub sh_type: u32,
    pub sh_flags: u64,
    pub sh_addr: u64,
    pub sh_offset: u64,
    pub sh_size: u64,
    pub sh_link: u32,
    pub sh_info: u32,
    pub sh_addralign: u64,
    pub sh_entsize: u64,
}

/// The section header whose 64 bytes start at `offset` of `data`.
pub open spec fn shdr_spec(data: Seq<u8>, offset: int) -> Elf64Shdr {
    Elf64Shdr {
        sh_name: u32_le_at(data, offset),
        sh_type: u32_le_at(data, offset + 4),
        sh_flags: u64_le_at(data, offset + 8),
        sh_addr: u64_le_at(data, offset + 16),
        sh_offset: u64_le_at(data, offset + 24),
        sh_size: u64_le_at(data, offset + 32),
        sh_link: u32_le_at(data, offset + 40),
        sh_info: u32_le_at(data, offset + 44),
        sh_addralign: u64_le_at(data, offset + 48),
        sh_entsize: u64_le_at(data, offset + 56),
    }
}

/// Reads the section header whose 64 bytes start at `offset`.
pub fn read_shdr(data: &[u8], offset: usize) -> (r: Option<Elf64Shdr>)
    ensures
        match r {
            Some(sh) => offset + ELF64_SHDR_SIZE <= data@.len() && sh == shdr_spec(
                data@,
                offset as int,
            ),
            None => offset + ELF64_SHDR_SIZE > data@.len(),
        },
{
    if data.len() < ELF64_SHDR_SIZE || offset > data.len() - ELF64_SHDR_SIZE {
        return None;
    }
    Some(
        Elf64Shdr {
            sh_name: crate::common::read_u32_le(data, offset).unwrap(),
            sh_type: crate::common::read_u32_le(data, offset + 4).unwrap(),
            sh_flags: crate::common::read_u64_le(data, offset + 8).unwrap(),
            sh_addr: crate::common::read_u64_le(data, offset + 16).unwrap(),
            sh_offset: crate::common::read_u64_le(data, offset + 24).unwrap(),
            sh_size: crate::common::read_u64_le(data, offset + 32).unwrap(),
            sh_link: crate::common::read_u32_le(data, offset + 40).unwrap(),
            sh_info: crate::common::read_u32_le(data, offset + 44).unwrap(),
            sh_addralign: crate::common::read_u64_le(data, offset + 48).unwrap(),
            sh_entsize: crate::common::read_u64_le(data, offset + 56).unwrap(),
        },
    )
}

/// A section of the object, carrying its resolved name.
#[derive(Debug, Clone)]
pub struct NamedSection {
    pub name: Vec<u8>,
    pub shdr: Elf64Shdr,
}

/// Mathematical view of `NamedSection`.
pub struct NamedSectionV {
    pub name: Seq<u8>,
    pub shdr: Elf64Shdr,
}

impl View for NamedSection {
    type V = NamedSectionV;

    open spec fn view(&self) -> NamedSectionV {
        NamedSectionV { name: self.name@, shdr: self.shdr }
    }
}

/// Mathematical view of `Elf64Ehdr`.
pub struct Elf64EhdrV {
    pub e_ident: Seq<u8>,
    pub e_type: u16,
    pub e_machine: u16,
    pub e_version: u32,
    pub e_entry: u64,
    pub e_phoff: u64,
    pub e_shoff: u64,
    pub e_flags: u32,
    pub e_ehsize: u16,
    pub e_phentsize: u16,
    pub e_phnum: u16,
    pub e_shentsize: u16,
    pub e_shnum: u16,
    pub e_shstrndx: u16,
}

impl View for Elf64Ehdr {
    type V = Elf64EhdrV;

    open spec fn view(&self) -> Elf64EhdrV {
        Elf64EhdrV {
            e_ident: self.e_ident@,
            e_type: self.e_type,
            e_machine: self.e_machine,
            e_version: self.e_version,
            e_entry: self.e_entry,
            e_phoff: self.e_phoff,
            e_shoff: self.e_shoff,
            e_flags: self.e_flags,
            e_ehsize: self.e_ehsize,
            e_phentsize: self.e_phentsize,
            e_phnum: self.e_phnum,
            e_shentsize: self.e_shentsize,
            e_shnum: self.e_shnum,
            e_shstrndx: self.e_shstrndx,
        }
    }
}

/// A parsed ELF object: the owned bytes, the file header, the raw
/// section-name string table, and the sections indexed by name.
#[derive(Debug, Clone)]
pub struct Elf {
    pub data: Vec<u8>,
    pub ehdr: Elf64Ehdr,
    pub section_name_table: Option<Vec<u8>>,
    pub shdrs: Vec<NamedSection>,
}

/// Mathematical view of `Elf`.
pub struct ElfV {
    pub data: Seq<u8>,
    pub ehdr: Elf64EhdrV,
    pub section_name_table: Option<Seq<u8>>,
    pub shdrs: Seq<NamedSectionV>,
}

impl View for Elf {
    type V = ElfV;

    open spec fn view(&self) -> ElfV {
        ElfV {
            data: self.data@,
            ehdr: self.ehdr@,
            section_name_table: match self.section_name_table {
                Some(t) => Some(t@),
                None => None,
            },
            shdrs: sections_view(self.shdrs@),
        }
    }
}

/// Whether the section's byte range lies fully inside a buffer of `len`
/// bytes.
pub open spec fn section_in_bounds(sh: Elf64Shdr, len: int) -> bool {
    sh.sh_offset + sh.sh_size <= len
}

impl Elf {
    /// Well-formedness of a parsed object: every named section's range lies
    /// inside the owned bytes, and no two entries share a name.
    pub open spec fn wf(self) -> bool {
        &&& forall|i: int|
            0 <= i < self.shdrs@.len() ==> section_in_bounds(
                #[trigger] self.shdrs@[i].shdr,
                self.data@.len() as int,
            )
        &&& forall|i: int, j: int|
            0 <= i < j < self.shdrs@.len() ==> self.shdrs@[i].name@ != self.shdrs@[j].name@
    }
}

/// The header of the first section named `name`, if any.
pub open spec fn find_section(sections: Seq<NamedSectionV>, name: Seq<u8>) -> Option<Elf64Shdr>
    decreases sections.len(),
{
    if sections.len() == 0 {
        None
    } else if sections[0].name == name {
        Some(sections[0].shdr)
    } else {
        find_section(sections.drop_first(), name)
    }
}

/// The views of a sequence of named sections.
pub open spec fn sections_view(sections: Seq<NamedSection>) -> Seq<NamedSectionV> {
    sections.map_values(|s: NamedSection| s@)
}

/// Decides equality of two byte strings.
pub fn bytes_eq(a: &[u8], b: &[u8]) -> (r: bool)
    ensures
        r == (a@ == b@),
{
    if a.len() != b.len() {
        return false;
    }
    let n = a.len();
    let mut i: usize = 0;
    while i < n
        invariant
            0 <= i <= n,
            n == a@.len() == b@.len(),
            forall|j: int| 0 <= j < i ==> a@[j] == b@[j],
        decreases n - i,
    {
        if a[i] != b[i] {
            return false;
        }
        i = i + 1;
    }
    proof {
        assert(a@ =~= b@);
    }
    true
}

impl Elf {
    /// Looks up the first section named `section_name`.
    pub fn find_named_section(&self, section_name: &[u8]) -> (r: Option<&NamedSection>)
        ensures
            match r {
                Some(s) => find_section(sections_view(self.shdrs@), section_name@) == Some(s.shdr)
                    && s.name@ == section_name@,
                None => find_section(sections_view(self.shdrs@), section_name@) is None,
            },
    {
        let n = self.shdrs.len();
        proof {
            assert(sections_view(self.shdrs@).skip(0) =~= sections_view(self.shdrs@));
        }
        let mut i: usize = 0;
        while i < n
            invariant
                0 <= i <= n,
                n == self.shdrs@.len(),
                find_section(sections_view(self.shdrs@), section_name@) == find_section(
                    sections_view(self.shdrs@).skip(i as int),
                    section_name@,
                ),
            decreases n - i,
        {
            let entry = &self.shdrs[i];
            proof {
                assert(sections_view(self.shdrs@).skip(i as int)[0] == self.shdrs@[i as int]@);
            }
            if bytes_eq(entry.name.as_slice(), section_name) {
                return Some(entry);
            }
            proof {
                assert(sections_view(self.shdrs@).skip(i as int).drop_first() =~= sections_view(
                    self.shdrs@,
                ).skip(i as int + 1));
            }
            i = i + 1;
        }
        proof {
            assert(sections_view(self.shdrs@).skip(n as int) =~= Seq::<NamedSectionV>::empty());
        }
        None
    }

    /// The body bytes `[sh_offset, sh_offset + sh_size)` of the first section
    /// named `section_name`, or nothing when the name is absent or the range
    /// exceeds the owned bytes.
    pub fn get_section_body(&self, section_name: &str) -> (r: Option<Vec<u8>>)
        ensures
            match (r, find_section(sections_view(self.shdrs@), section_name.spec_bytes())) {
                (Some(body), Some(sh)) => section_in_bounds(sh, self.data@.len() as int)
                    && body@ == self.data@.subrange(
                    sh.sh_offset as int,
                    sh.sh_offset + sh.sh_size,
                ),
                (None, Some(sh)) => !section_in_bounds(sh, self.data@.len() as int),
                (None, None) => true,
                (Some(_), None) => false,
            },
    {
        let shdr = match self.find_named_section(section_name.as_bytes()) {
            Some(entry) => entry.shdr,
            None => {
                return None;
            },
        };
        let len64 = self.data.len() as u64;
        if shdr.sh_offset > len64 || shdr.sh_size > len64 - shdr.sh_offset {
            return None;
        }
        let start = shdr.sh_offset as usize;
        let end = start + shdr.sh_size as usize;
        let mut body: Vec<u8> = Vec::new();
        body.extend_from_slice(&self.data.as_slice()[start..end]);
        proof {
            assert(body@ =~= self.data@.subrange(shdr.sh_offset as int, shdr.sh_offset + shdr.sh_size));
        }
        Some(body)
    }
}

/// The closed set of BPF relocation kinds.
#[derive(Debug, Clone, Copy, PartialEq, Eq, Structural)]
pub enum BpfRelocationType {
    RBpfNone,
    RBpf64_64,
    RBpf64Abs64,
    RBpf64Abs32,
    RBpf64Nodyld32,
    RBpf64_32,
}

/// The relocation kind encoded by `code` in the low 32 bits of `r_info`, if
/// any; unknown codes are skipped at decode time.
pub open spec fn rel_kind_of(code: u32) -> Option<BpfRelocationType> {
    if code == 0 {
        Some(BpfRelocationType::RBpfNone)
    } else if code == 1 {
        Some(BpfRelocationType::RBpf64_64)
    } else if code == 2 {
        Some(BpfRelocationType::RBpf64Abs64)
    } else if code == 3 {
        Some(BpfRelocationType::RBpf64Abs32)
    } else if code == 4 {
        Some(BpfRelocationType::RBpf64Nodyld32)
    } else if code == 10 {
        Some(BpfRelocationType::RBpf64_32)
    } else {
        None
    }
}

/// A decoded relocation record: instruction offset inside the target
/// section, relocation kind, and symbol table index.
#[derive(Debug, Clone, Copy, PartialEq, Eq, Structural)]
pub struct Elf64Rel {
    pub r_offset: u64,
    pub rel_type: BpfRelocationType,
    pub sym_idx: u32,
}

/// The mathematical decode of the relocation records in `[start, end)`:
/// records are read in strides of 16 bytes against the whole buffer, records
/// with unknown kind codes are dropped, and a record that does not fit in
/// the buffer fails the whole decode.
pub open spec fn parse_rels(data: Seq<u8>, start: int, end: int) -> Option<Seq<Elf64Rel>>
    decreases (if start < end { end - start } else { 0 }),
{
    if start >= end {
        Some(Seq::empty())
    } else if start + 16 <= data.len() {
        let r_offset = u64_le_at(data, start);
        let code = u32_le_at(data, start + 8);
        let sym_idx = u32_le_at(data, start + 12);
        match parse_rels(data, start + 16, end) {
            None => None,
            Some(rest) => match rel_kind_of(code) {
                Some(kind) => Some(seq![Elf64Rel { r_offset, rel_type: kind, sym_idx }] + rest),
                None => Some(rest),
            },
        }
    } else {
        None
    }
}

impl Elf {
    /// Decodes the first section named `section_name` as relocation records:
    /// 16-byte strides, `r_offset` then `r_info` whose low 32 bits are the
    /// kind and high 32 bits the symbol index.  Unknown kinds are dropped;
    /// nothing is returned when the name is absent, the section range
    /// exceeds the owned bytes, or a record does not fit.
    #[verifier::loop_isolation(false)]
    pub fn parse_relocation_section(&self, section_name: &str) -> (r: Option<Vec<Elf64Rel>>)
        ensures
            match find_section(sections_view(self.shdrs@), section_name.spec_bytes()) {
                Some(sh) => {
                    if section_in_bounds(sh, self.data@.len() as int) {
                        match (r, parse_rels(
                            self.data@,
                            sh.sh_offset as int,
                            sh.sh_offset + sh.sh_size,
                        )) {
                            (Some(rels), Some(spec_rels)) => rels@ == spec_rels,
                            (None, None) => true,
                            _ => false,
                        }
                    } else {
                        r is None
                    }
                },
                None => r is None,
            },
    {
        let shdr = match self.find_named_section(section_name.as_bytes()) {
            Some(entry) => entry.shdr,
            None => {
                return None;
            },
        };
        let len64 = self.data.len() as u64;
        if shdr.sh_offset > len64 || shdr.sh_size > len64 - shdr.sh_offset {
            return None;
        }
        let start = shdr.sh_offset as usize;
        let end = start + shdr.sh_size as usize;
        let ghost start0: int = start as int;
        let mut relocations: Vec<Elf64Rel> = Vec::new();
        proof {
            match parse_rels(self.data@, start0, end as int) {
                Some(rest) => {
                    assert(relocations@ + rest =~= rest);
                },
                None => {},
            }
        }
        let mut cur: usize = start;
        while cur < end
            invariant
                start0 <= cur as int,
                match parse_rels(self.data@, cur as int, end as int) {
                    Some(rest) => parse_rels(self.data@, start0, end as int) == Some(
                        relocations@ + rest,
                    ),
                    None => parse_rels(self.data@, start0, end as int) is None,
                },
            decreases (if (cur as int) < end as int { end as int - cur as int } else { 0 }),
        {
            let data_slice = self.data.as_slice();
            let r_offset = match crate::common::read_u64_le(data_slice, cur) {
                Some(v) => v,
                None => {
                    return None;
                },
            };
            let code = match crate::common::read_u32_le(data_slice, cur + 8) {
                Some(v) => v,
                None => {
                    return None;
                },
            };
            let sym_idx = match crate::common::read_u32_le(data_slice, cur + 12) {
                Some(v) => v,
                None => {
                    return None;
                },
            };
            let ghost old_rels = relocations@;
            let kind = match code {
                0 => Some(BpfRelocationType::RBpfNone),
                1 => Some(BpfRelocationType::RBpf64_64),
                2 => Some(BpfRelocationType::RBpf64Abs64),
                3 => Some(BpfRelocationType::RBpf64Abs32),
                4 => Some(BpfRelocationType::RBpf64Nodyld32),
                10 => Some(BpfRelocationType::RBpf64_32),
                _ => None,
            };
            let next = cur + 16;
            match kind {
                Some(k) => {
                    let rel = Elf64Rel { r_offset, rel_type: k, sym_idx };
                    relocations.push(rel);
                    proof {
                        match parse_rels(self.data@, next as int, end as int) {
                            Some(rest) => {
                                assert(parse_rels(self.data@, cur as int, end as int) == Some(
                                    seq![rel] + rest,
                                ));
                                assert(relocations@ + rest =~= old_rels + (seq![rel] + rest));
                            },
                            None => {},
                        }
                    }
                },
                None => {
                    proof {
                        match parse_rels(self.data@, next as int, end as int) {
                            Some(rest) => {
                                assert(parse_rels(self.data@, cur as int, end as int) == Some(
                                    rest,
                                ));
                            },
                            None => {},
                        }
                    }
                },
            }
            cur = next;
        }
        proof {
            assert(parse_rels(self.data@, cur as int, end as int) == Some(Seq::<Elf64Rel>::empty()));
            assert(relocations@ + Seq::<Elf64Rel>::empty() =~= relocations@);
        }
        Some(relocations)
    }
}

/// The low 32 bits of a kernel-assigned descriptor, as the immediate field
/// holds them.
pub open spec fn low32_of_fd(addr: i64) -> u32 {
    ((addr as u64) & 0xffff_ffff) as u32
}

/// Addition modulo 2^32.
pub open spec fn wrap_add_u32(a: u32, b: u32) -> u32 {
    ((a + b) % 0x1_0000_0000) as u32
}

/// `data` with the 32-bit value `v` stored little-endian at `i`.
pub open spec fn store_u32_le(data: Seq<u8>, i: int, v: u32) -> Seq<u8> {
    data.update(i, (v & 0xff) as u8).update(i + 1, ((v >> 8) & 0xff) as u8).update(
        i + 2,
        ((v >> 16) & 0xff) as u8,
    ).update(i + 3, ((v >> 24) & 0xff) as u8)
}

/// `data` with the 16-bit value `v` stored little-endian at `i`.
pub open spec fn store_u16_le(data: Seq<u8>, i: int, v: u16) -> Seq<u8> {
    data.update(i, (v & 0xff) as u8).update(i + 1, ((v >> 8) & 0xff) as u8)
}

/// The effect of one relocation record on the bytecode: a `RBpf64_64` record
/// whose symbol the descriptor map knows ORs `0x10` into byte `r_offset + 1`
/// (marking the source register as a map file descriptor) and adds the
/// descriptor's low 32 bits into the little-endian immediate at
/// `r_offset + 4`, each part skipped when it does not fit in the buffer.
/// Records of kind `RBpfNone` or with unknown symbols change nothing.
pub open spec fn apply_rel(data: Seq<u8>, rel: Elf64Rel, rel_map: Map<u32, i64>) -> Seq<u8> {
    if rel.rel_type is RBpf64_64 && rel_map.contains_key(rel.sym_idx) {
        let off = rel.r_offset as int;
        let d1 = if off + 1 < data.len() {
            data.update(off + 1, data[off + 1] | 0x10)
        } else {
            data
        };
        if off + 8 <= d1.len() {
            let old_word = u32_le_at(d1, off + 4);
            store_u32_le(d1, off + 4, wrap_add_u32(old_word, low32_of_fd(rel_map[rel.sym_idx])))
        } else {
            d1
        }
    } else {
        data
    }
}

/// The effect of a sequence of relocation records, applied in order.
pub open spec fn apply_rels(data: Seq<u8>, rels: Seq<Elf64Rel>, rel_map: Map<u32, i64>) -> Seq<u8>
    decreases rels.len(),
{
    if rels.len() == 0 {
        data
    } else {
        apply_rels(apply_rel(data, rels[0], rel_map), rels.drop_first(), rel_map)
    }
}

/// Applying records one more at the end composes.
pub proof fn lemma_apply_rels_snoc(
    data: Seq<u8>,
    rels: Seq<Elf64Rel>,
    rel: Elf64Rel,
    rel_map: Map<u32, i64>,
)
    ensures
        apply_rels(data, rels.push(rel), rel_map) == apply_rel(
            apply_rels(data, rels, rel_map),
            rel,
            rel_map,
        ),
    decreases rels.len(),
{
    if rels.len() == 0 {
        assert(rels.push(rel)[0] == rel);
        assert(rels.push(rel).drop_first() =~= Seq::<Elf64Rel>::empty());
        assert(apply_rels(data, rels, rel_map) == data);
        assert(apply_rels(apply_rel(data, rel, rel_map), rels.push(rel).drop_first(), rel_map)
            == apply_rel(data, rel, rel_map));
    } else {
        assert(rels.push(rel)[0] == rels[0]);
        assert(rels.push(rel).drop_first() =~= rels.drop_first().push(rel));
        lemma_apply_rels_snoc(apply_rel(data, rels[0], rel_map), rels.drop_first(), rel, rel_map);
    }
}

/// Whether every record's kind is one the rewriter implements: `RBpfNone`
/// (ignored) or `RBpf64_64` (applied).
pub open spec fn rels_supported(rels: Seq<Elf64Rel>) -> bool {
    forall|i: int|
        0 <= i < rels.len() ==> ((#[trigger] rels[i].rel_type) is RBpfNone
            || rels[i].rel_type is RBpf64_64)
}

/// Applies map relocations to the bytecode: for each `RBpf64_64` record
/// whose symbol index `rel_map` knows, marks the instruction's source
/// register as a map file descriptor and adds the descriptor into its
/// immediate.  A record of any other kind but `RBpfNone` is unimplemented:
/// the call fails and the bytecode is left unchanged.
#[verifier::loop_isolation(false)]
pub fn relocate(data: &mut Vec<u8>, rel_section: &[Elf64Rel], rel_map: &HashMap<u32, i64>) -> (r:
    Result<(), BpfError>)
    ensures
        r is Ok <==> rels_supported(rel_section@),
        r is Ok ==> final(data)@ == apply_rels(old(data)@, rel_section@, rel_map@),
        r is Err ==> final(data)@ == old(data)@ && r == Err::<(), BpfError>(
            BpfError::Unimplemented,
        ),
{
    let n = rel_section.len();
    let mut i: usize = 0;
    while i < n
        invariant
            0 <= i <= n,
            forall|j: int|
                0 <= j < i ==> ((#[trigger] rel_section@[j].rel_type) is RBpfNone
                    || rel_section@[j].rel_type is RBpf64_64),
        decreases n - i,
    {
        match rel_section[i].rel_type {
            BpfRelocationType::RBpfNone => {},
            BpfRelocationType::RBpf64_64 => {},
            _ => {
                return Err(BpfError::Unimplemented);
            },
        }
        i = i + 1;
    }
    let mut i: usize = 0;
    while i < n
        invariant
            0 <= i <= n,
            data@ == apply_rels(old(data)@, rel_section@.take(i as int), rel_map@),
        decreases n - i,
    {
        let rel = rel_section[i];
        let ghost data_pre = data@;
        match rel.rel_type {
            BpfRelocationType::RBpf64_64 => {
                match rel_map.get(&rel.sym_idx) {
                    Some(addr_ref) => {
                        let addr: i64 = *addr_ref;
                        let len64 = data.len() as u64;
                        // mark the source register: the immediate is a map fd
                        if len64 >= 2 && rel.r_offset < len64 - 1 {
                            let off1 = rel.r_offset as usize + 1;
                            let value = data[off1];
                            data[off1] = value | 0x10;
                        }
                        // add the descriptor into the 32-bit immediate
                        if len64 >= 8 && rel.r_offset <= len64 - 8 {
                            let off4 = rel.r_offset as usize + 4;
                            let old_word = crate::common::read_u32_le(
                                data.as_slice(),
                                off4,
                            ).unwrap();
                            let fd_low: u32 = #[verifier::truncate] (addr as u32);
                            proof {
                                assert((addr as u32) == ((addr as u64) & 0xffff_ffff) as u32)
                                    by (bit_vector);
                                assert(fd_low == low32_of_fd(addr));
                            }
                            let new_word = old_word.wrapping_add(fd_low);
                            proof {
                                assert(new_word == wrap_add_u32(old_word, fd_low));
                            }
                            data[off4] = (new_word & 0xff) as u8;
                            data[off4 + 1] = ((new_word >> 8) & 0xff) as u8;
                            data[off4 + 2] = ((new_word >> 16) & 0xff) as u8;
                            data[off4 + 3] = ((new_word >> 24) & 0xff) as u8;
                        }
                        proof {
                            assert(data@ == apply_rel(data_pre, rel, rel_map@));
                        }
                    },
                    None => {
                        proof {
                            assert(data@ == apply_rel(data_pre, rel, rel_map@));
                        }
                    },
                }
            },
            _ => {
                proof {
                    assert(data@ == apply_rel(data_pre, rel, rel_map@));
                }
            },
        }
        proof {
            assert(rel_section@.take(i as int).push(rel) =~= rel_section@.take(i as int + 1));
            lemma_apply_rels_snoc(old(data)@, rel_section@.take(i as int), rel, rel_map@);
        }
        i = i + 1;
    }
    proof {
        assert(rel_section@.take(n as int) =~= rel_section@);
    }
    Ok(())
}

/// After a `RBpf64_64` relocation at a site that lies inside the bytecode,
/// byte `r_offset + 1` has bit 4 set, and the little-endian 32-bit word at
/// `r_offset + 4` equals the previous word plus the descriptor's low 32 bits,
/// modulo 2^32.
pub proof fn lemma_map_relocation_site(data: Seq<u8>, rel: Elf64Rel, rel_map: Map<u32, i64>)
    requires
        rel.rel_type is RBpf64_64,
        rel_map.contains_key(rel.sym_idx),
        rel.r_offset + 8 <= data.len(),
    ensures
        ({
            let patched = apply_rel(data, rel, rel_map);
            let off = rel.r_offset as int;
            &&& patched.len() == data.len()
            &&& patched[off + 1] & 0x10 == 0x10
            &&& u32_le_at(patched, off + 4) == wrap_add_u32(
                u32_le_at(data, off + 4),
                low32_of_fd(rel_map[rel.sym_idx]),
            )
        }),
{
    let off = rel.r_offset as int;
    let d1 = data.update(off + 1, data[off + 1] | 0x10);
    let old_word = u32_le_at(d1, off + 4);
    assert(old_word == u32_le_at(data, off + 4));
    let v = wrap_add_u32(old_word, low32_of_fd(rel_map[rel.sym_idx]));
    let patched = store_u32_le(d1, off + 4, v);
    assert(apply_rel(data, rel, rel_map) == patched);
    let b = data[off + 1];
    assert((b | 0x10) & 0x10 == 0x10) by (bit_vector);
    assert(patched[off + 1] == b | 0x10);
    lemma_store_u32_le_round_trip(d1, off + 4, v);
}

/// Storing a 32-bit word little-endian and reading it back yields the word.
pub proof fn lemma_store_u32_le_round_trip(data: Seq<u8>, i: int, v: u32)
    requires
        0 <= i,
        i + 4 <= data.len(),
    ensures
        u32_le_at(store_u32_le(data, i, v), i) == v,
{
    let s = store_u32_le(data, i, v);
    assert(s[i] == (v & 0xff) as u8);
    assert(s[i + 1] == ((v >> 8) & 0xff) as u8);
    assert(s[i + 2] == ((v >> 16) & 0xff) as u8);
    assert(s[i + 3] == ((v >> 24) & 0xff) as u8);
    assert((((v & 0xff) as u8) as u32) | ((((v >> 8) & 0xff) as u8) as u32) << 8 | ((((v >> 16)
        & 0xff) as u8) as u32) << 16 | ((((v >> 24) & 0xff) as u8) as u32) << 24 == v)
        by (bit_vector);
}

/// An entry of the struct-name index of a BTF: the struct's name and the
/// index of its type record.
#[derive(Debug, Clone)]
pub struct StructEntry {
    pub name: Vec<u8>,
    pub type_idx: usize,
}

/// Mathematical view of `StructEntry`.
pub struct StructEntryV {
    pub name: Seq<u8>,
    pub type_idx: int,
}

impl View for StructEntry {
    type V = StructEntryV;

    open spec fn view(&self) -> StructEntryV {
        StructEntryV { name: self.name@, type_idx: self.type_idx as int }
    }
}

/// The views of a sequence of struct entries.
pub open spec fn entries_view(entries: Seq<StructEntry>) -> Seq<StructEntryV> {
    entries.map_values(|e: StructEntry| e@)
}

/// The struct-name index built from the type records `types[i..]`: one entry
/// per record of Struct kind, in order, its name resolved from the string
/// table.
pub open spec fn struct_entries_from(types: Seq<BtfTypeV>, strings: Seq<u8>, i: int) -> Result<
    Seq<StructEntryV>,
    BpfError,
>
    decreases types.len() - i,
{
    if i < 0 || i >= types.len() {
        Ok(Seq::empty())
    } else if types[i].kind == BtfKind::Struct {
        match crate::common::name_result(strings, types[i].name_off as int) {
            Err(e) => Err(e),
            Ok(name) => match struct_entries_from(types, strings, i + 1) {
                Err(e) => Err(e),
                Ok(rest) => Ok(seq![StructEntryV { name, type_idx: i }] + rest),
            },
        }
    } else {
        struct_entries_from(types, strings, i + 1)
    }
}

/// The struct-name index of a BTF.
pub open spec fn struct_entries(b: BtfV) -> Result<Seq<StructEntryV>, BpfError> {
    struct_entries_from(b.type_section, b.string_section, 0)
}

/// Every entry of the struct-name index points at a type record of Struct
/// kind inside the type sequence.
pub proof fn lemma_struct_entries_valid(types: Seq<BtfTypeV>, strings: Seq<u8>, i: int)
    requires
        struct_entries_from(types, strings, i) is Ok,
    ensures
        forall|k: int|
            0 <= k < struct_entries_from(types, strings, i).unwrap().len() ==> {
                let e = #[trigger] struct_entries_from(types, strings, i).unwrap()[k];
                &&& 0 <= e.type_idx < types.len()
                &&& types[e.type_idx].kind == BtfKind::Struct
            },
    decreases types.len() - i,
{
    if i < 0 || i >= types.len() {
    } else {
        lemma_struct_entries_valid(types, strings, i + 1);
        let rest = struct_entries_from(types, strings, i + 1).unwrap();
        let whole = struct_entries_from(types, strings, i).unwrap();
        if types[i].kind == BtfKind::Struct {
            assert forall|k: int| 0 <= k < whole.len() implies {
                let e = #[trigger] whole[k];
                &&& 0 <= e.type_idx < types.len()
                &&& types[e.type_idx].kind == BtfKind::Struct
            } by {
                if k >= 1 {
                    assert(whole[k] == rest[k - 1]);
                }
            }
        }
    }
}

/// Builds the struct-name index of a BTF: one entry per Struct type record,
/// in order.
#[verifier::loop_isolation(false)]
pub fn extract_struct(btf: &Btf) -> (r: Result<Vec<StructEntry>, BpfError>)
    ensures
        match r {
            Ok(entries) => struct_entries(btf@) == Ok::<Seq<StructEntryV>, BpfError>(
                entries_view(entries@),
            ),
            Err(e) => struct_entries(btf@) == Err::<Seq<StructEntryV>, BpfError>(e),
        },
{
    let n = btf.type_section.len();
    let mut entries: Vec<StructEntry> = Vec::new();
    proof {
        match struct_entries_from(btf@.type_section, btf@.string_section, 0) {
            Ok(rest) => {
                assert(entries_view(entries@) + rest =~= rest);
            },
            Err(_) => {},
        }
    }
    let mut i: usize = 0;
    while i < n
        invariant
            0 <= i <= n,
            n == btf.type_section@.len(),
            match struct_entries_from(btf@.type_section, btf@.string_section, i as int) {
                Ok(rest) => struct_entries(btf@) == Ok::<Seq<StructEntryV>, BpfError>(
                    entries_view(entries@) + rest,
                ),
                Err(e) => struct_entries(btf@) == Err::<Seq<StructEntryV>, BpfError>(e),
            },
        decreases n - i,
    {
        let t = &btf.type_section[i];
        proof {
            assert(btf@.type_section[i as int] == btf.type_section@[i as int]@);
        }
        if matches!(t.kind, BtfKind::Struct) {
            let name = match crate::common::get_name_from_string_section(
                btf.string_section.as_slice(),
                t.name_off as usize,
            ) {
                Ok(v) => v,
                Err(e) => {
                    return Err(e);
                },
            };
            let ghost old_entries = entries_view(entries@);
            let entry = StructEntry { name, type_idx: i };
            entries.push(entry);
            proof {
                assert(entries_view(entries@) =~= old_entries.push(entry@));
                match struct_entries_from(btf@.type_section, btf@.string_section, i as int + 1) {
                    Ok(rest) => {
                        assert(entries_view(entries@) + rest =~= old_entries + (seq![entry@]
                            + rest));
                    },
                    Err(_) => {},
                }
            }
        }
        i = i + 1;
    }
    proof {
        assert(entries_view(entries@) + Seq::<StructEntryV>::empty() =~= entries_view(entries@));
    }
    Ok(entries)
}

/// The type index filed under `name`, searching from the most recently added
/// entry backwards, so that of two structs sharing a name the later one
/// wins, as a map built by repeated insertion would have it.
pub open spec fn find_struct_entry(entries: Seq<StructEntryV>, name: Seq<u8>) -> Option<int>
    decreases entries.len(),
{
    if entries.len() == 0 {
        None
    } else if entries.last().name == name {
        Some(entries.last().type_idx)
    } else {
        find_struct_entry(entries.drop_last(), name)
    }
}

/// A found index belongs to some entry carrying the name.
pub proof fn lemma_find_struct_entry_some(entries: Seq<StructEntryV>, name: Seq<u8>)
    requires
        find_struct_entry(entries, name) is Some,
    ensures
        exists|k: int|
            0 <= k < entries.len() && (#[trigger] entries[k]).name == name && entries[k].type_idx
                == find_struct_entry(entries, name).unwrap(),
    decreases entries.len(),
{
    if entries.len() > 0 && entries.last().name != name {
        lemma_find_struct_entry_some(entries.drop_last(), name);
        let k = choose|k: int|
            0 <= k < entries.drop_last().len() && (#[trigger] entries.drop_last()[k]).name == name
                && entries.drop_last()[k].type_idx == find_struct_entry(
                entries.drop_last(),
                name,
            ).unwrap();
        assert(entries[k] == entries.drop_last()[k]);
    }
}

/// Looks `name` up in the struct-name index, later entries first.
pub fn lookup_struct_entry(entries: &Vec<StructEntry>, name: &[u8]) -> (r: Option<usize>)
    ensures
        match r {
            Some(idx) => find_struct_entry(entries_view(entries@), name@) == Some(idx as int),
            None => find_struct_entry(entries_view(entries@), name@) is None,
        },
{
    let n = entries.len();
    proof {
        assert(entries_view(entries@).take(n as int) =~= entries_view(entries@));
    }
    let mut j: usize = n;
    while j > 0
        invariant
            0 <= j <= n,
            n == entries@.len(),
            find_struct_entry(entries_view(entries@), name@) == find_struct_entry(
                entries_view(entries@).take(j as int),
                name@,
            ),
        decreases j,
    {
        j = j - 1;
        proof {
            assert(entries_view(entries@).take(j as int + 1).last() == entries_view(entries@)[
                j as int
            ]);
        }
        if bytes_eq(entries[j].name.as_slice(), name) {
            return Some(entries[j].type_idx);
        }
        proof {
            assert(entries_view(entries@).take(j as int + 1).drop_last() =~= entries_view(
                entries@,
            ).take(j as int));
        }
    }
    proof {
        assert(entries_view(entries@).take(0) =~= Seq::<StructEntryV>::empty());
    }
    None
}

/// The first member of `members` whose name, resolved from the string table,
/// equals `name`; or nothing; or the error met while resolving a name on the
/// way.
pub open spec fn find_member_by_name(
    members: Seq<crate::btf::BtfMember>,
    strings: Seq<u8>,
    name: Seq<u8>,
) -> Result<Option<crate::btf::BtfMember>, BpfError>
    decreases members.len(),
{
    if members.len() == 0 {
        Ok(None)
    } else {
        match crate::common::name_result(strings, members[0].name_off as int) {
            Err(e) => Err(e),
            Ok(n) => {
                if n == name {
                    Ok(Some(members[0]))
                } else {
                    find_member_by_name(members.drop_first(), strings, name)
                }
            },
        }
    }
}

/// The bit offsets a `FIELD_BYTE_OFFSET` relocation resolves: the field's
/// offset in the program BTF, and the same-named field's offset inside the
/// same-named struct of the target BTF.  The access string's dotted tail
/// names the field by its decimal index into the program struct.
pub open spec fn relo_offsets(
    relo: BpfCoreRelo,
    prog: BtfV,
    vml: BtfV,
    entries: Seq<StructEntryV>,
) -> Result<(u32, u32), BpfError> {
    match crate::common::name_result(prog.string_section, relo.access_str_off as int) {
        Err(e) => Err(e),
        Ok(access) => {
            if !(relo.kind is FieldByteOffset) {
                Err(BpfError::Unimplemented)
            } else if access.len() < 2 {
                Err(BpfError::Unimplemented)
            } else {
                match crate::common::parse_dec(access.skip(2)) {
                    None => Err(BpfError::Unimplemented),
                    Some(fidx) => {
                        if fidx > usize::MAX {
                            Err(BpfError::Unimplemented)
                        } else if relo.type_id >= prog.type_section.len() {
                            Err(BpfError::OutOfBounds)
                        } else {
                            let t = prog.type_section[relo.type_id as int];
                            match t.detail {
                                BtfTypeDetailV::Struct(members) => {
                                    match crate::common::name_result(
                                        prog.string_section,
                                        t.name_off as int,
                                    ) {
                                        Err(e) => Err(e),
                                        Ok(struct_name) => {
                                            if fidx >= members.len() {
                                                Err(BpfError::FormatMismatch)
                                            } else {
                                                let field = members[fidx];
                                                match crate::common::name_result(
                                                    prog.string_section,
                                                    field.name_off as int,
                                                ) {
                                                    Err(e) => Err(e),
                                                    Ok(field_name) => {
                                                        let prog_off = member_offset_spec(
                                                            field.offset,
                                                            t.kind_flag,
                                                        );
                                                        match find_struct_entry(
                                                            entries,
                                                            struct_name,
                                                        ) {
                                                            None => Err(
                                                                BpfError::UnresolvedCoreRelo,
                                                            ),
                                                            Some(vidx) => {
                                                                let vt =
                                                                    vml.type_section[vidx];
                                                                match vt.detail {
                                                                    BtfTypeDetailV::Struct(
                                                                        vmembers,
                                                                    ) => {
                                                                        match find_member_by_name(
                                                                            vmembers,
                                                                            vml.string_section,
                                                                            field_name,
                                                                        ) {
                                                                            Err(e) => Err(e),
                                                                            Ok(None) => Err(
                                                                                BpfError::UnresolvedCoreRelo,
                                                                            ),
                                                                            Ok(Some(vfield)) => Ok(
                                                                                (
                                                                                    prog_off,
                                                                                    member_offset_spec(
                                                                                        vfield.offset,
                                                                                        vt.kind_flag,
                                                                                    ),
                                                                                ),
                                                                            ),
                                                                        }
                                                                    },
                                                                    _ => Err(
                                                                        BpfError::Unimplemented,
                                                                    ),
                                                                }
                                                            },
                                                        }
                                                    },
                                                }
                                            }
                                        },
                                    }
                                },
                                _ => Err(BpfError::Unimplemented),
                            }
                        }
                    },
                }
            }
        },
    }
}

/// The patch one CO-RE relocation record demands of the bytecode: nothing
/// when the program and target offsets agree, else the target's byte offset
/// as the new 16-bit displacement at `insn_off + 2`.
pub open spec fn relo_patch(
    relo: BpfCoreRelo,
    prog: BtfV,
    vml: BtfV,
    entries: Seq<StructEntryV>,
    data_len: int,
) -> Result<Option<(int, u16)>, BpfError> {
    match relo_offsets(relo, prog, vml, entries) {
        Err(e) => Err(e),
        Ok(offs) => {
            if offs.0 != offs.1 {
                if relo.insn_off + 4 > data_len {
                    Err(BpfError::OutOfBounds)
                } else {
                    Ok(Some((relo.insn_off + 2, ((offs.1 / 8) as u16))))
                }
            } else {
                Ok(None)
            }
        },
    }
}

/// The patches demanded by a sequence of relocation records, in order.
pub open spec fn section_patches(
    relos: Seq<BpfCoreRelo>,
    prog: BtfV,
    vml: BtfV,
    entries: Seq<StructEntryV>,
    data_len: int,
) -> Result<Seq<(int, u16)>, BpfError>
    decreases relos.len(),
{
    if relos.len() == 0 {
        Ok(Seq::empty())
    } else {
        match relo_patch(relos[0], prog, vml, entries, data_len) {
            Err(e) => Err(e),
            Ok(p) => match section_patches(relos.drop_first(), prog, vml, entries, data_len) {
                Err(e) => Err(e),
                Ok(rest) => match p {
                    Some(pp) => Ok(seq![pp] + rest),
                    None => Ok(rest),
                },
            },
        }
    }
}

/// The patches demanded by the CO-RE record groups whose section name equals
/// `section_name`; groups for other sections contribute nothing, though
/// their names must still resolve.
pub open spec fn core_patches_from(
    secs: Seq<crate::btf::BtfExtInfoSecV<BpfCoreRelo>>,
    section_name: Seq<u8>,
    prog: BtfV,
    vml: BtfV,
    entries: Seq<StructEntryV>,
    data_len: int,
) -> Result<Seq<(int, u16)>, BpfError>
    decreases secs.len(),
{
    if secs.len() == 0 {
        Ok(Seq::empty())
    } else {
        match crate::common::name_result(prog.string_section, secs[0].sec_name_off as int) {
            Err(e) => Err(e),
            Ok(sec_name) => {
                if sec_name != section_name {
                    core_patches_from(secs.drop_first(), section_name, prog, vml, entries, data_len)
                } else {
                    match section_patches(secs[0].data, prog, vml, entries, data_len) {
                        Err(e) => Err(e),
                        Ok(ps) => match core_patches_from(
                            secs.drop_first(),
                            section_name,
                            prog,
                            vml,
                            entries,
                            data_len,
                        ) {
                            Err(e) => Err(e),
                            Ok(rest) => Ok(ps + rest),
                        },
                    }
                }
            },
        }
    }
}

/// The outcome of the whole CO-RE pass: the patch list, or the first error.
pub open spec fn core_relocate_result(
    data_len: int,
    section_name: Seq<u8>,
    vml: BtfV,
    prog: BtfV,
    ext: crate::btf::BtfExtV,
) -> Result<Seq<(int, u16)>, BpfError> {
    match struct_entries(vml) {
        Err(e) => Err(e),
        Ok(entries) => core_patches_from(
            ext.core_relo_part,
            section_name,
            prog,
            vml,
            entries,
            data_len,
        ),
    }
}

/// One displacement patch applied to the bytecode, skipped when it does not
/// fit.
pub open spec fn apply_patch(data: Seq<u8>, p: (int, u16)) -> Seq<u8> {
    if 0 <= p.0 && p.0 + 2 <= data.len() {
        store_u16_le(data, p.0, p.1)
    } else {
        data
    }
}

/// A sequence of displacement patches applied in order.
pub open spec fn apply_patches(data: Seq<u8>, ps: Seq<(int, u16)>) -> Seq<u8>
    decreases ps.len(),
{
    if ps.len() == 0 {
        data
    } else {
        apply_patches(apply_patch(data, ps[0]), ps.drop_first())
    }
}

/// Applying patches one more at the end composes.
pub proof fn lemma_apply_patches_snoc(data: Seq<u8>, ps: Seq<(int, u16)>, p: (int, u16))
    ensures
        apply_patches(data, ps.push(p)) == apply_patch(apply_patches(data, ps), p),
    decreases ps.len(),
{
    if ps.len() == 0 {
        assert(ps.push(p)[0] == p);
        assert(ps.push(p).drop_first() =~= Seq::<(int, u16)>::empty());
        assert(apply_patches(apply_patch(data, p), ps.push(p).drop_first()) == apply_patch(
            data,
            p,
        ));
    } else {
        assert(ps.push(p)[0] == ps[0]);
        assert(ps.push(p).drop_first() =~= ps.drop_first().push(p));
        lemma_apply_patches_snoc(apply_patch(data, ps[0]), ps.drop_first(), p);
    }
}

/// The views of a sequence of collected patches.
pub open spec fn patches_view(ps: Seq<(usize, u16)>) -> Seq<(int, u16)> {
    ps.map_values(|p: (usize, u16)| (p.0 as int, p.1))
}

/// Computes the patch one CO-RE relocation record demands, resolving the
/// field through the program BTF and the same-named struct and field of the
/// target BTF.
#[verifier::loop_isolation(false)]
fn compute_relo_patch(
    relo: &BpfCoreRelo,
    prog_btf: &Btf,
    vmlinux: &Btf,
    entries: &Vec<StructEntry>,
    data_len: usize,
) -> (r: Result<Option<(usize, u16)>, BpfError>)
    requires
        struct_entries(vmlinux@) == Ok::<Seq<StructEntryV>, BpfError>(entries_view(entries@)),
    ensures
        match r {
            Ok(Some(p)) => relo_patch(
                *relo,
                prog_btf@,
                vmlinux@,
                entries_view(entries@),
                data_len as int,
            ) == Ok::<Option<(int, u16)>, BpfError>(Some((p.0 as int, p.1))),
            Ok(None) => relo_patch(
                *relo,
                prog_btf@,
                vmlinux@,
                entries_view(entries@),
                data_len as int,
            ) == Ok::<Option<(int, u16)>, BpfError>(None),
            Err(e) => relo_patch(*relo, prog_btf@, vmlinux@, entries_view(entries@), data_len as int)
                == Err::<Option<(int, u16)>, BpfError>(e),
        },
{
    let access = match crate::common::get_name_from_string_section(
        prog_btf.string_section.as_slice(),
        relo.access_str_off as usize,
    ) {
        Ok(v) => v,
        Err(e) => {
            return Err(e);
        },
    };
    match relo.kind {
        crate::btf::BpfCoreReloKind::FieldByteOffset => {},
        _ => {
            return Err(BpfError::Unimplemented);
        },
    }
    if access.len() < 2 {
        return Err(BpfError::Unimplemented);
    }
    let tail = &access.as_slice()[2..access.len()];
    proof {
        assert(tail@ =~= access@.skip(2));
    }
    let fidx = match crate::common::parse_decimal(tail) {
        Some(v) => v,
        None => {
            return Err(BpfError::Unimplemented);
        },
    };
    if relo.type_id as usize >= prog_btf.type_section.len() {
        return Err(BpfError::OutOfBounds);
    }
    let t = &prog_btf.type_section[relo.type_id as usize];
    proof {
        assert(prog_btf@.type_section[relo.type_id as int] == prog_btf.type_section@[relo.type_id as int]@);
    }
    let members = match &t.detail {
        crate::btf::BtfTypeDetail::Struct(members) => members,
        _ => {
            return Err(BpfError::Unimplemented);
        },
    };
    let struct_name = match crate::common::get_name_from_string_section(
        prog_btf.string_section.as_slice(),
        t.name_off as usize,
    ) {
        Ok(v) => v,
        Err(e) => {
            return Err(e);
        },
    };
    if fidx >= members.len() {
        return Err(BpfError::FormatMismatch);
    }
    let field = members[fidx];
    let field_name = match crate::common::get_name_from_string_section(
        prog_btf.string_section.as_slice(),
        field.name_off as usize,
    ) {
        Ok(v) => v,
        Err(e) => {
            return Err(e);
        },
    };
    let prog_off = field.get_offset(t.kind_flag);
    let vidx = match lookup_struct_entry(entries, struct_name.as_slice()) {
        Some(v) => v,
        None => {
            return Err(BpfError::UnresolvedCoreRelo);
        },
    };
    proof {
        lemma_struct_entries_valid(vmlinux@.type_section, vmlinux@.string_section, 0);
        lemma_find_struct_entry_some(entries_view(entries@), struct_name@);
    }
    let vt = &vmlinux.type_section[vidx];
    proof {
        assert(vmlinux@.type_section[vidx as int] == vmlinux.type_section@[vidx as int]@);
    }
    let vmembers = match &vt.detail {
        crate::btf::BtfTypeDetail::Struct(vmembers) => vmembers,
        _ => {
            return Err(BpfError::Unimplemented);
        },
    };
    let count = vmembers.len();
    let ghost vm_seq = vmembers@;
    proof {
        assert(vm_seq.skip(0) =~= vm_seq);
    }
    let mut j: usize = 0;
    let mut vfield_opt: Option<crate::btf::BtfMember> = None;
    while j < count
        invariant
            0 <= j <= count,
            count == vm_seq.len(),
            vfield_opt is None,
            find_member_by_name(vm_seq, vmlinux@.string_section, field_name@)
                == find_member_by_name(vm_seq.skip(j as int), vmlinux@.string_section, field_name@),
        decreases count - j,
    {
        let m = vmembers[j];
        proof {
            assert(vm_seq.skip(j as int)[0] == vm_seq[j as int]);
        }
        let m_name = match crate::common::get_name_from_string_section(
            vmlinux.string_section.as_slice(),
            m.name_off as usize,
        ) {
            Ok(v) => v,
            Err(e) => {
                return Err(e);
            },
        };
        if bytes_eq(m_name.as_slice(), field_name.as_slice()) {
            vfield_opt = Some(m);
            break ;
        }
        proof {
            assert(vm_seq.skip(j as int).drop_first() =~= vm_seq.skip(j as int + 1));
        }
        j = j + 1;
    }
    let vfield = match vfield_opt {
        Some(m) => m,
        None => {
            proof {
                assert(vm_seq.skip(count as int) =~= Seq::<crate::btf::BtfMember>::empty());
            }
            return Err(BpfError::UnresolvedCoreRelo);
        },
    };
    let vm_off = vfield.get_offset(vt.kind_flag);
    if prog_off != vm_off {
        if data_len < 4 || relo.insn_off as usize > data_len - 4 {
            return Err(BpfError::OutOfBounds);
        }
        let disp: u16 = #[verifier::truncate] ((vm_off / 8) as u16);
        Ok(Some((relo.insn_off as usize + 2, disp)))
    } else {
        Ok(None)
    }
}

/// Applies CO-RE field-offset relocations to the bytecode of the section
/// named `data_section_name`: for each `FIELD_BYTE_OFFSET` record of that
/// section, when the program BTF and the target BTF disagree on the field's
/// bit offset, the 16-bit displacement at `insn_off + 2` is rewritten to the
/// target's byte offset.  Any record of another kind, and any struct or
/// field the target BTF lacks, fails the pass; the bytecode is then left
/// unchanged.
#[verifier::loop_isolation(false)]
pub fn core_relocate(
    data: &mut Vec<u8>,
    data_section_name: &str,
    vmlinux: &Btf,
    prog_btf: &Btf,
    prog_btf_ext: &crate::btf::BtfExt,
) -> (r: Result<(), BpfError>)
    ensures
        match r {
            Ok(_) => {
                &&& core_relocate_result(
                    old(data)@.len() as int,
                    data_section_name.spec_bytes(),
                    vmlinux@,
                    prog_btf@,
                    prog_btf_ext@,
                ) is Ok
                &&& final(data)@ == apply_patches(
                    old(data)@,
                    core_relocate_result(
                        old(data)@.len() as int,
                        data_section_name.spec_bytes(),
                        vmlinux@,
                        prog_btf@,
                        prog_btf_ext@,
                    ).unwrap(),
                )
            },
            Err(e) => {
                &&& core_relocate_result(
                    old(data)@.len() as int,
                    data_section_name.spec_bytes(),
                    vmlinux@,
                    prog_btf@,
                    prog_btf_ext@,
                ) == Err::<Seq<(int, u16)>, BpfError>(e)
                &&& final(data)@ == old(data)@
            },
        },
{
    let ghost len0: int = data@.len() as int;
    let ghost sname: Seq<u8> = data_section_name.spec_bytes();
    let entries = match extract_struct(vmlinux) {
        Ok(v) => v,
        Err(e) => {
            return Err(e);
        },
    };
    let ghost entries_v = entries_view(entries@);
    let ghost secs_v = prog_btf_ext@.core_relo_part;
    let data_len = data.len();
    let mut patches: Vec<(usize, u16)> = Vec::new();
    proof {
        assert(secs_v.skip(0) =~= secs_v);
        match core_patches_from(secs_v, sname, prog_btf@, vmlinux@, entries_v, len0) {
            Ok(rest) => {
                assert(patches_view(patches@) + rest =~= rest);
            },
            Err(_) => {},
        }
    }
    let nsec = prog_btf_ext.core_relo_part.len();
    let mut si: usize = 0;
    while si < nsec
        invariant
            0 <= si <= nsec,
            nsec == secs_v.len(),
            match core_patches_from(secs_v.skip(si as int), sname, prog_btf@, vmlinux@, entries_v, len0) {
                Ok(rest) => core_patches_from(secs_v, sname, prog_btf@, vmlinux@, entries_v, len0)
                    == Ok::<Seq<(int, u16)>, BpfError>(patches_view(patches@) + rest),
                Err(e) => core_patches_from(secs_v, sname, prog_btf@, vmlinux@, entries_v, len0)
                    == Err::<Seq<(int, u16)>, BpfError>(e),
            },
        decreases nsec - si,
    {
        let sec = &prog_btf_ext.core_relo_part[si];
        proof {
            assert(secs_v[si as int] == prog_btf_ext.core_relo_part@[si as int]@);
        }
        let sec_name = match crate::common::get_name_from_string_section(
            prog_btf.string_section.as_slice(),
            sec.sec_name_off as usize,
        ) {
            Ok(v) => v,
            Err(e) => {
                return Err(e);
            },
        };
        if bytes_eq(sec_name.as_slice(), data_section_name.as_bytes()) {
            let ghost relos_v = secs_v[si as int].data;
            proof {
                assert(relos_v.skip(0) =~= relos_v);
                assert(secs_v.skip(si as int)[0] == secs_v[si as int]);
                assert(secs_v.skip(si as int).drop_first() =~= secs_v.skip(si as int + 1));
                assert(crate::common::name_result(
                    prog_btf@.string_section,
                    secs_v[si as int].sec_name_off as int,
                ) == Ok::<Seq<u8>, BpfError>(sname));
                match section_patches(relos_v, prog_btf@, vmlinux@, entries_v, len0) {
                    Ok(ps) => {
                        match core_patches_from(
                            secs_v.skip(si as int + 1),
                            sname,
                            prog_btf@,
                            vmlinux@,
                            entries_v,
                            len0,
                        ) {
                            Ok(rest) => {
                                assert(patches_view(patches@) + ps + rest =~= patches_view(
                                    patches@,
                                ) + (ps + rest));
                            },
                            Err(_) => {},
                        }
                    },
                    Err(_) => {},
                }
            }
            let nrel = sec.data.len();
            let mut ri: usize = 0;
            while ri < nrel
                invariant
                    0 <= ri <= nrel,
                    nrel == relos_v.len(),
                    match section_patches(relos_v.skip(ri as int), prog_btf@, vmlinux@, entries_v, len0) {
                        Ok(rest2) => match core_patches_from(
                            secs_v.skip(si as int + 1),
                            sname,
                            prog_btf@,
                            vmlinux@,
                            entries_v,
                            len0,
                        ) {
                            Ok(rest) => core_patches_from(
                                secs_v,
                                sname,
                                prog_btf@,
                                vmlinux@,
                                entries_v,
                                len0,
                            ) == Ok::<Seq<(int, u16)>, BpfError>(
                                patches_view(patches@) + rest2 + rest,
                            ),
                            Err(e) => core_patches_from(
                                secs_v,
                                sname,
                                prog_btf@,
                                vmlinux@,
                                entries_v,
                                len0,
                            ) == Err::<Seq<(int, u16)>, BpfError>(e),
                        },
                        Err(e2) => core_patches_from(
                            secs_v,
                            sname,
                            prog_btf@,
                            vmlinux@,
                            entries_v,
                            len0,
                        ) == Err::<Seq<(int, u16)>, BpfError>(e2),
                    },
                decreases nrel - ri,
            {
                let relo = &sec.data[ri];
                proof {
                    assert(relos_v.skip(ri as int)[0] == relos_v[ri as int]);
                    assert(relos_v[ri as int] == sec.data@[ri as int]);
                }
                let p = match compute_relo_patch(relo, prog_btf, vmlinux, &entries, data_len) {
                    Ok(v) => v,
                    Err(e) => {
                        return Err(e);
                    },
                };
                let ghost old_pv = patches_view(patches@);
                match p {
                    Some(pp) => {
                        patches.push(pp);
                        proof {
                            assert(relos_v.skip(ri as int).drop_first() =~= relos_v.skip(
                                ri as int + 1,
                            ));
                            assert(patches_view(patches@) =~= old_pv.push((pp.0 as int, pp.1)));
                            match section_patches(
                                relos_v.skip(ri as int + 1),
                                prog_btf@,
                                vmlinux@,
                                entries_v,
                                len0,
                            ) {
                                Ok(rest2) => {
                                    assert(section_patches(
                                        relos_v.skip(ri as int),
                                        prog_btf@,
                                        vmlinux@,
                                        entries_v,
                                        len0,
                                    ) == Ok::<Seq<(int, u16)>, BpfError>(
                                        seq![(pp.0 as int, pp.1)] + rest2,
                                    ));
                                    assert(patches_view(patches@) + rest2 =~= old_pv + (seq![
                                        (pp.0 as int, pp.1),
                                    ] + rest2));
                                    match core_patches_from(
                                        secs_v.skip(si as int + 1),
                                        sname,
                                        prog_btf@,
                                        vmlinux@,
                                        entries_v,
                                        len0,
                                    ) {
                                        Ok(rest) => {
                                            assert(patches_view(patches@) + rest2 + rest =~= old_pv
                                                + (seq![(pp.0 as int, pp.1)] + rest2) + rest);
                                        },
                                        Err(_) => {},
                                    }
                                },
                                Err(_) => {},
                            }
                        }
                    },
                    None => {},
                }
                proof {
                    assert(relos_v.skip(ri as int).drop_first() =~= relos_v.skip(ri as int + 1));
                }
                ri = ri + 1;
            }
            proof {
                assert(relos_v.skip(nrel as int) =~= Seq::<BpfCoreRelo>::empty());
                assert(section_patches(
                    relos_v.skip(nrel as int),
                    prog_btf@,
                    vmlinux@,
                    entries_v,
                    len0,
                ) == Ok::<Seq<(int, u16)>, BpfError>(Seq::empty()));
                match core_patches_from(
                    secs_v.skip(si as int + 1),
                    sname,
                    prog_btf@,
                    vmlinux@,
                    entries_v,
                    len0,
                ) {
                    Ok(rest) => {
                        assert(patches_view(patches@) + Seq::<(int, u16)>::empty() + rest
                            =~= patches_view(patches@) + rest);
                    },
                    Err(_) => {},
                }
            }
        } else {
            proof {
                assert(secs_v.skip(si as int).drop_first() =~= secs_v.skip(si as int + 1));
            }
        }
        proof {
            assert(secs_v.skip(si as int).drop_first() =~= secs_v.skip(si as int + 1));
        }
        si = si + 1;
    }
    proof {
        assert(secs_v.skip(nsec as int) =~= Seq::<crate::btf::BtfExtInfoSecV<BpfCoreRelo>>::empty());
        assert(patches_view(patches@) + Seq::<(int, u16)>::empty() =~= patches_view(patches@));
    }
    let ghost all_patches = patches_view(patches@);
    let total = patches.len();
    proof {
        assert(all_patches.take(0) =~= Seq::<(int, u16)>::empty());
    }
    let mut i: usize = 0;
    while i < total
        invariant
            0 <= i <= total,
            total == patches@.len(),
            data@.len() == old(data)@.len(),
            data@ == apply_patches(old(data)@, all_patches.take(i as int)),
        decreases total - i,
    {
        let (off, v) = patches[i];
        let ghost data_pre = data@;
        if data.len() >= 2 && off <= data.len() - 2 {
            data[off] = (v & 0xff) as u8;
            data[off + 1] = ((v >> 8) & 0xff) as u8;
        }
        proof {
            assert(data@ == apply_patch(data_pre, all_patches[i as int]));
            assert(all_patches.take(i as int).push(all_patches[i as int]) =~= all_patches.take(
                i as int + 1,
            ));
            lemma_apply_patches_snoc(old(data)@, all_patches.take(i as int), all_patches[i as int]);
        }
        i = i + 1;
    }
    proof {
        assert(all_patches.take(total as int) =~= all_patches);
    }
    Ok(())
}

/// After CO-RE rewriting of a record whose program and target bit offsets
/// disagree, the little-endian 16-bit displacement at `insn_off + 2` of the
/// patched bytecode equals the target's bit offset divided by 8.
pub proof fn lemma_core_field_offset_patch(
    data: Seq<u8>,
    relo: BpfCoreRelo,
    prog: BtfV,
    vml: BtfV,
    entries: Seq<StructEntryV>,
)
    requires
        relo_offsets(relo, prog, vml, entries) is Ok,
        relo_offsets(relo, prog, vml, entries).unwrap().0 != relo_offsets(
            relo,
            prog,
            vml,
            entries,
        ).unwrap().1,
        relo.insn_off + 4 <= data.len(),
    ensures
        ({
            let target_off = relo_offsets(relo, prog, vml, entries).unwrap().1;
            let p = (relo.insn_off + 2, (target_off / 8) as u16);
            &&& relo_patch(relo, prog, vml, entries, data.len() as int) == Ok::<
                Option<(int, u16)>,
                BpfError,
            >(Some(p))
            &&& crate::common::u16_le_at(apply_patch(data, p), relo.insn_off + 2) == (target_off
                / 8) as u16
        }),
{
    let target_off = relo_offsets(relo, prog, vml, entries).unwrap().1;
    lemma_store_u16_le_round_trip(data, relo.insn_off + 2, (target_off / 8) as u16);
}

/// The two bytes of `v`, little-endian.
pub open spec fn u16_bytes(v: u16) -> Seq<u8> {
    seq![(v & 0xff) as u8, ((v >> 8) & 0xff) as u8]
}

/// The four bytes of `v`, little-endian.
pub open spec fn u32_bytes(v: u32) -> Seq<u8> {
    seq![
        (v & 0xff) as u8,
        ((v >> 8) & 0xff) as u8,
        ((v >> 16) & 0xff) as u8,
        ((v >> 24) & 0xff) as u8,
    ]
}

/// The eight bytes of `v`, little-endian.
pub open spec fn u64_bytes(v: u64) -> Seq<u8> {
    seq![
        (v & 0xff) as u8,
        ((v >> 8) & 0xff) as u8,
        ((v >> 16) & 0xff) as u8,
        ((v >> 24) & 0xff) as u8,
        ((v >> 32) & 0xff) as u8,
        ((v >> 40) & 0xff) as u8,
        ((v >> 48) & 0xff) as u8,
        ((v >> 56) & 0xff) as u8,
    ]
}

/// The 64 bytes that serialize a section header.
pub open spec fn shdr_bytes(sh: Elf64Shdr) -> Seq<u8> {
    u32_bytes(sh.sh_name) + u32_bytes(sh.sh_type) + u64_bytes(sh.sh_flags) + u64_bytes(sh.sh_addr)
        + u64_bytes(sh.sh_offset) + u64_bytes(sh.sh_size) + u32_bytes(sh.sh_link) + u32_bytes(
        sh.sh_info,
    ) + u64_bytes(sh.sh_addralign) + u64_bytes(sh.sh_entsize)
}

/// Appends the two little-endian bytes of `v`.
pub fn push_u16_le(out: &mut Vec<u8>, v: u16)
    ensures
        final(out)@ == old(out)@ + u16_bytes(v),
{
    out.push((v & 0xff) as u8);
    out.push(((v >> 8) & 0xff) as u8);
    proof {
        assert(out@ =~= old(out)@ + u16_bytes(v));
    }
}

/// Appends the four little-endian bytes of `v`.
pub fn push_u32_le(out: &mut Vec<u8>, v: u32)
    ensures
        final(out)@ == old(out)@ + u32_bytes(v),
{
    out.push((v & 0xff) as u8);
    out.push(((v >> 8) & 0xff) as u8);
    out.push(((v >> 16) & 0xff) as u8);
    out.push(((v >> 24) & 0xff) as u8);
    proof {
        assert(out@ =~= old(out)@ + u32_bytes(v));
    }
}

/// Appends the eight little-endian bytes of `v`.
pub fn push_u64_le(out: &mut Vec<u8>, v: u64)
    ensures
        final(out)@ == old(out)@ + u64_bytes(v),
{
    out.push((v & 0xff) as u8);
    out.push(((v >> 8) & 0xff) as u8);
    out.push(((v >> 16) & 0xff) as u8);
    out.push(((v >> 24) & 0xff) as u8);
    out.push(((v >> 32) & 0xff) as u8);
    out.push(((v >> 40) & 0xff) as u8);
    out.push(((v >> 48) & 0xff) as u8);
    out.push(((v >> 56) & 0xff) as u8);
    proof {
        assert(out@ =~= old(out)@ + u64_bytes(v));
    }
}

/// Serializes a section header back to its 64 bytes.
pub fn serialize_section_header(sh: &Elf64Shdr) -> (r: Vec<u8>)
    ensures
        r@ == shdr_bytes(*sh),
{
    let mut out: Vec<u8> = Vec::new();
    push_u32_le(&mut out, sh.sh_name);
    push_u32_le(&mut out, sh.sh_type);
    push_u64_le(&mut out, sh.sh_flags);
    push_u64_le(&mut out, sh.sh_addr);
    push_u64_le(&mut out, sh.sh_offset);
    push_u64_le(&mut out, sh.sh_size);
    push_u32_le(&mut out, sh.sh_link);
    push_u32_le(&mut out, sh.sh_info);
    push_u64_le(&mut out, sh.sh_addralign);
    push_u64_le(&mut out, sh.sh_entsize);
    proof {
        assert(out@ =~= shdr_bytes(*sh));
    }
    out
}

/// Serializing the 16-bit value read at `i` yields the two bytes at `i`.
pub proof fn lemma_u16_bytes_round_trip(data: Seq<u8>, i: int)
    requires
        0 <= i,
        i + 2 <= data.len(),
    ensures
        u16_bytes(crate::common::u16_le_at(data, i)) =~= data.subrange(i, i + 2),
{
    let b0 = data[i];
    let b1 = data[i + 1];
    let v = crate::common::u16_le_spec(b0, b1);
    assert((v & 0xff) as u8 == b0 && ((v >> 8) & 0xff) as u8 == b1) by (bit_vector)
        requires
            v == (b0 as u16) | ((b1 as u16) << 8),
    ;
}

/// Serializing the 32-bit value read at `i` yields the four bytes at `i`.
pub proof fn lemma_u32_bytes_round_trip(data: Seq<u8>, i: int)
    requires
        0 <= i,
        i + 4 <= data.len(),
    ensures
        u32_bytes(u32_le_at(data, i)) =~= data.subrange(i, i + 4),
{
    let b0 = data[i];
    let b1 = data[i + 1];
    let b2 = data[i + 2];
    let b3 = data[i + 3];
    let v = crate::common::u32_le_spec(b0, b1, b2, b3);
    assert((v & 0xff) as u8 == b0 && ((v >> 8) & 0xff) as u8 == b1 && ((v >> 16) & 0xff) as u8
        == b2 && ((v >> 24) & 0xff) as u8 == b3) by (bit_vector)
        requires
            v == (b0 as u32) | ((b1 as u32) << 8) | ((b2 as u32) << 16) | ((b3 as u32) << 24),
    ;
}

/// Serializing the 64-bit value read at `i` yields the eight bytes at `i`.
pub proof fn lemma_u64_bytes_round_trip(data: Seq<u8>, i: int)
    requires
        0 <= i,
        i + 8 <= data.len(),
    ensures
        u64_bytes(u64_le_at(data, i)) =~= data.subrange(i, i + 8),
{
    let b0 = data[i];
    let b1 = data[i + 1];
    let b2 = data[i + 2];
    let b3 = data[i + 3];
    let b4 = data[i + 4];
    let b5 = data[i + 5];
    let b6 = data[i + 6];
    let b7 = data[i + 7];
    let v = crate::common::u64_le_spec(b0, b1, b2, b3, b4, b5, b6, b7);
    assert((v & 0xff) as u8 == b0 && ((v >> 8) & 0xff) as u8 == b1 && ((v >> 16) & 0xff) as u8
        == b2 && ((v >> 24) & 0xff) as u8 == b3 && ((v >> 32) & 0xff) as u8 == b4 && ((v >> 40)
        & 0xff) as u8 == b5 && ((v >> 48) & 0xff) as u8 == b6 && ((v >> 56) & 0xff) as u8 == b7)
        by (bit_vector)
        requires
            v == (b0 as u64) | ((b1 as u64) << 8) | ((b2 as u64) << 16) | ((b3 as u64) << 24) | ((
            b4 as u64) << 32) | ((b5 as u64) << 40) | ((b6 as u64) << 48) | ((b7 as u64) << 56),
    ;
}

/// Round trip: re-serializing the section header parsed at `offset` yields
/// exactly the 64 input bytes at `offset`.
#[verifier::rlimit(100)]
pub proof fn lemma_shdr_round_trip(data: Seq<u8>, offset: int)
    requires
        0 <= offset,
        offset + 64 <= data.len(),
    ensures
        shdr_bytes(shdr_spec(data, offset)) =~= data.subrange(offset, offset + 64),
{
    lemma_u32_bytes_round_trip(data, offset);
    lemma_u32_bytes_round_trip(data, offset + 4);
    lemma_u64_bytes_round_trip(data, offset + 8);
    lemma_u64_bytes_round_trip(data, offset + 16);
    lemma_u64_bytes_round_trip(data, offset + 24);
    lemma_u64_bytes_round_trip(data, offset + 32);
    lemma_u32_bytes_round_trip(data, offset + 40);
    lemma_u32_bytes_round_trip(data, offset + 44);
    lemma_u64_bytes_round_trip(data, offset + 48);
    lemma_u64_bytes_round_trip(data, offset + 56);
}

/// Round trip over a whole section header table: re-serializing each of the
/// `count` headers parsed at 64-byte strides from `shoff` yields the input
/// bytes of that header's slot.
pub proof fn lemma_shdr_table_round_trip(data: Seq<u8>, shoff: int, count: int)
    requires
        0 <= shoff,
        0 <= count,
        shoff + count * 64 <= data.len(),
    ensures
        forall|i: int|
            0 <= i < count ==> shdr_bytes(#[trigger] shdr_spec(data, shoff + i * 64))
                =~= data.subrange(shoff + i * 64, shoff + i * 64 + 64),
{
    assert forall|i: int| 0 <= i < count implies shdr_bytes(
        #[trigger] shdr_spec(data, shoff + i * 64),
    ) =~= data.subrange(shoff + i * 64, shoff + i * 64 + 64) by {
        assert((i + 1) * 64 <= count * 64) by (nonlinear_arith)
            requires
                i + 1 <= count,
        ;
        assert(i * 64 >= 0) by (nonlinear_arith)
            requires
                i >= 0,
        ;
        lemma_shdr_round_trip(data, shoff + i * 64);
    }
}

/// Storing a 16-bit word little-endian and reading it back yields the word.
pub proof fn lemma_store_u16_le_round_trip(data: Seq<u8>, i: int, v: u16)
    requires
        0 <= i,
        i + 2 <= data.len(),
    ensures
        crate::common::u16_le_at(store_u16_le(data, i, v), i) == v,
{
    let s = store_u16_le(data, i, v);
    assert(s[i] == (v & 0xff) as u8);
    assert(s[i + 1] == ((v >> 8) & 0xff) as u8);
    assert((((v & 0xff) as u8) as u16) | ((((v >> 8) & 0xff) as u8) as u16) << 8 == v)
        by (bit_vector);
}

} // verus!
