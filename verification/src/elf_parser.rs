//! The ELF object parser: file header validation, the section header table,
//! and the name-indexed section map.

use vstd::prelude::*;

use crate::common::{name_result, u16_le_at, u32_le_at, u64_le_at, BpfError};
use crate::elf::{
    sections_view, section_in_bounds, shdr_spec, Elf, Elf64Ehdr, Elf64EhdrV, Elf64Shdr, ElfV,
    NamedSection, NamedSectionV,
};

verus! {

/// The ELF64 file header whose 64 bytes start the buffer.
pub open spec fn ehdr_spec(data: Seq<u8>) -> Elf64EhdrV {
    Elf64EhdrV {
        e_ident: data.subrange(0, 16),
        e_type: u16_le_at(data, 16),
        e_machine: u16_le_at(data, 18),
        e_version: u32_le_at(data, 20),
        e_entry: u64_le_at(data, 24),
        e_phoff: u64_le_at(data, 32),
        e_shoff: u64_le_at(data, 40),
        e_flags: u32_le_at(data, 48),
        e_ehsize: u16_le_at(data, 52),
        e_phentsize: u16_le_at(data, 54),
        e_phnum: u16_le_at(data, 56),
        e_shentsize: u16_le_at(data, 58),
        e_shnum: u16_le_at(data, 60),
        e_shstrndx: u16_le_at(data, 62),
    }
}

/// The `count` section headers read at 64-byte strides from `shoff`.
pub open spec fn shdr_seq(data: Seq<u8>, shoff: int, count: int) -> Seq<Elf64Shdr> {
    Seq::new(count as nat, |i: int| shdr_spec(data, shoff + i * 64))
}

/// The outcome of resolving the section-name string table: the body of the
/// header at `shstrndx`, or nothing when the index or the body range is out
/// of bounds.
pub open spec fn names_table_result(data: Seq<u8>, shdrs: Seq<Elf64Shdr>, shstrndx: int) -> Option<
    Seq<u8>,
> {
    if shstrndx < 0 || shstrndx >= shdrs.len() {
        None
    } else {
        let ns = shdrs[shstrndx];
        if ns.sh_offset + ns.sh_size <= data.len() {
            Some(data.subrange(ns.sh_offset as int, ns.sh_offset + ns.sh_size))
        } else {
            None
        }
    }
}

/// Resolves the section-name string table named by `shstrndx`.
pub fn read_section_name_table(data: &[u8], shdrs: &Vec<Elf64Shdr>, shstrndx: usize) -> (r: Option<
    Vec<u8>,
>)
    ensures
        match r {
            Some(t) => names_table_result(data@, shdrs@, shstrndx as int) == Some(t@),
            None => names_table_result(data@, shdrs@, shstrndx as int) is None,
        },
{
    if shstrndx >= shdrs.len() {
        return None;
    }
    let ns = shdrs[shstrndx];
    let len64 = data.len() as u64;
    if ns.sh_offset > len64 || ns.sh_size > len64 - ns.sh_offset {
        return None;
    }
    let start = ns.sh_offset as usize;
    let end = start + ns.sh_size as usize;
    let mut t: Vec<u8> = Vec::new();
    t.extend_from_slice(&data[start..end]);
    proof {
        assert(t@ =~= data@.subrange(ns.sh_offset as int, ns.sh_offset + ns.sh_size));
    }
    Some(t)
}

/// Whether some section in the sequence carries this name.
pub open spec fn contains_name(sections: Seq<NamedSectionV>, name: Seq<u8>) -> bool {
    exists|k: int| 0 <= k < sections.len() && sections[k].name == name
}

/// Decides whether the accumulated section map already carries `name`.
fn sections_contain(sections: &Vec<NamedSection>, name: &[u8]) -> (r: bool)
    ensures
        r == contains_name(sections_view(sections@), name@),
{
    let n = sections.len();
    let mut i: usize = 0;
    while i < n
        invariant
            0 <= i <= n,
            n == sections@.len(),
            forall|k: int| 0 <= k < i ==> sections_view(sections@)[k].name != name@,
        decreases n - i,
    {
        if crate::elf::bytes_eq(sections[i].name.as_slice(), name) {
            proof {
                assert(sections_view(sections@)[i as int].name == name@);
            }
            return true;
        }
        i = i + 1;
    }
    false
}

/// The name-indexed section map built from the headers `shdrs[i..]`, given
/// the accumulated entries `acc`: each header's name is resolved from the
/// string table, and a header whose name an earlier entry carries is dropped
/// (the first is retained).
pub open spec fn build_sections_from(
    shdrs: Seq<Elf64Shdr>,
    table: Seq<u8>,
    i: int,
    acc: Seq<NamedSectionV>,
) -> Result<Seq<NamedSectionV>, BpfError>
    decreases shdrs.len() - i,
{
    if i < 0 || i >= shdrs.len() {
        Ok(acc)
    } else {
        match name_result(table, shdrs[i].sh_name as int) {
            Err(e) => Err(e),
            Ok(name) => {
                if contains_name(acc, name) {
                    build_sections_from(shdrs, table, i + 1, acc)
                } else {
                    build_sections_from(
                        shdrs,
                        table,
                        i + 1,
                        acc.push(NamedSectionV { name, shdr: shdrs[i] }),
                    )
                }
            },
        }
    }
}

/// Builds the name-indexed section map from the raw headers, resolving each
/// name from the string table and retaining the first header of any repeated
/// name.
#[verifier::loop_isolation(false)]
fn build_section_map(shdrs: &Vec<Elf64Shdr>, name_table: &Vec<u8>) -> (r: Result<
    Vec<NamedSection>,
    BpfError,
>)
    ensures
        match r {
            Ok(sections) => {
                &&& build_sections_from(shdrs@, name_table@, 0, Seq::<NamedSectionV>::empty())
                    == Ok::<Seq<NamedSectionV>, BpfError>(sections_view(sections@))
                &&& forall|a: int, b: int|
                    0 <= a < b < sections@.len() ==> sections_view(sections@)[a].name
                        != sections_view(sections@)[b].name
            },
            Err(e) => build_sections_from(shdrs@, name_table@, 0, Seq::<NamedSectionV>::empty())
                == Err::<Seq<NamedSectionV>, BpfError>(e),
        },
{
    let shnum = shdrs.len();
    let mut sections: Vec<NamedSection> = Vec::new();
    proof {
        assert(sections_view(sections@) =~= Seq::<NamedSectionV>::empty());
    }
    let mut i: usize = 0;
    while i < shnum
        invariant
            0 <= i <= shnum,
            build_sections_from(shdrs@, name_table@, i as int, sections_view(sections@))
                == build_sections_from(shdrs@, name_table@, 0, Seq::<NamedSectionV>::empty()),
            forall|a: int, b: int|
                0 <= a < b < sections@.len() ==> sections_view(sections@)[a].name != sections_view(
                    sections@,
                )[b].name,
        decreases shnum - i,
    {
        let sh = shdrs[i];
        let name = match crate::common::get_name_from_string_section(
            name_table.as_slice(),
            sh.sh_name as usize,
        ) {
            Ok(v) => v,
            Err(e) => {
                return Err(e);
            },
        };
        let ghost old_secs = sections_view(sections@);
        proof {
            assert(name_result(name_table@, shdrs@[i as int].sh_name as int) == Ok::<
                Seq<u8>,
                BpfError,
            >(name@));
        }
        if !sections_contain(&sections, name.as_slice()) {
            let entry = NamedSection { name, shdr: sh };
            sections.push(entry);
            proof {
                assert(sections_view(sections@) =~= old_secs.push(entry@));
                assert(build_sections_from(shdrs@, name_table@, i as int, old_secs)
                    == build_sections_from(
                    shdrs@,
                    name_table@,
                    i as int + 1,
                    sections_view(sections@),
                ));
            }
        } else {
            proof {
                assert(build_sections_from(shdrs@, name_table@, i as int, old_secs)
                    == build_sections_from(shdrs@, name_table@, i as int + 1, old_secs));
            }
        }
        i = i + 1;
    }
    Ok(sections)
}

/// Decides whether every mapped section's byte range lies inside a buffer of
/// `n` bytes.
fn all_sections_in_bounds(sections: &Vec<NamedSection>, n: usize) -> (r: bool)
    ensures
        r == forall|k: int|
            0 <= k < sections@.len() ==> section_in_bounds(
                (#[trigger] sections_view(sections@)[k]).shdr,
                n as int,
            ),
{
    let count = sections.len();
    let mut i: usize = 0;
    while i < count
        invariant
            0 <= i <= count,
            count == sections@.len(),
            forall|k: int|
                0 <= k < i ==> section_in_bounds(
                    (#[trigger] sections_view(sections@)[k]).shdr,
                    n as int,
                ),
        decreases count - i,
    {
        let sh = sections[i].shdr;
        let len64 = n as u64;
        if sh.sh_offset > len64 || sh.sh_size > len64 - sh.sh_offset {
            proof {
                assert(!section_in_bounds(sections_view(sections@)[i as int].shdr, n as int));
            }
            return false;
        }
        i = i + 1;
    }
    true
}

/// The outcome of parsing a whole ELF object.
pub open spec fn elf_result(data: Seq<u8>) -> Result<ElfV, BpfError> {
    if data.len() < 64 {
        Err(BpfError::OutOfBounds)
    } else if data[0] != 0x7f || data[1] != 0x45 || data[2] != 0x4c || data[3] != 0x46 {
        Err(BpfError::NotAnElf)
    } else if data[4] != 2 || data[5] != 1 {
        Err(BpfError::FormatMismatch)
    } else {
        let h = ehdr_spec(data);
        if h.e_shentsize != 64 {
            Err(BpfError::FormatMismatch)
        } else if h.e_shnum > 0 && h.e_shoff + (h.e_shnum as int) * 64 > data.len() {
            Err(BpfError::OutOfBounds)
        } else {
            let shdrs = shdr_seq(data, h.e_shoff as int, h.e_shnum as int);
            match names_table_result(data, shdrs, h.e_shstrndx as int) {
                None => Err(BpfError::MissingSectionNames),
                Some(table) => match build_sections_from(shdrs, table, 0, Seq::empty()) {
                    Err(e) => Err(e),
                    Ok(sections) => {
                        if exists|i: int|
                            0 <= i < sections.len() && !section_in_bounds(
                                sections[i].shdr,
                                data.len() as int,
                            ) {
                            Err(BpfError::OutOfBounds)
                        } else {
                            Ok(
                                ElfV {
                                    data,
                                    ehdr: h,
                                    section_name_table: Some(table),
                                    shdrs: sections,
                                },
                            )
                        }
                    },
                },
            }
        }
    }
}

/// Parses an ELF object from its bytes: validates the magic, the 64-bit
/// little-endian class, and the section header entry size; walks the section
/// header table; resolves section names; and builds the name-indexed map,
/// retaining the first header of any repeated name.  On success the returned
/// object is well formed: every mapped section's range lies inside the bytes
/// and names are unique.
#[verifier::loop_isolation(false)]
#[verifier::rlimit(60)]
pub fn parse_elf(data: Vec<u8>) -> (r: Result<Elf, BpfError>)
    ensures
        match r {
            Ok(elf) => elf_result(data@) == Ok::<ElfV, BpfError>(elf@) && elf.wf() && elf.data@
                == data@,
            Err(e) => elf_result(data@) == Err::<ElfV, BpfError>(e),
        },
{
    let n = data.len();
    if n < crate::elf::ELF64_EHDR_SIZE {
        return Err(BpfError::OutOfBounds);
    }
    let ds = data.as_slice();
    if !(ds[0] == 0x7f && ds[1] == 0x45 && ds[2] == 0x4c && ds[3] == 0x46) {
        return Err(BpfError::NotAnElf);
    }
    if ds[4] != 2 || ds[5] != 1 {
        return Err(BpfError::FormatMismatch);
    }
    let mut e_ident: Vec<u8> = Vec::new();
    e_ident.extend_from_slice(&ds[0..16]);
    let ehdr = Elf64Ehdr {
        e_ident,
        e_type: crate::common::read_u16_le(ds, 16).unwrap(),
        e_machine: crate::common::read_u16_le(ds, 18).unwrap(),
        e_version: crate::common::read_u32_le(ds, 20).unwrap(),
        e_entry: crate::common::read_u64_le(ds, 24).unwrap(),
        e_phoff: crate::common::read_u64_le(ds, 32).unwrap(),
        e_shoff: crate::common::read_u64_le(ds, 40).unwrap(),
        e_flags: crate::common::read_u32_le(ds, 48).unwrap(),
        e_ehsize: crate::common::read_u16_le(ds, 52).unwrap(),
        e_phentsize: crate::common::read_u16_le(ds, 54).unwrap(),
        e_phnum: crate::common::read_u16_le(ds, 56).unwrap(),
        e_shentsize: crate::common::read_u16_le(ds, 58).unwrap(),
        e_shnum: crate::common::read_u16_le(ds, 60).unwrap(),
        e_shstrndx: crate::common::read_u16_le(ds, 62).unwrap(),
    };
    proof {
        assert(ehdr@.e_ident =~= data@.subrange(0, 16));
        assert(ehdr@ == ehdr_spec(data@));
    }
    if ehdr.e_shentsize != 64 {
        return Err(BpfError::FormatMismatch);
    }
    let shnum = ehdr.e_shnum as usize;
    let shoff64 = ehdr.e_shoff;
    if shnum > 0 && (shoff64 > n as u64 || (shnum as u64) * 64 > n as u64 - shoff64) {
        return Err(BpfError::OutOfBounds);
    }
    let shoff = shoff64 as usize;
    let ghost shdr_seq_full: Seq<Elf64Shdr> = shdr_seq(data@, shoff as int, shnum as int);
    let mut shdrs: Vec<Elf64Shdr> = Vec::new();
    let mut i: usize = 0;
    while i < shnum
        invariant
            0 <= i <= shnum,
            shdrs@ == shdr_seq_full.take(i as int),
        decreases shnum - i,
    {
        proof {
            assert((i as int + 1) * 64 <= (shnum as int) * 64) by (nonlinear_arith)
                requires
                    i as int + 1 <= shnum as int,
            ;
            assert(i as int * 64 >= 0);
        }
        let sh = crate::elf::read_shdr(ds, shoff + i * 64).unwrap();
        shdrs.push(sh);
        i = i + 1;
        proof {
            assert(shdrs@ =~= shdr_seq_full.take(i as int));
        }
    }
    proof {
        assert(shdrs@ =~= shdr_seq_full);
    }
    let shstrndx = ehdr.e_shstrndx as usize;
    let name_table = match read_section_name_table(ds, &shdrs, shstrndx) {
        Some(t) => t,
        None => {
            return Err(BpfError::MissingSectionNames);
        },
    };
    let sections = match build_section_map(&shdrs, &name_table) {
        Ok(s) => s,
        Err(e) => {
            return Err(e);
        },
    };
    if !all_sections_in_bounds(&sections, n) {
        return Err(BpfError::OutOfBounds);
    }
    let elf = Elf { data, ehdr, section_name_table: Some(name_table), shdrs: sections };
    proof {
        assert forall|i: int| 0 <= i < elf.shdrs@.len() implies section_in_bounds(
            #[trigger] elf.shdrs@[i].shdr,
            elf.data@.len() as int,
        ) by {
            assert(section_in_bounds(sections_view(elf.shdrs@)[i].shdr, elf.data@.len() as int));
        }
        assert forall|i: int, j: int| 0 <= i < j < elf.shdrs@.len() implies elf.shdrs@[i].name@
            != elf.shdrs@[j].name@ by {
            assert(sections_view(elf.shdrs@)[i].name != sections_view(elf.shdrs@)[j].name);
        }
        assert(elf.wf());
        assert(elf@ == elf_result(elf.data@).unwrap());
    }
    Ok(elf)
}

/// Parsing is deterministic: two successful parses of the same object bytes
/// yield the same structure.  The parser's contract equates its result with
/// a mathematical parse of the input alone, so equal inputs cannot give
/// different outputs.
pub proof fn lemma_parse_elf_deterministic(data: Seq<u8>, a: ElfV, b: ElfV)
    requires
        elf_result(data) == Ok::<ElfV, BpfError>(a),
        elf_result(data) == Ok::<ElfV, BpfError>(b),
    ensures
        a == b,
{
}

} // verus!
