//! User-space loader support for eBPF object files.
//!
//! The crate parses 64-bit little-endian ELF objects, reconstructs BTF type
//! information (`.BTF` and `.BTF.ext`), rewrites eBPF bytecode (map-reference
//! and CO-RE field-offset relocations), and prepares the plain values that the
//! `bpf(2)` syscall surface consumes.  All parsing and rewriting is verified;
//! the syscalls themselves live outside the library.

pub mod btf;
pub mod btf_parser;
pub mod common;
pub mod elf;
pub mod elf_parser;
pub mod syscalls_wrapper;
