//! Numeric constants of the Mach-O object format.

use vstd::prelude::*;

verus! {

/// Symbol type bits: undefined symbol.
pub const N_UNDF: u8 = 0x00;
/// Symbol type bits: external (global) symbol.
pub const N_EXT: u8 = 0x01;
/// Symbol type bits: symbol defined in the section `n_sect`.
pub const N_SECT: u8 = 0x0e;
/// Section ordinal of a symbol that lives in no section.
pub const NO_SECT: u8 = 0;

/// Section flags: regular section.
pub const S_REGULAR: u32 = 0x0;
/// Section flags: zero-fill on demand.
pub const S_ZEROFILL: u32 = 0x1;
/// Section flags: literal C strings.
pub const S_CSTRING_LITERALS: u32 = 0x2;
/// Section flags: only machine instructions.
pub const S_ATTR_PURE_INSTRUCTIONS: u32 = 0x8000_0000;
/// Section flags: some machine instructions.
pub const S_ATTR_SOME_INSTRUCTIONS: u32 = 0x0000_0400;
/// Section flags: debug section.
pub const S_ATTR_DEBUG: u32 = 0x0200_0000;

/// File type of a relocatable object.
pub const MH_OBJECT: u32 = 0x1;
/// Header flag: sections may be divided at symbols.
pub const MH_SUBSECTIONS_VIA_SYMBOLS: u32 = 0x2000;

/// Flag that marks a 64-bit CPU type.
pub const CPU_ARCH_ABI64: u32 = 0x0100_0000;
pub const CPU_TYPE_X86: u32 = 7;
pub const CPU_TYPE_X86_64: u32 = 0x0100_0007;
pub const CPU_TYPE_ARM: u32 = 12;
pub const CPU_TYPE_ARM64: u32 = 0x0100_000c;
pub const CPU_TYPE_SPARC: u32 = 14;
pub const CPU_TYPE_POWERPC: u32 = 18;
pub const CPU_TYPE_POWERPC64: u32 = 0x0100_0012;

/// Absolute relocation type.
pub const R_ABS: u8 = 0;
/// Relocation of an absolute address.
pub const X86_64_RELOC_UNSIGNED: u8 = 0;
/// Relocation of a signed 32-bit displacement.
pub const X86_64_RELOC_SIGNED: u8 = 1;
/// Relocation of a call or jump displacement.
pub const X86_64_RELOC_BRANCH: u8 = 2;
/// Relocation of a load of a GOT entry.
pub const X86_64_RELOC_GOT_LOAD: u8 = 3;

/// Bytes of one serialized relocation record.
pub const SIZEOF_RELOCATION_INFO: u64 = 8;
/// Bytes of the symbol table load command.
pub const SIZEOF_SYMTAB_COMMAND: u64 = 24;

/// Index of `__text` in the section list.
pub const CODE_SECTION_INDEX: usize = 0;
/// Index of `__data` in the section list.
pub const DATA_SECTION_INDEX: usize = 1;
/// Index of `__cstring` in the section list.
pub const CSTRING_SECTION_INDEX: usize = 2;
/// Index of `__bss` in the section list.
pub const BSS_SECTION_INDEX: usize = 3;
/// Number of sections that every object has.
pub const NUM_DEFAULT_SECTIONS: usize = 4;

} // verus!
