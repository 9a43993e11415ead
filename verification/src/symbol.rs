//! Symbol records and their lowering to symbol table entries.

use vstd::prelude::*;
use crate::constants::{N_EXT, N_SECT, N_UNDF, NO_SECT};

verus! {

/// One entry of the emitted symbol table.
#[derive(Debug, Clone, Copy, PartialEq, Eq, Structural)]
pub struct Nlist {
    /// Byte offset of the name in the string table.
    pub n_strx: u64,
    /// Type bits.
    pub n_type: u8,
    /// Ordinal of the defining section, counted from one, or `NO_SECT`.
    pub n_sect: usize,
    /// Description bits.
    pub n_desc: u16,
    /// Value of the symbol: the position of the byte it names.
    pub n_value: u64,
}

/// A symbol under construction.
#[derive(Debug, Clone, Copy, PartialEq, Eq, Structural)]
pub struct SymbolBuilder {
    /// Byte offset of the name in the string table.
    pub name: u64,
    /// Index of the defining section, counted from zero.
    pub section: Option<usize>,
    pub global: bool,
    pub import: bool,
    /// Absolute position of the defining byte in the payload area.
    pub offset: u64,
    /// Position of the defining byte relative to the start of its section.
    pub segment_relative_offset: u64,
}

impl SymbolBuilder {
    /// The entry that this symbol is emitted as.
    pub open spec fn spec_nlist(self) -> Nlist {
        Nlist {
            n_strx: self.name,
            n_type: if self.import {
                N_EXT
            } else if self.global {
                0x0f
            } else {
                N_SECT
            },
            n_sect: if self.import {
                0
            } else {
                match self.section {
                    Some(idx) => (idx + 1) as usize,
                    None => 0,
                }
            },
            n_desc: 0,
            n_value: if self.import {
                0
            } else {
                self.offset
            },
        }
    }

    /// A local, undefined symbol whose name lies at `name` in the string table.
    pub fn new(name: u64) -> (sym: Self)
        ensures
            sym == (SymbolBuilder {
                name,
                section: None,
                global: false,
                import: false,
                offset: 0,
                segment_relative_offset: 0,
            }),
    {
        SymbolBuilder {
            name,
            section: None,
            global: false,
            import: false,
            offset: 0,
            segment_relative_offset: 0,
        }
    }

    /// Sets the section that defines this symbol.
    pub fn section(self, section_index: usize) -> (sym: Self)
        ensures
            sym == (SymbolBuilder { section: Some(section_index), ..self }),
    {
        let mut sym = self;
        sym.section = Some(section_index);
        sym
    }

    /// Sets whether this symbol is visible outside the object.
    pub fn global(self, global: bool) -> (sym: Self)
        ensures
            sym == (SymbolBuilder { global, ..self }),
    {
        let mut sym = self;
        sym.global = global;
        sym
    }

    /// Sets the absolute position of the byte that this symbol names.
    pub fn offset(self, offset: u64) -> (sym: Self)
        ensures
            sym == (SymbolBuilder { offset, ..self }),
    {
        let mut sym = self;
        sym.offset = offset;
        sym
    }

    /// Sets the position of the symbol relative to its section.
    pub fn relative_offset(self, relative_offset: u64) -> (sym: Self)
        ensures
            sym == (SymbolBuilder { segment_relative_offset: relative_offset, ..self }),
    {
        let mut sym = self;
        sym.segment_relative_offset = relative_offset;
        sym
    }

    /// The position of the symbol relative to its section.
    pub fn get_segment_relative_offset(&self) -> (offset: u64)
        ensures
            offset == self.segment_relative_offset,
    {
        self.segment_relative_offset
    }

    /// Marks this symbol as an import.
    pub fn import(self) -> (sym: Self)
        ensures
            sym == (SymbolBuilder { import: true, ..self }),
    {
        let mut sym = self;
        sym.import = true;
        sym
    }

    /// Lowers the symbol to its table entry.
    ///
    /// An import is external and lives in no section, at value zero. Any other
    /// symbol carries the section bits, the external bit if it is global, the
    /// ordinal of its section and its absolute position.
    pub fn create(self) -> (nlist: Nlist)
        requires
            self.section matches Some(idx) ==> idx < usize::MAX,
        ensures
            nlist == self.spec_nlist(),
            self.import ==> nlist.n_type == N_EXT && nlist.n_sect == NO_SECT && nlist.n_value == 0,
            !self.import ==> nlist.n_type != N_UNDF && nlist.n_type & N_SECT == N_SECT,
            !self.import && self.global ==> nlist.n_type & N_EXT == N_EXT,
            !self.import && !self.global ==> nlist.n_type & N_EXT == 0,
    {
        let n_strx = self.name;
        let mut n_sect: usize = 0;
        let mut n_type: u8 = N_UNDF;
        let mut n_value = self.offset;
        let n_desc: u16 = 0;
        if self.global {
            n_type = n_type | N_EXT;
        } else {
            n_type = n_type & !N_EXT;
        }
        if let Some(idx) = self.section {
            n_sect = idx + 1;
            n_type = n_type | N_SECT;
        }
        if self.import {
            n_sect = 0;
            n_type = N_EXT;
            n_value = 0;
        } else {
            n_type = n_type | N_SECT;
        }
        proof {
            assert(0u8 | 0x01u8 == 0x01u8) by (bit_vector);
            assert(0u8 & !0x01u8 == 0u8) by (bit_vector);
            assert(0x01u8 | 0x0eu8 == 0x0fu8) by (bit_vector);
            assert(0x0fu8 | 0x0eu8 == 0x0fu8) by (bit_vector);
            assert(0u8 | 0x0eu8 == 0x0eu8) by (bit_vector);
            assert(0x0eu8 | 0x0eu8 == 0x0eu8) by (bit_vector);
            assert(0x0fu8 & 0x0eu8 == 0x0eu8) by (bit_vector);
            assert(0x0eu8 & 0x0eu8 == 0x0eu8) by (bit_vector);
            assert(0x0fu8 & 0x01u8 == 0x01u8) by (bit_vector);
            assert(0x0eu8 & 0x01u8 == 0u8) by (bit_vector);
        }
        Nlist { n_strx, n_type, n_sect, n_desc, n_value }
    }
}

} // verus!
