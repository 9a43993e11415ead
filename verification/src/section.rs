//! Sections under construction and the headers they are emitted as.

use vstd::prelude::*;
use crate::constants::{S_REGULAR, SIZEOF_RELOCATION_INFO};
use crate::reloc::RelocationInfo;

verus! {

/// The header of one section, as it is written after the segment command.
#[derive(Debug, Clone)]
pub struct Section {
    pub sectname: String,
    pub segname: String,
    /// Address of the section in memory.
    pub addr: u64,
    /// Size of the section in bytes.
    pub size: u64,
    /// Position of the section's payload in the file.
    pub offset: u32,
    /// Alignment of the section, as an exponent of two.
    pub align: u32,
    /// Position of the section's relocation records in the file.
    pub reloff: u32,
    /// Number of relocation records.
    pub nreloc: u32,
    pub flags: u32,
}

/// A section under construction.
#[derive(Debug, Clone)]
pub struct SectionBuilder {
    pub addr: u64,
    /// Alignment, as an exponent of two.
    pub align: u64,
    pub offset: u64,
    pub size: u64,
    pub flags: u32,
    pub sectname: String,
    pub segname: String,
    pub relocations: Vec<RelocationInfo>,
}

/// What a section under construction holds, as plain values.
pub struct SectionView {
    pub addr: u64,
    pub align: u64,
    pub offset: u64,
    pub size: u64,
    pub flags: u32,
    pub sectname: Seq<char>,
    pub segname: Seq<char>,
    pub relocations: Seq<RelocationInfo>,
}

impl View for SectionBuilder {
    type V = SectionView;

    open spec fn view(&self) -> SectionView {
        SectionView {
            addr: self.addr,
            align: self.align,
            offset: self.offset,
            size: self.size,
            flags: self.flags,
            sectname: self.sectname@,
            segname: self.segname@,
            relocations: self.relocations@,
        }
    }
}

/// The sections of a list, as plain values.
pub open spec fn sections_view(sections: Seq<SectionBuilder>) -> Seq<SectionView> {
    Seq::new(sections.len(), |i: int| sections[i]@)
}

impl SectionBuilder {
    /// The header of this section, given the file positions that are free
    /// for its payload and for its relocation records. A section without
    /// relocations has zero in both relocation fields.
    pub open spec fn spec_header(&self, section_offset: u64, relocation_offset: u64) -> Section {
        Section {
            sectname: self.sectname,
            segname: self.segname,
            addr: self.addr,
            size: self.size,
            offset: section_offset as u32,
            align: self.align as u32,
            reloff: if self.relocations@.len() == 0 {
                0
            } else {
                relocation_offset as u32
            },
            nreloc: self.relocations@.len() as u32,
            flags: self.flags,
        }
    }

    /// The bytes that the relocation records of this section take in the file.
    pub open spec fn reloc_bytes(&self) -> nat {
        self.relocations@.len() * 8
    }

    /// A regular section of `size` bytes, at address and offset zero,
    /// aligned to sixteen bytes, without relocations.
    pub fn new(sectname: String, segname: String, size: u64) -> (section: Self)
        ensures
            section.addr == 0,
            section.align == 4,
            section.offset == 0,
            section.flags == S_REGULAR,
            section.size == size,
            section.sectname == sectname,
            section.segname == segname,
            section.relocations@ == Seq::<RelocationInfo>::empty(),
    {
        SectionBuilder {
            addr: 0,
            align: 4,
            offset: 0,
            flags: S_REGULAR,
            size,
            sectname,
            segname,
            relocations: Vec::new(),
        }
    }

    /// Sets the address of the section in memory.
    pub fn addr(self, addr: u64) -> (section: Self)
        ensures
            section == (SectionBuilder { addr, ..self }),
    {
        let mut section = self;
        section.addr = addr;
        section
    }

    /// Sets the file offset of the section.
    pub fn offset(self, offset: u64) -> (section: Self)
        ensures
            section == (SectionBuilder { offset, ..self }),
    {
        let mut section = self;
        section.offset = offset;
        section
    }

    /// Sets the alignment exponent of the section.
    pub fn align(self, align: u64) -> (section: Self)
        ensures
            section == (SectionBuilder { align, ..self }),
    {
        let mut section = self;
        section.align = align;
        section
    }

    /// Sets the flags of the section.
    pub fn flags(self, flags: u32) -> (section: Self)
        ensures
            section == (SectionBuilder { flags, ..self }),
    {
        let mut section = self;
        section.flags = flags;
        section
    }

    /// Makes the header of the section. The payload is placed at
    /// `section_offset`, which advances by the section's size. The
    /// relocation records, if there are any, are placed at
    /// `relocation_offset`, which advances by eight bytes for each.
    pub fn create(&self, section_offset: &mut u64, relocation_offset: &mut u64) -> (section:
        Section)
        requires
            *old(section_offset) + self.size <= u64::MAX,
            *old(relocation_offset) + self.reloc_bytes() <= u64::MAX,
        ensures
            section == self.spec_header(*old(section_offset), *old(relocation_offset)),
            *final(section_offset) == *old(section_offset) + self.size,
            *final(relocation_offset) == *old(relocation_offset) + self.reloc_bytes(),
    {
        let mut section = Section {
            sectname: self.sectname.clone(),
            segname: self.segname.clone(),
            addr: self.addr,
            size: self.size,
            offset: self.offset as u32,
            align: self.align as u32,
            reloff: 0,
            nreloc: 0,
            flags: self.flags,
        };
        section.offset = *section_offset as u32;
        *section_offset = *section_offset + section.size;
        if self.relocations.len() != 0 {
            let nrelocs = self.relocations.len();
            section.nreloc = nrelocs as u32;
            section.reloff = *relocation_offset as u32;
            *relocation_offset = *relocation_offset + nrelocs as u64 * SIZEOF_RELOCATION_INFO;
        }
        section
    }
}

} // verus!
