//! The binary encoders of the file's records.
//!
//! The layout of each record on disk is the work of the `goblin` crate. What
//! the library relies on is the size of each record and that the bytes are a
//! function of the record's fields.

use vstd::prelude::*;
use goblin::container::{Container, Ctx, Endian};
use scroll::{IOwrite, Pwrite};
use crate::artifact::Target;
use crate::reloc::RelocationInfo;
use crate::section::Section;
use crate::segment::{spec_header_size, spec_section_header_size, spec_segment_command_size};
use crate::symbol::Nlist;
use crate::symtab::name_len;

verus! {

/// The fields of the file header that the writer sets.
#[derive(Debug, Clone, Copy, PartialEq, Eq, Structural)]
pub struct Header {
    pub cputype: u32,
    pub cpusubtype: u32,
    pub filetype: u32,
    /// Number of load commands.
    pub ncmds: usize,
    /// Bytes of all load commands together.
    pub sizeofcmds: u32,
    pub flags: u32,
}

/// The fields of the segment load command that the writer sets.
#[derive(Debug, Clone, Copy, PartialEq, Eq, Structural)]
pub struct SegmentCommand {
    pub nsects: u32,
    pub initprot: u32,
    pub maxprot: u32,
    pub filesize: u64,
    pub vmsize: u64,
    pub fileoff: u64,
}

/// The fields of the symbol table load command that the writer sets.
#[derive(Debug, Clone, Copy, PartialEq, Eq, Structural)]
pub struct SymtabCommand {
    pub symoff: u32,
    pub nsyms: u32,
    pub stroff: u32,
    pub strsize: u32,
}

/// The size of one symbol table entry.
pub open spec fn spec_nlist_size(is_64: bool) -> u64 {
    if is_64 {
        16
    } else {
        12
    }
}

/// The bytes of a file header, for the container and byte order given.
pub uninterp spec fn header_bytes(is_64: bool, little_endian: bool, header: Header) -> Seq<u8>;

/// The bytes of a segment load command whose section headers are `sections`.
pub uninterp spec fn segment_command_bytes(
    is_64: bool,
    little_endian: bool,
    sections: Seq<u8>,
    command: SegmentCommand,
) -> Seq<u8>;

/// The bytes of a section header.
pub uninterp spec fn section_header_bytes(
    is_64: bool,
    little_endian: bool,
    sectname: Seq<char>,
    segname: Seq<char>,
    addr: u64,
    size: u64,
    offset: u32,
    align: u32,
    reloff: u32,
    nreloc: u32,
    flags: u32,
) -> Seq<u8>;

/// The bytes of a little-endian symbol table load command.
pub uninterp spec fn symtab_command_bytes(command: SymtabCommand) -> Seq<u8>;

/// The bytes of a symbol table entry.
pub uninterp spec fn nlist_bytes(is_64: bool, little_endian: bool, nlist: Nlist) -> Seq<u8>;

/// The bytes of a little-endian relocation record.
pub uninterp spec fn relocation_bytes(info: RelocationInfo) -> Seq<u8>;

/// `IOwrite::iowrite_with` on a `goblin::mach::header::Header` made by
/// `Header::new`: the header takes 28 bytes in the 32-bit container and 32
/// in the 64-bit one.
#[verifier::external_body]
pub(crate) fn encode_header(target: &Target, header: &Header) -> (out: Vec<u8>)
    ensures
        out@ == header_bytes(target.is_64, target.little_endian, *header),
        out@.len() == spec_header_size(target.is_64),
{
    let container = if target.is_64 { Container::Big } else { Container::Little };
    let ctx = Ctx::new(container, if target.little_endian { Endian::Little } else { Endian::Big });
    let mut raw = goblin::mach::header::Header::new(ctx);
    raw.filetype = header.filetype;
    raw.flags = header.flags;
    raw.cputype = header.cputype;
    raw.cpusubtype = header.cpusubtype;
    raw.ncmds = header.ncmds;
    raw.sizeofcmds = header.sizeofcmds;
    let mut out = Vec::new();
    out.iowrite_with(raw, ctx).unwrap();
    out
}

/// `IOwrite::iowrite_with` on a `goblin::mach::segment::Segment` made by
/// `Segment::new`: the command without its section headers takes 56 bytes
/// in the 32-bit container and 72 in the 64-bit one.
#[verifier::external_body]
pub(crate) fn encode_segment_command(
    target: &Target,
    sections: &Vec<u8>,
    command: &SegmentCommand,
) -> (out: Vec<u8>)
    ensures
        out@ == segment_command_bytes(target.is_64, target.little_endian, sections@, *command),
        out@.len() == spec_segment_command_size(target.is_64),
{
    let container = if target.is_64 { Container::Big } else { Container::Little };
    let ctx = Ctx::new(container, if target.little_endian { Endian::Little } else { Endian::Big });
    let mut raw = goblin::mach::segment::Segment::new(ctx, sections);
    raw.nsects = command.nsects;
    raw.initprot = command.initprot;
    raw.maxprot = command.maxprot;
    raw.filesize = command.filesize;
    raw.vmsize = command.vmsize;
    raw.fileoff = command.fileoff;
    let mut out = Vec::new();
    out.iowrite_with(raw, ctx).unwrap();
    out
}

/// `IOwrite::iowrite_with` on a `goblin::mach::segment::Section` whose two
/// names were copied into their sixteen bytes by `Pwrite::pwrite`: the
/// header takes 68 bytes in the 32-bit container and 80 in the 64-bit one.
/// A name of more than sixteen bytes does not fit.
#[verifier::external_body]
pub(crate) fn encode_section(target: &Target, section: &Section) -> (out: Vec<u8>)
    requires
        name_len(section.sectname@) <= 16,
        name_len(section.segname@) <= 16,
    ensures
        out@ == section_header_bytes(
            target.is_64,
            target.little_endian,
            section.sectname@,
            section.segname@,
            section.addr,
            section.size,
            section.offset,
            section.align,
            section.reloff,
            section.nreloc,
            section.flags,
        ),
        out@.len() == spec_section_header_size(target.is_64),
{
    let container = if target.is_64 { Container::Big } else { Container::Little };
    let ctx = Ctx::new(container, if target.little_endian { Endian::Little } else { Endian::Big });
    let mut raw = goblin::mach::segment::Section::default();
    raw.sectname.pwrite(section.sectname.as_str(), 0).unwrap();
    raw.segname.pwrite(section.segname.as_str(), 0).unwrap();
    raw.addr = section.addr;
    raw.size = section.size;
    raw.offset = section.offset;
    raw.align = section.align;
    raw.reloff = section.reloff;
    raw.nreloc = section.nreloc;
    raw.flags = section.flags;
    let mut out = Vec::new();
    out.iowrite_with(raw, ctx).unwrap();
    out
}

/// `IOwrite::iowrite_with` on a `goblin::mach::load_command::SymtabCommand`
/// made by `SymtabCommand::new`, in little-endian order: 24 bytes.
#[verifier::external_body]
pub(crate) fn encode_symtab_command(command: &SymtabCommand) -> (out: Vec<u8>)
    ensures
        out@ == symtab_command_bytes(*command),
        out@.len() == 24,
{
    let mut raw = goblin::mach::load_command::SymtabCommand::new();
    raw.nsyms = command.nsyms;
    raw.symoff = command.symoff;
    raw.stroff = command.stroff;
    raw.strsize = command.strsize;
    let mut out = Vec::new();
    out.iowrite_with(raw, Endian::Little).unwrap();
    out
}

/// `IOwrite::iowrite_with` on a `goblin::mach::symbols::Nlist`: the entry
/// takes 12 bytes in the 32-bit container and 16 in the 64-bit one.
#[verifier::external_body]
pub(crate) fn encode_nlist(target: &Target, nlist: &Nlist) -> (out: Vec<u8>)
    ensures
        out@ == nlist_bytes(target.is_64, target.little_endian, *nlist),
        out@.len() == spec_nlist_size(target.is_64),
{
    let container = if target.is_64 { Container::Big } else { Container::Little };
    let ctx = Ctx::new(container, if target.little_endian { Endian::Little } else { Endian::Big });
    let raw = goblin::mach::symbols::Nlist {
        n_strx: nlist.n_strx as usize,
        n_type: nlist.n_type,
        n_sect: nlist.n_sect,
        n_desc: nlist.n_desc,
        n_value: nlist.n_value,
    };
    let mut out = Vec::new();
    out.iowrite_with(raw, ctx).unwrap();
    out
}

/// `IOwrite::iowrite_with` on a `goblin::mach::relocation::RelocationInfo`,
/// in little-endian order: 8 bytes.
#[verifier::external_body]
pub(crate) fn encode_relocation(info: &RelocationInfo) -> (out: Vec<u8>)
    ensures
        out@ == relocation_bytes(*info),
        out@.len() == 8,
{
    let raw = goblin::mach::relocation::RelocationInfo {
        r_address: info.r_address,
        r_info: info.r_info,
    };
    let mut out = Vec::new();
    out.iowrite_with(raw, Endian::Little).unwrap();
    out
}

} // verus!
