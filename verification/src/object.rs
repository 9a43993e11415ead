//! The object file: the partition of the definitions, the file's layout and
//! its serialization.

use vstd::prelude::*;
use crate::artifact::{Architecture, Artifact, Data, DataType, DefinedDecl, Definition, Target};
use crate::constants::{
    CPU_TYPE_ARM,
    CPU_TYPE_ARM64,
    CPU_TYPE_POWERPC,
    CPU_TYPE_POWERPC64,
    CPU_TYPE_SPARC,
    CPU_TYPE_X86,
    CPU_TYPE_X86_64,
    MH_OBJECT,
    MH_SUBSECTIONS_VIA_SYMBOLS,
};
use crate::encode::{
    encode_header,
    encode_nlist,
    encode_relocation,
    encode_section,
    encode_segment_command,
    encode_symtab_command,
    header_bytes,
    nlist_bytes,
    relocation_bytes,
    section_header_bytes,
    segment_command_bytes,
    spec_nlist_size,
    symtab_command_bytes,
    Header,
    SegmentCommand,
    SymtabCommand,
};
use crate::layout::{derefs, section_align, section_size};
use crate::align::align_exp_of;
use crate::constants::{S_CSTRING_LITERALS, S_REGULAR, S_ZEROFILL};
use crate::lower::{build_relocations, link_supported, links_fit, lower_links, relocs_view};
use crate::reloc::RelocationInfo;
use crate::section::{sections_view, SectionView};
use crate::ordered::{section_list, sections_get_index, sections_len};
use crate::segment::{
    custom_flags,
    custom_sectname,
    custom_segname,
    customs_size,
    header_size,
    text_flags,
    pads_view,
    spec_header_size,
    spec_section_header_size,
    spec_segment_command_size,
    Buckets,
    SegmentBuilder,
};
use crate::symbol::SymbolBuilder;
use crate::symtab::{
    lemma_strtab_size_monotonic,
    name_len,
    strtab_bytes,
    strtab_size,
    SymbolTable,
    SymbolTableView,
};

verus! {

/// A Mach-O CPU type.
#[derive(Debug, Clone, Copy, PartialEq, Eq, Structural)]
pub struct CpuType(pub u32);

/// The CPU type that stands for an architecture.
pub open spec fn spec_cpu_type(architecture: Architecture) -> u32 {
    match architecture {
        Architecture::X86_64 => CPU_TYPE_X86_64,
        Architecture::I386 | Architecture::I586 | Architecture::I686 => CPU_TYPE_X86,
        Architecture::Aarch64 => CPU_TYPE_ARM64,
        Architecture::Arm => CPU_TYPE_ARM,
        Architecture::Sparc => CPU_TYPE_SPARC,
        Architecture::Powerpc => CPU_TYPE_POWERPC,
        Architecture::Powerpc64 | Architecture::Powerpc64le => CPU_TYPE_POWERPC64,
        Architecture::Unknown | Architecture::Other => 0,
    }
}

impl CpuType {
    /// The CPU type of an architecture that Mach-O knows.
    pub fn from(architecture: Architecture) -> (cpu: CpuType)
        requires
            architecture != Architecture::Other,
        ensures
            cpu.0 == spec_cpu_type(architecture),
    {
        CpuType(
            match architecture {
                Architecture::X86_64 => CPU_TYPE_X86_64,
                Architecture::I386 | Architecture::I586 | Architecture::I686 => CPU_TYPE_X86,
                Architecture::Aarch64 => CPU_TYPE_ARM64,
                Architecture::Arm => CPU_TYPE_ARM,
                Architecture::Sparc => CPU_TYPE_SPARC,
                Architecture::Powerpc => CPU_TYPE_POWERPC,
                Architecture::Powerpc64 | Architecture::Powerpc64le => CPU_TYPE_POWERPC64,
                Architecture::Unknown | Architecture::Other => 0,
            },
        )
    }
}

/// The bucket that a definition is laid out in.
#[derive(Debug, Clone, Copy, PartialEq, Eq, Structural)]
pub enum Bucket {
    Code,
    Data,
    Bss,
    Cstring,
    Custom,
}

/// The bucket of a definition: a function is code; data is zero-initialized,
/// a string or plain data, in this order of precedence; a section is custom.
pub open spec fn spec_classify(def: Definition) -> Bucket {
    match def.decl {
        DefinedDecl::Function { .. } => Bucket::Code,
        DefinedDecl::Data { datatype, .. } => if def.data is ZeroInit {
            Bucket::Bss
        } else if datatype == DataType::String {
            Bucket::Cstring
        } else {
            Bucket::Data
        },
        DefinedDecl::Section { .. } => Bucket::Custom,
    }
}

/// The definitions among the first `n` that fall into `bucket`, in their order.
pub open spec fn bucket_of(defs: Seq<Definition>, bucket: Bucket, n: int) -> Seq<Definition>
    decreases n,
{
    if n <= 0 {
        Seq::empty()
    } else if spec_classify(defs[n - 1]) == bucket {
        bucket_of(defs, bucket, n - 1).push(defs[n - 1])
    } else {
        bucket_of(defs, bucket, n - 1)
    }
}

/// The bytes of memory that the zero-initialized data among the first `n` definitions takes.
pub open spec fn bss_total(defs: Seq<Definition>, n: int) -> nat
    decreases n,
{
    if n <= 0 {
        0
    } else {
        bss_total(defs, n - 1) + (match defs[n - 1].data {
            Data::ZeroInit(size) => if spec_classify(defs[n - 1]) == Bucket::Bss {
                size as nat
            } else {
                0
            },
            Data::Blob(_) => 0,
        })
    }
}

/// The buckets of an artifact.
pub open spec fn buckets_of(artifact: Artifact) -> Buckets {
    let defs = artifact.definitions@;
    let n = defs.len() as int;
    Buckets {
        code: bucket_of(defs, Bucket::Code, n),
        data: bucket_of(defs, Bucket::Data, n),
        bss: bucket_of(defs, Bucket::Bss, n),
        cstrings: bucket_of(defs, Bucket::Cstring, n),
        customs: bucket_of(defs, Bucket::Custom, n),
        imports: artifact.imports@,
    }
}

/// The bucket of a definition.
pub fn classify(def: &Definition) -> (bucket: Bucket)
    ensures
        bucket == spec_classify(*def),
{
    match def.decl {
        DefinedDecl::Function { .. } => Bucket::Code,
        DefinedDecl::Data { datatype, .. } => {
            match def.data {
                Data::ZeroInit(_) => Bucket::Bss,
                Data::Blob(_) => match datatype {
                    DataType::String => Bucket::Cstring,
                    DataType::Bytes => Bucket::Data,
                },
            }
        },
        DefinedDecl::Section { .. } => Bucket::Custom,
    }
}

/// The file position of the payload of section `k`, where the first payload starts at `first`.
pub open spec fn payload_offset_at(sections: Seq<SectionView>, first: int, k: int) -> int
    decreases k,
{
    if k <= 0 {
        first
    } else {
        payload_offset_at(sections, first, k - 1) + sections[k - 1].size
    }
}

/// The file position of the relocation records of section `k`, where the first record lies at `start`.
pub open spec fn reloc_offset_at(sections: Seq<SectionView>, start: int, k: int) -> int
    decreases k,
{
    if k <= 0 {
        start
    } else {
        reloc_offset_at(sections, start, k - 1) + sections[k - 1].relocations.len() * 8
    }
}

/// The header of a section whose payload lies at `section_offset` and whose
/// relocation records, if it has any, lie at `relocation_offset`. A section
/// without relocations has zero in both relocation fields.
pub open spec fn section_header_at(
    target: crate::artifact::Target,
    section: SectionView,
    section_offset: u64,
    relocation_offset: u64,
) -> Seq<u8> {
    section_header_bytes(
        target.is_64,
        target.little_endian,
        section.sectname,
        section.segname,
        section.addr,
        section.size,
        section_offset as u32,
        section.align as u32,
        if section.relocations.len() == 0 {
            0
        } else {
            relocation_offset as u32
        },
        section.relocations.len() as u32,
        section.flags,
    )
}

/// The headers of the first `n` sections, one after the other.
pub open spec fn section_headers(
    target: crate::artifact::Target,
    sections: Seq<SectionView>,
    first: int,
    start: int,
    n: int,
) -> Seq<u8>
    decreases n,
{
    if n <= 0 {
        Seq::empty()
    } else {
        section_headers(target, sections, first, start, n - 1) + section_header_at(
            target,
            sections[n - 1],
            payload_offset_at(sections, first, n - 1) as u64,
            reloc_offset_at(sections, start, n - 1) as u64,
        )
    }
}

/// The padding recorded under `name` among the first `n` entries: that of the last entry with the name.
pub open spec fn pad_lookup(pads: Seq<(Seq<char>, u64)>, name: Seq<char>, n: int) -> Option<u64>
    decreases n,
{
    if n <= 0 {
        None
    } else if pads[n - 1].0 == name {
        Some(pads[n - 1].1)
    } else {
        pad_lookup(pads, name, n - 1)
    }
}

/// The number of padding bytes written behind the definition called `name`.
pub open spec fn pad_count(pads: Seq<(Seq<char>, u64)>, name: Seq<char>) -> nat {
    match pad_lookup(pads, name, pads.len() as int) {
        Some(pad) => pad as nat,
        None => 0,
    }
}

/// The bytes written for the first `n` definitions of a bucket: for each its
/// payload, then its padding, filled with `fill`.
pub open spec fn payload(
    defs: Seq<Definition>,
    pads: Seq<(Seq<char>, u64)>,
    fill: u8,
    n: int,
) -> Seq<u8>
    decreases n,
{
    if n <= 0 {
        Seq::empty()
    } else {
        payload(defs, pads, fill, n - 1) + defs[n - 1].data.spec_bytes() + Seq::new(
            pad_count(pads, defs[n - 1].name@),
            |i: int| fill,
        )
    }
}

/// The entries of the first `n` symbols, one after the other.
pub open spec fn symbols_bytes(
    target: crate::artifact::Target,
    symbols: Seq<SymbolBuilder>,
    n: int,
) -> Seq<u8>
    decreases n,
{
    if n <= 0 {
        Seq::empty()
    } else {
        symbols_bytes(target, symbols, n - 1) + nlist_bytes(
            target.is_64,
            target.little_endian,
            symbols[n - 1].spec_nlist(),
        )
    }
}

/// The first `n` relocation records of one section, one after the other.
pub open spec fn reloc_list_bytes(list: Seq<RelocationInfo>, n: int) -> Seq<u8>
    decreases n,
{
    if n <= 0 {
        Seq::empty()
    } else {
        reloc_list_bytes(list, n - 1) + relocation_bytes(list[n - 1])
    }
}

/// The relocation records of the first `k` sections, one after the other.
pub open spec fn relocs_bytes(sections: Seq<SectionView>, k: int) -> Seq<u8>
    decreases k,
{
    if k <= 0 {
        Seq::empty()
    } else {
        relocs_bytes(sections, k - 1) + reloc_list_bytes(
            sections[k - 1].relocations,
            sections[k - 1].relocations.len() as int,
        )
    }
}

/// Every symbol that lies in a section lies in one whose ordinal can be formed.
pub open spec fn sections_in_range(table: SymbolTableView) -> bool {
    forall|i: int|
        0 <= i < table.symbols.len() ==> ((#[trigger] table.symbols[i]).section matches Some(idx)
            ==> idx < usize::MAX)
}

/// Appends `bytes` to `out`.
pub fn append(out: &mut Vec<u8>, bytes: &[u8])
    ensures
        final(out)@ == old(out)@ + bytes@,
{
    let mut j: usize = 0;
    while j < bytes.len()
        invariant
            j <= bytes@.len(),
            out@ == old(out)@ + bytes@.take(j as int),
        decreases bytes@.len() - j,
    {
        out.push(bytes[j]);
        proof {
            assert(bytes@.take(j + 1) =~= bytes@.take(j as int).push(bytes@[j as int]));
        }
        j = j + 1;
    }
    proof {
        assert(bytes@.take(j as int) =~= bytes@);
    }
}

/// Appends `count` bytes of value `fill` to `out`.
pub fn append_fill(out: &mut Vec<u8>, fill: u8, count: u64)
    ensures
        final(out)@ == old(out)@ + Seq::new(count as nat, |i: int| fill),
{
    let mut j: u64 = 0;
    while j < count
        invariant
            j <= count,
            out@ == old(out)@ + Seq::new(j as nat, |i: int| fill),
        decreases count - j,
    {
        out.push(fill);
        j = j + 1;
        proof {
            assert(out@ =~= old(out)@ + Seq::new(j as nat, |i: int| fill));
        }
    }
}

/// The padding recorded under `name`: that of the last entry with the name.
pub fn find_pad(pads: &Vec<(String, u64)>, name: &String) -> (pad: Option<u64>)
    ensures
        pad == pad_lookup(pads_view(pads@), name@, pads@.len() as int),
{
    let ghost ps = pads_view(pads@);
    let mut i: usize = pads.len();
    while i > 0
        invariant
            ps == pads_view(pads@),
            i <= pads@.len(),
            pad_lookup(ps, name@, pads@.len() as int) == pad_lookup(ps, name@, i as int),
        decreases i,
    {
        if pads[i - 1].0 == *name {
            return Some(pads[i - 1].1);
        }
        i = i - 1;
    }
    None
}

/// Appends the payload of the definitions of one bucket to `out`: for each
/// its bytes, then the padding recorded under its name, filled with `fill`.
pub fn write_payload(
    out: &mut Vec<u8>,
    defs: &Vec<&Definition>,
    pads: &Vec<(String, u64)>,
    fill: u8,
)
    ensures
        final(out)@ == old(out)@ + payload(
            derefs(defs@),
            pads_view(pads@),
            fill,
            defs@.len() as int,
        ),
{
    let ghost ds = derefs(defs@);
    let ghost ps = pads_view(pads@);
    let mut i: usize = 0;
    while i < defs.len()
        invariant
            ds == derefs(defs@),
            ps == pads_view(pads@),
            i <= defs@.len(),
            out@ == old(out)@ + payload(ds, ps, fill, i as int),
        decreases defs@.len() - i,
    {
        let def = defs[i];
        assert(*def == ds[i as int]);
        match &def.data {
            Data::Blob(bytes) => {
                append(out, bytes.as_slice());
            },
            Data::ZeroInit(_) => {},
        }
        let count = match find_pad(pads, &def.name) {
            Some(pad) => pad,
            None => 0,
        };
        append_fill(out, fill, count);
        proof {
            assert(out@ =~= old(out)@ + payload(ds, ps, fill, i + 1));
        }
        i = i + 1;
    }
}


/// What an object file under construction holds, as plain values.
pub struct MachView {
    pub target: Target,
    pub table: SymbolTableView,
    pub sections: Seq<SectionView>,
    /// The bytes of payload of all sections together.
    pub size: u64,
    /// The position behind the payload, counted as if the payload followed the file header at once.
    pub offset: u64,
    pub pads: Seq<(Seq<char>, u64)>,
    pub code: Seq<Definition>,
    pub data: Seq<Definition>,
    pub cstrings: Seq<Definition>,
    pub customs: Seq<Definition>,
    pub bss_size: usize,
}

impl MachView {
    /// The size of the segment load command with its section headers.
    pub open spec fn segment_load_command_size(self) -> int {
        spec_segment_command_size(self.target.is_64) + self.sections.len()
            * spec_section_header_size(self.target.is_64)
    }

    /// The size of both load commands together.
    pub open spec fn sizeof_load_commands(self) -> int {
        self.segment_load_command_size() + 24
    }

    /// The file position of the first section's payload.
    pub open spec fn first_section_offset(self) -> int {
        spec_header_size(self.target.is_64) + self.sizeof_load_commands()
    }

    /// The file position of the symbol table.
    pub open spec fn symtable_offset(self) -> int {
        self.offset + self.sizeof_load_commands()
    }

    /// The file position of the string table.
    pub open spec fn strtable_offset(self) -> int {
        self.symtable_offset() + self.table.symbols.len() * spec_nlist_size(self.target.is_64)
    }

    /// The file position of the first relocation record.
    pub open spec fn relocation_offset_start(self) -> int {
        self.strtable_offset() + strtab_size(self.table.names)
    }

    /// The file can be written: the symbol table is well formed, and the
    /// records can be encoded.
    pub open spec fn writable(self) -> bool {
        &&& self.table.wf()
        &&& sections_in_range(self.table)
        &&& self.encodable()
    }

    /// The records can be encoded: the architecture has a CPU type, every
    /// section and segment name fits in sixteen bytes, the load commands
    /// fit in 32 bits and every file position in 64.
    pub open spec fn encodable(self) -> bool {
        &&& self.target.architecture != Architecture::Other
        &&& forall|i: int|
            0 <= i < self.sections.len() ==> name_len((#[trigger] self.sections[i]).sectname) <= 16
                && name_len(self.sections[i].segname) <= 16
        &&& self.sizeof_load_commands() <= u32::MAX
        &&& self.relocation_offset_start() <= u64::MAX
        &&& payload_offset_at(
            self.sections,
            self.first_section_offset(),
            self.sections.len() as int,
        ) <= u64::MAX
        &&& reloc_offset_at(
            self.sections,
            self.relocation_offset_start(),
            self.sections.len() as int,
        ) <= u64::MAX
        &&& self.size + self.bss_size <= u64::MAX
    }

    /// The file header.
    pub open spec fn header(self) -> Header {
        Header {
            cputype: spec_cpu_type(self.target.architecture),
            cpusubtype: 3,
            filetype: MH_OBJECT,
            ncmds: 2,
            sizeofcmds: self.sizeof_load_commands() as u32,
            flags: MH_SUBSECTIONS_VIA_SYMBOLS,
        }
    }

    /// The segment load command: all of the payload, readable, writable and
    /// executable, with the zero-initialized data added to its size in memory.
    pub open spec fn segment_command(self) -> SegmentCommand {
        SegmentCommand {
            nsects: self.sections.len() as u32,
            initprot: 7,
            maxprot: 7,
            filesize: self.size,
            vmsize: (self.size + self.bss_size) as u64,
            fileoff: self.first_section_offset() as u64,
        }
    }

    /// The symbol table load command.
    pub open spec fn symtab_command(self) -> SymtabCommand {
        SymtabCommand {
            symoff: self.symtable_offset() as u32,
            nsyms: self.table.symbols.len() as u32,
            stroff: self.strtable_offset() as u32,
            strsize: strtab_size(self.table.names) as u32,
        }
    }

    /// The section headers, one after the other.
    pub open spec fn raw_sections(self) -> Seq<u8> {
        section_headers(
            self.target,
            self.sections,
            self.first_section_offset(),
            self.relocation_offset_start(),
            self.sections.len() as int,
        )
    }

    /// The bytes of the file header.
    pub open spec fn header_part(self) -> Seq<u8> {
        header_bytes(self.target.is_64, self.target.little_endian, self.header())
    }

    /// The bytes of the two load commands: the segment command, its section
    /// headers, and the symbol table command.
    pub open spec fn load_commands_part(self) -> Seq<u8> {
        segment_command_bytes(
            self.target.is_64,
            self.target.little_endian,
            self.raw_sections(),
            self.segment_command(),
        ) + self.raw_sections() + symtab_command_bytes(self.symtab_command())
    }

    /// The payload of all sections: code padded with `0xCC`, then data,
    /// strings and custom sections padded with `0xAA`. Zero-initialized data
    /// has no payload.
    pub open spec fn payload_part(self) -> Seq<u8> {
        payload(self.code, self.pads, 0xcc, self.code.len() as int) + payload(
            self.data,
            self.pads,
            0xaa,
            self.data.len() as int,
        ) + payload(self.cstrings, self.pads, 0xaa, self.cstrings.len() as int) + payload(
            self.customs,
            self.pads,
            0xaa,
            self.customs.len() as int,
        )
    }

    /// The bytes of the symbol table.
    pub open spec fn symbols_part(self) -> Seq<u8> {
        symbols_bytes(self.target, self.table.symbols, self.table.symbols.len() as int)
    }

    /// The bytes of all relocation records.
    pub open spec fn relocs_part(self) -> Seq<u8> {
        relocs_bytes(self.sections, self.sections.len() as int)
    }

    /// The whole file: header, load commands, payload, symbol table, string
    /// table, relocation records and one closing NUL.
    pub open spec fn file_bytes(self) -> Seq<u8> {
        self.header_part() + self.load_commands_part() + self.payload_part() + self.symbols_part()
            + strtab_bytes(self.table.names) + self.relocs_part() + seq![0u8]
    }
}

/// The sections of the buckets `b` as they are laid out, without relocations.
pub open spec fn section_models(b: Buckets, is_64: bool) -> Seq<SectionView> {
    let h = spec_header_size(is_64) as int;
    Seq::new(
        4 + b.customs.len(),
        |i: int|
            if i == 0 {
                SectionView {
                    addr: 0,
                    align: section_align(b.code, 4, b.code.len() as int) as u64,
                    offset: h as u64,
                    size: section_size(b.code, 4) as u64,
                    flags: text_flags(),
                    sectname: "__text"@,
                    segname: "__TEXT"@,
                    relocations: Seq::empty(),
                }
            } else if i == 1 {
                SectionView {
                    addr: b.data_start() as u64,
                    align: section_align(b.data, 3, b.data.len() as int) as u64,
                    offset: (h + b.data_start()) as u64,
                    size: section_size(b.data, 3) as u64,
                    flags: S_REGULAR,
                    sectname: "__data"@,
                    segname: "__DATA"@,
                    relocations: Seq::empty(),
                }
            } else if i == 2 {
                SectionView {
                    addr: b.cstring_start() as u64,
                    align: section_align(b.cstrings, 0, b.cstrings.len() as int) as u64,
                    offset: (h + b.cstring_start()) as u64,
                    size: section_size(b.cstrings, 0) as u64,
                    flags: S_CSTRING_LITERALS,
                    sectname: "__cstring"@,
                    segname: "__TEXT"@,
                    relocations: Seq::empty(),
                }
            } else if i == 3 {
                SectionView {
                    addr: b.bss_start() as u64,
                    align: section_align(b.bss, 0, b.bss.len() as int) as u64,
                    offset: (h + b.bss_start()) as u64,
                    size: section_size(b.bss, 0) as u64,
                    flags: S_ZEROFILL,
                    sectname: "__bss"@,
                    segname: "__DATA"@,
                    relocations: Seq::empty(),
                }
            } else {
                let def = b.customs[i - 4];
                let kind = match def.decl {
                    DefinedDecl::Section { kind, .. } => kind,
                    _ => crate::artifact::SectionKind::Data,
                };
                SectionView {
                    addr: (b.customs_start() + customs_size(b.customs, i - 4)) as u64,
                    align: align_exp_of(def.decl.align_or_one()) as u64,
                    offset: (h + b.customs_start() + customs_size(b.customs, i - 4)) as u64,
                    size: def.data.spec_file_size() as u64,
                    flags: custom_flags(kind),
                    sectname: custom_sectname(def.name@),
                    segname: custom_segname(kind),
                    relocations: Seq::empty(),
                }
            },
    )
}

/// The sections with the relocation lists `relocs` in place of their own.
pub open spec fn with_relocs(
    sections: Seq<SectionView>,
    relocs: Seq<Seq<RelocationInfo>>,
) -> Seq<SectionView> {
    Seq::new(
        sections.len(),
        |i: int| SectionView { relocations: relocs[i], ..sections[i] },
    )
}

/// The object file that an artifact is written as.
pub open spec fn model_of(artifact: Artifact) -> MachView {
    let b = buckets_of(artifact);
    let table = b.symtab(SymbolTableView::empty());
    let placed = section_models(b, artifact.target.is_64);
    let relocs = lower_links(
        Seq::new(placed.len(), |i: int| Seq::<RelocationInfo>::empty()),
        b.keys(),
        table,
        artifact.links@,
        artifact.links@.len() as int,
    );
    MachView {
        target: artifact.target,
        table,
        sections: with_relocs(placed, relocs),
        size: b.payload_size() as u64,
        offset: (spec_header_size(artifact.target.is_64) + b.payload_size()) as u64,
        pads: b.pads(),
        code: b.code,
        data: b.data,
        cstrings: b.cstrings,
        customs: b.customs,
        bss_size: bss_total(artifact.definitions@, artifact.definitions@.len() as int) as usize,
    }
}

/// The layout of an artifact can be computed: its buckets fit, the
/// zero-initialized data can be counted, and every link can be lowered and placed.
pub open spec fn layout_fits(artifact: Artifact) -> bool {
    let b = buckets_of(artifact);
    &&& b.fits(SymbolTableView::empty(), artifact.target.is_64)
    &&& bss_total(artifact.definitions@, artifact.definitions@.len() as int) <= usize::MAX
    &&& forall|i: int|
        0 <= i < artifact.links@.len() ==> link_supported(#[trigger] artifact.links@[i])
    &&& links_fit(artifact.links@, b.symtab(SymbolTableView::empty()))
}

/// The zero-initialized bytes counted grow with the number of definitions counted.
pub proof fn lemma_bss_total_monotonic(defs: Seq<Definition>, i: int, j: int)
    requires
        0 <= i <= j,
    ensures
        bss_total(defs, i) <= bss_total(defs, j),
    decreases j - i,
{
    if i < j {
        lemma_bss_total_monotonic(defs, i, j - 1);
    }
}

/// File positions grow from section to section.
pub proof fn lemma_offsets_monotonic(sections: Seq<SectionView>, first: int, i: int, j: int)
    requires
        0 <= i <= j,
    ensures
        payload_offset_at(sections, first, i) <= payload_offset_at(sections, first, j),
        reloc_offset_at(sections, first, i) <= reloc_offset_at(sections, first, j),
        first <= payload_offset_at(sections, first, i),
        first <= reloc_offset_at(sections, first, i),
    decreases j,
{
    if i < j {
        lemma_offsets_monotonic(sections, first, i, j - 1);
    } else if i > 0 {
        lemma_offsets_monotonic(sections, first, i - 1, i - 1);
    }
}

/// An object file under construction.
pub struct Mach<'a> {
    pub target: Target,
    pub symtab: SymbolTable,
    pub segment: SegmentBuilder,
    pub code: Vec<&'a Definition>,
    pub data: Vec<&'a Definition>,
    pub bss_size: usize,
    pub cstrings: Vec<&'a Definition>,
    pub sections: Vec<&'a Definition>,
}

impl<'a> View for Mach<'a> {
    type V = MachView;

    open spec fn view(&self) -> MachView {
        MachView {
            target: self.target,
            table: self.symtab@,
            sections: sections_view(section_list(self.segment.sections)),
            size: self.segment.size,
            offset: self.segment.offset,
            pads: pads_view(self.segment.align_pad_map@),
            code: derefs(self.code@),
            data: derefs(self.data@),
            cstrings: derefs(self.cstrings@),
            customs: derefs(self.sections@),
            bss_size: self.bss_size,
        }
    }
}

impl<'a> Mach<'a> {
    /// Partitions the definitions of `artifact` into their buckets, lays
    /// out the segment, fills the symbol table and lowers the links.
    pub fn new(artifact: &'a Artifact) -> (mach: Self)
        requires
            layout_fits(*artifact),
        ensures
            mach.symtab.wf(),
            mach@ == model_of(*artifact),
    {
        let ghost defs = artifact.definitions@;
        let ghost b = buckets_of(*artifact);
        let mut code: Vec<&'a Definition> = Vec::new();
        let mut data: Vec<&'a Definition> = Vec::new();
        let mut bss: Vec<&'a Definition> = Vec::new();
        let mut cstrings: Vec<&'a Definition> = Vec::new();
        let mut sections: Vec<&'a Definition> = Vec::new();
        let mut bss_size: usize = 0;
        let n = artifact.definitions.len();
        let mut i: usize = 0;
        proof {
            assert(derefs(code@) =~= bucket_of(defs, Bucket::Code, 0));
            assert(derefs(data@) =~= bucket_of(defs, Bucket::Data, 0));
            assert(derefs(bss@) =~= bucket_of(defs, Bucket::Bss, 0));
            assert(derefs(cstrings@) =~= bucket_of(defs, Bucket::Cstring, 0));
            assert(derefs(sections@) =~= bucket_of(defs, Bucket::Custom, 0));
        }
        while i < n
            invariant
                defs == artifact.definitions@,
                n == defs.len(),
                i <= n,
                bss_total(defs, n as int) <= usize::MAX,
                derefs(code@) == bucket_of(defs, Bucket::Code, i as int),
                derefs(data@) == bucket_of(defs, Bucket::Data, i as int),
                derefs(bss@) == bucket_of(defs, Bucket::Bss, i as int),
                derefs(cstrings@) == bucket_of(defs, Bucket::Cstring, i as int),
                derefs(sections@) == bucket_of(defs, Bucket::Custom, i as int),
                bss_size == bss_total(defs, i as int),
            decreases n - i,
        {
            let def = &artifact.definitions[i];
            proof {
                lemma_bss_total_monotonic(defs, i + 1, n as int);
            }
            match classify(def) {
                Bucket::Code => {
                    let ghost before = code@;
                    code.push(def);
                    assert(derefs(code@) =~= derefs(before).push(*def));
                },
                Bucket::Data => {
                    let ghost before = data@;
                    data.push(def);
                    assert(derefs(data@) =~= derefs(before).push(*def));
                },
                Bucket::Bss => {
                    let ghost before = bss@;
                    bss.push(def);
                    assert(derefs(bss@) =~= derefs(before).push(*def));
                    match def.data {
                        Data::ZeroInit(size) => {
                            bss_size = bss_size + size;
                        },
                        Data::Blob(_) => {},
                    }
                },
                Bucket::Cstring => {
                    let ghost before = cstrings@;
                    cstrings.push(def);
                    assert(derefs(cstrings@) =~= derefs(before).push(*def));
                },
                Bucket::Custom => {
                    let ghost before = sections@;
                    sections.push(def);
                    assert(derefs(sections@) =~= derefs(before).push(*def));
                },
            }
            i = i + 1;
        }
        let mut symtab = SymbolTable::new();
        let mut segment = SegmentBuilder::new(
            &artifact.imports,
            &code,
            &data,
            &bss,
            &cstrings,
            &sections,
            &mut symtab,
            &artifact.target,
        );
        let ghost laid = section_list(segment.sections);
        proof {
            assert(b.keys().len() == 4 + b.customs.len());
            assert(relocs_view(laid) =~= Seq::new(
                laid.len(),
                |i: int| Seq::<RelocationInfo>::empty(),
            ));
        }
        build_relocations(&mut segment, &artifact.links, &symtab);
        let mach = Mach {
            target: artifact.target,
            symtab,
            segment,
            code,
            data,
            bss_size,
            cstrings,
            sections,
        };
        proof {
            let m = model_of(*artifact);
            let h = spec_header_size(artifact.target.is_64) as int;
            assert(mach@.sections.len() == m.sections.len());
            assert forall|i: int| 0 <= i < m.sections.len() implies mach@.sections[i]
                == m.sections[i] by {
                let s = section_list(mach.segment.sections)[i];
                assert(crate::lower::same_placement(s, laid[i]));
                assert(s.relocations@ == relocs_view(section_list(mach.segment.sections))[i]);
                if i >= 4 {
                    assert(crate::segment::custom_placed(
                        laid[4 + (i - 4)],
                        b.customs[i - 4],
                        (h + b.customs_start() + customs_size(b.customs, i - 4)) as u64,
                        (b.customs_start() + customs_size(b.customs, i - 4)) as u64,
                    ));
                }
            }
            assert(mach@.sections =~= m.sections);
        }
        mach
    }

    /// The file header, for load commands of `sizeofcmds` bytes.
    pub fn header(&self, sizeofcmds: u64) -> (header: Header)
        requires
            self.target.architecture != Architecture::Other,
        ensures
            header == (Header {
                cputype: spec_cpu_type(self.target.architecture),
                cpusubtype: 3,
                filetype: MH_OBJECT,
                ncmds: 2,
                sizeofcmds: sizeofcmds as u32,
                flags: MH_SUBSECTIONS_VIA_SYMBOLS,
            }),
    {
        Header {
            cputype: CpuType::from(self.target.architecture).0,
            cpusubtype: 3,
            filetype: MH_OBJECT,
            ncmds: 2,
            sizeofcmds: sizeofcmds as u32,
            flags: MH_SUBSECTIONS_VIA_SYMBOLS,
        }
    }

    /// Serializes the object file. Every offset that the headers quote is
    /// computed before the first byte is written.
    ///
    /// The file header takes its fixed size, and the load commands take as
    /// many bytes as the header declares for them, so that the payload
    /// starts where the segment command says. The symbol table takes one
    /// entry for each symbol, and the relocation records take eight bytes each.
    pub fn write(&self) -> (out: Vec<u8>)
        requires
            self.symtab.wf(),
            self@.writable(),
        ensures
            out@ == self@.file_bytes(),
            self@.header_part().len() == spec_header_size(self.target.is_64),
            self@.load_commands_part().len() == self@.sizeof_load_commands(),
            self@.symbols_part().len() == self@.table.symbols.len() * spec_nlist_size(
                self.target.is_64,
            ),
            self@.relocs_part().len() == reloc_offset_at(
                self@.sections,
                0,
                self@.sections.len() as int,
            ),
    {
        let ghost v = self@;
        let nsects = sections_len(&self.segment.sections);
        let segment_load_command_size = self.segment.load_command_size(&self.target);
        let sizeof_load_commands = segment_load_command_size + 24;
        let symtable_offset = self.segment.offset + sizeof_load_commands;
        let nlist_size: u64 = if self.target.is_64 {
            16
        } else {
            12
        };
        let nsyms = self.symtab.len();
        proof {
            lemma_strtab_size_monotonic(v.table.names, 0);
        }
        let strtable_offset = symtable_offset + nsyms as u64 * nlist_size;
        let relocation_offset_start = strtable_offset + self.symtab.sizeof_strtable();
        let first_section_offset = header_size(self.target.is_64) + sizeof_load_commands;
        let header = self.header(sizeof_load_commands);

        let mut raw_sections: Vec<u8> = Vec::new();
        let mut relocation_offset = relocation_offset_start;
        let mut section_offset = first_section_offset;
        let mut k: usize = 0;
        while k < nsects
            invariant
                v == self@,
                v.writable(),
                nsects == section_list(self.segment.sections).len(),
                nsects == v.sections.len(),
                k <= nsects,
                first_section_offset == v.first_section_offset(),
                relocation_offset_start == v.relocation_offset_start(),
                section_offset == payload_offset_at(v.sections, v.first_section_offset(), k as int),
                relocation_offset == reloc_offset_at(
                    v.sections,
                    v.relocation_offset_start(),
                    k as int,
                ),
                raw_sections@ == section_headers(
                    self.target,
                    v.sections,
                    v.first_section_offset(),
                    v.relocation_offset_start(),
                    k as int,
                ),
                raw_sections@.len() == k * spec_section_header_size(self.target.is_64),
            decreases nsects - k,
        {
            if let Some(section) = sections_get_index(&self.segment.sections, k) {
                proof {
                    assert(v.sections[k as int] == section@);
                    lemma_offsets_monotonic(
                        v.sections,
                        v.first_section_offset(),
                        k + 1,
                        nsects as int,
                    );
                    lemma_offsets_monotonic(
                        v.sections,
                        v.relocation_offset_start(),
                        k + 1,
                        nsects as int,
                    );
                }
                let section_header = section.create(&mut section_offset, &mut relocation_offset);
                let bytes = encode_section(&self.target, &section_header);
                append(&mut raw_sections, bytes.as_slice());
            }
            proof {
                assert(raw_sections@ =~= section_headers(
                    self.target,
                    v.sections,
                    v.first_section_offset(),
                    v.relocation_offset_start(),
                    k + 1,
                ));
                assert((k + 1) * spec_section_header_size(self.target.is_64) == k
                    * spec_section_header_size(self.target.is_64) + spec_section_header_size(
                    self.target.is_64,
                )) by (nonlinear_arith);
            }
            k = k + 1;
        }
        let segment_load_command = SegmentCommand {
            nsects: nsects as u32,
            initprot: 7,
            maxprot: 7,
            filesize: self.segment.size(),
            vmsize: self.segment.size() + self.bss_size as u64,
            fileoff: first_section_offset,
        };
        let symtab_load_command = SymtabCommand {
            nsyms: self.symtab.len() as u32,
            symoff: symtable_offset as u32,
            stroff: strtable_offset as u32,
            strsize: self.symtab.sizeof_strtable() as u32,
        };
        assert(segment_load_command == v.segment_command());
        assert(symtab_load_command == v.symtab_command());
        assert(header == v.header());

        let mut out = encode_header(&self.target, &header);
        let segment_bytes = encode_segment_command(
            &self.target,
            &raw_sections,
            &segment_load_command,
        );
        append(&mut out, segment_bytes.as_slice());
        append(&mut out, raw_sections.as_slice());
        let symtab_bytes = encode_symtab_command(&symtab_load_command);
        append(&mut out, symtab_bytes.as_slice());
        assert(out@ =~= v.header_part() + v.load_commands_part());

        write_payload(&mut out, &self.code, &self.segment.align_pad_map, 0xcc);
        write_payload(&mut out, &self.data, &self.segment.align_pad_map, 0xaa);
        write_payload(&mut out, &self.cstrings, &self.segment.align_pad_map, 0xaa);
        write_payload(&mut out, &self.sections, &self.segment.align_pad_map, 0xaa);
        assert(out@ =~= v.header_part() + v.load_commands_part() + v.payload_part());

        let ghost before_symbols = out@;
        let mut s: usize = 0;
        while s < nsyms
            invariant
                v == self@,
                v.writable(),
                nsyms == v.table.symbols.len(),
                s <= nsyms,
                out@ == before_symbols + symbols_bytes(self.target, v.table.symbols, s as int),
                symbols_bytes(self.target, v.table.symbols, s as int).len() == s * spec_nlist_size(
                    self.target.is_64,
                ),
            decreases nsyms - s,
        {
            if let Some(symbol) = self.symtab.symbol_at(s) {
                let nlist = symbol.create();
                let bytes = encode_nlist(&self.target, &nlist);
                append(&mut out, bytes.as_slice());
            }
            proof {
                assert(out@ =~= before_symbols + symbols_bytes(
                    self.target,
                    v.table.symbols,
                    s + 1,
                ));
                assert((s + 1) * spec_nlist_size(self.target.is_64) == s * spec_nlist_size(
                    self.target.is_64,
                ) + spec_nlist_size(self.target.is_64)) by (nonlinear_arith);
            }
            s = s + 1;
        }
        self.symtab.write_strtable(&mut out);
        let ghost before_relocs = out@;
        assert(before_relocs =~= v.header_part() + v.load_commands_part() + v.payload_part()
            + v.symbols_part() + strtab_bytes(v.table.names));

        let mut k: usize = 0;
        while k < nsects
            invariant
                v == self@,
                nsects == section_list(self.segment.sections).len(),
                nsects == v.sections.len(),
                k <= nsects,
                out@ == before_relocs + relocs_bytes(v.sections, k as int),
                relocs_bytes(v.sections, k as int).len() == reloc_offset_at(v.sections, 0, k as int),
            decreases nsects - k,
        {
            let ghost before_list = out@;
            if let Some(section) = sections_get_index(&self.segment.sections, k) {
                assert(v.sections[k as int] == section@);
                let nrelocs = section.relocations.len();
                let mut r: usize = 0;
                while r < nrelocs
                    invariant
                        nrelocs == section.relocations@.len(),
                        r <= nrelocs,
                        out@ == before_list + reloc_list_bytes(section.relocations@, r as int),
                        reloc_list_bytes(section.relocations@, r as int).len() == r * 8,
                    decreases nrelocs - r,
                {
                    let bytes = encode_relocation(&section.relocations[r]);
                    append(&mut out, bytes.as_slice());
                    proof {
                        assert(out@ =~= before_list + reloc_list_bytes(
                            section.relocations@,
                            r + 1,
                        ));
                    }
                    r = r + 1;
                }
            }
            proof {
                assert(out@ =~= before_relocs + relocs_bytes(v.sections, k + 1));
            }
            k = k + 1;
        }
        out.push(0u8);
        proof {
            assert(out@ =~= v.file_bytes());
        }
        out
    }
}

/// Writes `artifact` as a Mach-O object file.
pub fn to_bytes(artifact: &Artifact) -> (bytes: Vec<u8>)
    requires
        layout_fits(*artifact),
        model_of(*artifact).writable(),
    ensures
        bytes@ == model_of(*artifact).file_bytes(),
{
    let mach = Mach::new(artifact);
    mach.write()
}

} // verus!
