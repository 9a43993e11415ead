//! The input of the writer: definitions, imports and links between them.

use vstd::prelude::*;

verus! {

/// The architectures a target can name.
#[derive(Debug, Clone, Copy, PartialEq, Eq, Structural)]
pub enum Architecture {
    X86_64,
    I386,
    I586,
    I686,
    Aarch64,
    Arm,
    Sparc,
    Powerpc,
    Powerpc64,
    Powerpc64le,
    Unknown,
    /// An architecture that no Mach-O CPU type stands for.
    Other,
}

/// The machine that the object is written for.
#[derive(Debug, Clone, Copy, PartialEq, Eq, Structural)]
pub struct Target {
    pub architecture: Architecture,
    /// Whether pointers have 64 bits: chooses the 64-bit container.
    pub is_64: bool,
    pub little_endian: bool,
}

/// What the bytes of a data definition hold.
#[derive(Debug, Clone, Copy, PartialEq, Eq, Structural)]
pub enum DataType {
    Bytes,
    String,
}

/// What a custom section holds.
#[derive(Debug, Clone, Copy, PartialEq, Eq, Structural)]
pub enum SectionKind {
    Data,
    Debug,
    Text,
}

/// The declaration of a definition.
#[derive(Debug, Clone, Copy, PartialEq, Eq, Structural)]
pub enum DefinedDecl {
    Function { global: bool, align: Option<u64> },
    Data { global: bool, datatype: DataType, align: Option<u64> },
    Section { kind: SectionKind, align: Option<u64> },
}

/// What an import stands for.
#[derive(Debug, Clone, Copy, PartialEq, Eq, Structural)]
pub enum ImportKind {
    Function,
    Data,
}

/// The declaration of either end of a link.
#[derive(Debug, Clone, Copy, PartialEq, Eq, Structural)]
pub enum Decl {
    Defined(DefinedDecl),
    Import(ImportKind),
}

/// The payload of a definition.
#[derive(Debug, Clone)]
pub enum Data {
    /// Bytes that are written to the file.
    Blob(Vec<u8>),
    /// A run of zero bytes that takes room in memory only.
    ZeroInit(usize),
}

/// A named, declared payload.
#[derive(Debug, Clone)]
pub struct Definition {
    pub name: String,
    pub decl: DefinedDecl,
    pub data: Data,
    /// For a custom section: the symbols inside it, each with its offset in the section.
    pub symbols: Vec<(String, u64)>,
}

/// How a link is to be relocated.
#[derive(Debug, Clone, Copy, PartialEq, Eq, Structural)]
pub enum Reloc {
    /// Chosen from the declarations of the two ends.
    Auto,
    /// A relocation type given as a number.
    Raw { reloc: u32, addend: i32 },
    /// A reference out of a debug section to a value of `size` bytes.
    Debug { size: u8, addend: i32 },
}

/// One end of a link.
#[derive(Debug, Clone)]
pub struct LinkEnd {
    pub name: String,
    pub decl: Decl,
}

/// A reference from the bytes of one symbol to another symbol.
#[derive(Debug, Clone)]
pub struct Link {
    pub from: LinkEnd,
    pub to: LinkEnd,
    /// Offset of the reference inside `from`.
    pub at: u64,
    pub reloc: Reloc,
}

/// Everything that goes into one object file.
#[derive(Debug, Clone)]
pub struct Artifact {
    pub target: Target,
    pub definitions: Vec<Definition>,
    pub imports: Vec<(String, ImportKind)>,
    pub links: Vec<Link>,
}

impl DefinedDecl {
    pub open spec fn spec_is_global(self) -> bool {
        match self {
            DefinedDecl::Function { global, .. } => global,
            DefinedDecl::Data { global, .. } => global,
            DefinedDecl::Section { .. } => false,
        }
    }

    pub open spec fn spec_align(self) -> Option<u64> {
        match self {
            DefinedDecl::Function { align, .. } => align,
            DefinedDecl::Data { align, .. } => align,
            DefinedDecl::Section { align, .. } => align,
        }
    }

    /// The alignment asked for, or one byte where none is.
    pub open spec fn align_or_one(self) -> u64 {
        match self.spec_align() {
            Some(a) => a,
            None => 1,
        }
    }

    pub open spec fn spec_is_section(self) -> bool {
        self is Section
    }

    /// Whether the definition is visible outside the object.
    pub fn is_global(&self) -> (g: bool)
        ensures
            g == self.spec_is_global(),
    {
        match self {
            DefinedDecl::Function { global, .. } => *global,
            DefinedDecl::Data { global, .. } => *global,
            DefinedDecl::Section { .. } => false,
        }
    }

    /// The alignment asked for, if any.
    pub fn get_align(&self) -> (a: Option<u64>)
        ensures
            a == self.spec_align(),
    {
        match self {
            DefinedDecl::Function { align, .. } => *align,
            DefinedDecl::Data { align, .. } => *align,
            DefinedDecl::Section { align, .. } => *align,
        }
    }
}

impl Decl {
    pub open spec fn spec_is_section(self) -> bool {
        self matches Decl::Defined(d) && d is Section
    }

    pub open spec fn spec_is_debug_section(self) -> bool {
        self matches Decl::Defined(DefinedDecl::Section { kind, .. }) && kind == SectionKind::Debug
    }

    /// Whether this end of a link is a custom section.
    pub fn is_section(&self) -> (s: bool)
        ensures
            s == self.spec_is_section(),
    {
        match self {
            Decl::Defined(DefinedDecl::Section { .. }) => true,
            _ => false,
        }
    }
}

impl Data {
    /// The bytes that the payload takes in the file.
    pub open spec fn spec_file_size(&self) -> nat {
        match self {
            Data::Blob(bytes) => bytes@.len(),
            Data::ZeroInit(_) => 0,
        }
    }

    /// The bytes that are written for the payload.
    pub open spec fn spec_bytes(&self) -> Seq<u8> {
        match self {
            Data::Blob(bytes) => bytes@,
            Data::ZeroInit(_) => Seq::empty(),
        }
    }

    /// The bytes that the payload takes in the file: none for a zero-initialized one.
    pub fn file_size(&self) -> (size: usize)
        ensures
            size == self.spec_file_size(),
    {
        match self {
            Data::Blob(bytes) => bytes.len(),
            Data::ZeroInit(_) => 0,
        }
    }
}

} // verus!
