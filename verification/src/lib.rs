//! A writer for Mach-O relocatable object files.
//!
//! An [`artifact::Artifact`] names definitions with their bytes, imports, and
//! links between them. The library lays the definitions out in sections,
//! builds the symbol and string tables, lowers the links to relocation
//! records, and serializes everything in the order the declared offsets
//! demand.

pub mod align;
pub mod artifact;
pub mod constants;
pub mod encode;
pub mod interner;
pub mod laws;
pub mod layout;
pub mod lower;
pub mod object;
pub mod ordered;
pub mod reloc;
pub mod section;
pub mod segment;
pub mod strings;
pub mod support;
pub mod symbol;
pub mod symtab;
