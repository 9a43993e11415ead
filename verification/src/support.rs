//! What an artifact must satisfy before it can be written, and a test for it.

use vstd::prelude::*;
use vstd::utf8::{is_ascii_chars, is_ascii_chars_encode_utf8};
use crate::align::{is_align, is_power_of_two};
use crate::artifact::{Architecture, Artifact, Decl, DefinedDecl, Link, Reloc};
use crate::artifact::{Definition, SectionKind};
use crate::laws::{lemma_bucket_members, lemma_symbols_in_sections};
use crate::lower::{link_supported, links_fit};
use crate::object::{
    bss_total,
    bucket_of,
    buckets_of,
    layout_fits,
    model_of,
    payload_offset_at,
    reloc_offset_at,
    spec_classify,
    Bucket,
    Mach,
};
use crate::segment::{aligns_valid, custom_segname, customs_size, spec_header_size};
use crate::symtab::{strtab_size, SymbolTableView};
use crate::reloc::RelocationBuilder;
use crate::segment::{custom_section_name, custom_sectname, lemma_one_is_align};
use crate::symtab::name_len;

verus! {

/// The artifacts that the writer supports: the architecture has a CPU
/// type, every alignment is a power of two, the name of every custom
/// section fits in the sixteen bytes of a section header, and every link
/// can be lowered.
pub open spec fn artifact_supported(artifact: Artifact) -> bool {
    &&& artifact.target.architecture != Architecture::Other
    &&& forall|i: int|
        0 <= i < artifact.definitions@.len() ==> is_align(
            (#[trigger] artifact.definitions@[i]).decl.align_or_one(),
        )
    &&& forall|i: int|
        0 <= i < artifact.definitions@.len() && (#[trigger] artifact.definitions@[i]).decl
            is Section ==> name_len(custom_sectname(artifact.definitions@[i].name@)) <= 16
    &&& forall|i: int|
        0 <= i < artifact.links@.len() ==> link_supported(#[trigger] artifact.links@[i])
}

/// Whether a link can be lowered.
pub fn link_is_supported(link: &Link) -> (ok: bool)
    ensures
        ok == link_supported(*link),
{
    match link.reloc {
        Reloc::Auto => {
            let from_defined = match link.from.decl {
                Decl::Defined(_) => true,
                Decl::Import(_) => false,
            };
            !link.from.decl.is_section() && !link.to.decl.is_section() && from_defined
        },
        Reloc::Raw { reloc, addend } => reloc <= 255 && addend == 0,
        Reloc::Debug { size, .. } => link.to.decl.is_section() || RelocationBuilder::supports_size(
            size,
        ),
    }
}

/// Whether the writer supports `artifact`.
pub fn supported(artifact: &Artifact) -> (ok: bool)
    ensures
        ok == artifact_supported(*artifact),
{
    match artifact.target.architecture {
        Architecture::Other => {
            return false;
        },
        _ => {},
    }
    let mut i: usize = 0;
    while i < artifact.definitions.len()
        invariant
            i <= artifact.definitions@.len(),
            forall|k: int|
                0 <= k < i ==> is_align((#[trigger] artifact.definitions@[k]).decl.align_or_one()),
            forall|k: int|
                0 <= k < i && (#[trigger] artifact.definitions@[k]).decl is Section ==> name_len(
                    custom_sectname(artifact.definitions@[k].name@),
                ) <= 16,
        decreases artifact.definitions@.len() - i,
    {
        let def = &artifact.definitions[i];
        let aligned = match def.decl.get_align() {
            Some(a) => is_power_of_two(a),
            None => {
                proof {
                    lemma_one_is_align();
                }
                true
            },
        };
        if !aligned {
            return false;
        }
        match def.decl {
            DefinedDecl::Section { .. } => {
                let sectname = custom_section_name(def.name.as_str());
                if sectname.as_str().as_bytes().len() > 16 {
                    return false;
                }
            },
            _ => {},
        }
        i = i + 1;
    }
    let mut j: usize = 0;
    while j < artifact.links.len()
        invariant
            j <= artifact.links@.len(),
            forall|k: int| 0 <= k < j ==> link_supported(#[trigger] artifact.links@[k]),
        decreases artifact.links@.len() - j,
    {
        if !link_is_supported(&artifact.links[j]) {
            return false;
        }
        j = j + 1;
    }
    true
}

/// The names of the default sections and of all segments fit in the
/// sixteen bytes of a section header.
pub proof fn lemma_default_names_fit()
    ensures
        name_len("__text"@) <= 16,
        name_len("__data"@) <= 16,
        name_len("__cstring"@) <= 16,
        name_len("__bss"@) <= 16,
        name_len("__TEXT"@) <= 16,
        name_len("__DATA"@) <= 16,
        name_len("__DWARF"@) <= 16,
{
    reveal_strlit("__text");
    reveal_strlit("__data");
    reveal_strlit("__cstring");
    reveal_strlit("__bss");
    reveal_strlit("__TEXT");
    reveal_strlit("__DATA");
    reveal_strlit("__DWARF");
    assert(is_ascii_chars("__text"@));
    assert(is_ascii_chars("__data"@));
    assert(is_ascii_chars("__cstring"@));
    assert(is_ascii_chars("__bss"@));
    assert(is_ascii_chars("__TEXT"@));
    assert(is_ascii_chars("__DATA"@));
    assert(is_ascii_chars("__DWARF"@));
    is_ascii_chars_encode_utf8("__text"@);
    is_ascii_chars_encode_utf8("__data"@);
    is_ascii_chars_encode_utf8("__cstring"@);
    is_ascii_chars_encode_utf8("__bss"@);
    is_ascii_chars_encode_utf8("__TEXT"@);
    is_ascii_chars_encode_utf8("__DATA"@);
    is_ascii_chars_encode_utf8("__DWARF"@);
}


/// The sizes of an artifact fit: no two sections are found under the same
/// name, and the counts, the file positions and the string table can be
/// computed in the integers that hold them.
pub open spec fn sizes_fit(artifact: Artifact) -> bool {
    let b = buckets_of(artifact);
    let m = model_of(artifact);
    &&& b.customs.len() + 4 <= usize::MAX
    &&& b.keys().no_duplicates()
    &&& spec_header_size(artifact.target.is_64) + b.payload_size() <= u64::MAX
    &&& forall|k: int, j: int|
        0 <= k < b.customs.len() && 0 <= j < b.customs[k].symbols@.len() ==> b.customs_start()
            + customs_size(b.customs, k) + (#[trigger] b.customs[k].symbols@[j]).1 <= u64::MAX
    &&& strtab_size(SymbolTableView::empty().names) + b.names_cost() <= u64::MAX
    &&& bss_total(artifact.definitions@, artifact.definitions@.len() as int) <= usize::MAX
    &&& links_fit(artifact.links@, b.symtab(SymbolTableView::empty()))
    &&& m.sizeof_load_commands() <= u32::MAX
    &&& m.relocation_offset_start() <= u64::MAX
    &&& payload_offset_at(m.sections, m.first_section_offset(), m.sections.len() as int)
        <= u64::MAX
    &&& reloc_offset_at(m.sections, m.relocation_offset_start(), m.sections.len() as int)
        <= u64::MAX
    &&& m.size + m.bss_size <= u64::MAX
}

/// Every member of a bucket is one of the definitions.
pub proof fn lemma_bucket_source(defs: Seq<Definition>, bucket: Bucket, n: int, j: int)
    requires
        0 <= n <= defs.len(),
        0 <= j < bucket_of(defs, bucket, n).len(),
    ensures
        exists|k: int| 0 <= k < n && #[trigger] defs[k] == bucket_of(defs, bucket, n)[j],
    decreases n,
{
    if n > 0 {
        if spec_classify(defs[n - 1]) == bucket && j == bucket_of(defs, bucket, n - 1).len() {
            assert(defs[n - 1] == bucket_of(defs, bucket, n)[j]);
        } else {
            lemma_bucket_source(defs, bucket, n - 1, j);
            let k = choose|k: int|
                0 <= k < n - 1 && #[trigger] defs[k] == bucket_of(defs, bucket, n - 1)[j];
            assert(defs[k] == bucket_of(defs, bucket, n)[j]);
        }
    }
}

/// In a supported artifact every member of a bucket asks for an alignment
/// that is a power of two.
pub proof fn lemma_bucket_aligns(artifact: Artifact, bucket: Bucket)
    requires
        artifact_supported(artifact),
    ensures
        aligns_valid(
            bucket_of(artifact.definitions@, bucket, artifact.definitions@.len() as int),
        ),
{
    let defs = artifact.definitions@;
    let members = bucket_of(defs, bucket, defs.len() as int);
    assert forall|i: int| 0 <= i < members.len() implies is_align(
        (#[trigger] members[i]).decl.align_or_one(),
    ) by {
        lemma_bucket_source(defs, bucket, defs.len() as int, i);
        let k = choose|k: int| 0 <= k < defs.len() && #[trigger] defs[k] == members[i];
        assert(is_align(defs[k].decl.align_or_one()));
    }
}

/// The names of the segments of custom sections fit in sixteen bytes.
pub proof fn lemma_custom_segnames_fit(kind: SectionKind)
    ensures
        name_len(custom_segname(kind)) <= 16,
{
    assert(is_ascii_chars(custom_segname(kind)));
    is_ascii_chars_encode_utf8(custom_segname(kind));
}

/// A supported artifact whose sizes fit can be laid out and written.
pub proof fn lemma_supported_fits(artifact: Artifact)
    requires
        artifact_supported(artifact),
        sizes_fit(artifact),
    ensures
        layout_fits(artifact),
        sections_in_range_of(artifact),
        model_of(artifact).encodable(),
{
    let defs = artifact.definitions@;
    let b = buckets_of(artifact);
    let m = model_of(artifact);
    lemma_bucket_aligns(artifact, Bucket::Code);
    lemma_bucket_aligns(artifact, Bucket::Data);
    lemma_bucket_aligns(artifact, Bucket::Bss);
    lemma_bucket_aligns(artifact, Bucket::Cstring);
    lemma_bucket_aligns(artifact, Bucket::Custom);
    assert forall|k: int| 0 <= k < b.customs.len() implies (#[trigger] b.customs[k]).decl
        is Section by {
        lemma_bucket_members(defs, Bucket::Custom, defs.len() as int, k);
    }
    lemma_symbols_in_sections(b);
    lemma_default_names_fit();
    assert forall|i: int| 0 <= i < m.sections.len() implies name_len(
        (#[trigger] m.sections[i]).sectname,
    ) <= 16 && name_len(m.sections[i].segname) <= 16 by {
        if i >= 4 {
            let def = b.customs[i - 4];
            lemma_bucket_source(defs, Bucket::Custom, defs.len() as int, i - 4);
            lemma_bucket_members(defs, Bucket::Custom, defs.len() as int, i - 4);
            let k = choose|k: int| 0 <= k < defs.len() && #[trigger] defs[k] == def;
            assert(defs[k].decl is Section);
            assert(name_len(custom_sectname(defs[k].name@)) <= 16);
            lemma_custom_segnames_fit(SectionKind::Data);
            lemma_custom_segnames_fit(SectionKind::Debug);
            lemma_custom_segnames_fit(SectionKind::Text);
        }
    }
}

/// Every symbol of the artifact's symbol table that lies in a section lies
/// in one whose ordinal can be formed.
pub open spec fn sections_in_range_of(artifact: Artifact) -> bool {
    crate::object::sections_in_range(model_of(artifact).table)
}

/// Writes `artifact` as a Mach-O object file, or nothing where the writer
/// does not support it.
pub fn write_supported(artifact: &Artifact) -> (bytes: Option<Vec<u8>>)
    requires
        sizes_fit(*artifact),
    ensures
        match bytes {
            Some(b) => artifact_supported(*artifact) && b@ == model_of(*artifact).file_bytes(),
            None => !artifact_supported(*artifact),
        },
{
    if supported(artifact) {
        proof {
            lemma_supported_fits(*artifact);
        }
        let mach = Mach::new(artifact);
        proof {
            mach.symtab.lemma_wf();
        }
        Some(mach.write())
    } else {
        None
    }
}

} // verus!
