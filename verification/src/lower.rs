//! The lowering of links to relocation records.

use vstd::prelude::*;
use crate::artifact::{Decl, DefinedDecl, ImportKind, Link, Reloc};
use crate::constants::{
    R_ABS,
    X86_64_RELOC_BRANCH,
    X86_64_RELOC_GOT_LOAD,
    X86_64_RELOC_SIGNED,
    X86_64_RELOC_UNSIGNED,
};
use crate::reloc::{RelocationBuilder, RelocationInfo};
use crate::section::SectionBuilder;
use crate::ordered::{section_keys, section_list, sections_get_index_of, sections_index_mut};
use crate::segment::SegmentBuilder;
use crate::symtab::{SymbolTable, SymbolTableView};

verus! {

/// Whether a link with the relocation `Auto` is absolute, and its type,
/// chosen from the declarations of its two ends. A reference out of data is
/// absolute and unsigned. A function refers to a function by a branch, to
/// data by a signed displacement and to imported data through the GOT.
pub open spec fn auto_kind(from: Decl, to: Decl) -> (bool, u8) {
    match from {
        Decl::Defined(DefinedDecl::Data { .. }) => (true, X86_64_RELOC_UNSIGNED),
        _ => match to {
            Decl::Defined(DefinedDecl::Function { .. }) => (false, X86_64_RELOC_BRANCH),
            Decl::Import(ImportKind::Function) => (false, X86_64_RELOC_BRANCH),
            Decl::Defined(DefinedDecl::Data { .. }) => (false, X86_64_RELOC_SIGNED),
            Decl::Import(ImportKind::Data) => (false, X86_64_RELOC_GOT_LOAD),
            Decl::Defined(DefinedDecl::Section { .. }) => (false, X86_64_RELOC_UNSIGNED),
        },
    }
}

/// Whether a link with a relocation given as a number is absolute, and its type.
pub open spec fn raw_kind(reloc: u32) -> (bool, u8) {
    if reloc as u8 == R_ABS {
        (true, R_ABS)
    } else {
        (false, reloc as u8)
    }
}

/// Whether a link is absolute, and its relocation type.
pub open spec fn link_kind(link: Link) -> (bool, u8) {
    match link.reloc {
        Reloc::Auto => auto_kind(link.from.decl, link.to.decl),
        Reloc::Raw { reloc, .. } => raw_kind(reloc),
        Reloc::Debug { .. } => (true, X86_64_RELOC_UNSIGNED),
    }
}

/// The links that can be lowered. With `Auto` neither end is a custom
/// section and the source is no import. A raw relocation type fits in a
/// byte and has no addend. A debug reference to a symbol has a size of
/// four or eight bytes, or the default.
pub open spec fn link_supported(link: Link) -> bool {
    match link.reloc {
        Reloc::Auto => !link.from.decl.spec_is_section() && !link.to.decl.spec_is_section()
            && link.from.decl is Defined,
        Reloc::Raw { reloc, addend } => reloc <= 255 && addend == 0,
        Reloc::Debug { size, .. } => link.to.decl.spec_is_section()
            || RelocationBuilder::size_supported(size),
    }
}

/// The first position from `from` on at which `keys` holds `name`.
pub open spec fn first_index(keys: Seq<Seq<char>>, name: Seq<char>, from: int) -> Option<int>
    decreases keys.len() - from,
{
    if from < 0 || from >= keys.len() {
        None
    } else if keys[from] == name {
        Some(from)
    } else {
        first_index(keys, name, from + 1)
    }
}

/// The relocation that a link is lowered to, with the index of the section
/// that receives it, or `None` where the link is dropped.
///
/// A debug reference to a section is dropped. One to a symbol is absolute,
/// of the size given, and goes to the section found under the name of its
/// source, at the link's own offset. Any other link is placed at the
/// source's section-relative offset plus the link's offset, and goes to
/// `__data` if it is absolute and to `__text` if not. A link whose names
/// are not found is dropped.
pub open spec fn lowered(link: Link, keys: Seq<Seq<char>>, table: SymbolTableView) -> Option<
    (int, RelocationInfo),
> {
    match link.reloc {
        Reloc::Debug { size, .. } => {
            if link.to.decl.spec_is_section() {
                None
            } else {
                match (table.index(link.to.name@), first_index(keys, link.from.name@, 0)) {
                    (Some(symbol), Some(idx)) => Some(
                        (
                            idx,
                            (RelocationBuilder {
                                symbol,
                                relocation_offset: link.at,
                                absolute: true,
                                size,
                                r_type: X86_64_RELOC_UNSIGNED,
                            }).spec_info(),
                        ),
                    ),
                    _ => None,
                }
            }
        },
        _ => {
            match (table.offset(link.from.name@), table.index(link.to.name@)) {
                (Some(base), Some(symbol)) => Some(
                    (
                        if link_kind(link).0 {
                            1
                        } else {
                            0
                        },
                        (RelocationBuilder {
                            symbol,
                            relocation_offset: (base + link.at) as u64,
                            absolute: link_kind(link).0,
                            size: 0,
                            r_type: link_kind(link).1,
                        }).spec_info(),
                    ),
                ),
                _ => None,
            }
        },
    }
}

/// The relocation lists of all sections after the first `n` links were lowered.
pub open spec fn lower_links(
    relocs: Seq<Seq<RelocationInfo>>,
    keys: Seq<Seq<char>>,
    table: SymbolTableView,
    links: Seq<Link>,
    n: int,
) -> Seq<Seq<RelocationInfo>>
    decreases n,
{
    if n <= 0 {
        relocs
    } else {
        let prev = lower_links(relocs, keys, table, links, n - 1);
        match lowered(links[n - 1], keys, table) {
            Some((idx, info)) => if 0 <= idx < prev.len() {
                prev.update(idx, prev[idx].push(info))
            } else {
                prev
            },
            None => prev,
        }
    }
}

/// The relocation lists of the sections, in section order.
pub open spec fn relocs_view(sections: Seq<SectionBuilder>) -> Seq<Seq<RelocationInfo>> {
    Seq::new(sections.len(), |i: int| sections[i].relocations@)
}

/// Two sections agree in everything but their relocations.
pub open spec fn same_placement(a: SectionBuilder, b: SectionBuilder) -> bool {
    &&& a.addr == b.addr
    &&& a.align == b.align
    &&& a.offset == b.offset
    &&& a.size == b.size
    &&& a.flags == b.flags
    &&& a.sectname@ == b.sectname@
    &&& a.segname@ == b.segname@
}

/// The places of the links can be computed in 64 bits.
pub open spec fn links_fit(links: Seq<Link>, table: SymbolTableView) -> bool {
    forall|i: int|
        0 <= i < links.len() ==> (table.offset((#[trigger] links[i]).from.name@) matches Some(base)
            ==> base + links[i].at <= u64::MAX)
}

/// Among names without duplicates, a name is first found where it stands.
pub proof fn lemma_first_index_found(keys: Seq<Seq<char>>, name: Seq<char>, i: int, from: int)
    requires
        keys.no_duplicates(),
        0 <= from <= i < keys.len(),
        keys[i] == name,
    ensures
        first_index(keys, name, from) == Some(i),
    decreases i - from,
{
    if from < i {
        lemma_first_index_found(keys, name, i, from + 1);
    }
}

/// A name that no key equals is not found.
pub proof fn lemma_first_index_absent(keys: Seq<Seq<char>>, name: Seq<char>, from: int)
    requires
        0 <= from,
        forall|i: int| 0 <= i < keys.len() ==> keys[i] != name,
    ensures
        first_index(keys, name, from) is None,
    decreases keys.len() - from,
{
    if from < keys.len() {
        lemma_first_index_absent(keys, name, from + 1);
    }
}

/// Whether a supported link with the relocation `Auto` or a raw one is
/// absolute, and its relocation type.
pub fn reloc_kind(link: &Link) -> (kind: (bool, u8))
    requires
        link_supported(*link),
    ensures
        kind == link_kind(*link),
{
    match link.reloc {
        Reloc::Auto => match link.from.decl {
            Decl::Defined(DefinedDecl::Data { .. }) => (true, X86_64_RELOC_UNSIGNED),
            _ => match link.to.decl {
                Decl::Defined(DefinedDecl::Function { .. }) => (false, X86_64_RELOC_BRANCH),
                Decl::Import(ImportKind::Function) => (false, X86_64_RELOC_BRANCH),
                Decl::Defined(DefinedDecl::Data { .. }) => (false, X86_64_RELOC_SIGNED),
                Decl::Import(ImportKind::Data) => (false, X86_64_RELOC_GOT_LOAD),
                Decl::Defined(DefinedDecl::Section { .. }) => (false, X86_64_RELOC_UNSIGNED),
            },
        },
        Reloc::Raw { reloc, .. } => {
            let r = reloc as u8;
            if r == R_ABS {
                (true, R_ABS)
            } else {
                (false, r)
            }
        },
        Reloc::Debug { .. } => (true, X86_64_RELOC_UNSIGNED),
    }
}

/// Lowers every link to a relocation record and appends it to the list of
/// the section that it belongs to. Nothing else in the segment changes.
pub fn build_relocations(segment: &mut SegmentBuilder, links: &Vec<Link>, symtab: &SymbolTable)
    requires
        symtab.wf(),
        section_list(old(segment).sections).len() >= 2,
        section_keys(old(segment).sections).no_duplicates(),
        forall|i: int| 0 <= i < links@.len() ==> link_supported(#[trigger] links@[i]),
        links_fit(links@, symtab@),
    ensures
        section_list(final(segment).sections).len() == section_list(old(segment).sections).len(),
        forall|i: int|
            0 <= i < section_list(old(segment).sections).len() ==> same_placement(
                #[trigger] section_list(final(segment).sections)[i],
                section_list(old(segment).sections)[i],
            ),
        relocs_view(section_list(final(segment).sections)) == lower_links(
            relocs_view(section_list(old(segment).sections)),
            section_keys(old(segment).sections),
            symtab@,
            links@,
            links@.len() as int,
        ),
        section_keys(final(segment).sections) == section_keys(old(segment).sections),
        final(segment).offset == old(segment).offset,
        final(segment).size == old(segment).size,
        final(segment).align_pad_map == old(segment).align_pad_map,
{
    let ghost keys = section_keys(segment.sections);
    let ghost start = relocs_view(section_list(segment.sections));
    let n = links.len();
    let mut i: usize = 0;
    while i < n
        invariant
            n == links@.len(),
            i <= n,
            symtab.wf(),
            forall|k: int| 0 <= k < links@.len() ==> link_supported(#[trigger] links@[k]),
            links_fit(links@, symtab@),
            section_list(segment.sections).len() == section_list(old(segment).sections).len(),
            section_list(segment.sections).len() >= 2,
            keys == section_keys(segment.sections),
            keys.no_duplicates(),
            segment.offset == old(segment).offset,
            segment.size == old(segment).size,
            segment.align_pad_map == old(segment).align_pad_map,
            forall|k: int|
                0 <= k < section_list(old(segment).sections).len() ==> same_placement(
                    #[trigger] section_list(segment.sections)[k],
                    section_list(old(segment).sections)[k],
                ),
            relocs_view(section_list(segment.sections)) == lower_links(start, keys, symtab@, links@, i as int),
        decreases n - i,
    {
        let link = &links[i];
        let ghost before = section_list(segment.sections);
        let mut target: Option<(usize, RelocationInfo)> = None;
        match link.reloc {
            Reloc::Debug { size, .. } => {
                if !link.to.decl.is_section() {
                    match symtab.index(link.to.name.as_str()) {
                        Some(to_symbol_index) => {
                            match sections_get_index_of(
                                &segment.sections,
                                link.from.name.as_str(),
                            ) {
                                Some(idx) => {
                                    proof {
                                        assert(keys[idx as int] == link.from.name@);
                                        lemma_first_index_found(
                                            keys,
                                            link.from.name@,
                                            idx as int,
                                            0,
                                        );
                                    }
                                    let builder = RelocationBuilder::new(
                                        to_symbol_index,
                                        link.at,
                                        X86_64_RELOC_UNSIGNED,
                                    ).absolute().size(size);
                                    target = Some((idx, builder.create()));
                                },
                                None => {
                                    proof {
                                        assert forall|i: int| 0 <= i < keys.len() implies keys[i]
                                            != link.from.name@ by {
                                            assert(keys[i] == crate::ordered::section_entries(
                                                segment.sections,
                                            )[i].0@);
                                        }
                                        lemma_first_index_absent(keys, link.from.name@, 0);
                                    }
                                },
                            }
                        },
                        None => {},
                    }
                }
            },
            _ => {
                let (absolute, reloc) = reloc_kind(link);
                match (symtab.offset(link.from.name.as_str()), symtab.index(link.to.name.as_str())) {
                    (Some(base_offset), Some(to_symbol_index)) => {
                        let builder = RelocationBuilder::new(
                            to_symbol_index,
                            base_offset + link.at,
                            reloc,
                        );
                        if absolute {
                            target = Some((1, builder.absolute().create()));
                        } else {
                            target = Some((0, builder.create()));
                        }
                    },
                    _ => {},
                }
            },
        }
        assert(match target {
            Some((idx, info)) => lowered(*link, keys, symtab@) == Some((idx as int, info)) && idx
                < section_list(segment.sections).len(),
            None => lowered(*link, keys, symtab@) is None,
        });
        let ghost before_map = segment.sections;
        if let Some((idx, info)) = target {
            sections_index_mut(&mut segment.sections, idx).relocations.push(info);
            proof {
                let was = crate::ordered::section_entries(before_map);
                let now = crate::ordered::section_entries(segment.sections);
                assert(now.len() == was.len());
                assert(now[idx as int].0 == was[idx as int].0);
                assert forall|k: int| 0 <= k < now.len() && k != idx implies now[k] == was[k] by {}
                assert(section_keys(segment.sections) =~= keys);
                assert forall|k: int|
                    0 <= k < section_list(old(segment).sections).len() implies same_placement(
                    #[trigger] section_list(segment.sections)[k],
                    section_list(old(segment).sections)[k],
                ) by {
                    assert(same_placement(before[k], section_list(old(segment).sections)[k]));
                    if k != idx {
                        assert(section_list(segment.sections)[k] == before[k]);
                    }
                }
                assert(relocs_view(section_list(segment.sections)) =~= relocs_view(before).update(
                    idx as int,
                    relocs_view(before)[idx as int].push(info),
                ));
            }
        }
        i = i + 1;
    }
}

} // verus!
