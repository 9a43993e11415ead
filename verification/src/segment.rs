//! The segment: its sections, laid out one after the other, and the padding
//! recorded for each definition.

use vstd::prelude::*;
use vstd::arithmetic::power2::{lemma2_to64, pow2};
use crate::align::{align_exp_of, align_pad, align_to_align_exp, is_align};
use crate::artifact::{Definition, DefinedDecl, ImportKind, SectionKind, Target};
use crate::constants::{
    NUM_DEFAULT_SECTIONS,
    S_ATTR_DEBUG,
    S_ATTR_PURE_INSTRUCTIONS,
    S_ATTR_SOME_INSTRUCTIONS,
    S_CSTRING_LITERALS,
    S_REGULAR,
    S_ZEROFILL,
};
use crate::strings::{push_str, strip_prefix};
use crate::layout::{
    derefs,
    def_pad,
    def_pads,
    def_start,
    def_symbol,
    insert_defs,
    lemma_def_start_monotonic,
    lemma_def_start_step,
    names_cost,
    next_exp,
    section_align,
    section_size,
};
use crate::ordered::{
    section_entries,
    section_keys,
    section_list,
    sections_insert,
    sections_len,
    sections_new,
};
use crate::reloc::RelocationInfo;
use crate::section::SectionBuilder;
use indexmap::IndexMap;
use std::collections::hash_map::RandomState;
use crate::symtab::{
    lemma_insert_wf,
    name_len,
    strtab_size,
    SymbolTable,
    SymbolTableView,
    SymbolType,
};

verus! {

/// The padding entries as plain values: each name with its padding.
pub open spec fn pads_view(pads: Seq<(String, u64)>) -> Seq<(Seq<char>, u64)> {
    Seq::new(pads.len(), |i: int| (pads[i].0@, pads[i].1))
}

/// The alignment of one byte is a power of two.
pub proof fn lemma_one_is_align()
    ensures
        is_align(1),
{
    lemma2_to64();
    assert(0 < 64 && pow2(0) == 1u64);
}

/// Lays out the definitions of one default section. Each definition enters
/// the symbol table at its start; behind it comes the padding that aligns
/// its successor, which is recorded under its name. The finished section is
/// appended to `sections` under the key `sectname`, and the three running
/// positions advance by its size.
pub fn build_section(
    symtab: &mut SymbolTable,
    sectname: &str,
    segname: &str,
    sections: &mut IndexMap<String, SectionBuilder, RandomState>,
    offset: &mut u64,
    addr: &mut u64,
    symbol_offset: &mut u64,
    section: usize,
    definitions: &Vec<&Definition>,
    min_alignment_exponent: u64,
    flags: Option<u32>,
    align_pad_map: &mut Vec<(String, u64)>,
)
    requires
        old(symtab).wf(),
        !section_keys(*old(sections)).contains(sectname@),
        min_alignment_exponent < 64,
        forall|i: int|
            0 <= i < derefs(definitions@).len() ==> is_align(
                (#[trigger] derefs(definitions@)[i]).decl.align_or_one(),
            ),
        *old(offset) + section_size(derefs(definitions@), min_alignment_exponent as nat) <= u64::MAX,
        *old(addr) + section_size(derefs(definitions@), min_alignment_exponent as nat) <= u64::MAX,
        *old(symbol_offset) + section_size(derefs(definitions@), min_alignment_exponent as nat)
            <= u64::MAX,
        strtab_size(old(symtab)@.names) + names_cost(derefs(definitions@), derefs(definitions@).len() as int)
            <= u64::MAX,
    ensures
        final(symtab).wf(),
        final(symtab)@ == insert_defs(
            old(symtab)@,
            derefs(definitions@),
            min_alignment_exponent as nat,
            section,
            *old(symbol_offset),
            derefs(definitions@).len() as int,
        ),
        strtab_size(final(symtab)@.names) <= strtab_size(old(symtab)@.names) + names_cost(
            derefs(definitions@),
            derefs(definitions@).len() as int,
        ),
        section_list(*final(sections)).len() == section_list(*old(sections)).len() + 1,
        section_list(*final(sections)).drop_last() == section_list(*old(sections)),
        section_list(*final(sections)).last().size == section_size(derefs(definitions@), min_alignment_exponent as nat),
        section_list(*final(sections)).last().offset == *old(offset),
        section_list(*final(sections)).last().addr == *old(addr),
        section_list(*final(sections)).last().align == section_align(
            derefs(definitions@),
            min_alignment_exponent as nat,
            derefs(definitions@).len() as int,
        ),
        section_list(*final(sections)).last().flags == (match flags {
            Some(f) => f,
            None => S_REGULAR,
        }),
        section_list(*final(sections)).last().sectname@ == sectname@,
        section_list(*final(sections)).last().segname@ == segname@,
        section_list(*final(sections)).last().relocations@ == Seq::<RelocationInfo>::empty(),
        section_keys(*final(sections)) == section_keys(*old(sections)).push(sectname@),
        *final(offset) == *old(offset) + section_size(
            derefs(definitions@),
            min_alignment_exponent as nat,
        ),
        *final(addr) == *old(addr) + section_size(derefs(definitions@), min_alignment_exponent as nat),
        *final(symbol_offset) == *old(symbol_offset) + section_size(
            derefs(definitions@),
            min_alignment_exponent as nat,
        ),
        pads_view(final(align_pad_map)@) == pads_view(old(align_pad_map)@) + def_pads(
            derefs(definitions@),
            min_alignment_exponent as nat,
            derefs(definitions@).len() as int,
        ),
{
    let ghost defs = derefs(definitions@);
    let ghost min_exp = min_alignment_exponent as nat;
    let ghost base = *symbol_offset;
    let n = definitions.len();
    let mut local_size: u64 = 0;
    let mut section_relative_offset: u64 = 0;
    let mut alignment_exponent: u64 = min_alignment_exponent;
    let mut i: usize = 0;
    proof {
        assert(pads_view(align_pad_map@) =~= pads_view(old(align_pad_map)@) + def_pads(
            defs,
            min_exp,
            0,
        ));
    }
    while i < n
        invariant
            defs == derefs(definitions@),
            min_exp == min_alignment_exponent as nat,
            min_alignment_exponent < 64,
            n == defs.len(),
            i <= n,
            forall|k: int| 0 <= k < defs.len() ==> is_align((#[trigger] defs[k]).decl.align_or_one()),
            base + section_size(defs, min_exp) <= u64::MAX,
            symtab.wf(),
            symtab@ == insert_defs(old(symtab)@, defs, min_exp, section, base, i as int),
            strtab_size(symtab@.names) <= strtab_size(old(symtab)@.names) + names_cost(
                defs,
                i as int,
            ),
            strtab_size(old(symtab)@.names) + names_cost(defs, n as int) <= u64::MAX,
            section_relative_offset == def_start(defs, min_exp, i as int),
            local_size == section_relative_offset,
            *symbol_offset == base + def_start(defs, min_exp, i as int),
            alignment_exponent == section_align(defs, min_exp, i as int),
            alignment_exponent < 64,
            pads_view(align_pad_map@) == pads_view(old(align_pad_map)@) + def_pads(
                defs,
                min_exp,
                i as int,
            ),
        decreases n - i,
    {
        let def = definitions[i];
        assert(*def == defs[i as int]);
        proof {
            lemma_def_start_step(defs, min_exp, i as int);
            lemma_def_start_monotonic(defs, min_exp, i + 1, n as int);
            lemma_names_cost_monotonic(defs, i + 1, n as int);
            symtab.lemma_wf();
            lemma_insert_wf(symtab@, def.name@, def_symbol(defs, min_exp, section, base, i as int));
        }
        symtab.insert(
            def.name.as_str(),
            SymbolType::Defined {
                section,
                segment_relative_offset: section_relative_offset,
                absolute_offset: *symbol_offset,
                global: def.decl.is_global(),
            },
        );
        let file_size = def.data.file_size() as u64;
        *symbol_offset = *symbol_offset + file_size;
        section_relative_offset = section_relative_offset + file_size;
        local_size = local_size + file_size;

        let next_def_alignment_exponent: u64 = if i + 1 < n {
            assert(*definitions[i + 1] == defs[i + 1]);
            let next_align = match definitions[i + 1].decl.get_align() {
                Some(a) => a,
                None => 1,
            };
            let exp = align_to_align_exp(next_align);
            if min_alignment_exponent >= exp {
                min_alignment_exponent
            } else {
                exp
            }
        } else {
            0
        };
        assert(next_def_alignment_exponent == next_exp(defs, min_exp, i as int));
        if next_def_alignment_exponent > alignment_exponent {
            alignment_exponent = next_def_alignment_exponent;
        }
        let pad = align_pad(section_relative_offset, next_def_alignment_exponent);
        assert(pad == def_pad(defs, min_exp, i as int));
        let ghost pads_before = align_pad_map@;
        align_pad_map.push((def.name.clone(), pad));
        proof {
            assert(pads_view(align_pad_map@) =~= pads_view(pads_before).push((def.name@, pad)));
            assert(def_pads(defs, min_exp, i + 1) =~= def_pads(defs, min_exp, i as int).push(
                (def.name@, pad),
            ));
            assert(pads_view(align_pad_map@) =~= pads_view(old(align_pad_map)@) + def_pads(
                defs,
                min_exp,
                i + 1,
            ));
        }
        *symbol_offset = *symbol_offset + pad;
        section_relative_offset = section_relative_offset + pad;
        local_size = local_size + pad;
        i = i + 1;
    }
    let mut built = SectionBuilder::new(sectname.to_owned(), segname.to_owned(), local_size).offset(
        *offset,
    ).addr(*addr).align(alignment_exponent);
    if let Some(flags) = flags {
        built = built.flags(flags);
    }
    *offset = *offset + local_size;
    *addr = *addr + local_size;
    let ghost before = *sections;
    proof {
        assert forall|i: int| 0 <= i < section_entries(before).len() implies (
        #[trigger] section_entries(before)[i]).0@ != sectname@ by {
            assert(section_keys(before)[i] == section_entries(before)[i].0@);
        }
    }
    let _ = sections_insert(sections, sectname.to_owned(), built);
    proof {
        assert(section_list(*sections).drop_last() =~= section_list(before));
        assert(section_keys(*sections) =~= section_keys(before).push(sectname@));
    }
}

/// The symbol table after the first `n` symbols of a custom section were
/// inserted: each is global and lies at its offset in the section, which
/// starts at `base` in the payload area.
pub open spec fn insert_subsymbols(
    table: SymbolTableView,
    symbols: Seq<(String, u64)>,
    section: usize,
    base: u64,
    n: int,
) -> SymbolTableView
    decreases n,
{
    if n <= 0 {
        table
    } else {
        insert_subsymbols(table, symbols, section, base, n - 1).insert(
            symbols[n - 1].0@,
            SymbolType::Defined {
                section,
                segment_relative_offset: symbols[n - 1].1,
                absolute_offset: (base + symbols[n - 1].1) as u64,
                global: true,
            },
        )
    }
}

/// The bytes that the names of the first `n` symbols of a custom section add
/// to the string table if none of them is there yet.
pub open spec fn symbols_cost(symbols: Seq<(String, u64)>, n: int) -> nat
    decreases n,
{
    if n <= 0 {
        0
    } else {
        symbols_cost(symbols, n - 1) + name_len(symbols[n - 1].0@) + 2
    }
}

/// The cost of symbol names grows with the number of symbols counted.
pub proof fn lemma_symbols_cost_monotonic(symbols: Seq<(String, u64)>, i: int, j: int)
    requires
        0 <= i <= j,
    ensures
        symbols_cost(symbols, i) <= symbols_cost(symbols, j),
    decreases j - i,
{
    if i < j {
        lemma_symbols_cost_monotonic(symbols, i, j - 1);
    }
}

/// The prefix that marks the name of a debug section.
pub open spec fn debug_prefix() -> Seq<char> {
    seq!['.', 'd', 'e', 'b', 'u', 'g']
}

/// The name under which a custom section is emitted: a leading `.debug`
/// becomes `__debug`, any other name stays as it is.
pub open spec fn custom_sectname(name: Seq<char>) -> Seq<char> {
    if debug_prefix().is_prefix_of(name) {
        seq!['_', '_', 'd', 'e', 'b', 'u', 'g'] + name.skip(6)
    } else {
        name
    }
}

/// The segment that a custom section of the given kind names.
pub open spec fn custom_segname(kind: SectionKind) -> Seq<char> {
    match kind {
        SectionKind::Data => seq!['_', '_', 'D', 'A', 'T', 'A'],
        SectionKind::Debug => seq!['_', '_', 'D', 'W', 'A', 'R', 'F'],
        SectionKind::Text => seq!['_', '_', 'T', 'E', 'X', 'T'],
    }
}

/// The flags of a custom section of the given kind.
pub open spec fn custom_flags(kind: SectionKind) -> u32 {
    if kind == SectionKind::Debug {
        S_ATTR_DEBUG
    } else {
        0
    }
}

/// The name under which a custom section is emitted.
pub fn custom_section_name(name: &str) -> (sectname: String)
    ensures
        sectname@ == custom_sectname(name@),
{
    proof {
        reveal_strlit(".debug");
        reveal_strlit("__debug");
        assert(".debug"@ =~= debug_prefix());
    }
    match strip_prefix(name, ".debug") {
        Some(rest) => {
            let mut sectname = "__debug".to_owned();
            push_str(&mut sectname, rest);
            proof {
                assert(rest@ =~= name@.skip(6));
                assert(sectname@ =~= custom_sectname(name@));
            }
            sectname
        },
        None => name.to_owned(),
    }
}

/// `section` has the place, size, alignment, flags and names of the custom
/// section made from `def`, at `offset` and `addr`.
pub open spec fn custom_placed(
    section: SectionBuilder,
    def: Definition,
    offset: u64,
    addr: u64,
) -> bool {
    &&& def.decl matches DefinedDecl::Section { kind, .. }
    &&& section.size == def.data.spec_file_size()
    &&& section.offset == offset
    &&& section.addr == addr
    &&& section.align == align_exp_of(def.decl.align_or_one())
    &&& section.flags == custom_flags(kind)
    &&& section.sectname@ == custom_sectname(def.name@)
    &&& section.segname@ == custom_segname(kind)
}

/// `section` is the custom section made from `def`, without relocations yet.
pub open spec fn custom_laid_out(
    section: SectionBuilder,
    def: Definition,
    offset: u64,
    addr: u64,
) -> bool {
    custom_placed(section, def, offset, addr) && section.relocations@ == Seq::<
        RelocationInfo,
    >::empty()
}

/// Lays out one custom section. Its symbols enter the symbol table as
/// global symbols at their offsets in the section; the section takes the
/// size of its payload, without padding, and is appended to `sections`
/// under the name of the definition.
pub fn build_custom_section(
    symtab: &mut SymbolTable,
    sections: &mut IndexMap<String, SectionBuilder, RandomState>,
    offset: &mut u64,
    addr: &mut u64,
    symbol_offset: &mut u64,
    section_idx: usize,
    def: &Definition,
)
    requires
        old(symtab).wf(),
        !section_keys(*old(sections)).contains(def.name@),
        def.decl is Section,
        is_align(def.decl.align_or_one()),
        forall|i: int|
            0 <= i < def.symbols@.len() ==> *old(symbol_offset) + (#[trigger] def.symbols@[i]).1
                <= u64::MAX,
        *old(offset) + def.data.spec_file_size() <= u64::MAX,
        *old(addr) + def.data.spec_file_size() <= u64::MAX,
        *old(symbol_offset) + def.data.spec_file_size() <= u64::MAX,
        strtab_size(old(symtab)@.names) + symbols_cost(def.symbols@, def.symbols@.len() as int)
            <= u64::MAX,
    ensures
        final(symtab).wf(),
        final(symtab)@ == insert_subsymbols(
            old(symtab)@,
            def.symbols@,
            section_idx,
            *old(symbol_offset),
            def.symbols@.len() as int,
        ),
        strtab_size(final(symtab)@.names) <= strtab_size(old(symtab)@.names) + symbols_cost(
            def.symbols@,
            def.symbols@.len() as int,
        ),
        section_list(*final(sections)).len() == section_list(*old(sections)).len() + 1,
        section_list(*final(sections)).drop_last() == section_list(*old(sections)),
        custom_laid_out(section_list(*final(sections)).last(), *def, *old(offset), *old(addr)),
        section_keys(*final(sections)) == section_keys(*old(sections)).push(def.name@),
        *final(offset) == *old(offset) + def.data.spec_file_size(),
        *final(addr) == *old(addr) + def.data.spec_file_size(),
        *final(symbol_offset) == *old(symbol_offset) + def.data.spec_file_size(),
{
    let (kind, align) = match def.decl {
        DefinedDecl::Section { kind, align } => (kind, align),
        _ => (SectionKind::Data, None),
    };
    proof {
        reveal_strlit("__DATA");
        reveal_strlit("__DWARF");
        reveal_strlit("__TEXT");
    }
    let segment_name = match kind {
        SectionKind::Data => "__DATA",
        SectionKind::Debug => "__DWARF",
        SectionKind::Text => "__TEXT",
    };
    assert(segment_name@ =~= custom_segname(kind));
    let sectname = custom_section_name(def.name.as_str());
    let mut flags: u32 = 0;
    match kind {
        SectionKind::Debug => {
            flags = S_ATTR_DEBUG;
        },
        _ => {},
    }
    let ghost base = *symbol_offset;
    let n = def.symbols.len();
    let mut i: usize = 0;
    while i < n
        invariant
            n == def.symbols@.len(),
            i <= n,
            *symbol_offset == base,
            forall|k: int|
                0 <= k < def.symbols@.len() ==> base + (#[trigger] def.symbols@[k]).1 <= u64::MAX,
            symtab.wf(),
            symtab@ == insert_subsymbols(old(symtab)@, def.symbols@, section_idx, base, i as int),
            strtab_size(symtab@.names) <= strtab_size(old(symtab)@.names) + symbols_cost(
                def.symbols@,
                i as int,
            ),
            strtab_size(old(symtab)@.names) + symbols_cost(def.symbols@, n as int) <= u64::MAX,
        decreases n - i,
    {
        let entry = &def.symbols[i];
        let kind = SymbolType::Defined {
            section: section_idx,
            segment_relative_offset: entry.1,
            absolute_offset: *symbol_offset + entry.1,
            global: true,
        };
        proof {
            lemma_symbols_cost_monotonic(def.symbols@, i + 1, n as int);
            symtab.lemma_wf();
            lemma_insert_wf(symtab@, entry.0@, kind);
        }
        symtab.insert(entry.0.as_str(), kind);
        i = i + 1;
    }
    let local_size = def.data.file_size() as u64;
    *symbol_offset = *symbol_offset + local_size;
    let section_align = align_to_align_exp(
        match align {
            Some(a) => a,
            None => 1,
        },
    );
    let section = SectionBuilder::new(sectname, segment_name.to_owned(), local_size).offset(
        *offset,
    ).addr(*addr).align(section_align).flags(flags);
    *offset = *offset + local_size;
    *addr = *addr + local_size;
    let ghost before = *sections;
    proof {
        assert forall|i: int| 0 <= i < section_entries(before).len() implies (
        #[trigger] section_entries(before)[i]).0@ != def.name@ by {
            assert(section_keys(before)[i] == section_entries(before)[i].0@);
        }
    }
    let _ = sections_insert(sections, def.name.clone(), section);
    proof {
        assert(section_list(*sections).drop_last() =~= section_list(before));
        assert(section_keys(*sections) =~= section_keys(before).push(def.name@));
    }
}

/// The bytes that the first `k` custom sections take.
pub open spec fn customs_size(customs: Seq<Definition>, k: int) -> nat
    decreases k,
{
    if k <= 0 {
        0
    } else {
        customs_size(customs, k - 1) + customs[k - 1].data.spec_file_size()
    }
}

/// The bytes that the symbol names of the first `k` custom sections add to
/// the string table if none of them is there yet.
pub open spec fn customs_cost(customs: Seq<Definition>, k: int) -> nat
    decreases k,
{
    if k <= 0 {
        0
    } else {
        customs_cost(customs, k - 1) + symbols_cost(
            customs[k - 1].symbols@,
            customs[k - 1].symbols@.len() as int,
        )
    }
}

/// The symbol table after the symbols of the first `k` custom sections were
/// inserted. The first custom section starts at `base` in the payload area.
pub open spec fn insert_customs(
    table: SymbolTableView,
    customs: Seq<Definition>,
    base: nat,
    k: int,
) -> SymbolTableView
    decreases k,
{
    if k <= 0 {
        table
    } else {
        insert_subsymbols(
            insert_customs(table, customs, base, k - 1),
            customs[k - 1].symbols@,
            (k - 1 + 4) as usize,
            (base + customs_size(customs, k - 1)) as u64,
            customs[k - 1].symbols@.len() as int,
        )
    }
}

/// The symbol table after the first `n` imports were inserted.
pub open spec fn insert_imports(
    table: SymbolTableView,
    imports: Seq<(String, ImportKind)>,
    n: int,
) -> SymbolTableView
    decreases n,
{
    if n <= 0 {
        table
    } else {
        insert_imports(table, imports, n - 1).insert(imports[n - 1].0@, SymbolType::Undefined)
    }
}

/// The bytes that the names of the first `n` imports add to the string
/// table if none of them is there yet.
pub open spec fn imports_cost(imports: Seq<(String, ImportKind)>, n: int) -> nat
    decreases n,
{
    if n <= 0 {
        0
    } else {
        imports_cost(imports, n - 1) + name_len(imports[n - 1].0@) + 2
    }
}

/// The cost of custom sections grows with the number of sections counted.
pub proof fn lemma_customs_monotonic(customs: Seq<Definition>, i: int, j: int)
    requires
        0 <= i <= j,
    ensures
        customs_cost(customs, i) <= customs_cost(customs, j),
        customs_size(customs, i) <= customs_size(customs, j),
    decreases j - i,
{
    if i < j {
        lemma_customs_monotonic(customs, i, j - 1);
    }
}

/// The cost of imports grows with the number of imports counted.
pub proof fn lemma_imports_cost_monotonic(imports: Seq<(String, ImportKind)>, i: int, j: int)
    requires
        0 <= i <= j,
    ensures
        imports_cost(imports, i) <= imports_cost(imports, j),
    decreases j - i,
{
    if i < j {
        lemma_imports_cost_monotonic(imports, i, j - 1);
    }
}

/// The size of the file header in the chosen container.
pub open spec fn spec_header_size(is_64: bool) -> u64 {
    if is_64 {
        32
    } else {
        28
    }
}

/// The size of the file header in the chosen container.
pub fn header_size(is_64: bool) -> (size: u64)
    ensures
        size == spec_header_size(is_64),
{
    if is_64 {
        32
    } else {
        28
    }
}

/// The flags of the `__text` section.
pub open spec fn text_flags() -> u32 {
    0x8000_0400
}

/// Every definition asks for an alignment that is a power of two, or for none.
pub open spec fn aligns_valid(defs: Seq<Definition>) -> bool {
    forall|i: int| 0 <= i < defs.len() ==> is_align((#[trigger] defs[i]).decl.align_or_one())
}

/// The five buckets of definitions and the imports of one object.
pub struct Buckets {
    pub code: Seq<Definition>,
    pub data: Seq<Definition>,
    pub bss: Seq<Definition>,
    pub cstrings: Seq<Definition>,
    pub customs: Seq<Definition>,
    pub imports: Seq<(String, ImportKind)>,
}

impl Buckets {
    /// Where `__data` starts in the payload area.
    pub open spec fn data_start(self) -> nat {
        section_size(self.code, 4)
    }

    /// Where `__cstring` starts in the payload area.
    pub open spec fn cstring_start(self) -> nat {
        self.data_start() + section_size(self.data, 3)
    }

    /// Where `__bss` starts in the payload area.
    pub open spec fn bss_start(self) -> nat {
        self.cstring_start() + section_size(self.cstrings, 0)
    }

    /// Where the first custom section starts in the payload area.
    pub open spec fn customs_start(self) -> nat {
        self.bss_start() + section_size(self.bss, 0)
    }

    /// The bytes of payload of all sections together.
    pub open spec fn payload_size(self) -> nat {
        self.customs_start() + customs_size(self.customs, self.customs.len() as int)
    }

    /// The bytes that all names add to the string table if none is there yet.
    pub open spec fn names_cost(self) -> nat {
        names_cost(self.code, self.code.len() as int) + names_cost(
            self.data,
            self.data.len() as int,
        ) + names_cost(self.cstrings, self.cstrings.len() as int) + names_cost(
            self.bss,
            self.bss.len() as int,
        ) + customs_cost(self.customs, self.customs.len() as int) + imports_cost(
            self.imports,
            self.imports.len() as int,
        )
    }

    /// The symbol table after the four default sections were laid out.
    pub open spec fn defaults_symtab(self, table: SymbolTableView) -> SymbolTableView {
        let t1 = insert_defs(table, self.code, 4, 0, 0, self.code.len() as int);
        let t2 = insert_defs(t1, self.data, 3, 1, self.data_start() as u64, self.data.len() as int);
        let t3 = insert_defs(
            t2,
            self.cstrings,
            0,
            2,
            self.cstring_start() as u64,
            self.cstrings.len() as int,
        );
        insert_defs(t3, self.bss, 0, 3, self.bss_start() as u64, self.bss.len() as int)
    }

    /// The symbol table after all sections were laid out and the imports inserted.
    pub open spec fn symtab(self, table: SymbolTableView) -> SymbolTableView {
        insert_imports(
            insert_customs(
                self.defaults_symtab(table),
                self.customs,
                self.customs_start(),
                self.customs.len() as int,
            ),
            self.imports,
            self.imports.len() as int,
        )
    }

    /// The padding recorded for the definitions of the four default sections.
    pub open spec fn pads(self) -> Seq<(Seq<char>, u64)> {
        def_pads(self.code, 4, self.code.len() as int) + def_pads(
            self.data,
            3,
            self.data.len() as int,
        ) + def_pads(self.cstrings, 0, self.cstrings.len() as int) + def_pads(
            self.bss,
            0,
            self.bss.len() as int,
        )
    }

    /// The names under which the sections are found.
    pub open spec fn keys(self) -> Seq<Seq<char>> {
        seq!["__text"@, "__data"@, "__cstring"@, "__bss"@] + Seq::new(
            self.customs.len(),
            |k: int| self.customs[k].name@,
        )
    }

    /// The layout can be computed in 64 bits: the alignments are powers of
    /// two, the custom sections are declared as sections, no two sections
    /// are found under the same name, and neither the positions nor the
    /// string table grow past the largest number.
    pub open spec fn fits(self, table: SymbolTableView, is_64: bool) -> bool {
        &&& aligns_valid(self.code)
        &&& aligns_valid(self.data)
        &&& aligns_valid(self.cstrings)
        &&& aligns_valid(self.bss)
        &&& aligns_valid(self.customs)
        &&& forall|k: int| 0 <= k < self.customs.len() ==> (#[trigger] self.customs[k]).decl is Section
        &&& self.customs.len() + 4 <= usize::MAX
        &&& self.keys().no_duplicates()
        &&& spec_header_size(is_64) + self.payload_size() <= u64::MAX
        &&& forall|k: int, j: int|
            0 <= k < self.customs.len() && 0 <= j < self.customs[k].symbols@.len()
                ==> self.customs_start() + customs_size(self.customs, k) + (
            #[trigger] self.customs[k].symbols@[j]).1 <= u64::MAX
        &&& strtab_size(table.names) + self.names_cost() <= u64::MAX
    }
}

/// `section` has the place, size, alignment, flags and names of the
/// default section that holds `defs`, at `offset` and `addr`.
pub open spec fn placed(
    section: SectionBuilder,
    defs: Seq<Definition>,
    min_exp: nat,
    flags: u32,
    sectname: Seq<char>,
    segname: Seq<char>,
    offset: int,
    addr: int,
) -> bool {
    &&& section.size == section_size(defs, min_exp)
    &&& section.offset == offset
    &&& section.addr == addr
    &&& section.align == section_align(defs, min_exp, defs.len() as int)
    &&& section.flags == flags
    &&& section.sectname@ == sectname
    &&& section.segname@ == segname
}

/// A segment under construction.
pub struct SegmentBuilder {
    /// The sections of the segment, in the order of their ordinals, each
    /// under the name by which it is found.
    pub sections: IndexMap<String, SectionBuilder, RandomState>,
    /// The position behind the payload, counted from the start of the file
    /// as if the file header were followed by the payload at once.
    pub offset: u64,
    /// The bytes of payload of all sections together.
    pub size: u64,
    /// The padding behind each definition of a default section, by name. A
    /// name that occurs again is found with its last entry.
    pub align_pad_map: Vec<(String, u64)>,
}

impl SegmentBuilder {
    /// The sections of the segment have the places, sizes, alignments,
    /// flags and names that the layout of the buckets `b` gives them.
    pub open spec fn is_placement_of(&self, b: Buckets, is_64: bool) -> bool {
        let h = spec_header_size(is_64) as int;
        &&& section_list(self.sections).len() == 4 + b.customs.len()
        &&& placed(section_list(self.sections)[0], b.code, 4, text_flags(), "__text"@, "__TEXT"@, h, 0)
        &&& placed(
            section_list(self.sections)[1],
            b.data,
            3,
            S_REGULAR,
            "__data"@,
            "__DATA"@,
            h + b.data_start(),
            b.data_start() as int,
        )
        &&& placed(
            section_list(self.sections)[2],
            b.cstrings,
            0,
            S_CSTRING_LITERALS,
            "__cstring"@,
            "__TEXT"@,
            h + b.cstring_start(),
            b.cstring_start() as int,
        )
        &&& placed(
            section_list(self.sections)[3],
            b.bss,
            0,
            S_ZEROFILL,
            "__bss"@,
            "__DATA"@,
            h + b.bss_start(),
            b.bss_start() as int,
        )
        &&& forall|k: int|
            0 <= k < b.customs.len() ==> custom_placed(
                #[trigger] section_list(self.sections)[4 + k],
                b.customs[k],
                (h + b.customs_start() + customs_size(b.customs, k)) as u64,
                (b.customs_start() + customs_size(b.customs, k)) as u64,
            )
        &&& section_keys(self.sections) == b.keys()
        &&& self.size == b.payload_size()
        &&& self.offset == h + b.payload_size()
        &&& pads_view(self.align_pad_map@) == b.pads()
    }

    /// The segment is the layout of the buckets `b`, without relocations yet.
    pub open spec fn is_layout_of(&self, b: Buckets, is_64: bool) -> bool {
        &&& self.is_placement_of(b, is_64)
        &&& forall|i: int|
            0 <= i < section_list(self.sections).len() ==> (#[trigger] section_list(self.sections)[i]).relocations@
                == Seq::<RelocationInfo>::empty()
    }

    /// The bytes of payload of all sections together.
    pub fn size(&self) -> (size: u64)
        ensures
            size == self.size,
    {
        self.size
    }

    /// The size of the segment's load command with its section headers.
    pub fn load_command_size(&self, target: &Target) -> (size: u64)
        requires
            section_list(self.sections).len() * 80 + 72 <= u64::MAX,
        ensures
            size == spec_segment_command_size(target.is_64) + section_list(self.sections).len()
                * spec_section_header_size(target.is_64),
    {
        let n = sections_len(&self.sections) as u64;
        if target.is_64 {
            72 + n * 80
        } else {
            56 + n * 68
        }
    }

    /// Lays out the whole segment: the four default sections in their fixed
    /// order, then one section for each custom section, and inserts the
    /// imports into the symbol table after all defined symbols.
    #[verifier::rlimit(60)]
    pub fn new(
        imports: &Vec<(String, ImportKind)>,
        code: &Vec<&Definition>,
        blob_data: &Vec<&Definition>,
        zeroed_data: &Vec<&Definition>,
        cstrings: &Vec<&Definition>,
        custom_sections: &Vec<&Definition>,
        symtab: &mut SymbolTable,
        target: &Target,
    ) -> (segment: Self)
        requires
            old(symtab).wf(),
            (Buckets {
                code: derefs(code@),
                data: derefs(blob_data@),
                bss: derefs(zeroed_data@),
                cstrings: derefs(cstrings@),
                customs: derefs(custom_sections@),
                imports: imports@,
            }).fits(old(symtab)@, target.is_64),
        ensures
            final(symtab).wf(),
            final(symtab)@ == (Buckets {
                code: derefs(code@),
                data: derefs(blob_data@),
                bss: derefs(zeroed_data@),
                cstrings: derefs(cstrings@),
                customs: derefs(custom_sections@),
                imports: imports@,
            }).symtab(old(symtab)@),
            segment.is_layout_of(
                Buckets {
                    code: derefs(code@),
                    data: derefs(blob_data@),
                    bss: derefs(zeroed_data@),
                    cstrings: derefs(cstrings@),
                    customs: derefs(custom_sections@),
                    imports: imports@,
                },
                target.is_64,
            ),
    {
        let ghost b = Buckets {
            code: derefs(code@),
            data: derefs(blob_data@),
            bss: derefs(zeroed_data@),
            cstrings: derefs(cstrings@),
            customs: derefs(custom_sections@),
            imports: imports@,
        };
        let ghost start = symtab@;
        let ghost h = spec_header_size(target.is_64) as int;
        let mut offset = header_size(target.is_64);
        let mut size: u64 = 0;
        let mut symbol_offset: u64 = 0;
        let mut sections = sections_new();
        let mut align_pad_map: Vec<(String, u64)> = Vec::new();
        proof {
            lemma_customs_monotonic(b.customs, 0, b.customs.len() as int);
            assert(section_keys(sections) =~= b.keys().take(0));
            assert(b.keys()[0] == "__text"@ && b.keys()[1] == "__data"@ && b.keys()[2]
                == "__cstring"@ && b.keys()[3] == "__bss"@);
            assert(S_ATTR_PURE_INSTRUCTIONS | S_ATTR_SOME_INSTRUCTIONS == 0x8000_0400u32)
                by (bit_vector);
        }
        build_section(
            symtab,
            "__text",
            "__TEXT",
            &mut sections,
            &mut offset,
            &mut size,
            &mut symbol_offset,
            0,
            code,
            4,
            Some(S_ATTR_PURE_INSTRUCTIONS | S_ATTR_SOME_INSTRUCTIONS),
            &mut align_pad_map,
        );
        let ghost text_section = section_list(sections)[0];
        proof {
            assert(section_keys(sections) =~= b.keys().take(1));
            lemma_take_lacks_next(b.keys(), 1);
        }
        build_section(
            symtab,
            "__data",
            "__DATA",
            &mut sections,
            &mut offset,
            &mut size,
            &mut symbol_offset,
            1,
            blob_data,
            3,
            None,
            &mut align_pad_map,
        );
        let ghost data_section = section_list(sections)[1];
        assert(section_list(sections).drop_last()[0] == text_section);
        proof {
            assert(section_keys(sections) =~= b.keys().take(2));
            lemma_take_lacks_next(b.keys(), 2);
        }
        build_section(
            symtab,
            "__cstring",
            "__TEXT",
            &mut sections,
            &mut offset,
            &mut size,
            &mut symbol_offset,
            2,
            cstrings,
            0,
            Some(S_CSTRING_LITERALS),
            &mut align_pad_map,
        );
        let ghost cstring_section = section_list(sections)[2];
        assert(section_list(sections).drop_last()[0] == text_section);
        assert(section_list(sections).drop_last()[1] == data_section);
        proof {
            assert(section_keys(sections) =~= b.keys().take(3));
            lemma_take_lacks_next(b.keys(), 3);
        }
        build_section(
            symtab,
            "__bss",
            "__DATA",
            &mut sections,
            &mut offset,
            &mut size,
            &mut symbol_offset,
            3,
            zeroed_data,
            0,
            Some(S_ZEROFILL),
            &mut align_pad_map,
        );
        assert(section_list(sections).drop_last()[0] == text_section);
        assert(section_list(sections).drop_last()[1] == data_section);
        assert(section_list(sections).drop_last()[2] == cstring_section);
        let ghost defaults = section_list(sections);
        assert(section_keys(sections) =~= b.keys().take(4));
        assert(symtab@ == b.defaults_symtab(start));
        let n = custom_sections.len();
        let mut idx: usize = 0;
        while idx < n
            invariant
                n == b.customs.len(),
                b.customs == derefs(custom_sections@),
                idx <= n,
                h == spec_header_size(target.is_64),
                b.fits(start, target.is_64),
                symtab.wf(),
                symtab@ == insert_customs(
                    b.defaults_symtab(start),
                    b.customs,
                    b.customs_start(),
                    idx as int,
                ),
                strtab_size(symtab@.names) <= strtab_size(start.names) + names_cost(
                    b.code,
                    b.code.len() as int,
                ) + names_cost(b.data, b.data.len() as int) + names_cost(
                    b.cstrings,
                    b.cstrings.len() as int,
                ) + names_cost(b.bss, b.bss.len() as int) + customs_cost(b.customs, idx as int),
                section_list(sections).len() == 4 + idx,
                section_list(sections).take(4) == defaults,
                forall|k: int|
                    0 <= k < idx ==> custom_laid_out(
                        #[trigger] section_list(sections)[4 + k],
                        b.customs[k],
                        (h + b.customs_start() + customs_size(b.customs, k)) as u64,
                        (b.customs_start() + customs_size(b.customs, k)) as u64,
                    ),
                section_keys(sections) == b.keys().take(4 + idx),
                offset == h + b.customs_start() + customs_size(b.customs, idx as int),
                size == b.customs_start() + customs_size(b.customs, idx as int),
                symbol_offset == size,
            decreases n - idx,
        {
            proof {
                lemma_customs_monotonic(b.customs, idx + 1, n as int);
                assert(is_align(b.customs[idx as int].decl.align_or_one()));
                assert(b.customs[idx as int].decl is Section);
                lemma_take_lacks_next(b.keys(), 4 + idx);
                assert(b.keys()[4 + idx] == b.customs[idx as int].name@);
            }
            let ghost before = section_list(sections);
            let ghost keys_before = section_keys(sections);
            build_custom_section(
                symtab,
                &mut sections,
                &mut offset,
                &mut size,
                &mut symbol_offset,
                idx + NUM_DEFAULT_SECTIONS,
                custom_sections[idx],
            );
            proof {
                assert(section_list(sections).drop_last() == before);
                assert(section_list(sections).take(4) =~= before.take(4));
                assert forall|k: int| 0 <= k < idx + 1 implies custom_laid_out(
                    #[trigger] section_list(sections)[4 + k],
                    b.customs[k],
                    (h + b.customs_start() + customs_size(b.customs, k)) as u64,
                    (b.customs_start() + customs_size(b.customs, k)) as u64,
                ) by {
                    if k < idx {
                        assert(section_list(sections)[4 + k] == before[4 + k]);
                    }
                }
                assert(section_keys(sections) =~= b.keys().take(4 + idx + 1));
            }
            idx = idx + 1;
        }
        let ghost after_customs = symtab@;
        let m = imports.len();
        let mut i: usize = 0;
        while i < m
            invariant
                m == imports@.len(),
                b.imports == imports@,
                i <= m,
                symtab.wf(),
                symtab@ == insert_imports(after_customs, b.imports, i as int),
                strtab_size(symtab@.names) <= strtab_size(after_customs.names) + imports_cost(
                    b.imports,
                    i as int,
                ),
                strtab_size(after_customs.names) + imports_cost(b.imports, m as int) <= u64::MAX,
            decreases m - i,
        {
            proof {
                lemma_imports_cost_monotonic(b.imports, i + 1, m as int);
                symtab.lemma_wf();
                lemma_insert_wf(symtab@, imports[i as int].0@, SymbolType::Undefined);
            }
            symtab.insert(imports[i].0.as_str(), SymbolType::Undefined);
            i = i + 1;
        }
        let segment = SegmentBuilder { size, sections, offset, align_pad_map };
        proof {
            assert(section_list(segment.sections)[0] == defaults[0]);
            assert(section_list(segment.sections)[1] == defaults[1]);
            assert(section_list(segment.sections)[2] == defaults[2]);
            assert(section_list(segment.sections)[3] == defaults[3]);
            assert(pads_view(segment.align_pad_map@) =~= b.pads());
            assert(section_keys(segment.sections) =~= b.keys());
            assert forall|i: int| 0 <= i < section_list(segment.sections).len() implies (
            #[trigger] section_list(segment.sections)[i]).relocations@ == Seq::<RelocationInfo>::empty() by {
                if i >= 4 {
                    assert(custom_laid_out(
                        section_list(segment.sections)[4 + (i - 4)],
                        b.customs[i - 4],
                        (h + b.customs_start() + customs_size(b.customs, i - 4)) as u64,
                        (b.customs_start() + customs_size(b.customs, i - 4)) as u64,
                    ));
                }
            }
        }
        segment
    }
}

/// Among names without duplicates, the first `n` do not hold the next one.
pub proof fn lemma_take_lacks_next(keys: Seq<Seq<char>>, n: int)
    requires
        keys.no_duplicates(),
        0 <= n < keys.len(),
    ensures
        !keys.take(n).contains(keys[n]),
{
    if keys.take(n).contains(keys[n]) {
        let i = choose|i: int| 0 <= i < keys.take(n).len() && keys.take(n)[i] == keys[n];
        assert(keys[i] == keys[n]);
    }
}

/// The size of the segment command without its section headers.
pub open spec fn spec_segment_command_size(is_64: bool) -> u64 {
    if is_64 {
        72
    } else {
        56
    }
}

/// The size of one section header.
pub open spec fn spec_section_header_size(is_64: bool) -> u64 {
    if is_64 {
        80
    } else {
        68
    }
}

/// The cost of names grows with the number of definitions counted.
pub proof fn lemma_names_cost_monotonic(defs: Seq<Definition>, i: int, j: int)
    requires
        0 <= i <= j,
    ensures
        names_cost(defs, i) <= names_cost(defs, j),
    decreases j - i,
{
    if i < j {
        lemma_names_cost_monotonic(defs, i, j - 1);
    }
}

} // verus!
