//! What holds of every layout: consequences of the contracts, proved once.

use vstd::prelude::*;
use crate::artifact::{Artifact, Definition, ImportKind};
use crate::constants::{N_EXT, N_UNDF, NO_SECT};
use crate::layout::{
    def_pad,
    def_pads,
    def_start,
    def_symbol,
    insert_defs,
    lemma_def_start_monotonic,
    lemma_def_start_step,
    section_size,
};
use crate::lower::lowered;
use crate::object::{
    layout_fits,
    payload,
    bucket_of,
    buckets_of,
    model_of,
    pad_count,
    pad_lookup,
    payload_offset_at,
    sections_in_range,
    spec_classify,
    Bucket,
};
use crate::artifact::Link;
use crate::reloc::{info_symbol, RelocationInfo};
use crate::segment::{
    customs_size,
    insert_customs,
    insert_imports,
    insert_subsymbols,
    lemma_customs_monotonic,
    Buckets,
};
use crate::symtab::{SymbolTableView, SymbolType};

verus! {

/// Every import is global and lies in no section, and every other symbol
/// lies in one of the first `nsects` sections.
pub open spec fn symbols_placed(table: SymbolTableView, nsects: int) -> bool {
    forall|i: int|
        0 <= i < table.symbols.len() ==> {
            let s = #[trigger] table.symbols[i];
            if s.import {
                s.section is None
            } else {
                s.section matches Some(idx) && idx < nsects
            }
        }
}

/// Inserting an import, or a symbol defined in one of the first `nsects`
/// sections, keeps every symbol placed.
pub proof fn lemma_insert_placed(
    table: SymbolTableView,
    name: Seq<char>,
    kind: SymbolType,
    nsects: int,
)
    requires
        symbols_placed(table, nsects),
        kind matches SymbolType::Defined { section, .. } ==> section < nsects,
    ensures
        symbols_placed(table.insert(name, kind), nsects),
{
    let after = table.insert(name, kind);
    assert forall|i: int| 0 <= i < after.symbols.len() implies {
        let s = #[trigger] after.symbols[i];
        if s.import {
            s.section is None
        } else {
            s.section matches Some(idx) && idx < nsects
        }
    } by {
        if i < table.symbols.len() {
            assert(after.symbols[i] == table.symbols[i]);
        }
    }
}

/// Laying out a default section keeps every symbol placed.
pub proof fn lemma_insert_defs_placed(
    table: SymbolTableView,
    defs: Seq<Definition>,
    min_exp: nat,
    section: usize,
    base: u64,
    n: int,
    nsects: int,
)
    requires
        symbols_placed(table, nsects),
        section < nsects,
    ensures
        symbols_placed(insert_defs(table, defs, min_exp, section, base, n), nsects),
    decreases n,
{
    if n > 0 {
        lemma_insert_defs_placed(table, defs, min_exp, section, base, n - 1, nsects);
        lemma_insert_placed(
            insert_defs(table, defs, min_exp, section, base, n - 1),
            defs[n - 1].name@,
            def_symbol(defs, min_exp, section, base, n - 1),
            nsects,
        );
    }
}

/// Inserting the symbols of a custom section keeps every symbol placed.
pub proof fn lemma_insert_subsymbols_placed(
    table: SymbolTableView,
    symbols: Seq<(String, u64)>,
    section: usize,
    base: u64,
    n: int,
    nsects: int,
)
    requires
        symbols_placed(table, nsects),
        section < nsects,
    ensures
        symbols_placed(insert_subsymbols(table, symbols, section, base, n), nsects),
    decreases n,
{
    if n > 0 {
        lemma_insert_subsymbols_placed(table, symbols, section, base, n - 1, nsects);
        lemma_insert_placed(
            insert_subsymbols(table, symbols, section, base, n - 1),
            symbols[n - 1].0@,
            SymbolType::Defined {
                section,
                segment_relative_offset: symbols[n - 1].1,
                absolute_offset: (base + symbols[n - 1].1) as u64,
                global: true,
            },
            nsects,
        );
    }
}

/// Laying out custom sections keeps every symbol placed.
pub proof fn lemma_insert_customs_placed(
    table: SymbolTableView,
    customs: Seq<Definition>,
    base: nat,
    k: int,
    nsects: int,
)
    requires
        symbols_placed(table, nsects),
        k <= customs.len(),
        customs.len() + 4 <= nsects <= usize::MAX,
    ensures
        symbols_placed(insert_customs(table, customs, base, k), nsects),
    decreases k,
{
    if k > 0 {
        lemma_insert_customs_placed(table, customs, base, k - 1, nsects);
        lemma_insert_subsymbols_placed(
            insert_customs(table, customs, base, k - 1),
            customs[k - 1].symbols@,
            (k - 1 + 4) as usize,
            (base + crate::segment::customs_size(customs, k - 1)) as u64,
            customs[k - 1].symbols@.len() as int,
            nsects,
        );
    }
}

/// Inserting imports keeps every symbol placed.
pub proof fn lemma_insert_imports_placed(
    table: SymbolTableView,
    imports: Seq<(String, ImportKind)>,
    n: int,
    nsects: int,
)
    requires
        symbols_placed(table, nsects),
    ensures
        symbols_placed(insert_imports(table, imports, n), nsects),
    decreases n,
{
    if n > 0 {
        lemma_insert_imports_placed(table, imports, n - 1, nsects);
        lemma_insert_placed(
            insert_imports(table, imports, n - 1),
            imports[n - 1].0@,
            SymbolType::Undefined,
            nsects,
        );
    }
}

/// In the symbol table of a laid out object, every import is emitted with
/// the type `N_EXT` and in no section, and every other symbol is emitted
/// with a section ordinal between one and the number of sections and with
/// a type other than `N_UNDF`.
pub proof fn lemma_symbols_in_sections(b: Buckets)
    requires
        b.customs.len() + 4 <= usize::MAX,
    ensures
        symbols_placed(b.symtab(SymbolTableView::empty()), 4 + b.customs.len() as int),
        sections_in_range(b.symtab(SymbolTableView::empty())),
        forall|i: int|
            0 <= i < b.symtab(SymbolTableView::empty()).symbols.len() ==> {
                let s = #[trigger] b.symtab(SymbolTableView::empty()).symbols[i];
                if s.import {
                    s.spec_nlist().n_sect == NO_SECT && s.spec_nlist().n_type == N_EXT
                } else {
                    1 <= s.spec_nlist().n_sect <= 4 + b.customs.len() && s.spec_nlist().n_type
                        != N_UNDF
                }
            },
{
    let nsects = 4 + b.customs.len() as int;
    let t0 = SymbolTableView::empty();
    assert(symbols_placed(t0, nsects));
    let t1 = insert_defs(t0, b.code, 4, 0, 0, b.code.len() as int);
    lemma_insert_defs_placed(t0, b.code, 4, 0, 0, b.code.len() as int, nsects);
    let t2 = insert_defs(t1, b.data, 3, 1, b.data_start() as u64, b.data.len() as int);
    lemma_insert_defs_placed(t1, b.data, 3, 1, b.data_start() as u64, b.data.len() as int, nsects);
    let t3 = insert_defs(
        t2,
        b.cstrings,
        0,
        2,
        b.cstring_start() as u64,
        b.cstrings.len() as int,
    );
    lemma_insert_defs_placed(
        t2,
        b.cstrings,
        0,
        2,
        b.cstring_start() as u64,
        b.cstrings.len() as int,
        nsects,
    );
    let t4 = insert_defs(t3, b.bss, 0, 3, b.bss_start() as u64, b.bss.len() as int);
    lemma_insert_defs_placed(t3, b.bss, 0, 3, b.bss_start() as u64, b.bss.len() as int, nsects);
    assert(t4 == b.defaults_symtab(t0));
    let t5 = insert_customs(t4, b.customs, b.customs_start(), b.customs.len() as int);
    lemma_insert_customs_placed(t4, b.customs, b.customs_start(), b.customs.len() as int, nsects);
    lemma_insert_imports_placed(t5, b.imports, b.imports.len() as int, nsects);
    let t = b.symtab(t0);
    assert(symbols_placed(t, nsects));
    assert forall|i: int| 0 <= i < t.symbols.len() implies {
        let s = #[trigger] t.symbols[i];
        if s.import {
            s.spec_nlist().n_sect == NO_SECT && s.spec_nlist().n_type == N_EXT
        } else {
            1 <= s.spec_nlist().n_sect <= 4 + b.customs.len() && s.spec_nlist().n_type != N_UNDF
        }
    } by {}
}

/// The payload of every section ends where the payload of the next one starts.
pub proof fn lemma_sections_adjoin(artifact: Artifact, k: int)
    requires
        0 <= k < model_of(artifact).sections.len(),
    ensures
        payload_offset_at(model_of(artifact).sections, model_of(artifact).first_section_offset(), k)
            + model_of(artifact).sections[k].size == payload_offset_at(
            model_of(artifact).sections,
            model_of(artifact).first_section_offset(),
            k + 1,
        ),
{
}

/// A relocation that a link is lowered to names a symbol of the table, as
/// long as the table's ordinals fit in the 24 bits that a record has for them.
pub proof fn lemma_relocation_names_symbol(
    link: Link,
    keys: Seq<Seq<char>>,
    table: SymbolTableView,
    idx: int,
    info: RelocationInfo,
)
    requires
        table.wf(),
        table.symbols.len() <= 0x0100_0000,
        lowered(link, keys, table) == Some((idx, info)),
    ensures
        info_symbol(info.r_info) < table.symbols.len(),
        table.index(link.to.name@) == Some(info_symbol(info.r_info) as usize),
{
    let symbol = table.index(link.to.name@).unwrap();
    assert(symbol < table.symbols.len());
    let s = symbol as u32;
    assert(forall|a: u32, b: u32, c: u32, d: u32|
        s < 0x0100_0000 ==> #[trigger] (s | (a << 24) | (b << 25) | (c << 27) | (d << 28))
            & 0x00ff_ffff == s) by (bit_vector);
}

/// A fixup inside the bytes of a definition lies inside the definition's section.
pub proof fn lemma_fixup_in_section(defs: Seq<Definition>, min_exp: nat, i: int, at: nat)
    requires
        0 <= i < defs.len(),
        at < defs[i].data.spec_file_size(),
    ensures
        def_start(defs, min_exp, i) + at < section_size(defs, min_exp),
{
    lemma_def_start_step(defs, min_exp, i);
    lemma_def_start_monotonic(defs, min_exp, i + 1, defs.len() as int);
}


/// No two of the definitions have the same name.
pub open spec fn names_distinct(defs: Seq<Definition>) -> bool {
    forall|i: int, j: int| 0 <= i < j < defs.len() ==> defs[i].name@ != defs[j].name@
}

/// The table holds the name of none of the definitions.
pub open spec fn names_fresh(table: SymbolTableView, defs: Seq<Definition>) -> bool {
    forall|i: int| 0 <= i < defs.len() ==> !table.names.contains(#[trigger] defs[i].name@)
}

/// Laying out definitions with new, distinct names appends one name and
/// one record for each, in their order, and each record holds the start
/// of its definition.
pub proof fn lemma_insert_defs_appends(
    table: SymbolTableView,
    defs: Seq<Definition>,
    min_exp: nat,
    section: usize,
    base: u64,
    n: int,
)
    requires
        table.names.no_duplicates(),
        table.names.len() == table.symbols.len() + 1,
        names_distinct(defs),
        names_fresh(table, defs),
        0 <= n <= defs.len(),
    ensures
        insert_defs(table, defs, min_exp, section, base, n).names == table.names + Seq::new(
            n as nat,
            |j: int| defs[j].name@,
        ),
        insert_defs(table, defs, min_exp, section, base, n).names.no_duplicates(),
        insert_defs(table, defs, min_exp, section, base, n).symbols.len() == table.symbols.len()
            + n,
        forall|j: int|
            0 <= j < n ==> (#[trigger] insert_defs(
                table,
                defs,
                min_exp,
                section,
                base,
                n,
            ).symbols[table.symbols.len() + j]).segment_relative_offset == def_start(
                defs,
                min_exp,
                j,
            ) as u64,
    decreases n,
{
    let after = insert_defs(table, defs, min_exp, section, base, n);
    if n > 0 {
        lemma_insert_defs_appends(table, defs, min_exp, section, base, n - 1);
        let prev = insert_defs(table, defs, min_exp, section, base, n - 1);
        let name = defs[n - 1].name@;
        assert(!prev.names.contains(name)) by {
            if prev.names.contains(name) {
                let p = choose|p: int| 0 <= p < prev.names.len() && prev.names[p] == name;
                if p < table.names.len() {
                    assert(table.names[p] == name);
                    assert(table.names.contains(name));
                } else {
                    assert(defs[p - table.names.len()].name@ == name);
                }
            }
        }
        assert(after.names =~= table.names + Seq::new(n as nat, |j: int| defs[j].name@));
        assert forall|j: int| 0 <= j < n implies (#[trigger] after.symbols[table.symbols.len()
            + j]).segment_relative_offset == def_start(defs, min_exp, j) as u64 by {
            if j < n - 1 {
                assert(after.symbols[table.symbols.len() + j] == prev.symbols[table.symbols.len()
                    + j]);
            }
        }
        assert(after.names.no_duplicates()) by {
            assert forall|x: int, y: int|
                0 <= x < after.names.len() && 0 <= y < after.names.len() && x != y implies after.names[x]
                != after.names[y] by {
                if x < prev.names.len() && y < prev.names.len() {
                    assert(after.names[x] == prev.names[x] && after.names[y] == prev.names[y]);
                } else if x < prev.names.len() {
                    assert(prev.names[x] == after.names[x]);
                } else {
                    assert(prev.names[y] == after.names[y]);
                }
            }
        }
    } else {
        assert(after.names =~= table.names + Seq::new(0nat, |j: int| defs[j].name@));
    }
}

/// Among distinct names, the padding found under the name of a
/// definition is the padding behind that definition.
pub proof fn lemma_pad_lookup(
    before: Seq<(Seq<char>, u64)>,
    defs: Seq<Definition>,
    min_exp: nat,
    i: int,
    m: int,
)
    requires
        names_distinct(defs),
        0 <= i < m <= defs.len(),
    ensures
        pad_lookup(
            before + def_pads(defs, min_exp, defs.len() as int),
            defs[i].name@,
            before.len() + m,
        ) == Some(def_pad(defs, min_exp, i) as u64),
    decreases m,
{
    let pads = before + def_pads(defs, min_exp, defs.len() as int);
    assert(pads[before.len() + m - 1] == def_pads(defs, min_exp, defs.len() as int)[m - 1]);
    if m - 1 != i {
        lemma_pad_lookup(before, defs, min_exp, i, m - 1);
    }
}

/// In a default section whose definitions have new, distinct names, none
/// of which is recorded again for a later section, the offset found under
/// a definition's name, plus the size of its payload and the padding
/// recorded under its name, is the offset found under the name of the next
/// definition, or the size of the section for the last one.
pub proof fn lemma_definitions_adjoin(
    table: SymbolTableView,
    defs: Seq<Definition>,
    min_exp: nat,
    section: usize,
    base: u64,
    before: Seq<(Seq<char>, u64)>,
    later: Seq<(Seq<char>, u64)>,
    i: int,
)
    requires
        table.names.no_duplicates(),
        table.names.len() == table.symbols.len() + 1,
        names_distinct(defs),
        names_fresh(table, defs),
        0 <= i < defs.len(),
        section_size(defs, min_exp) <= u64::MAX,
        table.symbols.len() + defs.len() <= usize::MAX,
        forall|x: int| 0 <= x < later.len() ==> (#[trigger] later[x]).0 != defs[i].name@,
    ensures
        ({
            let after = insert_defs(table, defs, min_exp, section, base, defs.len() as int);
            let pads = before + def_pads(defs, min_exp, defs.len() as int) + later;
            let end = after.offset(defs[i].name@).unwrap() + defs[i].data.spec_file_size()
                + pad_count(pads, defs[i].name@);
            &&& after.offset(defs[i].name@) == Some(def_start(defs, min_exp, i) as u64)
            &&& i + 1 < defs.len() ==> after.offset(defs[i + 1].name@) == Some(end as u64)
            &&& i + 1 == defs.len() ==> end == section_size(defs, min_exp)
        }),
{
    let n = defs.len() as int;
    let after = insert_defs(table, defs, min_exp, section, base, n);
    let own = before + def_pads(defs, min_exp, n);
    lemma_insert_defs_appends(table, defs, min_exp, section, base, n);
    lemma_pad_lookup(before, defs, min_exp, i, n);
    lemma_pad_lookup_skips(own, later, defs[i].name@, later.len() as int);
    lemma_def_start_step(defs, min_exp, i);
    lemma_def_start_monotonic(defs, min_exp, i + 1, n);
    lemma_offset_of_appended(table, after, defs, min_exp, i);
    if i + 1 < n {
        lemma_offset_of_appended(table, after, defs, min_exp, i + 1);
    }
    assert(own.len() == before.len() + n);
    assert((own + later).len() == own.len() + later.len());
}

/// The offset found under the name of a definition whose name and record
/// were appended to a table.
pub proof fn lemma_offset_of_appended(
    table: SymbolTableView,
    after: SymbolTableView,
    defs: Seq<Definition>,
    min_exp: nat,
    i: int,
)
    requires
        table.names.len() == table.symbols.len() + 1,
        0 <= i < defs.len(),
        after.names == table.names + Seq::new(defs.len(), |j: int| defs[j].name@),
        after.names.no_duplicates(),
        after.symbols.len() == table.symbols.len() + defs.len(),
        after.symbols.len() <= usize::MAX,
        after.symbols[table.symbols.len() + i].segment_relative_offset == def_start(
            defs,
            min_exp,
            i,
        ) as u64,
    ensures
        after.offset(defs[i].name@) == Some(def_start(defs, min_exp, i) as u64),
{
    let name = defs[i].name@;
    let p = table.names.len() + i;
    assert(after.names[p] == name);
    assert(after.names.contains(name));
    let q = after.names.index_of(name);
    assert(q == p);
}


/// Every member of a bucket is classified into that bucket.
pub proof fn lemma_bucket_members(defs: Seq<Definition>, bucket: Bucket, n: int, j: int)
    requires
        0 <= j < bucket_of(defs, bucket, n).len(),
    ensures
        spec_classify(bucket_of(defs, bucket, n)[j]) == bucket,
    decreases n,
{
    if n > 0 {
        if spec_classify(defs[n - 1]) == bucket {
            if j < bucket_of(defs, bucket, n - 1).len() {
                lemma_bucket_members(defs, bucket, n - 1, j);
            }
        } else {
            lemma_bucket_members(defs, bucket, n - 1, j);
        }
    }
}

/// A section of definitions without payload has no size: every
/// definition starts at offset zero and no padding follows it.
pub proof fn lemma_empty_payloads(defs: Seq<Definition>, min_exp: nat, i: int)
    requires
        forall|j: int| 0 <= j < defs.len() ==> (#[trigger] defs[j]).data.spec_file_size() == 0,
        0 <= i <= defs.len(),
    ensures
        def_start(defs, min_exp, i) == 0,
    decreases i,
{
    if i > 0 {
        lemma_empty_payloads(defs, min_exp, i - 1);
        let e = crate::layout::next_exp(defs, min_exp, i - 1);
        vstd::arithmetic::power2::lemma_pow2_pos(e);
        assert(defs[i - 1].data.spec_file_size() == 0);
        let a = vstd::arithmetic::power2::pow2(e) as int;
        assert(0int % a == 0) by (nonlinear_arith)
            requires
                a > 0,
        ;
        assert(crate::align::pad_to(0, e) == 0);
    }
}

/// Zero-initialized data takes no room in the file: the `__bss` section has size zero.
pub proof fn lemma_bss_takes_no_file_bytes(artifact: Artifact)
    ensures
        section_size(buckets_of(artifact).bss, 0) == 0,
        model_of(artifact).sections[3].size == 0,
{
    let defs = artifact.definitions@;
    let bss = buckets_of(artifact).bss;
    assert forall|j: int| 0 <= j < bss.len() implies (#[trigger] bss[j]).data.spec_file_size()
        == 0 by {
        lemma_bucket_members(defs, Bucket::Bss, defs.len() as int, j);
    }
    lemma_empty_payloads(bss, 0, bss.len() as int);
}

/// The payload of custom section `k` starts behind the default sections
/// and the custom sections before it.
pub proof fn lemma_custom_payload_offset(artifact: Artifact, k: int)
    requires
        layout_fits(artifact),
        0 <= k <= buckets_of(artifact).customs.len(),
    ensures
        payload_offset_at(
            model_of(artifact).sections,
            model_of(artifact).first_section_offset(),
            4 + k,
        ) == model_of(artifact).first_section_offset() + buckets_of(artifact).customs_start()
            + customs_size(buckets_of(artifact).customs, k),
    decreases k,
{
    let m = model_of(artifact);
    let b = buckets_of(artifact);
    let first = m.first_section_offset();
    lemma_customs_monotonic(b.customs, 0, b.customs.len() as int);
    if k == 0 {
        assert(payload_offset_at(m.sections, first, 0) == first);
        assert(payload_offset_at(m.sections, first, 1) == first + m.sections[0].size);
        assert(payload_offset_at(m.sections, first, 2) == first + m.sections[0].size
            + m.sections[1].size);
        assert(payload_offset_at(m.sections, first, 3) == first + m.sections[0].size
            + m.sections[1].size + m.sections[2].size);
        assert(payload_offset_at(m.sections, first, 4) == first + m.sections[0].size
            + m.sections[1].size + m.sections[2].size + m.sections[3].size);
    } else {
        lemma_custom_payload_offset(artifact, k - 1);
        lemma_customs_monotonic(b.customs, k, b.customs.len() as int);
        assert(m.sections[4 + k - 1].size == b.customs[k - 1].data.spec_file_size());
    }
}

/// The payload of the last section ends where the symbol table starts.
pub proof fn lemma_payload_ends_at_symbol_table(artifact: Artifact)
    requires
        layout_fits(artifact),
    ensures
        payload_offset_at(
            model_of(artifact).sections,
            model_of(artifact).first_section_offset(),
            model_of(artifact).sections.len() as int,
        ) == model_of(artifact).symtable_offset(),
{
    lemma_custom_payload_offset(artifact, buckets_of(artifact).customs.len() as int);
}


/// Where the padding found under the name of each definition is the
/// padding that the layout puts behind it, the bytes written for the first
/// `n` definitions of a section end where definition `n` starts: the
/// payload fills the section exactly.
pub proof fn lemma_payload_fills_section(
    defs: Seq<Definition>,
    min_exp: nat,
    pads: Seq<(Seq<char>, u64)>,
    fill: u8,
    n: int,
)
    requires
        0 <= n <= defs.len(),
        section_size(defs, min_exp) <= u64::MAX,
        forall|i: int|
            0 <= i < defs.len() ==> pad_count(pads, (#[trigger] defs[i]).name@) == def_pad(
                defs,
                min_exp,
                i,
            ),
    ensures
        payload(defs, pads, fill, n).len() == def_start(defs, min_exp, n),
        n == defs.len() ==> payload(defs, pads, fill, n).len() == section_size(defs, min_exp),
    decreases n,
{
    if n > 0 {
        lemma_payload_fills_section(defs, min_exp, pads, fill, n - 1);
        lemma_def_start_step(defs, min_exp, n - 1);
        assert(pad_count(pads, defs[n - 1].name@) == def_pad(defs, min_exp, n - 1));
    }
}

/// Entries under other names, recorded later, do not change the padding
/// found under the name of a definition.
pub proof fn lemma_pad_lookup_skips(
    pads: Seq<(Seq<char>, u64)>,
    later: Seq<(Seq<char>, u64)>,
    name: Seq<char>,
    m: int,
)
    requires
        0 <= m <= later.len(),
        forall|x: int| 0 <= x < later.len() ==> (#[trigger] later[x]).0 != name,
    ensures
        pad_lookup(pads + later, name, pads.len() + m) == pad_lookup(
            pads,
            name,
            pads.len() as int,
        ),
    decreases m,
{
    if m > 0 {
        assert((pads + later)[pads.len() + m - 1] == later[m - 1]);
        lemma_pad_lookup_skips(pads, later, name, m - 1);
    } else {
        lemma_pad_lookup_prefix(pads, later, name, pads.len() as int);
    }
}

/// A lookup among the first entries does not depend on what follows them.
pub proof fn lemma_pad_lookup_prefix(
    pads: Seq<(Seq<char>, u64)>,
    later: Seq<(Seq<char>, u64)>,
    name: Seq<char>,
    n: int,
)
    requires
        0 <= n <= pads.len(),
    ensures
        pad_lookup(pads + later, name, n) == pad_lookup(pads, name, n),
    decreases n,
{
    if n > 0 {
        assert((pads + later)[n - 1] == pads[n - 1]);
        lemma_pad_lookup_prefix(pads, later, name, n - 1);
    }
}

/// In a section whose definitions have distinct names, none of which is
/// recorded again later, the padding found under the name of each
/// definition is the padding behind it, and so the payload written for the
/// section has the size of the section.
pub proof fn lemma_section_payload_matches_layout(
    before: Seq<(Seq<char>, u64)>,
    defs: Seq<Definition>,
    min_exp: nat,
    later: Seq<(Seq<char>, u64)>,
    fill: u8,
)
    requires
        names_distinct(defs),
        section_size(defs, min_exp) <= u64::MAX,
        forall|i: int, x: int|
            0 <= i < defs.len() && 0 <= x < later.len() ==> (#[trigger] later[x]).0 != (
            #[trigger] defs[i]).name@,
    ensures
        payload(
            defs,
            before + def_pads(defs, min_exp, defs.len() as int) + later,
            fill,
            defs.len() as int,
        ).len() == section_size(defs, min_exp),
{
    let own = before + def_pads(defs, min_exp, defs.len() as int);
    let pads = own + later;
    assert forall|i: int| 0 <= i < defs.len() implies pad_count(pads, (#[trigger] defs[i]).name@)
        == def_pad(defs, min_exp, i) by {
        let name = defs[i].name@;
        assert forall|x: int| 0 <= x < later.len() implies (#[trigger] later[x]).0 != name by {
            assert(later[x].0 != defs[i].name@);
        }
        lemma_pad_lookup_skips(own, later, name, later.len() as int);
        lemma_pad_lookup(before, defs, min_exp, i, defs.len() as int);
        assert(pads.len() == own.len() + later.len());
        assert(own.len() == before.len() + defs.len());
        lemma_def_start_step(defs, min_exp, i);
        lemma_def_start_monotonic(defs, min_exp, i + 1, defs.len() as int);
        assert(pad_lookup(pads, name, pads.len() as int) == Some(
            def_pad(defs, min_exp, i) as u64,
        ));
    }
    lemma_payload_fills_section(defs, min_exp, pads, fill, defs.len() as int);
}

} // verus!
