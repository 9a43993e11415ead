//! The layout of the definitions of one section: where each starts, and how
//! many bytes of padding follow it.

use vstd::prelude::*;
use vstd::arithmetic::power2::pow2;
use crate::align::{align_exp_of, lemma_pad_to, pad_to};
use crate::artifact::Definition;
use crate::symtab::{name_len, SymbolTableView, SymbolType};

verus! {

/// The definitions that a list of references points to.
pub open spec fn derefs(v: Seq<&Definition>) -> Seq<Definition> {
    Seq::new(v.len(), |i: int| *v[i])
}

/// The larger of two exponents.
pub open spec fn max_exp(a: nat, b: nat) -> nat {
    if a >= b {
        a
    } else {
        b
    }
}

/// The exponent to which the definition after `defs[i]` is aligned: the
/// larger of the section's minimum and the successor's own, or zero where
/// `defs[i]` is the last.
pub open spec fn next_exp(defs: Seq<Definition>, min_exp: nat, i: int) -> nat {
    if i + 1 < defs.len() {
        max_exp(min_exp, align_exp_of(defs[i + 1].decl.align_or_one()))
    } else {
        0
    }
}

/// The offset in its section at which `defs[i]` starts: behind every
/// definition before it and the padding behind each.
pub open spec fn def_start(defs: Seq<Definition>, min_exp: nat, i: int) -> nat
    decreases i,
{
    if i <= 0 {
        0
    } else {
        let end = def_start(defs, min_exp, i - 1) + defs[i - 1].data.spec_file_size();
        (end + pad_to(end as int, next_exp(defs, min_exp, i - 1))) as nat
    }
}

/// The padding behind `defs[i]`.
pub open spec fn def_pad(defs: Seq<Definition>, min_exp: nat, i: int) -> nat {
    pad_to(
        (def_start(defs, min_exp, i) + defs[i].data.spec_file_size()) as int,
        next_exp(defs, min_exp, i),
    ) as nat
}

/// The size of the section that holds `defs`.
pub open spec fn section_size(defs: Seq<Definition>, min_exp: nat) -> nat {
    def_start(defs, min_exp, defs.len() as int)
}

/// The alignment exponent of a section after its first `n` definitions: the
/// largest exponent met so far, the minimum included.
pub open spec fn section_align(defs: Seq<Definition>, min_exp: nat, n: int) -> nat
    decreases n,
{
    if n <= 0 {
        min_exp
    } else {
        max_exp(section_align(defs, min_exp, n - 1), next_exp(defs, min_exp, n - 1))
    }
}

/// The kind under which `defs[i]` enters the symbol table, where the
/// section's payload starts at `base` in the payload area.
pub open spec fn def_symbol(
    defs: Seq<Definition>,
    min_exp: nat,
    section: usize,
    base: u64,
    i: int,
) -> SymbolType {
    SymbolType::Defined {
        section,
        absolute_offset: (base + def_start(defs, min_exp, i)) as u64,
        segment_relative_offset: def_start(defs, min_exp, i) as u64,
        global: defs[i].decl.spec_is_global(),
    }
}

/// The symbol table after the first `n` definitions of a section were inserted.
pub open spec fn insert_defs(
    table: SymbolTableView,
    defs: Seq<Definition>,
    min_exp: nat,
    section: usize,
    base: u64,
    n: int,
) -> SymbolTableView
    decreases n,
{
    if n <= 0 {
        table
    } else {
        insert_defs(table, defs, min_exp, section, base, n - 1).insert(
            defs[n - 1].name@,
            def_symbol(defs, min_exp, section, base, n - 1),
        )
    }
}

/// The bytes that the names of the first `n` definitions add to the string
/// table if none of them is there yet.
pub open spec fn names_cost(defs: Seq<Definition>, n: int) -> nat
    decreases n,
{
    if n <= 0 {
        0
    } else {
        names_cost(defs, n - 1) + name_len(defs[n - 1].name@) + 2
    }
}

/// The padding entries that a section records: one for each definition, by name.
pub open spec fn def_pads(defs: Seq<Definition>, min_exp: nat, n: int) -> Seq<(Seq<char>, u64)> {
    Seq::new(n as nat, |i: int| (defs[i].name@, def_pad(defs, min_exp, i) as u64))
}

/// A definition ends, padding included, where the next one starts, and the
/// last one ends where the section ends.
pub proof fn lemma_def_start_step(defs: Seq<Definition>, min_exp: nat, i: int)
    requires
        0 <= i < defs.len(),
    ensures
        def_start(defs, min_exp, i) + defs[i].data.spec_file_size() + def_pad(defs, min_exp, i)
            == def_start(defs, min_exp, i + 1),
        i == defs.len() - 1 ==> def_start(defs, min_exp, i) + defs[i].data.spec_file_size()
            + def_pad(defs, min_exp, i) == section_size(defs, min_exp),
        pad_to(
            (def_start(defs, min_exp, i) + defs[i].data.spec_file_size()) as int,
            next_exp(defs, min_exp, i),
        ) >= 0,
{
    lemma_pad_to(
        (def_start(defs, min_exp, i) + defs[i].data.spec_file_size()) as int,
        next_exp(defs, min_exp, i),
    );
}

/// Definitions start in the order in which they are listed.
pub proof fn lemma_def_start_monotonic(defs: Seq<Definition>, min_exp: nat, i: int, j: int)
    requires
        0 <= i <= j <= defs.len(),
    ensures
        def_start(defs, min_exp, i) <= def_start(defs, min_exp, j),
    decreases j - i,
{
    if i < j {
        lemma_def_start_monotonic(defs, min_exp, i, j - 1);
        lemma_def_start_step(defs, min_exp, j - 1);
    }
}

/// Every definition but the first starts at a multiple of its own alignment
/// and of the section's minimum.
pub proof fn lemma_def_start_aligned(defs: Seq<Definition>, min_exp: nat, i: int)
    requires
        0 < i < defs.len(),
    ensures
        def_start(defs, min_exp, i) % pow2(next_exp(defs, min_exp, i - 1)) == 0,
{
    lemma_pad_to(
        (def_start(defs, min_exp, i - 1) + defs[i - 1].data.spec_file_size()) as int,
        next_exp(defs, min_exp, i - 1),
    );
}

} // verus!
