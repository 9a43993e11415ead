//! The symbol table and the string table that names its symbols.

use vstd::prelude::*;
use vstd::utf8::encode_utf8;
use crate::interner::{
    interned,
    interner_get,
    interner_get_or_intern,
    interner_len,
    interner_new,
    interner_resolve,
    NameInterner,
};
use crate::ordered::{
    symbol_entries,
    symbols_get,
    symbols_get_index,
    symbols_get_index_of,
    symbols_insert,
    symbols_len,
    symbols_new,
};
use crate::symbol::SymbolBuilder;
use indexmap::IndexMap;
use std::collections::hash_map::RandomState;

verus! {

/// The kind of symbol that is inserted.
#[derive(Debug, Clone, Copy, PartialEq, Eq, Structural)]
pub enum SymbolType {
    /// A symbol defined in `section`, at `absolute_offset` in the payload
    /// area and at `segment_relative_offset` in its section.
    Defined { section: usize, absolute_offset: u64, segment_relative_offset: u64, global: bool },
    /// An import.
    Undefined,
}

/// The bytes that a name takes, without prefix and terminator.
pub open spec fn name_len(name: Seq<char>) -> nat {
    encode_utf8(name).len()
}

/// The size in bytes of the string table that holds `names`: one byte for
/// the empty first entry, and for every other name its bytes, one byte for
/// the underscore before it and one for the NUL after it.
pub open spec fn strtab_size(names: Seq<Seq<char>>) -> nat
    decreases names.len(),
{
    if names.len() <= 1 {
        1
    } else {
        strtab_size(names.drop_last()) + name_len(names.last()) + 2
    }
}

/// The bytes of the string table that holds `names`: a NUL, then for every
/// name but the first an underscore, the name and a NUL.
pub open spec fn strtab_bytes(names: Seq<Seq<char>>) -> Seq<u8>
    decreases names.len(),
{
    if names.len() <= 1 {
        seq![0u8]
    } else {
        strtab_bytes(names.drop_last()) + seq![0x5fu8] + encode_utf8(names.last()) + seq![0u8]
    }
}

/// The record that `insert` makes for a new name whose string lies at `strx`.
pub open spec fn symbol_for(kind: SymbolType, strx: u64) -> SymbolBuilder {
    match kind {
        SymbolType::Undefined => SymbolBuilder {
            name: strx,
            section: None,
            global: true,
            import: true,
            offset: 0,
            segment_relative_offset: 0,
        },
        SymbolType::Defined { section, absolute_offset, segment_relative_offset, global } => {
            SymbolBuilder {
                name: strx,
                section: Some(section),
                global,
                import: false,
                offset: absolute_offset,
                segment_relative_offset,
            }
        },
    }
}

/// What a symbol table holds: the interned names, the empty name first, and
/// the record of every name but the first, in the order of insertion.
pub struct SymbolTableView {
    pub names: Seq<Seq<char>>,
    pub symbols: Seq<SymbolBuilder>,
}

impl SymbolTableView {
    /// The table before any insertion.
    pub open spec fn empty() -> Self {
        SymbolTableView { names: seq![Seq::<char>::empty()], symbols: Seq::empty() }
    }

    /// No name twice, the empty name first, one record for every other name,
    /// each with the string table offset of its name.
    pub open spec fn wf(self) -> bool {
        &&& self.names.len() == self.symbols.len() + 1
        &&& self.names[0] == Seq::<char>::empty()
        &&& self.names.no_duplicates()
        &&& strtab_size(self.names) <= u64::MAX
        &&& forall|i: int|
            0 <= i < self.symbols.len() ==> (#[trigger] self.symbols[i]).name == strtab_size(
                self.names.take(i + 1),
            )
    }

    /// The table after `name` was inserted: unchanged if it holds the name,
    /// else with the name and its record at the end.
    pub open spec fn insert(self, name: Seq<char>, kind: SymbolType) -> Self {
        if self.names.contains(name) {
            self
        } else {
            SymbolTableView {
                names: self.names.push(name),
                symbols: self.symbols.push(symbol_for(kind, strtab_size(self.names) as u64)),
            }
        }
    }

    /// The ordinal of the symbol called `name`.
    pub open spec fn index(self, name: Seq<char>) -> Option<usize> {
        if self.names.contains(name) && self.names.index_of(name) >= 1 {
            Some((self.names.index_of(name) - 1) as usize)
        } else {
            None
        }
    }

    /// The section-relative offset of the symbol called `name`.
    pub open spec fn offset(self, name: Seq<char>) -> Option<u64> {
        match self.index(name) {
            Some(i) => Some(self.symbols[i as int].segment_relative_offset),
            None => None,
        }
    }

    /// The record of the symbol called `name`.
    pub open spec fn symbol(self, name: Seq<char>) -> Option<SymbolBuilder> {
        match self.index(name) {
            Some(i) => Some(self.symbols[i as int]),
            None => None,
        }
    }
}

/// The string table is as long as its declared size.
pub proof fn lemma_strtab_bytes_len(names: Seq<Seq<char>>)
    ensures
        strtab_bytes(names).len() == strtab_size(names),
    decreases names.len(),
{
    if names.len() > 1 {
        lemma_strtab_bytes_len(names.drop_last());
    }
}

/// A longer list of names has a string table at least as large.
pub proof fn lemma_strtab_size_monotonic(names: Seq<Seq<char>>, n: int)
    requires
        0 <= n <= names.len(),
    ensures
        1 <= strtab_size(names.take(n)) <= strtab_size(names),
    decreases names.len(),
{
    if n == names.len() {
        assert(names.take(n) =~= names);
        if names.len() > 1 {
            lemma_strtab_size_monotonic(names.drop_last(), 0);
        }
    } else if names.len() > 1 {
        assert(names.drop_last().take(n) =~= names.take(n));
        lemma_strtab_size_monotonic(names.drop_last(), n);
    } else {
        assert(names.take(n).len() <= 1);
    }
}

/// Inserting a name a second time changes nothing, whatever kind is given.
pub proof fn lemma_insert_idempotent(
    table: SymbolTableView,
    name: Seq<char>,
    first: SymbolType,
    second: SymbolType,
)
    ensures
        table.insert(name, first).insert(name, second) == table.insert(name, first),
{
    let once = table.insert(name, first);
    if !table.names.contains(name) {
        assert(once.names[table.names.len() as int] == name);
    }
}

/// An insertion leaves the ordinal, the offset and the record, and so the
/// section, of every name that the table already holds as they were.
pub proof fn lemma_insert_keeps(
    table: SymbolTableView,
    held: Seq<char>,
    name: Seq<char>,
    kind: SymbolType,
)
    requires
        table.wf(),
        table.names.contains(held),
    ensures
        table.insert(name, kind).index(held) == table.index(held),
        table.insert(name, kind).offset(held) == table.offset(held),
        table.insert(name, kind).symbol(held) == table.symbol(held),
{
    let after = table.insert(name, kind);
    if !table.names.contains(name) {
        let i = table.names.index_of(held);
        assert(after.names[i] == held);
        let j = after.names.index_of(held);
        if j != i {
            if j < table.names.len() {
                assert(table.names[j] == held);
            } else {
                assert(after.names[j] == name);
            }
        }
    }
}

/// Insertion keeps a table well formed as long as the string table fits.
pub proof fn lemma_insert_wf(table: SymbolTableView, name: Seq<char>, kind: SymbolType)
    requires
        table.wf(),
        strtab_size(table.names) + name_len(name) + 2 <= u64::MAX,
    ensures
        table.insert(name, kind).wf(),
        strtab_size(table.insert(name, kind).names) == if table.names.contains(name) {
            strtab_size(table.names)
        } else {
            strtab_size(table.names) + name_len(name) + 2
        },
{
    let after = table.insert(name, kind);
    if !table.names.contains(name) {
        assert(after.names.drop_last() =~= table.names);
        assert(after.names.last() == name);
        assert forall|i: int| 0 <= i < after.symbols.len() implies (
        #[trigger] after.symbols[i]).name == strtab_size(after.names.take(i + 1)) by {
            if i < table.symbols.len() {
                assert(after.names.take(i + 1) =~= table.names.take(i + 1));
                assert(after.symbols[i] == table.symbols[i]);
            } else {
                assert(after.names.take(i + 1) =~= table.names);
            }
        }
        assert(after.names.no_duplicates()) by {
            assert forall|i: int, j: int|
                0 <= i < after.names.len() && 0 <= j < after.names.len() && i != j implies after.names[i]
                != after.names[j] by {
                if i < table.names.len() && j < table.names.len() {
                } else if i < table.names.len() {
                    assert(table.names[i] == after.names[i]);
                } else {
                    assert(table.names[j] == after.names[j]);
                }
            }
        }
    }
}

/// The symbol table of an object, with the string table that names its symbols.
pub struct SymbolTable {
    /// The record of each name, under the index of the name in `strtable`.
    symbols: IndexMap<usize, SymbolBuilder, RandomState>,
    strtable: NameInterner,
    strtable_size: u64,
}

impl View for SymbolTable {
    type V = SymbolTableView;

    closed spec fn view(&self) -> SymbolTableView {
        SymbolTableView {
            names: interned(self.strtable),
            symbols: Seq::new(
                symbol_entries(self.symbols).len(),
                |i: int| symbol_entries(self.symbols)[i].1,
            ),
        }
    }
}

impl Default for SymbolTable {
    /// A table without any name, not even the empty one, and with a size
    /// counter of zero. Such a table is not well formed: `new` makes one that is.
    fn default() -> (table: Self)
        ensures
            table@.names == Seq::<Seq<char>>::empty(),
            table@.symbols == Seq::<SymbolBuilder>::empty(),
            table.declared_size() == 0,
    {
        let table = SymbolTable {
            symbols: symbols_new(),
            strtable: interner_new(),
            strtable_size: 0,
        };
        proof {
            assert(table@.symbols =~= Seq::<SymbolBuilder>::empty());
        }
        table
    }
}

impl SymbolTable {
    /// The size counter of the string table.
    pub closed spec fn declared_size(&self) -> u64 {
        self.strtable_size
    }

    /// The table is well formed and its size counter is the size of its string table.
    pub closed spec fn wf(&self) -> bool {
        &&& self@.wf()
        &&& self.strtable_size == strtab_size(self@.names)
        &&& forall|i: int|
            0 <= i < symbol_entries(self.symbols).len() ==> (#[trigger] symbol_entries(
                self.symbols,
            )[i]).0 == i + 1
    }

    /// In a well-formed table the view is well formed and the size
    /// counter is the size of the string table.
    pub proof fn lemma_wf(&self)
        requires
            self.wf(),
        ensures
            self@.wf(),
            self.declared_size() == strtab_size(self@.names),
    {
    }

    /// A table that holds no symbol. The first entry of its string table is the empty name.
    pub fn new() -> (table: Self)
        ensures
            table.wf(),
            table@ == SymbolTableView::empty(),
    {
        let mut strtable = interner_new();
        let ghost before = interned(strtable);
        let _ = interner_get_or_intern(&mut strtable, "");
        let table = SymbolTable { symbols: symbols_new(), strtable, strtable_size: 1 };
        proof {
            reveal_strlit("");
            assert(""@ =~= Seq::<char>::empty());
            assert(!before.contains(""@));
            assert(interned(table.strtable) =~= seq![Seq::<char>::empty()]);
            assert(table@.names =~= SymbolTableView::empty().names);
            assert(table@.symbols =~= SymbolTableView::empty().symbols);
        }
        table
    }

    /// The number of symbols in the table.
    pub fn len(&self) -> (n: usize)
        ensures
            n == self@.symbols.len(),
    {
        symbols_len(&self.symbols)
    }

    /// The size of the string table in bytes.
    pub fn sizeof_strtable(&self) -> (size: u64)
        requires
            self.wf(),
        ensures
            size == strtab_size(self@.names),
            size == strtab_bytes(self@.names).len(),
    {
        proof {
            lemma_strtab_bytes_len(self@.names);
        }
        self.strtable_size
    }

    /// The section-relative offset of the symbol called `symbol_name`, if the table holds it.
    pub fn offset(&self, symbol_name: &str) -> (offset: Option<u64>)
        requires
            self.wf(),
        ensures
            offset == self@.offset(symbol_name@),
    {
        match interner_get(&self.strtable, symbol_name) {
            Some(idx) => {
                proof {
                    assert(self@.names.contains(symbol_name@));
                    assert(self@.names.index_of(symbol_name@) == idx);
                }
                match symbols_get(&self.symbols, idx) {
                    Some(sym) => Some(sym.get_segment_relative_offset()),
                    None => {
                        proof {
                            if idx >= 1 {
                                assert(symbol_entries(self.symbols)[idx - 1].0 == idx);
                            }
                        }
                        None
                    },
                }
            },
            None => None,
        }
    }

    /// The ordinal of the symbol called `symbol_name`, if the table holds it.
    pub fn index(&self, symbol_name: &str) -> (index: Option<usize>)
        requires
            self.wf(),
        ensures
            index == self@.index(symbol_name@),
            index matches Some(i) ==> i < self@.symbols.len(),
    {
        match interner_get(&self.strtable, symbol_name) {
            Some(idx) => {
                proof {
                    assert(self@.names.contains(symbol_name@));
                    assert(self@.names.index_of(symbol_name@) == idx);
                    if idx >= 1 {
                        assert(symbol_entries(self.symbols)[idx - 1].0 == idx);
                    }
                }
                symbols_get_index_of(&self.symbols, idx)
            },
            None => None,
        }
    }

    /// The record of the symbol with the given ordinal, if there is one.
    pub fn symbol_at(&self, ordinal: usize) -> (symbol: Option<SymbolBuilder>)
        ensures
            symbol == if ordinal < self@.symbols.len() {
                Some(self@.symbols[ordinal as int])
            } else {
                None
            },
    {
        match symbols_get_index(&self.symbols, ordinal) {
            Some(entry) => Some(entry.1),
            None => None,
        }
    }

    /// Inserts a symbol called `symbol_name`. A name that the table already
    /// holds is left as it is. A new name is interned, gets the next ordinal
    /// and a record at the current end of the string table, which grows by
    /// the name's bytes and two.
    pub fn insert(&mut self, symbol_name: &str, kind: SymbolType)
        requires
            old(self).wf(),
            strtab_size(old(self)@.names) + name_len(symbol_name@) + 2 <= u64::MAX,
        ensures
            final(self).wf(),
            final(self)@ == old(self)@.insert(symbol_name@, kind),
    {
        proof {
            lemma_insert_wf(self@, symbol_name@, kind);
        }
        let name_len: u64 = symbol_name.as_bytes().len() as u64 + 2;
        let last_index = interner_len(&self.strtable);
        let name_index = interner_get_or_intern(&mut self.strtable, symbol_name);
        if name_index == last_index {
            let builder = match kind {
                SymbolType::Undefined => SymbolBuilder::new(self.strtable_size).global(
                    true,
                ).import(),
                SymbolType::Defined { section, absolute_offset, global, segment_relative_offset } => {
                    SymbolBuilder::new(self.strtable_size).global(global).offset(
                        absolute_offset,
                    ).relative_offset(segment_relative_offset).section(section)
                },
            };
            let _ = symbols_insert(&mut self.symbols, name_index, builder);
            self.strtable_size = self.strtable_size + name_len;
        }
        proof {
            let after = old(self)@.insert(symbol_name@, kind);
            assert(self@.names == after.names);
            assert(self@.symbols =~= after.symbols);
            assert(self@ == after);
        }
    }

    /// Appends the string table to `out`: a NUL, then every name but the
    /// first with an underscore before it and a NUL after it.
    pub fn write_strtable(&self, out: &mut Vec<u8>)
        requires
            self.wf(),
        ensures
            final(out)@ == old(out)@ + strtab_bytes(self@.names),
    {
        let n = interner_len(&self.strtable);
        out.push(0u8);
        let mut i: usize = 1;
        while i < n
            invariant
                self.wf(),
                n == self@.names.len(),
                1 <= i <= n,
                out@ == old(out)@ + strtab_bytes(self@.names.take(i as int)),
            decreases n - i,
        {
            let ghost before = out@;
            if let Some(name) = interner_resolve(&self.strtable, i) {
                out.push(0x5fu8);
                let bytes = name.as_bytes();
                let mut j: usize = 0;
                while j < bytes.len()
                    invariant
                        j <= bytes@.len(),
                        out@ == before + seq![0x5fu8] + bytes@.take(j as int),
                    decreases bytes@.len() - j,
                {
                    out.push(bytes[j]);
                    proof {
                        assert(bytes@.take(j + 1) =~= bytes@.take(j as int).push(bytes@[j as int]));
                    }
                    j = j + 1;
                }
                out.push(0u8);
                proof {
                    let next = self@.names.take(i + 1);
                    assert(next.drop_last() =~= self@.names.take(i as int));
                    assert(next.last() == name@);
                    assert(bytes@.take(j as int) =~= bytes@);
                    assert(out@ =~= old(out)@ + strtab_bytes(next));
                }
            }
            i = i + 1;
        }
        proof {
            assert(self@.names.take(n as int) =~= self@.names);
        }
    }
}

} // verus!
