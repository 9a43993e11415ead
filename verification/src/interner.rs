//! The string interner that gives each distinct name its index.

use vstd::prelude::*;
use string_interner::StringInterner;

verus! {

/// A `StringInterner` whose indices are plain integers.
#[verifier::external_body]
pub struct NameInterner {
    inner: StringInterner<usize>,
}

/// The strings that an interner holds, each at its index.
pub uninterp spec fn interned(table: NameInterner) -> Seq<Seq<char>>;

/// `StringInterner::new`: an interner that holds no string.
#[verifier::external_body]
pub(crate) fn interner_new() -> (table: NameInterner)
    ensures
        interned(table) == Seq::<Seq<char>>::empty(),
{
    NameInterner { inner: StringInterner::new() }
}

/// `StringInterner::len`: the number of strings held.
#[verifier::external_body]
pub(crate) fn interner_len(table: &NameInterner) -> (len: usize)
    ensures
        len == interned(*table).len(),
{
    table.inner.len()
}

/// `StringInterner::get`: the index at which `name` is held, if it is.
#[verifier::external_body]
pub(crate) fn interner_get(table: &NameInterner, name: &str) -> (index:
    Option<usize>)
    ensures
        match index {
            Some(i) => i < interned(*table).len() && interned(*table)[i as int] == name@,
            None => !interned(*table).contains(name@),
        },
{
    table.inner.get(name)
}

/// `StringInterner::get_or_intern`: the index at which `name` is held. A name
/// that was not held is appended first, so that its index is the old length.
#[verifier::external_body]
pub(crate) fn interner_get_or_intern(
    table: &mut NameInterner,
    name: &str,
) -> (index: usize)
    ensures
        interned(*old(table)).contains(name@) ==> interned(*final(table)) == interned(*old(table))
            && index < interned(*old(table)).len() && interned(*old(table))[index as int] == name@,
        !interned(*old(table)).contains(name@) ==> interned(*final(table)) == interned(
            *old(table),
        ).push(name@) && index == interned(*old(table)).len(),
{
    table.inner.get_or_intern(name)
}

/// `StringInterner::resolve`: the string held at `index`, if there is one.
#[verifier::external_body]
pub(crate) fn interner_resolve(table: &NameInterner, index: usize) -> (name:
    Option<&str>)
    ensures
        match name {
            Some(s) => index < interned(*table).len() && s@ == interned(*table)[index as int],
            None => index >= interned(*table).len(),
        },
{
    table.inner.resolve(index)
}

} // verus!
