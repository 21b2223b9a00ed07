//! Interned text, as string_cache provides it.
use vstd::prelude::*;

use string_cache::DefaultAtom;

verus! {

#[verifier::external_type_specification]
#[verifier::external_body]
#[verifier::reject_recursive_types(Static)]
pub struct ExAtom<Static>(string_cache::Atom<Static>);

#[verifier::external_type_specification]
#[verifier::external_body]
pub struct ExEmptyStaticAtomSet(string_cache::EmptyStaticAtomSet);

/// The text that an atom stands for.
pub uninterp spec fn atom_text(atom: DefaultAtom) -> Seq<char>;

/// Relies on string_cache's `From<&str> for Atom`: the atom derefs back to the text it was made from.
#[verifier::external_body]
pub(crate) fn intern(text: &str) -> (atom: DefaultAtom)
    ensures
        atom_text(atom) == text@,
{
    DefaultAtom::from(text)
}

/// Relies on string_cache's `From<String> for Atom`, fed with the characters collected into a
/// `String`: the atom derefs back to those characters.
#[verifier::external_body]
pub(crate) fn intern_chars(chars: &[char]) -> (atom: DefaultAtom)
    ensures
        atom_text(atom) == chars@,
{
    DefaultAtom::from(chars.iter().collect::<String>())
}

/// Relies on string_cache's `Clone for Atom`, which copies the packed handle as it is (and counts
/// one more reference to a heap entry).
pub assume_specification<Static: string_cache::StaticAtomSet>[ <string_cache::Atom<Static> as Clone>::clone ](
    atom: &string_cache::Atom<Static>,
) -> (copy: string_cache::Atom<Static>)
    ensures
        copy == *atom,
;

/// Relies on string_cache's `Deref<Target = str> for Atom`, copied into a `String`.
#[verifier::external_body]
pub(crate) fn atom_string(atom: &DefaultAtom) -> (text: String)
    ensures
        text@ == atom_text(*atom),
{
    String::from(&**atom)
}

} // verus!
