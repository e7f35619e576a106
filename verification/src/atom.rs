//! Interned strings, as the tokens and the tree carry them.
use swc_atoms::Atom;
use vstd::prelude::*;

verus! {

/// Declares `swc_atoms::Atom`, an interned string. Nothing inside it is visible
/// here; its text goes by the name [`atom_text`].
#[verifier::external_type_specification]
#[verifier::external_body]
pub struct ExAtom(Atom);

/// The characters of an interned string, in order.
pub uninterp spec fn atom_text(a: Atom) -> Seq<char>;

/// Calls `Atom::new` on a string slice, which interns that text.
#[verifier::external_body]
pub(crate) fn atom_new(s: &str) -> (a: Atom)
    ensures
        atom_text(a) == s@,
{
    Atom::new(s)
}

/// Calls `Atom::as_str`, which lends the interned text as a string slice.
#[verifier::external_body]
pub(crate) fn atom_as_str(a: &Atom) -> (s: &str)
    ensures
        s@ == atom_text(*a),
{
    a.as_str()
}

} // verus!
