//! Nuclide names and lists of them, held in the fixed-capacity types of
//! `arrayvec`.
//!
//! Verus cannot look inside those types. What one of them holds is given a
//! name here, and the few operations the decoder needs are stated over these
//! names. None of these statements is proved: each repeats what the source of
//! `arrayvec` shows.
use arrayvec::{ArrayString, ArrayVec};
use vstd::prelude::*;
use vstd::string::StringSliceAdditionalSpecFns;

verus! {

/// `arrayvec::ArrayString`: a text of at most `CAP` bytes.
#[verifier::external_type_specification]
#[verifier::external_body]
pub struct ExArrayString<const CAP: usize>(ArrayString<CAP>);

/// `arrayvec::ArrayVec`: a list of at most `CAP` items.
#[verifier::external_type_specification]
#[verifier::external_body]
#[verifier::reject_recursive_types(T)]
pub struct ExArrayVec<T, const CAP: usize>(ArrayVec<T, CAP>);

/// The name of a nuclide: at most five bytes of text.
pub type Nuclide = ArrayString<5>;

/// A reaction: the nuclides that go in, and those that come out.
pub type Reaction = (ArrayVec<Nuclide, 4>, ArrayVec<Nuclide, 4>);

/// The characters that a nuclide name holds.
pub uninterp spec fn nuclide_text(n: ArrayString<5>) -> Seq<char>;

/// The characters that a label holds.
pub uninterp spec fn label_text(l: ArrayString<4>) -> Seq<char>;

/// The names that a list of nuclides holds, in order.
pub uninterp spec fn nuclides(v: ArrayVec<ArrayString<5>, 4>) -> Seq<Seq<char>>;

/// `ArrayString::<5>::from`: a name with the characters of `s`. The call fails
/// only on a text of more than five bytes, which `requires` leaves out.
#[verifier::external_body]
pub(crate) fn nuclide_from(s: &str) -> (r: Nuclide)
    requires
        s.spec_bytes().len() <= 5,
    ensures
        nuclide_text(r) == s@,
{
    ArrayString::from(s).expect("the text has at most 5 bytes")
}

/// `ArrayString::<4>::from`: a label with the characters of `s`. The call fails
/// only on a text of more than four bytes, which `requires` leaves out.
#[verifier::external_body]
pub(crate) fn label_from(s: &str) -> (r: ArrayString<4>)
    requires
        s.spec_bytes().len() <= 4,
    ensures
        label_text(r) == s@,
{
    ArrayString::from(s).expect("the text has at most 4 bytes")
}

/// `ArrayVec::new`: a list that holds nothing.
#[verifier::external_body]
pub(crate) fn no_nuclides() -> (r: ArrayVec<Nuclide, 4>)
    ensures
        nuclides(r) == Seq::<Seq<char>>::empty(),
{
    ArrayVec::new()
}

/// `ArrayVec::push`: the list with `n` added at its end. The call panics on a
/// full list, which `requires` leaves out.
#[verifier::external_body]
pub(crate) fn push_nuclide(v: &mut ArrayVec<Nuclide, 4>, n: Nuclide)
    requires
        nuclides(*old(v)).len() < 4,
    ensures
        nuclides(*final(v)) == nuclides(*old(v)).push(nuclide_text(n)),
{
    v.push(n)
}

/// `ArrayVec::clone`: a list that holds the same names in the same order.
#[verifier::external_body]
pub(crate) fn clone_nuclides(v: &ArrayVec<Nuclide, 4>) -> (r: ArrayVec<Nuclide, 4>)
    ensures
        nuclides(r) == nuclides(*v),
{
    v.clone()
}

/// `ArrayVec::eq`: two lists are equal exactly if they hold the same names in
/// the same order.
#[verifier::external_body]
pub(crate) fn same_nuclides(a: &ArrayVec<Nuclide, 4>, b: &ArrayVec<Nuclide, 4>) -> (r: bool)
    ensures
        r == (nuclides(*a) == nuclides(*b)),
{
    a == b
}

} // verus!
