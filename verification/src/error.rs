//! The errors of reading and decoding, and their mathematical view.
use vstd::prelude::*;

verus! {

/// `std::io::ErrorKind`, carried through as it is.
#[verifier::external_type_specification]
#[verifier::external_body]
pub struct ExErrorKind(std::io::ErrorKind);

/// `std::num::ParseIntError`, carried through as it is.
#[verifier::external_type_specification]
#[verifier::external_body]
pub struct ExParseIntError(std::num::ParseIntError);

/// `ParseIntError::clone` of std: the copy is the error it was made from.
pub assume_specification[ <std::num::ParseIntError as Clone>::clone ](
    e: &std::num::ParseIntError,
) -> (r: std::num::ParseIntError)
    ensures
        r == *e,
;

/// A reading or decoding error.
#[derive(Debug, Eq, PartialEq)]
pub enum ReaclibError {
    /// A line could not be read; only the kind of the failure is kept.
    Io(std::io::ErrorKind),
    /// A chapter code is not a decimal integer that fits eight bits.
    ParseInt(std::num::ParseIntError),
    /// A numeric column does not hold a decimal number; the column's text.
    ParseFloat(String),
    /// An entry came before any chapter header.
    ChapterUnset,
    /// A chapter code outside 1 to 11.
    UnknownChapter(u8),
    /// A resonance flag that is none of the known codes; the flag's text.
    UnknownResonance(String),
    /// A line ends before a column does.
    TooShortLine,
    /// The input ends inside a group of lines.
    TooFewLines,
    /// A column boundary falls inside a multi-byte character.
    StrIndex,
}

/// What a [`ReaclibError`] says, with texts as sequences of characters.
///
/// The payload of `ParseInt` is left out: it is whatever the integer parser
/// of std reported.
pub enum Fault {
    Io(std::io::ErrorKind),
    ParseInt,
    ParseFloat(Seq<char>),
    ChapterUnset,
    UnknownChapter(u8),
    UnknownResonance(Seq<char>),
    TooShortLine,
    TooFewLines,
    StrIndex,
}

impl View for ReaclibError {
    type V = Fault;

    open spec fn view(&self) -> Fault {
        match *self {
            ReaclibError::Io(kind) => Fault::Io(kind),
            ReaclibError::ParseInt(_) => Fault::ParseInt,
            ReaclibError::ParseFloat(text) => Fault::ParseFloat(text@),
            ReaclibError::ChapterUnset => Fault::ChapterUnset,
            ReaclibError::UnknownChapter(code) => Fault::UnknownChapter(code),
            ReaclibError::UnknownResonance(text) => Fault::UnknownResonance(text@),
            ReaclibError::TooShortLine => Fault::TooShortLine,
            ReaclibError::TooFewLines => Fault::TooFewLines,
            ReaclibError::StrIndex => Fault::StrIndex,
        }
    }
}

/// A result with its error seen as a [`Fault`].
pub open spec fn fault_view<T>(r: Result<T, ReaclibError>) -> Result<T, Fault> {
    match r {
        Ok(v) => Ok(v),
        Err(e) => Err(e@),
    }
}

impl From<std::io::ErrorKind> for ReaclibError {
    fn from(kind: std::io::ErrorKind) -> (r: Self) {
        ReaclibError::Io(kind)
    }
}

impl vstd::std_specs::convert::FromSpecImpl<std::io::ErrorKind> for ReaclibError {
    open spec fn obeys_from_spec() -> bool {
        true
    }

    open spec fn from_spec(kind: std::io::ErrorKind) -> Self {
        ReaclibError::Io(kind)
    }
}

impl Clone for ReaclibError {
    fn clone(&self) -> (r: Self)
        ensures
            r@ == self@,
    {
        match self {
            ReaclibError::Io(kind) => ReaclibError::Io(*kind),
            ReaclibError::ParseInt(e) => ReaclibError::ParseInt(e.clone()),
            ReaclibError::ParseFloat(text) => ReaclibError::ParseFloat(text.clone()),
            ReaclibError::ChapterUnset => ReaclibError::ChapterUnset,
            ReaclibError::UnknownChapter(code) => ReaclibError::UnknownChapter(*code),
            ReaclibError::UnknownResonance(text) => ReaclibError::UnknownResonance(text.clone()),
            ReaclibError::TooShortLine => ReaclibError::TooShortLine,
            ReaclibError::TooFewLines => ReaclibError::TooFewLines,
            ReaclibError::StrIndex => ReaclibError::StrIndex,
        }
    }
}

} // verus!
