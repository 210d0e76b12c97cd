//! Chapters: the eleven shapes an entry can have, and the headers that name
//! them.
use crate::error::{fault_view, Fault, ReaclibError};
use crate::number::is_digit;
use crate::text::{is_blank, trimmed};
use vstd::prelude::*;

verus! {

/// A class of reactions with the same number of reactants and products.
#[derive(Copy, Clone, Eq, PartialEq, Hash, Debug, Structural)]
pub enum Chapter {
    /// e1 -> e2
    Chapter1,
    /// e1 -> e2 + e3
    Chapter2,
    /// e1 -> e2 + e3 + e4
    Chapter3,
    /// e1 + e2 -> e3
    Chapter4,
    /// e1 + e2 -> e3 + e4
    Chapter5,
    /// e1 + e2 -> e3 + e4 + e5
    Chapter6,
    /// e1 + e2 -> e3 + e4 + e5 + e6
    Chapter7,
    /// e1 + e2 + e3 -> e4
    Chapter8,
    /// e1 + e2 + e3 -> e4 + e5
    Chapter9,
    /// e1 + e2 + e3 + e4 -> e5 + e6
    Chapter10,
    /// e1 -> e2 + e3 + e4 + e5
    Chapter11,
}

/// The value of a run of digits, read as a decimal numeral.
pub open spec fn decimal(s: Seq<char>) -> nat
    decreases s.len(),
{
    if s.len() == 0 {
        0
    } else {
        10 * decimal(s.drop_last()) + (s.last() as u32 - '0' as u32) as nat
    }
}

/// The number that `s` denotes as an unsigned integer of eight bits: an
/// optional `+`, then one digit or more, with a value of at most 255.
pub open spec fn decimal_u8(s: Seq<char>) -> Option<u8> {
    let numeral = if s.len() > 0 && s[0] == '+' {
        s.skip(1)
    } else {
        s
    };
    if numeral.len() > 0 && (forall|i: int| 0 <= i < numeral.len() ==> is_digit(#[trigger] numeral[i]))
        && decimal(numeral) <= 255 {
        Some(decimal(numeral) as u8)
    } else {
        None
    }
}

/// `str::parse::<u8>` of std: succeeds on an optional `+` followed by decimal
/// digits that denote a value of at most 255, and gives that value; fails on
/// every other text, the empty one and one with white space included.
#[verifier::external_body]
fn parse_u8(s: &str) -> (r: Result<u8, std::num::ParseIntError>)
    ensures
        match r {
            Ok(value) => decimal_u8(s@) == Some(value),
            Err(_) => decimal_u8(s@) is None,
        },
{
    s.parse::<u8>()
}

/// The chapter that a header line names: the line without the white space
/// around it must be a chapter code.
pub open spec fn chapter_of(line: Seq<char>) -> Result<Chapter, Fault> {
    match decimal_u8(trimmed(line)) {
        None => Err(Fault::ParseInt),
        Some(code) => match Chapter::of_code(code) {
            Some(chapter) => Ok(chapter),
            None => Err(Fault::UnknownChapter(code)),
        },
    }
}

/// What three lines say as a chapter header of the first dialect. They are a
/// header exactly if the second and the third are blank; the first then
/// names the chapter, or fails to.
pub open spec fn header(first: Seq<char>, second: Seq<char>, third: Seq<char>) -> Option<
    Result<Chapter, Fault>,
> {
    if is_blank(second) && is_blank(third) {
        Some(chapter_of(first))
    } else {
        None
    }
}

impl Chapter {
    /// How many nuclides go into a reaction of this chapter.
    pub open spec fn reactants(self) -> nat {
        match self {
            Chapter::Chapter1 | Chapter::Chapter2 | Chapter::Chapter3 | Chapter::Chapter11 => 1,
            Chapter::Chapter4 | Chapter::Chapter5 | Chapter::Chapter6 | Chapter::Chapter7 => 2,
            Chapter::Chapter8 | Chapter::Chapter9 => 3,
            Chapter::Chapter10 => 4,
        }
    }

    /// How many nuclides come out of a reaction of this chapter.
    pub open spec fn products(self) -> nat {
        match self {
            Chapter::Chapter1 | Chapter::Chapter4 | Chapter::Chapter8 => 1,
            Chapter::Chapter2 | Chapter::Chapter5 | Chapter::Chapter9 | Chapter::Chapter10 => 2,
            Chapter::Chapter3 | Chapter::Chapter6 => 3,
            Chapter::Chapter7 | Chapter::Chapter11 => 4,
        }
    }

    /// The chapter that a code names, if it names one.
    pub open spec fn of_code(code: u8) -> Option<Chapter> {
        match code {
            1 => Some(Chapter::Chapter1),
            2 => Some(Chapter::Chapter2),
            3 => Some(Chapter::Chapter3),
            4 => Some(Chapter::Chapter4),
            5 => Some(Chapter::Chapter5),
            6 => Some(Chapter::Chapter6),
            7 => Some(Chapter::Chapter7),
            8 => Some(Chapter::Chapter8),
            9 => Some(Chapter::Chapter9),
            10 => Some(Chapter::Chapter10),
            11 => Some(Chapter::Chapter11),
            _ => None,
        }
    }

    /// The chapter with the given code.
    pub fn try_from(code: u8) -> (r: Result<Chapter, ReaclibError>)
        ensures
            match r {
                Ok(chapter) => Chapter::of_code(code) == Some(chapter),
                Err(e) => Chapter::of_code(code) is None && e == ReaclibError::UnknownChapter(code),
            },
    {
        match code {
            1 => Ok(Self::Chapter1),
            2 => Ok(Self::Chapter2),
            3 => Ok(Self::Chapter3),
            4 => Ok(Self::Chapter4),
            5 => Ok(Self::Chapter5),
            6 => Ok(Self::Chapter6),
            7 => Ok(Self::Chapter7),
            8 => Ok(Self::Chapter8),
            9 => Ok(Self::Chapter9),
            10 => Ok(Self::Chapter10),
            11 => Ok(Self::Chapter11),
            _ => Err(ReaclibError::UnknownChapter(code)),
        }
    }

    /// Reads three lines as a chapter header of the first dialect.
    ///
    /// `None` says that the lines are no header. `Some(Err(..))` says that they
    /// are one whose chapter code cannot be read.
    pub fn from_lines_v1(lines: &[String; 3]) -> (r: Option<Result<Chapter, ReaclibError>>)
        ensures
            match r {
                Some(found) => header(lines[0]@, lines[1]@, lines[2]@) == Some(fault_view(found)),
                None => header(lines[0]@, lines[1]@, lines[2]@) is None,
            },
    {
        if lines[1].as_str().trim().is_empty() && lines[2].as_str().trim().is_empty() {
            Some(Self::from_lines_v2(lines[0].as_str()))
        } else {
            None
        }
    }

    /// Reads one line as a chapter header of the second dialect.
    pub fn from_lines_v2(line: &str) -> (r: Result<Chapter, ReaclibError>)
        ensures
            fault_view(r) == chapter_of(line@),
    {
        match parse_u8(line.trim()) {
            Ok(code) => Self::try_from(code),
            Err(e) => Err(ReaclibError::ParseInt(e)),
        }
    }

    #[must_use]
    pub fn num_reactants(&self) -> (n: usize)
        ensures
            n == self.reactants(),
            1 <= n <= 4,
    {
        match self {
            Self::Chapter1 => 1,
            Self::Chapter2 => 1,
            Self::Chapter3 => 1,
            Self::Chapter4 => 2,
            Self::Chapter5 => 2,
            Self::Chapter6 => 2,
            Self::Chapter7 => 2,
            Self::Chapter8 => 3,
            Self::Chapter9 => 3,
            Self::Chapter10 => 4,
            Self::Chapter11 => 1,
        }
    }

    #[must_use]
    pub fn num_products(&self) -> (n: usize)
        ensures
            n == self.products(),
            1 <= n <= 4,
    {
        match self {
            Self::Chapter1 => 1,
            Self::Chapter2 => 2,
            Self::Chapter3 => 3,
            Self::Chapter4 => 1,
            Self::Chapter5 => 2,
            Self::Chapter6 => 3,
            Self::Chapter7 => 4,
            Self::Chapter8 => 1,
            Self::Chapter9 => 2,
            Self::Chapter10 => 2,
            Self::Chapter11 => 4,
        }
    }
}

impl TryFrom<u8> for Chapter {
    type Error = ReaclibError;

    fn try_from(code: u8) -> (r: Result<Self, Self::Error>) {
        Chapter::try_from(code)
    }
}

impl vstd::std_specs::convert::TryFromSpecImpl<u8> for Chapter {
    open spec fn obeys_try_from_spec() -> bool {
        true
    }

    open spec fn try_from_spec(code: u8) -> Result<Self, Self::Error> {
        match Chapter::of_code(code) {
            Some(chapter) => Ok(chapter),
            None => Err(ReaclibError::UnknownChapter(code)),
        }
    }
}

} // verus!
