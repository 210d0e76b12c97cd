//! One rate entry, and how its three lines are decoded.
use crate::chapter::Chapter;
use crate::error::{Fault, ReaclibError};
use crate::nuclide::{
    clone_nuclides, label_from, label_text, no_nuclides, nuclide_from, nuclides, push_nuclide,
    Nuclide,
};
use crate::number::{is_number, Number};
use crate::resonance::Resonance;
use crate::text::{field, is_trimmed, lemma_field_bytes, lemma_field_trimmed, range_err};
use arrayvec::{ArrayString, ArrayVec};
use vstd::prelude::*;
use vstd::string::StrSliceExecFns;
use vstd::utf8::encode_utf8;

verus! {

/// A single set of rate parameters. A reaction may be described by several.
#[derive(Debug, PartialEq)]
pub struct Record {
    /// The nuclides going into the reaction.
    pub reactants: ArrayVec<Nuclide, 4>,
    /// The nuclides resulting from the reaction.
    pub products: ArrayVec<Nuclide, 4>,
    /// A label naming the source of the rate.
    pub label: ArrayString<4>,
    /// The resonance flag.
    pub resonance: Resonance,
    /// Whether the rate was derived from the reverse rate by detailed balance.
    pub reverse: bool,
    /// The Q-value of the reaction.
    pub q_value: Number,
    /// The seven parameters of the rate curve.
    pub params: [Number; 7],
}

/// What a [`Record`] holds, with every text as a sequence of characters.
pub struct RecordView {
    pub reactants: Seq<Seq<char>>,
    pub products: Seq<Seq<char>>,
    pub label: Seq<char>,
    pub resonance: Resonance,
    pub reverse: bool,
    pub q_value: Seq<char>,
    pub params: Seq<Seq<char>>,
}

/// A nuclide name: at most five bytes of text, with no white space around it.
pub open spec fn is_name(s: Seq<char>) -> bool {
    encode_utf8(s).len() <= 5 && is_trimmed(s)
}

impl RecordView {
    /// An entry has the shape of a chapter if it names as many reactants and
    /// products as the chapter says, every name in at most five bytes and the
    /// label in at most four, none with white space around it, and if its
    /// Q-value and its seven parameters are written as numbers.
    pub open spec fn fits(self, chapter: Chapter) -> bool {
        &&& self.reactants.len() == chapter.reactants()
        &&& self.products.len() == chapter.products()
        &&& forall|i: int| 0 <= i < self.reactants.len() ==> is_name(#[trigger] self.reactants[i])
        &&& forall|i: int| 0 <= i < self.products.len() ==> is_name(#[trigger] self.products[i])
        &&& encode_utf8(self.label).len() <= 4
        &&& is_trimmed(self.label)
        &&& is_number(self.q_value)
        &&& self.params.len() == 7
        &&& forall|i: int| 0 <= i < 7 ==> is_number(#[trigger] self.params[i])
    }
}

impl View for Record {
    type V = RecordView;

    open spec fn view(&self) -> RecordView {
        RecordView {
            reactants: nuclides(self.reactants),
            products: nuclides(self.products),
            label: label_text(self.label),
            resonance: self.resonance,
            reverse: self.reverse,
            q_value: self.q_value@,
            params: self.params@.map_values(|n: Number| n@),
        }
    }
}

impl Clone for Record {
    fn clone(&self) -> (r: Self)
        ensures
            r@ == self@,
    {
        let r = Record {
            reactants: clone_nuclides(&self.reactants),
            products: clone_nuclides(&self.products),
            label: self.label,
            resonance: self.resonance,
            reverse: self.reverse,
            q_value: self.q_value.clone(),
            params: [
                self.params[0].clone(),
                self.params[1].clone(),
                self.params[2].clone(),
                self.params[3].clone(),
                self.params[4].clone(),
                self.params[5].clone(),
                self.params[6].clone(),
            ],
        };
        assert(r@.params =~= self@.params);
        r
    }
}

/// A decoded entry or its error, seen through their views.
pub open spec fn item_view(r: Result<Record, ReaclibError>) -> Result<RecordView, Fault> {
    match r {
        Ok(record) => Ok(record@),
        Err(e) => Err(e@),
    }
}

/// The nuclide names in the columns `from..to` of the first line, where
/// column `i` takes the bytes `5 + 5 * i..10 + 5 * i`. The first column that
/// cannot be cut out decides the error.
pub open spec fn names(line: Seq<char>, from: int, to: int) -> Result<Seq<Seq<char>>, Fault>
    decreases to - from,
{
    if to <= from {
        Ok(Seq::empty())
    } else {
        match names(line, from, to - 1) {
            Err(e) => Err(e),
            Ok(front) => match field(line, 5 * to, 5 * to + 5) {
                Err(e) => Err(e),
                Ok(name) => Ok(front.push(name)),
            },
        }
    }
}

/// The resonance flag, in byte 47 of the first line.
pub open spec fn resonance_field(line: Seq<char>) -> Result<Resonance, Fault> {
    match field(line, 47, 48) {
        Err(e) => Err(e),
        Ok(code) => Resonance::of_text(code),
    }
}

/// The text of a numeric column, which must be written as a number.
pub open spec fn number_field(line: Seq<char>, start: int, end: int) -> Result<Seq<char>, Fault> {
    match field(line, start, end) {
        Err(e) => Err(e),
        Ok(text) => if is_number(text) {
            Ok(text)
        } else {
            Err(Fault::ParseFloat(text))
        },
    }
}

/// Parameter `k` of the rate curve: the second line holds the first four in
/// columns of 13 bytes, the third line the last three.
pub open spec fn param(second: Seq<char>, third: Seq<char>, k: int) -> Result<Seq<char>, Fault> {
    if k < 4 {
        number_field(second, 13 * k, 13 * k + 13)
    } else {
        number_field(third, 13 * (k - 4), 13 * (k - 4) + 13)
    }
}

/// The first `n` parameters, or the error of the first that fails.
pub open spec fn params(second: Seq<char>, third: Seq<char>, n: nat) -> Result<
    Seq<Seq<char>>,
    Fault,
>
    decreases n,
{
    if n == 0 {
        Ok(Seq::empty())
    } else {
        match params(second, third, (n - 1) as nat) {
            Err(e) => Err(e),
            Ok(front) => match param(second, third, n - 1) {
                Err(e) => Err(e),
                Ok(p) => Ok(front.push(p)),
            },
        }
    }
}

/// The entry that three lines hold under a chapter.
///
/// The columns are read in a fixed order: reactants, products, label,
/// resonance flag, reverse flag, Q-value, parameters. The first that fails
/// gives the error, and nothing of the entry is kept.
pub open spec fn decode(chapter: Chapter, first: Seq<char>, second: Seq<char>, third: Seq<char>)
    -> Result<RecordView, Fault> {
    let split = chapter.reactants() as int;
    let end = split + chapter.products();
    match names(first, 0, split) {
        Err(e) => Err(e),
        Ok(reactants) => match names(first, split, end) {
            Err(e) => Err(e),
            Ok(products) => match field(first, 43, 47) {
                Err(e) => Err(e),
                Ok(label) => match resonance_field(first) {
                    Err(e) => Err(e),
                    Ok(resonance) => match field(first, 48, 49) {
                        Err(e) => Err(e),
                        Ok(flag) => match number_field(first, 52, 64) {
                            Err(e) => Err(e),
                            Ok(q_value) => match params(second, third, 7) {
                                Err(e) => Err(e),
                                Ok(params) => Ok(
                                    RecordView {
                                        reactants,
                                        products,
                                        label,
                                        resonance,
                                        reverse: flag == seq!['v'],
                                        q_value,
                                        params,
                                    },
                                ),
                            },
                        },
                    },
                },
            },
        },
    }
}

/// Once a column has failed, reading further columns does not change the error.
proof fn lemma_names_stay_failed(line: Seq<char>, from: int, mid: int, to: int)
    requires
        mid <= to,
        names(line, from, mid) is Err,
    ensures
        names(line, from, to) == names(line, from, mid),
    decreases to - mid,
{
    if mid < to {
        lemma_names_stay_failed(line, from, mid, to - 1);
    }
}

/// Names that were read are as many as the columns, and none is longer
/// than its column.
proof fn lemma_names_fit(line: Seq<char>, from: int, to: int)
    requires
        0 <= from <= to,
    ensures
        names(line, from, to) matches Ok(list) ==> {
            &&& list.len() == to - from
            &&& forall|i: int| 0 <= i < list.len() ==> is_name(#[trigger] list[i])
        },
    decreases to - from,
{
    if from < to {
        lemma_names_fit(line, from, to - 1);
        lemma_field_bytes(line, 5 * to, 5 * to + 5);
        lemma_field_trimmed(line, 5 * to, 5 * to + 5);
    }
}

/// Parameters that were read are as many as were asked for, and each is
/// written as a number.
proof fn lemma_params_fit(second: Seq<char>, third: Seq<char>, n: nat)
    ensures
        params(second, third, n) matches Ok(list) ==> {
            &&& list.len() == n
            &&& forall|i: int| 0 <= i < n ==> is_number(#[trigger] list[i])
        },
    decreases n,
{
    if n > 0 {
        lemma_params_fit(second, third, (n - 1) as nat);
    }
}

/// Whatever three lines decode to under a chapter has the shape of that
/// chapter.
pub proof fn lemma_decode_fits(
    chapter: Chapter,
    first: Seq<char>,
    second: Seq<char>,
    third: Seq<char>,
)
    ensures
        decode(chapter, first, second, third) matches Ok(record) ==> record.fits(chapter),
{
    let split = chapter.reactants() as int;
    lemma_names_fit(first, 0, split);
    lemma_names_fit(first, split, split + chapter.products());
    lemma_field_bytes(first, 43, 47);
    lemma_field_trimmed(first, 43, 47);
    lemma_params_fit(second, third, 7);
}

/// Reads the nuclide names in the columns `from..to` of `line`.
fn nuclide_list(line: &str, from: usize, to: usize) -> (r: Result<ArrayVec<Nuclide, 4>, ReaclibError>)
    requires
        from <= to <= 8,
        to - from <= 4,
    ensures
        match r {
            Ok(list) => names(line@, from as int, to as int) == Ok::<_, Fault>(nuclides(list)),
            Err(e) => names(line@, from as int, to as int) == Err::<Seq<Seq<char>>, _>(e@),
        },
{
    let mut list = no_nuclides();
    let mut i = from;
    while i < to
        invariant
            from <= i <= to <= 8,
            to - from <= 4,
            nuclides(list).len() == i - from,
            names(line@, from as int, i as int) == Ok::<_, Fault>(nuclides(list)),
        decreases to - i,
    {
        match range_err(line, 5 + 5 * i, 10 + 5 * i) {
            Ok(name) => {
                proof {
                    lemma_field_bytes(line@, 5 + 5 * i, 10 + 5 * i);
                }
                push_nuclide(&mut list, nuclide_from(name));
            },
            Err(e) => {
                proof {
                    lemma_names_stay_failed(line@, from as int, i + 1, to as int);
                }
                return Err(e);
            },
        }
        i += 1;
    }
    Ok(list)
}

/// Reads the numeric column `start..end` of `line`.
fn number_at(line: &str, start: usize, end: usize) -> (r: Result<Number, ReaclibError>)
    ensures
        match r {
            Ok(n) => number_field(line@, start as int, end as int) == Ok::<_, Fault>(n@),
            Err(e) => number_field(line@, start as int, end as int) == Err::<Seq<char>, _>(e@),
        },
{
    match range_err(line, start, end) {
        Ok(text) => Number::parse(text),
        Err(e) => Err(e),
    }
}

impl Record {
    /// Decodes the three lines of an entry of the given chapter.
    pub fn from_lines(chapter: Chapter, lines: &[String; 3]) -> (r: Result<Record, ReaclibError>)
        ensures
            item_view(r) == decode(chapter, lines[0]@, lines[1]@, lines[2]@),
            r matches Ok(record) ==> record@.fits(chapter),
    {
        proof {
            lemma_decode_fits(chapter, lines[0]@, lines[1]@, lines[2]@);
        }
        let first = lines[0].as_str();
        let second = lines[1].as_str();
        let third = lines[2].as_str();
        let split = chapter.num_reactants();
        let end = split + chapter.num_products();
        let reactants = match nuclide_list(first, 0, split) {
            Ok(list) => list,
            Err(e) => return Err(e),
        };
        let products = match nuclide_list(first, split, end) {
            Ok(list) => list,
            Err(e) => return Err(e),
        };
        let label = match range_err(first, 43, 47) {
            Ok(text) => {
                proof {
                    lemma_field_bytes(first@, 43, 47);
                }
                label_from(text)
            },
            Err(e) => return Err(e),
        };
        let resonance = match range_err(first, 47, 48) {
            Ok(code) => match Resonance::from_str(code) {
                Ok(resonance) => resonance,
                Err(e) => return Err(e),
            },
            Err(e) => return Err(e),
        };
        let reverse = match range_err(first, 48, 49) {
            Ok(flag) => {
                let set = flag.unicode_len() == 1 && flag.get_char(0) == 'v';
                assert(set ==> flag@ =~= seq!['v']);
                set
            },
            Err(e) => return Err(e),
        };
        let q_value = match number_at(first, 52, 64) {
            Ok(n) => n,
            Err(e) => return Err(e),
        };
        proof {
            reveal_with_fuel(params, 8);
        }
        let a0 = match number_at(second, 0, 13) {
            Ok(n) => n,
            Err(e) => return Err(e),
        };
        let a1 = match number_at(second, 13, 26) {
            Ok(n) => n,
            Err(e) => return Err(e),
        };
        let a2 = match number_at(second, 26, 39) {
            Ok(n) => n,
            Err(e) => return Err(e),
        };
        let a3 = match number_at(second, 39, 52) {
            Ok(n) => n,
            Err(e) => return Err(e),
        };
        let a4 = match number_at(third, 0, 13) {
            Ok(n) => n,
            Err(e) => return Err(e),
        };
        let a5 = match number_at(third, 13, 26) {
            Ok(n) => n,
            Err(e) => return Err(e),
        };
        let a6 = match number_at(third, 26, 39) {
            Ok(n) => n,
            Err(e) => return Err(e),
        };
        let record = Record {
            reactants,
            products,
            label,
            resonance,
            reverse,
            q_value,
            params: [a0, a1, a2, a3, a4, a5, a6],
        };
        proof {
            let texts = seq![a0@, a1@, a2@, a3@, a4@, a5@, a6@];
            assert(record@.params =~= texts);
            assert(params(second@, third@, 7) == Ok::<_, Fault>(texts)) by {
                assert(Seq::<Seq<char>>::empty().push(a0@).push(a1@).push(a2@).push(a3@).push(
                    a4@,
                ).push(a5@).push(a6@) =~= texts);
            }
        }
        Ok(record)
    }
}

} // verus!
