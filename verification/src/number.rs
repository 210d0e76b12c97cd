//! Decimal numbers as a file writes them.
//!
//! A numeric column is not turned into a binary number here. It is checked
//! against the grammar of a decimal number and kept as text, so that a caller
//! with floating point at hand converts exactly what the file said. The
//! grammar is the one that the float parser of std documents: what is taken
//! for a number here, that parser converts without an error.
use crate::error::{Fault, ReaclibError};
use vstd::prelude::*;
use vstd::string::StrSliceExecFns;

verus! {

pub open spec fn is_digit(c: char) -> bool {
    '0' <= c <= '9'
}

pub open spec fn is_sign(c: char) -> bool {
    c == '+' || c == '-'
}

/// An ASCII capital as its small letter, any other character as itself.
pub open spec fn ascii_lower(c: char) -> char {
    if 'A' <= c <= 'Z' {
        ((c as u32) + 32) as char
    } else {
        c
    }
}

/// How many digits stand at the front of `s`.
pub open spec fn digits(s: Seq<char>) -> nat
    decreases s.len(),
{
    if s.len() > 0 && is_digit(s[0]) {
        1 + digits(s.drop_first())
    } else {
        0
    }
}

/// `s` is `word`, written in capitals or small letters.
pub open spec fn is_word(s: Seq<char>, word: Seq<char>) -> bool {
    &&& s.len() == word.len()
    &&& forall|i: int| 0 <= i < s.len() ==> ascii_lower(#[trigger] s[i]) == word[i]
}

/// `s` is an exponent: `e` or `E`, an optional sign, and one digit or more.
pub open spec fn is_exponent(s: Seq<char>) -> bool {
    &&& s.len() > 0
    &&& (s[0] == 'e' || s[0] == 'E')
    &&& {
        let t = if s.len() > 1 && is_sign(s[1]) {
            s.skip(2)
        } else {
            s.skip(1)
        };
        t.len() > 0 && digits(t) == t.len()
    }
}

/// `s` is digits with at most one point among them, at least one digit in
/// all, and an optional exponent behind them.
pub open spec fn is_decimal(s: Seq<char>) -> bool {
    let whole = digits(s) as int;
    let point = s.len() > whole && s[whole] == '.';
    let fraction = if point {
        digits(s.skip(whole + 1)) as int
    } else {
        0
    };
    let mantissa = if point {
        whole + 1 + fraction
    } else {
        whole
    };
    &&& whole + fraction >= 1
    &&& (s.len() == mantissa || is_exponent(s.skip(mantissa)))
}

/// `s` is a decimal number: an optional sign, and then `inf`, `infinity` or
/// `nan` in any case, or a decimal.
pub open spec fn is_number(s: Seq<char>) -> bool {
    let body = if s.len() > 0 && is_sign(s[0]) {
        s.skip(1)
    } else {
        s
    };
    ||| is_word(body, seq!['i', 'n', 'f'])
    ||| is_word(body, seq!['i', 'n', 'f', 'i', 'n', 'i', 't', 'y'])
    ||| is_word(body, seq!['n', 'a', 'n'])
    ||| is_decimal(body)
}

/// A decimal number, kept as the text that a file gave for it.
#[derive(Debug, PartialEq)]
pub struct Number {
    text: String,
}

impl View for Number {
    type V = Seq<char>;

    closed spec fn view(&self) -> Seq<char> {
        self.text@
    }
}

impl Clone for Number {
    fn clone(&self) -> (r: Self)
        ensures
            r@ == self@,
    {
        proof {
            use_type_invariant(self);
        }
        Number { text: self.text.clone() }
    }
}

fn lower(c: char) -> (r: char)
    ensures
        r == ascii_lower(c),
{
    if 'A' <= c && c <= 'Z' {
        ((c as u8) + 32) as char
    } else {
        c
    }
}

/// Whether the characters of `s` from `from` on are `word`, in any case.
fn has_word(s: &str, len: usize, from: usize, word: &str) -> (b: bool)
    requires
        len == s@.len(),
        from <= len,
    ensures
        b == is_word(s@.skip(from as int), word@),
{
    let n = word.unicode_len();
    if len - from != n {
        return false;
    }
    let mut i: usize = 0;
    while i < n
        invariant
            len == s@.len(),
            n == word@.len(),
            len - from == n,
            i <= n,
            forall|k: int| 0 <= k < i ==> ascii_lower(#[trigger] s@.skip(from as int)[k]) == word@[k],
        decreases n - i,
    {
        if lower(s.get_char(from + i)) != word.get_char(i) {
            assert(s@.skip(from as int)[i as int] == s@[from + i]);
            return false;
        }
        i += 1;
    }
    true
}

/// The index behind the digits that stand from `from` on.
fn skip_digits(s: &str, len: usize, from: usize) -> (to: usize)
    requires
        len == s@.len(),
        from <= len,
    ensures
        from <= to <= len,
        to - from == digits(s@.skip(from as int)),
{
    let mut i = from;
    while i < len
        invariant
            len == s@.len(),
            from <= i <= len,
            digits(s@.skip(from as int)) == (i - from) + digits(s@.skip(i as int)),
        decreases len - i,
    {
        let c = s.get_char(i);
        assert(s@.skip(i as int).drop_first() =~= s@.skip(i + 1));
        if !('0' <= c && c <= '9') {
            return i;
        }
        i += 1;
    }
    i
}

impl Number {
    #[verifier::type_invariant]
    spec fn well_formed(self) -> bool {
        is_number(self.text@)
    }

    /// Takes `s` for a number if it is written as one.
    pub fn parse(s: &str) -> (r: Result<Number, ReaclibError>)
        ensures
            match r {
                Ok(n) => is_number(s@) && n@ == s@,
                Err(e) => !is_number(s@) && e@ == Fault::ParseFloat(s@),
            },
    {
        if Self::check(s) {
            Ok(Number { text: s.to_owned() })
        } else {
            Err(ReaclibError::ParseFloat(s.to_owned()))
        }
    }

    /// The text of the number.
    pub fn as_str(&self) -> (r: &str)
        ensures
            r@ == self@,
            is_number(r@),
    {
        proof {
            use_type_invariant(self);
        }
        self.text.as_str()
    }

    fn check(s: &str) -> (ok: bool)
        ensures
            ok == is_number(s@),
    {
        let len = s.unicode_len();
        let mut start: usize = 0;
        if len > 0 {
            let c = s.get_char(0);
            if c == '+' || c == '-' {
                start = 1;
            }
        }
        proof {
            assert(s@.skip(0) =~= s@);
            lemma_words();
        }
        has_word(s, len, start, "inf") || has_word(s, len, start, "infinity") || has_word(
            s,
            len,
            start,
            "nan",
        ) || decimal_at(s, len, start)
    }
}

proof fn lemma_words()
    ensures
        "inf"@ == seq!['i', 'n', 'f'],
        "infinity"@ == seq!['i', 'n', 'f', 'i', 'n', 'i', 't', 'y'],
        "nan"@ == seq!['n', 'a', 'n'],
{
    reveal_strlit("inf");
    reveal_strlit("infinity");
    reveal_strlit("nan");
}

/// Whether the characters of `s` from `from` on are an exponent.
fn exponent_at(s: &str, len: usize, from: usize) -> (b: bool)
    requires
        len == s@.len(),
        from <= len,
    ensures
        b == is_exponent(s@.skip(from as int)),
{
    let ghost tail = s@.skip(from as int);
    if from == len {
        return false;
    }
    let e = s.get_char(from);
    if e != 'e' && e != 'E' {
        return false;
    }
    let mut start = from + 1;
    if start < len {
        let c = s.get_char(start);
        if c == '+' || c == '-' {
            start = start + 1;
        }
    }
    assert(tail.skip(start - from) =~= s@.skip(start as int));
    if start == len {
        return false;
    }
    let end = skip_digits(s, len, start);
    end == len
}

/// Whether the characters of `s` from `from` on are a decimal.
fn decimal_at(s: &str, len: usize, from: usize) -> (b: bool)
    requires
        len == s@.len(),
        from <= len,
    ensures
        b == is_decimal(s@.skip(from as int)),
{
    let ghost body = s@.skip(from as int);
    let whole_end = skip_digits(s, len, from);
    let mut mantissa_end = whole_end;
    let mut count = whole_end - from;
    if whole_end < len && s.get_char(whole_end) == '.' {
        assert(body.skip(whole_end - from + 1) =~= s@.skip(whole_end + 1));
        mantissa_end = skip_digits(s, len, whole_end + 1);
        count = count + (mantissa_end - (whole_end + 1));
    }
    if count == 0 {
        return false;
    }
    assert(body.skip(mantissa_end - from) =~= s@.skip(mantissa_end as int));
    mantissa_end == len || exponent_at(s, len, mantissa_end)
}

} // verus!
