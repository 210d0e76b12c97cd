//! Fixed-width columns of a line, and the white space around their text.
use crate::error::{Fault, ReaclibError};
use vstd::prelude::*;
use vstd::string::StringSliceAdditionalSpecFns;
use vstd::utf8::{
    decode_utf8, decode_utf8_encode_utf8, encode_scalar, encode_utf8, encode_utf8_decode_utf8,
    encode_utf8_valid_utf8, is_char_boundary, is_char_boundary_iff_not_is_continuation_byte,
    is_char_boundary_start_end_of_seq, valid_utf8_split,
};

verus! {

/// The characters with the Unicode property `White_Space`.
pub open spec fn is_space(c: char) -> bool {
    ||| '\u{9}' <= c <= '\u{d}'
    ||| c == ' '
    ||| c == '\u{85}'
    ||| c == '\u{a0}'
    ||| c == '\u{1680}'
    ||| '\u{2000}' <= c <= '\u{200a}'
    ||| c == '\u{2028}'
    ||| c == '\u{2029}'
    ||| c == '\u{202f}'
    ||| c == '\u{205f}'
    ||| c == '\u{3000}'
}

/// `s` without the white space at its front.
pub open spec fn trim_front(s: Seq<char>) -> Seq<char>
    decreases s.len(),
{
    if s.len() > 0 && is_space(s[0]) {
        trim_front(s.drop_first())
    } else {
        s
    }
}

/// `s` without the white space at its back.
pub open spec fn trim_back(s: Seq<char>) -> Seq<char>
    decreases s.len(),
{
    if s.len() > 0 && is_space(s.last()) {
        trim_back(s.drop_last())
    } else {
        s
    }
}

/// `s` without the white space at either end.
pub open spec fn trimmed(s: Seq<char>) -> Seq<char> {
    trim_back(trim_front(s))
}

/// A line that holds white space only.
pub open spec fn is_blank(s: Seq<char>) -> bool {
    trimmed(s).len() == 0
}

/// `str::trim` of std: the slice without its leading and trailing white space,
/// where white space is what the Unicode property `White_Space` covers.
pub assume_specification[ str::trim ](s: &str) -> (r: &str)
    ensures
        r@ == trimmed(s@),
;

/// The text of the column that takes the bytes `start..end` of `line`.
///
/// A line with fewer than `end` bytes is too short. A column that starts or
/// ends inside a character, or ends before it starts, cannot be cut out.
/// Otherwise the column's text is its characters without the white space
/// around them; it may be empty.
pub open spec fn field(line: Seq<char>, start: int, end: int) -> Result<Seq<char>, Fault> {
    let bytes = encode_utf8(line);
    if bytes.len() < end {
        Err(Fault::TooShortLine)
    } else if start > end || !is_char_boundary(bytes, start) || !is_char_boundary(bytes, end) {
        Err(Fault::StrIndex)
    } else {
        Ok(trimmed(decode_utf8(bytes.subrange(start, end))))
    }
}

/// The view of what [`range_err`] returns.
pub open spec fn field_view(r: Result<&str, ReaclibError>) -> Result<Seq<char>, Fault> {
    match r {
        Ok(text) => Ok(text@),
        Err(e) => Err(e@),
    }
}

/// Cuts the column `start..end` out of `line` and trims it.
pub fn range_err(line: &str, start: usize, end: usize) -> (r: Result<&str, ReaclibError>)
    ensures
        field_view(r) == field(line@, start as int, end as int),
{
    let ghost bytes = line.spec_bytes();
    proof {
        encode_utf8_valid_utf8(line@);
    }
    if line.as_bytes().len() < end {
        Err(ReaclibError::TooShortLine)
    } else if start > end || !line.is_char_boundary(start) || !line.is_char_boundary(end) {
        Err(ReaclibError::StrIndex)
    } else {
        let (head, _) = line.split_at(end);
        proof {
            valid_utf8_split(bytes, end as int);
            if start < end {
                is_char_boundary_iff_not_is_continuation_byte(bytes, start as int);
                is_char_boundary_iff_not_is_continuation_byte(
                    bytes.subrange(0, end as int),
                    start as int,
                );
            } else {
                is_char_boundary_start_end_of_seq(bytes.subrange(0, end as int));
            }
        }
        let (_, column) = head.split_at(start);
        proof {
            assert(column.spec_bytes() =~= bytes.subrange(start as int, end as int));
            encode_utf8_decode_utf8(column@);
        }
        Ok(column.trim())
    }
}

/// Encoding a text with one more character appends that character's bytes.
pub proof fn lemma_encode_push(s: Seq<char>, c: char)
    ensures
        encode_utf8(s.push(c)) == encode_utf8(s) + encode_scalar(c as u32),
    decreases s.len(),
{
    if s.len() == 0 {
        assert(s.push(c).drop_first() =~= s);
    } else {
        assert(s.push(c).drop_first() =~= s.drop_first().push(c));
        lemma_encode_push(s.drop_first(), c);
    }
}

proof fn lemma_front_bytes(s: Seq<char>)
    ensures
        encode_utf8(trim_front(s)).len() <= encode_utf8(s).len(),
    decreases s.len(),
{
    if s.len() > 0 && is_space(s[0]) {
        lemma_front_bytes(s.drop_first());
    }
}

proof fn lemma_back_bytes(s: Seq<char>)
    ensures
        encode_utf8(trim_back(s)).len() <= encode_utf8(s).len(),
    decreases s.len(),
{
    if s.len() > 0 && is_space(s.last()) {
        lemma_back_bytes(s.drop_last());
        assert(s.drop_last().push(s.last()) =~= s);
        lemma_encode_push(s.drop_last(), s.last());
    }
}

/// Trimming never adds bytes.
pub proof fn lemma_trimmed_bytes(s: Seq<char>)
    ensures
        encode_utf8(trimmed(s)).len() <= encode_utf8(s).len(),
{
    lemma_front_bytes(s);
    lemma_back_bytes(trim_front(s));
}

/// A text with no white space at either end.
pub open spec fn is_trimmed(s: Seq<char>) -> bool {
    s.len() > 0 ==> !is_space(s[0]) && !is_space(s.last())
}

proof fn lemma_front_trimmed(s: Seq<char>)
    ensures
        trim_front(s).len() > 0 ==> !is_space(trim_front(s)[0]),
    decreases s.len(),
{
    if s.len() > 0 && is_space(s[0]) {
        lemma_front_trimmed(s.drop_first());
    }
}

proof fn lemma_back_trimmed(s: Seq<char>)
    ensures
        trim_back(s).len() > 0 ==> !is_space(trim_back(s).last()) && trim_back(s)[0] == s[0],
    decreases s.len(),
{
    if s.len() > 0 && is_space(s.last()) {
        lemma_back_trimmed(s.drop_last());
    }
}

/// Trimming leaves no white space at either end, so trimming again changes
/// nothing.
pub proof fn lemma_trimmed_is_trimmed(s: Seq<char>)
    ensures
        is_trimmed(trimmed(s)),
        trimmed(trimmed(s)) == trimmed(s),
{
    lemma_front_trimmed(s);
    lemma_back_trimmed(trim_front(s));
}

/// The text of a column has no white space at either end.
pub proof fn lemma_field_trimmed(line: Seq<char>, start: int, end: int)
    ensures
        field(line, start, end) matches Ok(text) ==> is_trimmed(text),
{
    let bytes = encode_utf8(line);
    lemma_trimmed_is_trimmed(decode_utf8(bytes.subrange(start, end)));
}

/// The text of a column has no more bytes than the column is wide.
pub proof fn lemma_field_bytes(line: Seq<char>, start: int, end: int)
    requires
        0 <= start,
    ensures
        field(line, start, end) matches Ok(text) ==> encode_utf8(text).len() <= end - start,
{
    let bytes = encode_utf8(line);
    if field(line, start, end) is Ok {
        let column = bytes.subrange(start, end);
        encode_utf8_valid_utf8(line);
        valid_utf8_split(bytes, end);
        let head = bytes.subrange(0, end);
        if start < end {
            is_char_boundary_iff_not_is_continuation_byte(bytes, start);
            is_char_boundary_iff_not_is_continuation_byte(head, start);
        } else {
            is_char_boundary_start_end_of_seq(head);
        }
        valid_utf8_split(head, start);
        assert(head.subrange(start, head.len() as int) =~= column);
        decode_utf8_encode_utf8(column);
        lemma_trimmed_bytes(decode_utf8(column));
    }
}

} // verus!
