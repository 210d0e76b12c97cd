//! What holds of every input: statements about pulling that relate several
//! pulls, several inputs or both dialects, each proved from the definitions.
use crate::chapter::{chapter_of, decimal_u8, header, Chapter};
use crate::error::Fault;
use crate::iter::{
    behind, first_failure, group, group_len, items, lines_view, pull, pull_v1, pull_v2, Format,
    Group, Line, LineView,
};
use crate::record::{decode, lemma_decode_fits, RecordView};
use crate::text::{is_blank, trimmed};
use vstd::prelude::*;

verus! {

/// Lines that were all read.
pub open spec fn texts(lines: Seq<Seq<char>>) -> Seq<LineView> {
    lines.map_values(|text: Seq<char>| Ok::<Seq<char>, std::io::ErrorKind>(text))
}

/// A group whose lines were all read is offered as their texts.
proof fn lemma_group_of_texts(front: Seq<Seq<char>>, rest: Seq<LineView>)
    requires
        front.len() > 0,
    ensures
        group(texts(front) + rest, front.len() as int) == Group::Full(front),
        behind(texts(front) + rest, front.len() as int) == rest,
{
    let lines = texts(front) + rest;
    let n = front.len() as int;
    lemma_no_failure(lines, n, n);
    assert(Seq::new(n as nat, |i: int| lines[i]->Ok_0) =~= front);
}

proof fn lemma_no_failure(lines: Seq<LineView>, n: int, k: int)
    requires
        0 <= k <= n <= lines.len(),
        forall|i: int| 0 <= i < n ==> (#[trigger] lines[i]) is Ok,
    ensures
        first_failure(lines, k) is None,
    decreases k,
{
    if k > 0 {
        lemma_no_failure(lines, n, k - 1);
    }
}

/// Pulling looks at one group of lines at a time. A pull on the first group
/// alone yields what a pull on the whole queue yields; where it yields
/// nothing, the group was a header, and the pull on the whole queue goes on
/// behind it with the chapter that the header named.
pub proof fn lemma_one_group_at_a_time(
    lines: Seq<LineView>,
    format: Format,
    chapter: Option<Chapter>,
)
    requires
        lines.len() >= group_len(format),
    ensures
        ({
            let n = group_len(format);
            let alone = pull(lines.take(n), format, chapter);
            let whole = pull(lines, format, chapter);
            if alone.item is Some {
                &&& whole.item == alone.item
                &&& whole.chapter == alone.chapter
                &&& whole.lines == lines.skip(n)
            } else {
                whole == pull(lines.skip(n), format, alone.chapter)
            }
        }),
{
    let n = group_len(format);
    let front = lines.take(n);
    lemma_same_failure(lines, front, n);
    assert(Seq::new(n as nat, |i: int| lines[i]->Ok_0) =~= Seq::new(
        n as nat,
        |i: int| front[i]->Ok_0,
    ));
    assert(front.skip(n) =~= Seq::<LineView>::empty());
    if let Group::Full(found) = group(lines, n) {
        if format == Format::Reaclib1 {
            if let Some(Ok(named)) = header(found[0], found[1], found[2]) {
                assert(pull_v1(Seq::empty(), Some(named)).item is None);
            }
        }
    }
}

proof fn lemma_same_failure(a: Seq<LineView>, b: Seq<LineView>, n: int)
    requires
        0 <= n <= a.len(),
        n <= b.len(),
        forall|i: int| 0 <= i < n ==> a[i] == b[i],
    ensures
        first_failure(a, n) == first_failure(b, n),
    decreases n,
{
    if n > 0 {
        lemma_same_failure(a, b, n - 1);
    }
}

/// Reading the same texts again gives the same items: what pulling yields
/// depends on the texts of the lines, the dialect and nothing else.
pub proof fn lemma_reading_again(first: Seq<Line>, second: Seq<Line>, format: Format)
    requires
        lines_view(first) == lines_view(second),
    ensures
        items(lines_view(first), format, None) == items(lines_view(second), format, None),
{
}

/// An input without lines has no items, in either dialect: the first pull
/// yields none, and no error.
pub proof fn lemma_empty_input(format: Format, chapter: Option<Chapter>)
    ensures
        pull(Seq::empty(), format, chapter).item is None,
        items(Seq::empty(), format, chapter) == Seq::<Result<RecordView, Fault>>::empty(),
{
}

/// In the first dialect a chapter header yields no item. It makes its
/// chapter the active one for the lines behind it, whatever was active
/// before.
pub proof fn lemma_header_sets_chapter(
    first: Seq<char>,
    second: Seq<char>,
    third: Seq<char>,
    rest: Seq<LineView>,
    active: Option<Chapter>,
)
    requires
        is_blank(second),
        is_blank(third),
        chapter_of(first) is Ok,
    ensures
        pull_v1(texts(seq![first, second, third]) + rest, active) == pull_v1(
            rest,
            Some(chapter_of(first)->Ok_0),
        ),
        items(texts(seq![first, second, third]) + rest, Format::Reaclib1, active) == items(
            rest,
            Format::Reaclib1,
            Some(chapter_of(first)->Ok_0),
        ),
{
    lemma_group_of_texts(seq![first, second, third], rest);
}

/// In the first dialect a chapter header with nothing behind it has no
/// items.
pub proof fn lemma_lone_header(
    first: Seq<char>,
    second: Seq<char>,
    third: Seq<char>,
    active: Option<Chapter>,
)
    requires
        is_blank(second),
        is_blank(third),
        chapter_of(first) is Ok,
    ensures
        items(texts(seq![first, second, third]), Format::Reaclib1, active) == Seq::<
            Result<RecordView, Fault>,
        >::empty(),
{
    lemma_header_sets_chapter(first, second, third, Seq::empty(), active);
}

/// In the first dialect an entry that no header precedes yields the error
/// `ChapterUnset`, once, and nothing else.
pub proof fn lemma_entry_before_header(first: Seq<char>, second: Seq<char>, third: Seq<char>)
    requires
        header(first, second, third) is None,
    ensures
        items(texts(seq![first, second, third]), Format::Reaclib1, None) == seq![
            Err::<RecordView, _>(Fault::ChapterUnset),
        ],
{
    let lines = texts(seq![first, second, third]);
    lemma_group_of_texts(seq![first, second, third], Seq::empty());
    let next = pull_v1(lines, None);
    assert(items(next.lines, Format::Reaclib1, next.chapter) =~= Seq::empty());
}

/// An input that ends inside its first group, with at least one line but
/// fewer than the dialect takes, yields the error `TooFewLines`, once, and
/// then ends.
pub proof fn lemma_short_group(lines: Seq<LineView>, format: Format, chapter: Option<Chapter>)
    requires
        0 < lines.len() < group_len(format),
    ensures
        items(lines, format, chapter) == seq![Err::<RecordView, _>(Fault::TooFewLines)],
{
    let next = pull(lines, format, chapter);
    assert(items(next.lines, format, next.chapter) =~= Seq::empty());
}

/// In the first dialect an entry has the shape of the chapter that is active
/// when it is yielded: the chapter of the last header before it.
pub proof fn lemma_entry_fits_active_chapter(lines: Seq<LineView>, active: Option<Chapter>)
    ensures
        pull_v1(lines, active).item matches Some(Ok(record)) ==> {
            &&& pull_v1(lines, active).chapter matches Some(chapter)
            &&& record.fits(chapter)
        },
    decreases lines.len(),
{
    if let Group::Full(found) = group(lines, 3) {
        match header(found[0], found[1], found[2]) {
            Some(Ok(named)) => {
                lemma_entry_fits_active_chapter(behind(lines, 3), Some(named));
            },
            Some(Err(_)) => {},
            None => {
                if let Some(chapter) = active {
                    lemma_decode_fits(chapter, found[0], found[1], found[2]);
                }
            },
        }
    }
}

/// The two dialects agree on an entry. Three lines that are no header decode
/// to the same item whether their chapter comes from a header line of the
/// second dialect right before them, or from a header of the first dialect
/// somewhere before them.
pub proof fn lemma_dialects_agree(
    head: Seq<char>,
    first: Seq<char>,
    second: Seq<char>,
    third: Seq<char>,
    rest: Seq<LineView>,
    chapter: Chapter,
)
    requires
        chapter_of(head) == Ok::<_, Fault>(chapter),
        header(first, second, third) is None,
    ensures
        pull_v2(texts(seq![head, first, second, third]) + rest, None).item == Some(
            decode(chapter, first, second, third),
        ),
        pull_v1(texts(seq![first, second, third]) + rest, Some(chapter)).item == Some(
            decode(chapter, first, second, third),
        ),
{
    lemma_group_of_texts(seq![head, first, second, third], rest);
    lemma_group_of_texts(seq![first, second, third], rest);
}

/// A header whose code is a number but names no chapter yields the error
/// `UnknownChapter` with that number as the item of the pull. The pull takes
/// the header off the queue and leaves the active chapter as it was.
pub proof fn lemma_unknown_chapter(
    first: Seq<char>,
    second: Seq<char>,
    third: Seq<char>,
    rest: Seq<LineView>,
    active: Option<Chapter>,
    code: u8,
)
    requires
        decimal_u8(trimmed(first)) == Some(code),
        !(1 <= code <= 11),
        is_blank(second),
        is_blank(third),
    ensures
        pull_v1(texts(seq![first, second, third]) + rest, active).item == Some(
            Err::<RecordView, _>(Fault::UnknownChapter(code)),
        ),
        pull_v1(texts(seq![first, second, third]) + rest, active).lines == rest,
        pull_v1(texts(seq![first, second, third]) + rest, active).chapter == active,
{
    lemma_group_of_texts(seq![first, second, third], rest);
}

/// The same in the second dialect, where the header is one line before the
/// three of its entry.
pub proof fn lemma_unknown_chapter_v2(
    lines: Seq<Seq<char>>,
    rest: Seq<LineView>,
    active: Option<Chapter>,
    code: u8,
)
    requires
        lines.len() == 4,
        decimal_u8(trimmed(lines[0])) == Some(code),
        !(1 <= code <= 11),
    ensures
        pull_v2(texts(lines) + rest, active).item == Some(
            Err::<RecordView, _>(Fault::UnknownChapter(code)),
        ),
        pull_v2(texts(lines) + rest, active).lines == rest,
{
    lemma_group_of_texts(lines, rest);
}

} // verus!
