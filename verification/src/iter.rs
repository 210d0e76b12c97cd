//! Pulling entries out of a queue of lines.
use crate::chapter::{chapter_of, header, Chapter};
use crate::error::{Fault, ReaclibError};
use crate::record::{decode, item_view, Record, RecordView};
use std::collections::VecDeque;
use vstd::prelude::*;
use vstd::string::StrSliceExecFns;

verus! {

/// Which dialect of the format a file is written in.
#[derive(Copy, Clone, Eq, PartialEq, Hash, Debug, Structural)]
pub enum Format {
    /// A three-line chapter header precedes a run of entries.
    Reaclib1,
    /// A one-line chapter header precedes each entry.
    Reaclib2,
}

/// How many lines a dialect takes off the queue as one group.
pub open spec fn group_len(format: Format) -> int {
    match format {
        Format::Reaclib1 => 3,
        Format::Reaclib2 => 4,
    }
}

impl Format {
    /// How many lines one group of this dialect has. A reader that feeds an
    /// [`Iter`] line by line hands over this many before each pull.
    pub fn group_len(&self) -> (n: usize)
        ensures
            n == group_len(*self),
    {
        match self {
            Format::Reaclib1 => 3,
            Format::Reaclib2 => 4,
        }
    }

    /// The dialect that a flag selects: `1` the first, `2` the second, and
    /// any other text none.
    pub open spec fn of_flag(flag: Seq<char>) -> Option<Format> {
        if flag == seq!['1'] {
            Some(Format::Reaclib1)
        } else if flag == seq!['2'] {
            Some(Format::Reaclib2)
        } else {
            None
        }
    }

    /// Reads the flag by which a caller selects the dialect.
    pub fn from_flag(flag: &str) -> (r: Option<Format>)
        ensures
            r == Format::of_flag(flag@),
    {
        if flag.unicode_len() != 1 {
            return None;
        }
        let c = flag.get_char(0);
        assert(flag@ =~= seq![c]);
        if c == '1' {
            Some(Format::Reaclib1)
        } else if c == '2' {
            Some(Format::Reaclib2)
        } else {
            None
        }
    }
}

/// A line as a reader hands it over: its text, or the kind of failure that
/// kept it from being read.
pub type Line = Result<String, std::io::ErrorKind>;

/// A [`Line`] with its text as a sequence of characters.
pub type LineView = Result<Seq<char>, std::io::ErrorKind>;

pub open spec fn line_view(line: Line) -> LineView {
    match line {
        Ok(text) => Ok(text@),
        Err(kind) => Err(kind),
    }
}

/// The views of the lines of a queue.
pub open spec fn lines_view(lines: Seq<Line>) -> Seq<LineView> {
    lines.map_values(|line: Line| line_view(line))
}

/// What the front of a queue offers when a group of lines is asked for.
pub enum Group {
    /// No line is left.
    End,
    /// Lines are left, but fewer than asked for.
    Short,
    /// A line of the group could not be read; the kind of the first failure.
    Broken(std::io::ErrorKind),
    /// The texts of the group.
    Full(Seq<Seq<char>>),
}

/// The kind of the first failure among the first `n` lines.
pub open spec fn first_failure(lines: Seq<LineView>, n: int) -> Option<std::io::ErrorKind>
    decreases n,
{
    if n <= 0 {
        None
    } else {
        match first_failure(lines, n - 1) {
            Some(kind) => Some(kind),
            None => match lines[n - 1] {
                Err(kind) => Some(kind),
                Ok(_) => None,
            },
        }
    }
}

/// The group of `n` lines at the front of `lines`. That lines are missing
/// counts before any failure to read one.
pub open spec fn group(lines: Seq<LineView>, n: int) -> Group {
    if lines.len() == 0 {
        Group::End
    } else if lines.len() < n {
        Group::Short
    } else {
        match first_failure(lines, n) {
            Some(kind) => Group::Broken(kind),
            None => Group::Full(Seq::new(n as nat, |i: int| lines[i]->Ok_0)),
        }
    }
}

/// The lines behind a group of `n`: asking takes the group off the queue, or
/// all that is left of it.
pub open spec fn behind(lines: Seq<LineView>, n: int) -> Seq<LineView> {
    if lines.len() < n {
        Seq::empty()
    } else {
        lines.skip(n)
    }
}

/// The outcome of one pull: the item, and what the iterator is left with.
pub struct Pull {
    pub item: Option<Result<RecordView, Fault>>,
    pub lines: Seq<LineView>,
    pub chapter: Option<Chapter>,
}

/// One pull in the first dialect.
///
/// A group of three lines is taken. If it is a chapter header, the chapter
/// becomes the active one and the pull goes on with the next group. If it is
/// no header it is an entry of the active chapter; with no chapter active that
/// is an error.
pub open spec fn pull_v1(lines: Seq<LineView>, chapter: Option<Chapter>) -> Pull
    decreases lines.len(),
{
    let rest = behind(lines, 3);
    match group(lines, 3) {
        Group::End => Pull { item: None, lines, chapter },
        Group::Short => Pull { item: Some(Err(Fault::TooFewLines)), lines: rest, chapter },
        Group::Broken(kind) => Pull { item: Some(Err(Fault::Io(kind))), lines: rest, chapter },
        Group::Full(texts) => match header(texts[0], texts[1], texts[2]) {
            Some(Ok(named)) => pull_v1(rest, Some(named)),
            Some(Err(e)) => Pull { item: Some(Err(e)), lines: rest, chapter },
            None => match chapter {
                Some(active) => Pull {
                    item: Some(decode(active, texts[0], texts[1], texts[2])),
                    lines: rest,
                    chapter,
                },
                None => Pull { item: Some(Err(Fault::ChapterUnset)), lines: rest, chapter },
            },
        },
    }
}

/// One pull in the second dialect: a group of four lines is taken, the first
/// names the chapter of the entry in the other three. No chapter is kept.
pub open spec fn pull_v2(lines: Seq<LineView>, chapter: Option<Chapter>) -> Pull {
    let rest = behind(lines, 4);
    match group(lines, 4) {
        Group::End => Pull { item: None, lines, chapter },
        Group::Short => Pull { item: Some(Err(Fault::TooFewLines)), lines: rest, chapter },
        Group::Broken(kind) => Pull { item: Some(Err(Fault::Io(kind))), lines: rest, chapter },
        Group::Full(texts) => match chapter_of(texts[0]) {
            Ok(named) => Pull {
                item: Some(decode(named, texts[1], texts[2], texts[3])),
                lines: rest,
                chapter,
            },
            Err(e) => Pull { item: Some(Err(e)), lines: rest, chapter },
        },
    }
}

/// One pull in the given dialect.
pub open spec fn pull(lines: Seq<LineView>, format: Format, chapter: Option<Chapter>) -> Pull {
    match format {
        Format::Reaclib1 => pull_v1(lines, chapter),
        Format::Reaclib2 => pull_v2(lines, chapter),
    }
}

/// A pull never adds lines, and one that yields an item takes at least one.
pub proof fn lemma_pull_consumes(lines: Seq<LineView>, format: Format, chapter: Option<Chapter>)
    ensures
        pull(lines, format, chapter).lines.len() <= lines.len(),
        pull(lines, format, chapter).item is Some ==> pull(lines, format, chapter).lines.len()
            < lines.len(),
    decreases lines.len(),
{
    if let Group::Full(texts) = group(lines, 3) {
        if let Some(Ok(named)) = header(texts[0], texts[1], texts[2]) {
            lemma_pull_consumes(behind(lines, 3), Format::Reaclib1, Some(named));
        }
    }
}

/// Every item that pulling yields, in order, until a pull yields none.
pub open spec fn items(lines: Seq<LineView>, format: Format, chapter: Option<Chapter>) -> Seq<
    Result<RecordView, Fault>,
>
    decreases lines.len(),
    via items_decreases
{
    let next = pull(lines, format, chapter);
    match next.item {
        None => Seq::empty(),
        Some(item) => seq![item] + items(next.lines, format, next.chapter),
    }
}

#[via_fn]
proof fn items_decreases(lines: Seq<LineView>, format: Format, chapter: Option<Chapter>) {
    lemma_pull_consumes(lines, format, chapter);
}

/// The entries among `items` if all of them are entries, else the first error.
pub open spec fn gathered(items: Seq<Result<RecordView, Fault>>) -> Result<Seq<RecordView>, Fault>
    decreases items.len(),
{
    if items.len() == 0 {
        Ok(Seq::empty())
    } else {
        match items[0] {
            Err(e) => Err(e),
            Ok(record) => behind_entries(seq![record], gathered(items.drop_first())),
        }
    }
}

/// `rest` with the entries `front` before it, where `rest` has entries.
pub open spec fn behind_entries(front: Seq<RecordView>, rest: Result<Seq<RecordView>, Fault>)
    -> Result<Seq<RecordView>, Fault> {
    match rest {
        Ok(entries) => Ok(front + entries),
        Err(e) => Err(e),
    }
}

/// The views of a list of entries.
pub open spec fn entries_view(records: Seq<Record>) -> Seq<RecordView> {
    records.map_values(|record: Record| record@)
}

/// How gathering goes on over one pull. With the entries `seen` already
/// gathered, the end of the input leaves just these, an error is the
/// outcome, and an entry joins `seen`.
pub proof fn lemma_gather_step(state: IterView, seen: Seq<RecordView>)
    ensures
        behind_entries(seen, gathered(state.items())) == match state.pull().item {
            None => Ok(seen),
            Some(Err(e)) => Err(e),
            Some(Ok(record)) => behind_entries(seen.push(record), gathered(state.pulled().items())),
        },
{
    if let Some(Ok(record)) = state.pull().item {
        let rest = state.pulled().items();
        assert(state.items().drop_first() =~= rest);
        if let Ok(entries) = gathered(rest) {
            assert(seen + (seq![record] + entries) =~= seen.push(record) + entries);
        }
    }
}

/// An iterator over the entries in a queue of lines.
///
/// A pull that yields an error leaves the iterator usable: the lines of the
/// failed group are gone, and the next pull reads on behind them.
pub struct Iter {
    lines: VecDeque<Line>,
    format: Format,
    chapter: Option<Chapter>,
}

/// The state of an [`Iter`]: the lines not yet read, the dialect, and the
/// chapter that is active.
pub struct IterView {
    pub lines: Seq<LineView>,
    pub format: Format,
    pub chapter: Option<Chapter>,
}

impl IterView {
    /// What the next pull gives in this state.
    pub open spec fn pull(self) -> Pull {
        pull(self.lines, self.format, self.chapter)
    }

    /// Every item that is still to come.
    pub open spec fn items(self) -> Seq<Result<RecordView, Fault>> {
        items(self.lines, self.format, self.chapter)
    }

    /// The state that the next pull leaves.
    pub open spec fn pulled(self) -> IterView {
        IterView { lines: self.pull().lines, format: self.format, chapter: self.pull().chapter }
    }
}

impl View for Iter {
    type V = IterView;

    closed spec fn view(&self) -> IterView {
        IterView {
            lines: lines_view(self.lines@),
            format: self.format,
            chapter: self.chapter,
        }
    }
}

/// What a pull returned, seen through the views.
pub open spec fn pulled_view(r: Option<Result<Record, ReaclibError>>) -> Option<
    Result<RecordView, Fault>,
> {
    match r {
        Some(item) => Some(item_view(item)),
        None => None,
    }
}

impl Iter {
    /// An iterator over `lines`, read in the given dialect. No chapter is active.
    pub fn new(lines: VecDeque<Line>, format: Format) -> (r: Iter)
        ensures
            r@ == (IterView { lines: lines_view(lines@), format, chapter: None }),
    {
        Iter { lines, format, chapter: None }
    }

    /// Adds a line behind those not yet read.
    pub fn push_line(&mut self, line: Line)
        ensures
            final(self)@ == (IterView {
                lines: old(self)@.lines.push(line_view(line)),
                ..old(self)@
            }),
    {
        self.lines.push_back(line);
        assert(lines_view(self.lines@) =~= lines_view(old(self).lines@).push(line_view(line)));
    }

    /// How many lines are not yet read.
    pub fn pending(&self) -> (n: usize)
        ensures
            n == self@.lines.len(),
    {
        self.lines.len()
    }

    /// Pulls the next item.
    pub fn next(&mut self) -> (r: Option<Result<Record, ReaclibError>>)
        ensures
            pulled_view(r) == old(self)@.pull().item,
            final(self)@ == old(self)@.pulled(),
    {
        match self.format {
            Format::Reaclib1 => self.next_v1(),
            Format::Reaclib2 => self.next_v2(),
        }
    }

    /// Pulls until the end and returns the entries, or the first error.
    pub fn collect(self) -> (r: Result<Vec<Record>, ReaclibError>)
        ensures
            match r {
                Ok(records) => gathered(self@.items()) == Ok::<_, Fault>(entries_view(records@)),
                Err(e) => gathered(self@.items()) == Err::<Seq<RecordView>, _>(e@),
            },
    {
        let mut iter = self;
        let mut records: Vec<Record> = Vec::new();
        loop
            invariant
                gathered(self@.items()) == behind_entries(
                    entries_view(records@),
                    gathered(iter@.items()),
                ),
            decreases iter@.lines.len(),
        {
            proof {
                lemma_pull_consumes(iter@.lines, iter@.format, iter@.chapter);
                lemma_gather_step(iter@, entries_view(records@));
            }
            let ghost seen = entries_view(records@);
            match iter.next() {
                None => {
                    return Ok(records);
                },
                Some(Err(e)) => {
                    return Err(e);
                },
                Some(Ok(record)) => {
                    records.push(record);
                    assert(entries_view(records@) =~= seen.push(record@));
                },
            }
        }
    }

    /// Takes the line at the front of the queue, if there is one.
    fn take(&mut self) -> (r: Option<Line>)
        ensures
            final(self)@.format == old(self)@.format,
            final(self)@.chapter == old(self)@.chapter,
            match r {
                Some(line) => {
                    &&& old(self)@.lines.len() > 0
                    &&& line_view(line) == old(self)@.lines[0]
                    &&& final(self)@.lines == old(self)@.lines.skip(1)
                },
                None => old(self)@.lines.len() == 0 && final(self)@.lines == old(self)@.lines,
            },
    {
        self.lines.pop_front()
    }

    /// Pulls the next item as the first dialect has it.
    pub fn next_v1(&mut self) -> (r: Option<Result<Record, ReaclibError>>)
        ensures
            pulled_view(r) == pull_v1(old(self)@.lines, old(self)@.chapter).item,
            final(self)@.lines == pull_v1(old(self)@.lines, old(self)@.chapter).lines,
            final(self)@.chapter == pull_v1(old(self)@.lines, old(self)@.chapter).chapter,
            final(self)@.format == old(self)@.format,
    {
        loop
            invariant
                self@.format == old(self)@.format,
                pull_v1(self@.lines, self@.chapter) == pull_v1(old(self)@.lines, old(self)@.chapter),
            decreases self@.lines.len(),
        {
            let ghost before = self@.lines;
            let first = self.take();
            let second = self.take();
            let third = self.take();
            proof {
                reveal_with_fuel(first_failure, 4);
                if before.len() >= 3 {
                    assert(before.skip(1).skip(1).skip(1) =~= before.skip(3));
                }
            }
            let lines = match (first, second, third) {
                (None, _, _) => {
                    return None;
                },
                (_, None, _) | (_, _, None) => {
                    return Some(Err(ReaclibError::TooFewLines));
                },
                (Some(Err(e)), _, _) | (_, Some(Err(e)), _) | (_, _, Some(Err(e))) => {
                    return Some(Err(ReaclibError::Io(e)));
                },
                (Some(Ok(l1)), Some(Ok(l2)), Some(Ok(l3))) => [l1, l2, l3],
            };
            match Chapter::from_lines_v1(&lines) {
                Some(Ok(chapter)) => {
                    self.chapter = Some(chapter);
                },
                Some(Err(e)) => {
                    return Some(Err(e));
                },
                None => {
                    if let Some(chapter) = self.chapter {
                        return Some(Record::from_lines(chapter, &lines));
                    }
                    return Some(Err(ReaclibError::ChapterUnset));
                },
            }
        }
    }

    /// Pulls the next item as the second dialect has it.
    pub fn next_v2(&mut self) -> (r: Option<Result<Record, ReaclibError>>)
        ensures
            pulled_view(r) == pull_v2(old(self)@.lines, old(self)@.chapter).item,
            final(self)@.lines == pull_v2(old(self)@.lines, old(self)@.chapter).lines,
            final(self)@.chapter == pull_v2(old(self)@.lines, old(self)@.chapter).chapter,
            final(self)@.format == old(self)@.format,
    {
        let first = self.take();
        let second = self.take();
        let third = self.take();
        let fourth = self.take();
        proof {
            reveal_with_fuel(first_failure, 5);
        }
        let (ch_line, set_lines) = match (first, second, third, fourth) {
            (None, _, _, _) => {
                return None;
            },
            (_, None, _, _) | (_, _, None, _) | (_, _, _, None) => {
                return Some(Err(ReaclibError::TooFewLines));
            },
            (Some(Err(e)), _, _, _)
            | (_, Some(Err(e)), _, _)
            | (_, _, Some(Err(e)), _)
            | (_, _, _, Some(Err(e))) => {
                return Some(Err(ReaclibError::Io(e)));
            },
            (Some(Ok(l1)), Some(Ok(l2)), Some(Ok(l3)), Some(Ok(l4))) => (l1, [l2, l3, l4]),
        };
        match Chapter::from_lines_v2(ch_line.as_str()) {
            Ok(chapter) => Some(Record::from_lines(chapter, &set_lines)),
            Err(e) => Some(Err(e)),
        }
    }
}

} // verus!
