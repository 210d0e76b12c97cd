//! Gathering the entries of an input by reaction.
use crate::error::{Fault, ReaclibError};
use crate::iter::{
    behind_entries, gathered, items, lemma_gather_step, lemma_pull_consumes, lines_view, Format,
    Iter, Line,
};
use crate::nuclide::{clone_nuclides, nuclides, same_nuclides, Reaction};
use crate::record::{Record, RecordView};
use std::collections::VecDeque;
use vstd::prelude::*;

verus! {

/// A reaction as the names of its reactants and of its products.
pub type ReactionView = (Seq<Seq<char>>, Seq<Seq<char>>);

/// The reaction that an entry describes.
pub open spec fn reaction_of(record: RecordView) -> ReactionView {
    (record.reactants, record.products)
}

/// Where the entries of `reaction` stand in `groups`: the first group of
/// that reaction.
pub open spec fn position(groups: Seq<(ReactionView, Seq<RecordView>)>, reaction: ReactionView)
    -> Option<int>
    decreases groups.len(),
{
    if groups.len() == 0 {
        None
    } else {
        match position(groups.drop_last(), reaction) {
            Some(i) => Some(i),
            None => if groups.last().0 == reaction {
                Some(groups.len() - 1)
            } else {
                None
            },
        }
    }
}

/// `groups` with one more entry: it joins the group of its reaction behind
/// the entries already there, or opens a new group behind the others.
pub open spec fn inserted(groups: Seq<(ReactionView, Seq<RecordView>)>, record: RecordView) -> Seq<
    (ReactionView, Seq<RecordView>),
> {
    match position(groups, reaction_of(record)) {
        Some(i) => groups.update(i, (groups[i].0, groups[i].1.push(record))),
        None => groups.push((reaction_of(record), seq![record])),
    }
}

/// The entries `records` by reaction: one group for each reaction, in the
/// order in which the reactions first occur, each with its entries in the
/// order in which they occur.
pub open spec fn grouped(records: Seq<RecordView>) -> Seq<(ReactionView, Seq<RecordView>)>
    decreases records.len(),
{
    if records.len() == 0 {
        Seq::empty()
    } else {
        inserted(grouped(records.drop_last()), records.last())
    }
}

/// The entries among `records` that describe `reaction`, in order.
pub open spec fn entries_of(records: Seq<RecordView>, reaction: ReactionView) -> Seq<RecordView>
    decreases records.len(),
{
    if records.len() == 0 {
        Seq::empty()
    } else {
        let front = entries_of(records.drop_last(), reaction);
        if reaction_of(records.last()) == reaction {
            front.push(records.last())
        } else {
            front
        }
    }
}

/// `groups` are the entries `records` by reaction: no reaction has two
/// groups, every group holds the entries of its reaction, in order, and
/// every reaction that occurs has a group.
pub open spec fn groups_of(groups: Seq<(ReactionView, Seq<RecordView>)>, records: Seq<RecordView>)
    -> bool {
    &&& forall|i: int, j: int|
        0 <= i < j < groups.len() ==> (#[trigger] groups[i]).0 != (#[trigger] groups[j]).0
    &&& forall|i: int|
        0 <= i < groups.len() ==> (#[trigger] groups[i]).1 == entries_of(records, groups[i].0)
            && groups[i].1.len() > 0
    &&& forall|k: int|
        0 <= k < records.len() ==> exists|i: int|
            0 <= i < groups.len() && (#[trigger] groups[i]).0 == reaction_of(#[trigger] records[k])
}

/// What [`position`] finds: the index of a group of the reaction, or that
/// there is none.
pub proof fn lemma_position(groups: Seq<(ReactionView, Seq<RecordView>)>, reaction: ReactionView)
    ensures
        match position(groups, reaction) {
            Some(i) => 0 <= i < groups.len() && groups[i].0 == reaction,
            None => forall|j: int| 0 <= j < groups.len() ==> (#[trigger] groups[j]).0 != reaction,
        },
    decreases groups.len(),
{
    if groups.len() > 0 {
        lemma_position(groups.drop_last(), reaction);
        if position(groups.drop_last(), reaction) is None {
            assert forall|j: int| 0 <= j < groups.len() - 1 implies (#[trigger] groups[j]).0
                != reaction by {
                assert(groups.drop_last()[j] == groups[j]);
            }
        }
    }
}

/// A reaction that no entry describes has no entries.
proof fn lemma_no_entries(records: Seq<RecordView>, reaction: ReactionView)
    requires
        forall|k: int| 0 <= k < records.len() ==> reaction_of(#[trigger] records[k]) != reaction,
    ensures
        entries_of(records, reaction) == Seq::<RecordView>::empty(),
    decreases records.len(),
{
    if records.len() > 0 {
        assert forall|k: int| 0 <= k < records.len() - 1 implies reaction_of(
            #[trigger] records.drop_last()[k],
        ) != reaction by {
            assert(records.drop_last()[k] == records[k]);
        }
        lemma_no_entries(records.drop_last(), reaction);
    }
}

/// One more entry keeps groups in order.
proof fn lemma_inserted(
    groups: Seq<(ReactionView, Seq<RecordView>)>,
    records: Seq<RecordView>,
    record: RecordView,
)
    requires
        groups_of(groups, records),
    ensures
        groups_of(inserted(groups, record), records.push(record)),
{
    let reaction = reaction_of(record);
    let after = inserted(groups, record);
    let all = records.push(record);
    let found = position(groups, reaction);
    assert(all.drop_last() =~= records);
    lemma_position(groups, reaction);
    if found is None {
        // no group has the reaction, so no entry before this one describes it
        assert forall|k: int| 0 <= k < records.len() implies reaction_of(#[trigger] records[k])
            != reaction by {
            let at = choose|at: int|
                0 <= at < groups.len() && (#[trigger] groups[at]).0 == reaction_of(records[k]);
        }
        lemma_no_entries(records, reaction);
    }
    assert forall|i: int| 0 <= i < after.len() implies (#[trigger] after[i]).1 == entries_of(
        all,
        after[i].0,
    ) && after[i].1.len() > 0 by {
        if i < groups.len() {
            assert(groups[i].1 == entries_of(records, groups[i].0));
        }
    }
    assert forall|k: int| 0 <= k < all.len() implies exists|i: int|
        0 <= i < after.len() && (#[trigger] after[i]).0 == reaction_of(#[trigger] all[k]) by {
        if k < records.len() {
            let i = choose|i: int|
                0 <= i < groups.len() && (#[trigger] groups[i]).0 == reaction_of(records[k]);
            assert(after[i].0 == groups[i].0);
        } else {
            let i = if found is Some {
                found->0
            } else {
                groups.len() as int
            };
            assert(after[i].0 == reaction);
        }
    }
    assert forall|i: int, j: int| 0 <= i < j < after.len() implies (#[trigger] after[i]).0 != (
    #[trigger] after[j]).0 by {
        assert(after[i].0 == groups[i].0);
        if j < groups.len() {
            assert(after[j].0 == groups[j].0);
        }
    }
}

/// Grouping gives one group for each reaction that occurs, and in it the
/// entries of that reaction in the order in which they occur.
pub proof fn lemma_grouped(records: Seq<RecordView>)
    ensures
        groups_of(grouped(records), records),
    decreases records.len(),
{
    if records.len() > 0 {
        lemma_grouped(records.drop_last());
        lemma_inserted(grouped(records.drop_last()), records.drop_last(), records.last());
        assert(records.drop_last().push(records.last()) =~= records);
    }
}

/// The view of one group.
pub open spec fn group_view(group: (Reaction, Vec<Record>)) -> (ReactionView, Seq<RecordView>) {
    ((nuclides(group.0.0), nuclides(group.0.1)), group.1@.map_values(|record: Record| record@))
}

/// The view of a list of groups.
pub open spec fn groups_view(groups: Seq<(Reaction, Vec<Record>)>) -> Seq<
    (ReactionView, Seq<RecordView>),
> {
    groups.map_values(|group: (Reaction, Vec<Record>)| group_view(group))
}

/// A reaction that is among the first groups stays where it is when more
/// groups follow.
proof fn lemma_position_found(
    groups: Seq<(ReactionView, Seq<RecordView>)>,
    reaction: ReactionView,
    n: int,
)
    requires
        0 <= n <= groups.len(),
        position(groups.take(n), reaction) is Some,
    ensures
        position(groups, reaction) == position(groups.take(n), reaction),
    decreases groups.len() - n,
{
    if n < groups.len() {
        assert(groups.drop_last().take(n) =~= groups.take(n));
        lemma_position_found(groups.drop_last(), reaction, n);
    } else {
        assert(groups.take(n) =~= groups);
    }
}

/// Adds an entry to the groups.
fn insert(groups: &mut Vec<(Reaction, Vec<Record>)>, record: Record)
    ensures
        groups_view(final(groups)@) == inserted(groups_view(old(groups)@), record@),
{
    let ghost before = groups_view(groups@);
    let ghost reaction = reaction_of(record@);
    let mut i: usize = 0;
    while i < groups.len()
        invariant
            i <= groups.len(),
            groups@ == old(groups)@,
            before == groups_view(groups@),
            reaction == reaction_of(record@),
            position(before.take(i as int), reaction) is None,
        decreases groups.len() - i,
    {
        assert(before.take(i + 1).drop_last() =~= before.take(i as int));
        if same_nuclides(&groups[i].0.0, &record.reactants) && same_nuclides(
            &groups[i].0.1,
            &record.products,
        ) {
            proof {
                lemma_position_found(before, reaction, i + 1);
            }
            groups[i].1.push(record);
            assert(groups_view(groups@) =~= inserted(before, record@)) by {
                assert(group_view(groups@[i as int]).1 =~= before[i as int].1.push(record@));
            }
            return ;
        }
        i += 1;
    }
    assert(before.take(i as int) =~= before);
    let reaction = (clone_nuclides(&record.reactants), clone_nuclides(&record.products));
    let mut entries = Vec::new();
    entries.push(record);
    let group = (reaction, entries);
    assert(group_view(group).1 =~= seq![record@]);
    groups.push(group);
    assert(groups_view(groups@) =~= before.push(group_view(group)));
}

/// Reads `lines` to the end and gathers the entries by reaction.
///
/// The first error ends the reading and is returned; no group is returned
/// then.
pub fn to_hash_map(lines: VecDeque<Line>, format: Format) -> (r: Result<
    Vec<(Reaction, Vec<Record>)>,
    ReaclibError,
>)
    ensures
        match gathered(items(lines_view(lines@), format, None)) {
            Ok(records) => r matches Ok(groups) && groups_view(groups@) == grouped(records)
                && groups_of(groups_view(groups@), records),
            Err(fault) => r matches Err(e) && e@ == fault,
        },
{
    let mut iter = Iter::new(lines, format);
    let mut groups: Vec<(Reaction, Vec<Record>)> = Vec::new();
    let ghost all = gathered(items(lines_view(lines@), format, None));
    let ghost mut seen = Seq::<RecordView>::empty();
    loop
        invariant
            all == gathered(items(lines_view(lines@), format, None)),
            all == behind_entries(seen, gathered(iter@.items())),
            groups_view(groups@) == grouped(seen),
        decreases iter@.lines.len(),
    {
        proof {
            lemma_pull_consumes(iter@.lines, iter@.format, iter@.chapter);
            lemma_gather_step(iter@, seen);
        }
        match iter.next() {
            None => {
                proof {
                    lemma_grouped(seen);
                }
                return Ok(groups);
            },
            Some(Err(e)) => {
                return Err(e);
            },
            Some(Ok(record)) => {
                proof {
                    assert(seen.push(record@).drop_last() =~= seen);
                    seen = seen.push(record@);
                }
                insert(&mut groups, record);
            },
        }
    }
}

} // verus!
