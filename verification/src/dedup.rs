//! Entry deduplicator: removes adjacent duplicate entries from a normalized
//! entry sequence, keeping the first of each run.
//!
//! Two consecutive entries are duplicates if and only if both their `link`
//! and their `title` are equal. The policy is deliberately adjacent-only:
//! equal entries separated by any other entry are both retained.

use vstd::prelude::*;

use crate::feed::EntryModel;
use crate::feed::FetchedFeedItem;
use crate::views;

verus! {

/// The equality under which two adjacent entries count as duplicates: both
/// link and title agree.
pub open spec fn same_key(a: EntryModel, b: EntryModel) -> bool {
    a.link == b.link && a.title == b.title
}

/// The sequence with adjacent duplicates collapsed: an entry is kept if and
/// only if it is the first of the sequence or differs from its immediate
/// predecessor under [`same_key`].
pub open spec fn dedup_adjacent(s: Seq<EntryModel>) -> Seq<EntryModel>
    decreases s.len(),
{
    if s.len() == 0 {
        Seq::empty()
    } else if s.len() >= 2 && same_key(s[s.len() - 2], s.last()) {
        dedup_adjacent(s.drop_last())
    } else {
        dedup_adjacent(s.drop_last()).push(s.last())
    }
}

/// Removes adjacent duplicate entries, order-preserving, in a single pass.
/// The first occurrence of each run of duplicates is kept. Adjacent-only by
/// design: equal entries separated by another entry are both retained.
pub fn dedup(items: &Vec<FetchedFeedItem>) -> (r: Vec<FetchedFeedItem>)
    ensures
        r.deep_view() == dedup_adjacent(items.deep_view()),
{
    let ghost s = items.deep_view();
    let mut out: Vec<FetchedFeedItem> = Vec::new();
    let mut i: usize = 0;
    while i < items.len()
        invariant
            i <= items.len(),
            s == items.deep_view(),
            s.len() == items.len(),
            out.deep_view() == dedup_adjacent(s.take(i as int)),
        decreases items.len() - i,
    {
        let duplicate_of_previous = i >= 1 && items[i].link == items[i - 1].link
            && items[i].title == items[i - 1].title;
        if !duplicate_of_previous {
            let copy = items[i].duplicate();
            let ghost gcopy = copy;
            let ghost before = out;
            out.push(copy);
            proof {
                views::lemma_deep_view_push(before, out, gcopy);
            }
        }
        proof {
            assert(s.take(i + 1 as int).drop_last() =~= s.take(i as int));
            assert(s.take(i + 1 as int).last() == s[i as int]);
            if i >= 1 {
                assert(s.take(i + 1 as int)[i - 1 as int] == s[i - 1 as int]);
            }
            assert(out.deep_view() == dedup_adjacent(s.take(i + 1 as int)));
        }
        i = i + 1;
    }
    proof {
        assert(s.take(items.len() as int) =~= s);
    }
    out
}

/// Deduplication never lengthens a sequence.
pub proof fn lemma_dedup_adjacent_len(s: Seq<EntryModel>)
    ensures
        dedup_adjacent(s).len() <= s.len(),
    decreases s.len(),
{
    if s.len() > 0 {
        lemma_dedup_adjacent_len(s.drop_last());
    }
}

/// Deduplication only drops entries: every retained entry is one of the
/// input entries.
pub proof fn lemma_dedup_adjacent_membership(s: Seq<EntryModel>)
    ensures
        forall|j: int|
            0 <= j < dedup_adjacent(s).len() ==> s.contains(#[trigger] dedup_adjacent(s)[j]),
    decreases s.len(),
{
    if s.len() > 0 {
        lemma_dedup_adjacent_membership(s.drop_last());
        assert forall|j: int| 0 <= j < dedup_adjacent(s).len() implies s.contains(
            #[trigger] dedup_adjacent(s)[j],
        ) by {
            let prefix = dedup_adjacent(s.drop_last());
            if j < prefix.len() {
                let k = choose|k: int| 0 <= k < s.drop_last().len() && s.drop_last()[k] == prefix[j];
                assert(s[k] == prefix[j]);
            } else {
                assert(dedup_adjacent(s)[j] == s.last());
                assert(s[s.len() - 1] == s.last());
            }
        }
    }
}

/// Adjacent-duplicate law: for entries `[a, a, b, a]` where `a` and `b`
/// differ under [`same_key`], deduplication yields `[a, b, a]` — the final
/// `a` is retained because it is not adjacent to an earlier `a`.
pub proof fn lemma_dedup_adjacent_law(a: EntryModel, b: EntryModel)
    requires
        !same_key(a, b),
    ensures
        dedup_adjacent(seq![a, a, b, a]) == seq![a, b, a],
{
    reveal_with_fuel(dedup_adjacent, 5);
    let s = seq![a, a, b, a];
    assert(s.drop_last() =~= seq![a, a, b]);
    assert(seq![a, a, b].drop_last() =~= seq![a, a]);
    assert(seq![a, a].drop_last() =~= seq![a]);
    assert(seq![a].drop_last() =~= Seq::<EntryModel>::empty());
    assert(dedup_adjacent(seq![a]) =~= seq![a]);
    assert(dedup_adjacent(seq![a, a]) =~= seq![a]);
    assert(dedup_adjacent(seq![a, a, b]) =~= seq![a, b]);
    assert(dedup_adjacent(s) =~= seq![a, b, a]);
}

} // verus!
