use vstd::prelude::*;
use vstd::seq_lib::to_multiset_insert;

use crate::lookup::{episode_position, lemma_episode_position};
use crate::model::{episodes_view, Episode, EpisodeView, PodcastEntry};
use crate::text::same_text;

verus! {

/// `sorted` with `e` inserted after every episode whose number is at most its own.
pub open spec fn insert_by_number(sorted: Seq<EpisodeView>, e: EpisodeView) -> Seq<EpisodeView>
    decreases sorted.len(),
{
    if sorted.len() == 0 {
        seq![e]
    } else if sorted.last().number <= e.number {
        sorted.push(e)
    } else {
        insert_by_number(sorted.drop_last(), e).push(sorted.last())
    }
}

/// The episodes ordered by number; episodes with equal numbers keep their order. This is what
/// the stable `sort_by_key` on the number gives.
pub open spec fn sort_by_number(episodes: Seq<EpisodeView>) -> Seq<EpisodeView>
    decreases episodes.len(),
{
    if episodes.len() == 0 {
        Seq::empty()
    } else {
        insert_by_number(sort_by_number(episodes.drop_last()), episodes.last())
    }
}

/// An episode with another number.
pub open spec fn with_number(e: EpisodeView, number: u32) -> EpisodeView {
    EpisodeView { number, ..e }
}

/// The episodes ordered by number, then numbered 1, 2, 3, ... in that order.
pub open spec fn renumbered(episodes: Seq<EpisodeView>) -> Seq<EpisodeView> {
    let sorted = sort_by_number(episodes);
    Seq::new(sorted.len(), |i: int| with_number(sorted[i], (i + 1) as u32))
}

/// Whether the numbers never decrease along the list.
pub open spec fn is_sorted_by_number(s: Seq<EpisodeView>) -> bool {
    forall|i: int, j: int| 0 <= i <= j < s.len() ==> s[i].number <= s[j].number
}

/// `insert_by_number` inserts the episode at some position; in a list ordered by number, every
/// episode after that position has a greater number.
pub proof fn lemma_insert_position(sorted: Seq<EpisodeView>, e: EpisodeView) -> (j: int)
    ensures
        0 <= j <= sorted.len(),
        insert_by_number(sorted, e) == sorted.insert(j, e),
        is_sorted_by_number(sorted) ==> forall|k: int|
            j <= k < sorted.len() ==> #[trigger] sorted[k].number > e.number,
    decreases sorted.len(),
{
    if sorted.len() == 0 {
        assert(seq![e] =~= sorted.insert(0, e));
        0
    } else if sorted.last().number <= e.number {
        assert(sorted.push(e) =~= sorted.insert(sorted.len() as int, e));
        sorted.len() as int
    } else {
        let j = lemma_insert_position(sorted.drop_last(), e);
        assert(sorted.drop_last().insert(j, e).push(sorted.last()) =~= sorted.insert(j, e));
        if is_sorted_by_number(sorted) {
            assert(is_sorted_by_number(sorted.drop_last()));
            assert forall|k: int| j <= k < sorted.len() implies #[trigger] sorted[k].number
                > e.number by {
                if k < sorted.len() - 1 {
                    assert(sorted.drop_last()[k] == sorted[k]);
                }
            }
        }
        j
    }
}

/// In a list ordered by number, `insert_by_number` puts the episode just before the first
/// episode with a greater number.
pub proof fn lemma_insert_at(sorted: Seq<EpisodeView>, e: EpisodeView, j: int)
    requires
        is_sorted_by_number(sorted),
        0 <= j <= sorted.len(),
        forall|k: int| 0 <= k < j ==> sorted[k].number <= e.number,
        forall|k: int| j <= k < sorted.len() ==> sorted[k].number > e.number,
    ensures
        insert_by_number(sorted, e) == sorted.insert(j, e),
    decreases sorted.len(),
{
    if sorted.len() == 0 {
        assert(seq![e] =~= sorted.insert(0, e));
    } else if sorted.last().number <= e.number {
        assert(j == sorted.len());
        assert(sorted.push(e) =~= sorted.insert(sorted.len() as int, e));
    } else {
        let d = sorted.drop_last();
        lemma_insert_at(d, e, j);
        assert(d.insert(j, e).push(sorted.last()) =~= sorted.insert(j, e));
    }
}

/// Inserting into a list ordered by number keeps it ordered.
pub proof fn lemma_insert_sorted(sorted: Seq<EpisodeView>, e: EpisodeView)
    requires
        is_sorted_by_number(sorted),
    ensures
        is_sorted_by_number(insert_by_number(sorted, e)),
    decreases sorted.len(),
{
    if sorted.len() > 0 && sorted.last().number > e.number {
        let d = sorted.drop_last();
        lemma_insert_sorted(d, e);
        let j = lemma_insert_position(d, e);
        let r = insert_by_number(d, e);
        assert forall|k: int| 0 <= k < r.len() implies r[k].number <= sorted.last().number by {
            if k < j {
                assert(r[k] == d[k]);
            } else if k > j {
                assert(r[k] == d[k - 1]);
            }
        }
    }
}

/// Law: the episodes ordered by number are in fact ordered by number.
pub proof fn lemma_sort_by_number_sorted(episodes: Seq<EpisodeView>)
    ensures
        is_sorted_by_number(sort_by_number(episodes)),
    decreases episodes.len(),
{
    if episodes.len() > 0 {
        lemma_sort_by_number_sorted(episodes.drop_last());
        lemma_insert_sorted(sort_by_number(episodes.drop_last()), episodes.last());
    }
}

/// Law: ordering by number keeps every episode, each as often as before.
pub proof fn lemma_sort_by_number_permutes(episodes: Seq<EpisodeView>)
    ensures
        sort_by_number(episodes).to_multiset() == episodes.to_multiset(),
    decreases episodes.len(),
{
    broadcast use vstd::seq_lib::group_to_multiset_ensures;

    if episodes.len() > 0 {
        let d = episodes.drop_last();
        lemma_sort_by_number_permutes(d);
        let j = lemma_insert_position(sort_by_number(d), episodes.last());
        to_multiset_insert(sort_by_number(d), j, episodes.last());
        assert(d.push(episodes.last()) =~= episodes);
    }
}

/// The episodes with the given number, in order.
pub open spec fn numbered(episodes: Seq<EpisodeView>, number: u32) -> Seq<EpisodeView>
    decreases episodes.len(),
{
    if episodes.len() == 0 {
        Seq::empty()
    } else if episodes.last().number == number {
        numbered(episodes.drop_last(), number).push(episodes.last())
    } else {
        numbered(episodes.drop_last(), number)
    }
}

proof fn lemma_numbered_concat(a: Seq<EpisodeView>, b: Seq<EpisodeView>, number: u32)
    ensures
        numbered(a + b, number) == numbered(a, number) + numbered(b, number),
    decreases b.len(),
{
    if b.len() == 0 {
        assert(a + b =~= a);
        assert(numbered(a, number) + numbered(b, number) =~= numbered(a, number));
    } else {
        lemma_numbered_concat(a, b.drop_last(), number);
        assert((a + b).drop_last() =~= a + b.drop_last());
        if b.last().number == number {
            assert(numbered(a, number) + numbered(b.drop_last(), number).push(b.last())
                =~= (numbered(a, number) + numbered(b.drop_last(), number)).push(b.last()));
        }
    }
}

proof fn lemma_numbered_none(s: Seq<EpisodeView>, number: u32)
    requires
        forall|k: int| 0 <= k < s.len() ==> #[trigger] s[k].number != number,
    ensures
        numbered(s, number) == Seq::<EpisodeView>::empty(),
    decreases s.len(),
{
    if s.len() > 0 {
        lemma_numbered_none(s.drop_last(), number);
    }
}

/// Law: ordering by number is stable: the episodes that share a number come out in the order
/// they came in.
pub proof fn lemma_sort_by_number_stable(episodes: Seq<EpisodeView>, number: u32)
    ensures
        numbered(sort_by_number(episodes), number) == numbered(episodes, number),
    decreases episodes.len(),
{
    if episodes.len() > 0 {
        let d = episodes.drop_last();
        let e = episodes.last();
        lemma_sort_by_number_stable(d, number);
        lemma_sort_by_number_sorted(d);
        let x = sort_by_number(d);
        let j = lemma_insert_position(x, e);
        let front = x.subrange(0, j);
        let back = x.subrange(j, x.len() as int);
        assert(x =~= front + back);
        assert(x.insert(j, e) =~= front + (seq![e] + back));
        lemma_numbered_concat(front, back, number);
        lemma_numbered_concat(front, seq![e] + back, number);
        lemma_numbered_concat(seq![e], back, number);
        assert(seq![e].drop_last() =~= Seq::<EpisodeView>::empty());
        assert(numbered(Seq::<EpisodeView>::empty(), number) =~= Seq::<EpisodeView>::empty());
        assert(seq![e].last() == e);
        assert(numbered(seq![e], number) == if e.number == number {
            numbered(seq![e].drop_last(), number).push(e)
        } else {
            numbered(seq![e].drop_last(), number)
        });
        if e.number == number {
            assert forall|k: int| 0 <= k < back.len() implies #[trigger] back[k].number != number by {
                assert(back[k] == x[k + j]);
            }
            lemma_numbered_none(back, number);
            assert(numbered(seq![e], number) =~= seq![e]);
            assert(numbered(front, number) + (seq![e] + Seq::<EpisodeView>::empty()) =~= numbered(
                front,
                number,
            ).push(e));
            assert(numbered(front, number) + Seq::<EpisodeView>::empty() =~= numbered(
                front,
                number,
            ));
        } else {
            assert(numbered(seq![e], number) =~= Seq::<EpisodeView>::empty());
            assert(Seq::<EpisodeView>::empty() + numbered(back, number) =~= numbered(back, number));
        }
    }
}

/// Orders the episodes by number, keeping the order of equal numbers, and numbers them
/// 1, 2, 3, ... in that order.
pub fn renumber_episodes(episodes: &mut Vec<Episode>)
    requires
        old(episodes).len() <= u32::MAX,
    ensures
        episodes_view(final(episodes)@) == renumbered(episodes_view(old(episodes)@)),
{
    let mut input: Vec<Episode> = Vec::new();
    std::mem::swap(&mut input, episodes);
    let ghost orig = episodes_view(input@);
    let n = input.len();
    let mut sorted: Vec<Episode> = Vec::new();
    let mut i: usize = 0;
    while i < n
        invariant
            n == orig.len(),
            n <= u32::MAX,
            i <= n,
            episodes_view(input@) == orig.skip(i as int),
            input@.len() == n - i,
            episodes_view(sorted@) == sort_by_number(orig.take(i as int)),
            sorted@.len() == i,
        decreases n - i,
    {
        proof {
            lemma_sort_by_number_sorted(orig.take(i as int));
        }
        assert(episodes_view(input@)[0] == orig[i as int]);
        let ghost pv = input@;
        let e = input.remove(0);
        assert(input@ =~= pv.drop_first());
        assert(episodes_view(input@) =~= episodes_view(pv).drop_first());
        assert(episodes_view(input@) =~= orig.skip(i + 1));
        let mut j: usize = 0;
        while j < sorted.len() && sorted[j].number <= e.number
            invariant
                j <= sorted@.len(),
                forall|k: int| 0 <= k < j ==> sorted@[k].number <= e.number,
            decreases sorted@.len() - j,
        {
            j = j + 1;
        }
        let ghost before = episodes_view(sorted@);
        proof {
            assert forall|k: int| j <= k < before.len() implies before[k].number > e@.number by {
                assert(before[j as int].number <= before[k].number);
            }
            lemma_insert_at(before, e@, j as int);
            assert(orig.take(i + 1).drop_last() =~= orig.take(i as int));
        }
        sorted.insert(j, e);
        assert(episodes_view(sorted@) =~= before.insert(j as int, e@));
        i = i + 1;
    }
    assert(orig.take(n as int) =~= orig);
    let ghost ordered = sort_by_number(orig);
    let m = sorted.len();
    assert(ordered.skip(0) =~= ordered);
    let mut k: usize = 0;
    while k < m
        invariant
            m == ordered.len(),
            m <= u32::MAX,
            k <= m,
            episodes_view(sorted@) == ordered.skip(k as int),
            sorted@.len() == m - k,
            episodes@.len() == k,
            forall|t: int| 0 <= t < k ==> #[trigger] episodes@[t]@ == with_number(ordered[t], (t + 1) as u32),
        decreases m - k,
    {
        assert(episodes_view(sorted@)[0] == ordered[k as int]);
        let ghost pv = sorted@;
        let mut e = sorted.remove(0);
        assert(sorted@ =~= pv.drop_first());
        assert(episodes_view(sorted@) =~= episodes_view(pv).drop_first());
        assert(episodes_view(sorted@) =~= ordered.skip(k + 1));
        e.number = (k as u32) + 1;
        episodes.push(e);
        k = k + 1;
    }
    assert(episodes_view(episodes@) =~= renumbered(orig));
}

/// Law: renumbering keeps the identifier of every episode: some episode of the renumbered
/// list carries it.
pub proof fn lemma_renumbered_keeps_id(episodes: Seq<EpisodeView>, i: int)
    requires
        0 <= i < episodes.len(),
    ensures
        episode_position(renumbered(episodes), episodes[i].id) >= 0,
{
    broadcast use vstd::seq_lib::group_to_multiset_ensures;

    let sorted = sort_by_number(episodes);
    lemma_sort_by_number_permutes(episodes);
    assert(episodes.contains(episodes[i]));
    assert(episodes.to_multiset().count(episodes[i]) > 0);
    assert(sorted.to_multiset().count(episodes[i]) > 0);
    assert(sorted.contains(episodes[i]));
    let t = choose|t: int| 0 <= t < sorted.len() && sorted[t] == episodes[i];
    let r = renumbered(episodes);
    assert(r[t].id == episodes[i].id);
    lemma_episode_position(r, episodes[i].id);
}

/// Law: after renumbering, the episodes carry the numbers 1, 2, 3, ... in order.
pub proof fn lemma_renumbered_numbers(episodes: Seq<EpisodeView>)
    requires
        episodes.len() <= u32::MAX,
    ensures
        renumbered(episodes).len() == episodes.len(),
        forall|i: int|
            0 <= i < episodes.len() ==> #[trigger] renumbered(episodes)[i].number == i + 1,
{
    broadcast use vstd::seq_lib::group_to_multiset_ensures;

    lemma_sort_by_number_permutes(episodes);
    assert(sort_by_number(episodes).to_multiset().len() == episodes.to_multiset().len());
}

/// Whether the episodes carry the numbers 1, 2, 3, ... in their order.
pub open spec fn numbered_in_order(episodes: Seq<EpisodeView>) -> bool {
    forall|i: int| 0 <= i < episodes.len() ==> #[trigger] episodes[i].number == i + 1
}

/// Renumbered episodes carry the numbers 1, 2, 3, ... in their order.
pub proof fn lemma_renumbered_in_order(episodes: Seq<EpisodeView>)
    requires
        episodes.len() <= u32::MAX,
    ensures
        numbered_in_order(renumbered(episodes)),
{
    lemma_renumbered_numbers(episodes);
}

/// The number that a new episode of the podcast gets: one more than its count of episodes.
pub fn next_episode_number(podcast: &PodcastEntry) -> (r: u32)
    requires
        podcast.episodes@.len() < u32::MAX,
    ensures
        r == podcast.episodes@.len() + 1,
{
    (podcast.episodes.len() as u32) + 1
}

/// The episodes without those that have the given identifier.
pub open spec fn without_episode(episodes: Seq<EpisodeView>, id: Seq<char>) -> Seq<EpisodeView>
    decreases episodes.len(),
{
    if episodes.len() == 0 {
        Seq::empty()
    } else {
        let kept = without_episode(episodes.drop_last(), id);
        if episodes.last().id == id {
            kept
        } else {
            kept.push(episodes.last())
        }
    }
}

/// Law: no episode with the identifier is left, and the length does not grow.
pub proof fn lemma_without_episode(episodes: Seq<EpisodeView>, id: Seq<char>)
    ensures
        without_episode(episodes, id).len() <= episodes.len(),
        forall|t: int|
            0 <= t < without_episode(episodes, id).len() ==> #[trigger] without_episode(
                episodes,
                id,
            )[t].id != id,
    decreases episodes.len(),
{
    if episodes.len() > 0 {
        lemma_without_episode(episodes.drop_last(), id);
    }
}

/// Drops every episode with the given identifier, keeping the order of the others.
pub fn remove_episodes_with_id(episodes: &mut Vec<Episode>, episode_id: &str)
    ensures
        episodes_view(final(episodes)@) == without_episode(episodes_view(old(episodes)@), episode_id@),
{
    let mut input: Vec<Episode> = Vec::new();
    std::mem::swap(&mut input, episodes);
    let ghost orig = episodes_view(input@);
    assert(orig.skip(0) =~= orig);
    let n = input.len();
    let mut i: usize = 0;
    while i < n
        invariant
            n == orig.len(),
            i <= n,
            input@.len() == n - i,
            episodes_view(input@) == orig.skip(i as int),
            episodes_view(episodes@) == without_episode(orig.take(i as int), episode_id@),
        decreases n - i,
    {
        assert(episodes_view(input@)[0] == orig[i as int]);
        let ghost pv = input@;
        let e = input.remove(0);
        assert(input@ =~= pv.drop_first());
        assert(episodes_view(input@) =~= episodes_view(pv).drop_first());
        assert(episodes_view(input@) =~= orig.skip(i + 1));
        assert(orig.take(i + 1).drop_last() =~= orig.take(i as int));
        let ghost before = episodes_view(episodes@);
        if !same_text(e.id.as_str(), episode_id) {
            episodes.push(e);
            assert(episodes_view(episodes@) =~= before.push(orig[i as int]));
        }
        i = i + 1;
    }
    assert(orig.take(n as int) =~= orig);
}

} // verus!
