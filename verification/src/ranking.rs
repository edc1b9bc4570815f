use crate::text::names_of;
use vstd::prelude::*;

verus! {

/// A list ordered by rank with one more item put in: after every item
/// whose rank is no greater than its own, and before the others.
pub open spec fn inserted(sorted: Seq<(u64, Seq<char>)>, item: (u64, Seq<char>)) -> Seq<
    (u64, Seq<char>),
>
    decreases sorted.len(),
{
    if sorted.len() == 0 {
        seq![item]
    } else if sorted.last().0 <= item.0 {
        sorted.push(item)
    } else {
        inserted(sorted.drop_last(), item).push(sorted.last())
    }
}

/// The first `upto` items with their ranks, ordered by rank; items of
/// the same rank stay in the order in which they came.
pub open spec fn ranked(ranks: Seq<u64>, items: Seq<Seq<char>>, upto: int) -> Seq<(u64, Seq<char>)>
    decreases upto,
{
    if upto <= 0 {
        Seq::empty()
    } else {
        inserted(ranked(ranks, items, upto - 1), (ranks[upto - 1], items[upto - 1]))
    }
}

/// The items ordered by rank, lowest first; items of the same rank stay
/// in the order in which they came.
pub open spec fn sorted_by_rank(ranks: Seq<u64>, items: Seq<Seq<char>>) -> Seq<Seq<char>> {
    let pairs = ranked(ranks, items, items.len() as int);
    Seq::new(pairs.len(), |i: int| pairs[i].1)
}

pub open spec fn pairs_model(s: Seq<(u64, String)>) -> Seq<(u64, Seq<char>)> {
    Seq::new(s.len(), |i: int| (s[i].0, s[i].1@))
}

/// Whether the ranks of a list never go down.
pub open spec fn is_ordered(pairs: Seq<(u64, Seq<char>)>) -> bool {
    forall|i: int, j: int| 0 <= i <= j < pairs.len() ==> pairs[i].0 <= pairs[j].0
}

/// Putting an item in at the place where the higher ranks begin is
/// putting it in by rank.
pub proof fn lemma_inserted_at(sorted: Seq<(u64, Seq<char>)>, item: (u64, Seq<char>), p: int)
    requires
        0 <= p <= sorted.len(),
        p > 0 ==> sorted[p - 1].0 <= item.0,
        forall|j: int| p <= j < sorted.len() ==> sorted[j].0 > item.0,
    ensures
        inserted(sorted, item) == sorted.insert(p, item),
    decreases sorted.len(),
{
    if sorted.len() == 0 {
        assert(sorted.insert(p, item) =~= seq![item]);
    } else if p == sorted.len() {
        assert(sorted.insert(p, item) =~= sorted.push(item));
    } else {
        lemma_inserted_at(sorted.drop_last(), item, p);
        assert(sorted.insert(p, item) =~= sorted.drop_last().insert(p, item).push(sorted.last()));
    }
}

/// Putting an item in by rank makes the list one longer, keeps it
/// ordered, and adds the item to what it holds and nothing else.
pub proof fn lemma_inserted(sorted: Seq<(u64, Seq<char>)>, item: (u64, Seq<char>))
    requires
        is_ordered(sorted),
    ensures
        inserted(sorted, item).len() == sorted.len() + 1,
        is_ordered(inserted(sorted, item)),
        inserted(sorted, item).to_multiset() == sorted.to_multiset().insert(item),
    decreases sorted.len(),
{
    broadcast use vstd::seq_lib::group_to_multiset_ensures;

    let out = inserted(sorted, item);
    if sorted.len() == 0 {
        assert(sorted =~= Seq::empty());
        assert(out =~= Seq::<(u64, Seq<char>)>::empty().push(item));
    } else if sorted.last().0 <= item.0 {
        assert forall|i: int, j: int| 0 <= i <= j < out.len() implies out[i].0 <= out[j].0 by {
            if j == sorted.len() {
                if i < sorted.len() {
                    assert(sorted[i].0 <= sorted[sorted.len() - 1].0);
                }
            }
        }
    } else {
        let front = sorted.drop_last();
        assert forall|i: int, j: int| 0 <= i <= j < front.len() implies front[i].0 <= front[j].0 by {
            assert(sorted[i].0 <= sorted[j].0);
        }
        lemma_inserted(front, item);
        let mid = inserted(front, item);
        assert(sorted =~= front.push(sorted.last()));
        assert(out.to_multiset() =~= sorted.to_multiset().insert(item));
        assert forall|i: int, j: int| 0 <= i <= j < out.len() implies out[i].0 <= out[j].0 by {
            if j == mid.len() && i < mid.len() {
                assert(mid.to_multiset().count(mid[i]) > 0);
                if mid[i] != item {
                    assert(front.to_multiset().count(mid[i]) > 0);
                    let k = choose|k: int| 0 <= k < front.len() && front[k] == mid[i];
                    assert(sorted[k].0 <= sorted[sorted.len() - 1].0);
                }
            }
        }
    }
}

/// Ordering by rank keeps every item, drops none and adds none, and
/// gives a list whose ranks never go down.
pub proof fn lemma_ranked(ranks: Seq<u64>, items: Seq<Seq<char>>, upto: int)
    requires
        0 <= upto <= items.len(),
        ranks.len() == items.len(),
    ensures
        ranked(ranks, items, upto).len() == upto,
        is_ordered(ranked(ranks, items, upto)),
        ranked(ranks, items, upto).to_multiset() == Seq::new(
            upto as nat,
            |i: int| (ranks[i], items[i]),
        ).to_multiset(),
    decreases upto,
{
    broadcast use vstd::seq_lib::group_to_multiset_ensures;

    if upto > 0 {
        lemma_ranked(ranks, items, upto - 1);
        lemma_inserted(ranked(ranks, items, upto - 1), (ranks[upto - 1], items[upto - 1]));
        let shorter = Seq::new((upto - 1) as nat, |i: int| (ranks[i], items[i]));
        let longer = Seq::new(upto as nat, |i: int| (ranks[i], items[i]));
        assert(longer =~= shorter.push((ranks[upto - 1], items[upto - 1])));
    } else {
        assert(ranked(ranks, items, upto) =~= Seq::new(upto as nat, |i: int| (ranks[i], items[i])));
    }
}

/// The items of a list of ranked items, without their ranks.
pub open spec fn items_of(pairs: Seq<(u64, Seq<char>)>) -> Seq<Seq<char>> {
    Seq::new(pairs.len(), |i: int| pairs[i].1)
}

/// Putting an item in by rank adds the item to the items that the list
/// holds, and nothing else.
pub proof fn lemma_inserted_items(sorted: Seq<(u64, Seq<char>)>, item: (u64, Seq<char>))
    ensures
        items_of(inserted(sorted, item)).to_multiset() == items_of(sorted).to_multiset().insert(
            item.1,
        ),
    decreases sorted.len(),
{
    broadcast use vstd::seq_lib::group_to_multiset_ensures;

    if sorted.len() == 0 {
        assert(items_of(inserted(sorted, item)) =~= items_of(sorted).push(item.1));
    } else if sorted.last().0 <= item.0 {
        assert(items_of(inserted(sorted, item)) =~= items_of(sorted).push(item.1));
    } else {
        let front = sorted.drop_last();
        lemma_inserted_items(front, item);
        assert(items_of(inserted(sorted, item)) =~= items_of(inserted(front, item)).push(
            sorted.last().1,
        ));
        assert(items_of(sorted) =~= items_of(front).push(sorted.last().1));
        assert(items_of(inserted(sorted, item)).to_multiset() =~= items_of(
            sorted,
        ).to_multiset().insert(item.1));
    }
}

/// The first items ordered by rank are those items in another order.
pub proof fn lemma_ranked_items(ranks: Seq<u64>, items: Seq<Seq<char>>, upto: int)
    requires
        0 <= upto <= items.len(),
    ensures
        items_of(ranked(ranks, items, upto)).to_multiset() == items.subrange(0, upto).to_multiset(),
    decreases upto,
{
    broadcast use vstd::seq_lib::group_to_multiset_ensures;

    if upto > 0 {
        lemma_ranked_items(ranks, items, upto - 1);
        lemma_inserted_items(ranked(ranks, items, upto - 1), (ranks[upto - 1], items[upto - 1]));
        assert(items.subrange(0, upto) =~= items.subrange(0, upto - 1).push(items[upto - 1]));
    } else {
        assert(items_of(ranked(ranks, items, upto)) =~= items.subrange(0, upto));
    }
}

/// Ordering by rank gives the items that it was given, each as often as
/// it came, in another order.
pub proof fn lemma_sorted_by_rank_is_a_permutation(ranks: Seq<u64>, items: Seq<Seq<char>>)
    ensures
        sorted_by_rank(ranks, items).to_multiset() == items.to_multiset(),
{
    lemma_ranked_items(ranks, items, items.len() as int);
    assert(items.subrange(0, items.len() as int) =~= items);
    assert(sorted_by_rank(ranks, items) =~= items_of(ranked(ranks, items, items.len() as int)));
}

/// Ordering by rank gives as many items as it was given.
pub proof fn lemma_sorted_by_rank_len(ranks: Seq<u64>, items: Seq<Seq<char>>)
    requires
        ranks.len() == items.len(),
    ensures
        sorted_by_rank(ranks, items).len() == items.len(),
{
    lemma_ranked(ranks, items, items.len() as int);
}

/// Orders items by rank, lowest first; items of the same rank stay in
/// the order in which they came.
pub fn sort_by_rank(items: &Vec<String>, ranks: &Vec<u64>) -> (sorted: Vec<String>)
    requires
        ranks.len() == items.len(),
    ensures
        names_of(sorted@) == sorted_by_rank(ranks@, names_of(items@)),
        sorted.len() == items.len(),
{
    let mut pairs: Vec<(u64, String)> = Vec::new();
    let mut i: usize = 0;
    assert(pairs_model(pairs@) =~= ranked(ranks@, names_of(items@), 0));
    while i < items.len()
        invariant
            i <= items.len(),
            ranks.len() == items.len(),
            pairs.len() == i,
            pairs_model(pairs@) == ranked(ranks@, names_of(items@), i as int),
        decreases items.len() - i,
    {
        let rank = ranks[i];
        let ghost before = pairs_model(pairs@);
        let ghost item = (rank, items@[i as int]@);
        let mut p: usize = pairs.len();
        while p > 0 && pairs[p - 1].0 > rank
            invariant
                p <= pairs.len(),
                before == pairs_model(pairs@),
                forall|j: int| p <= j < pairs.len() ==> before[j].0 > rank,
            decreases p,
        {
            p = p - 1;
        }
        proof {
            assert(p > 0 ==> before[p - 1].0 <= rank);
            lemma_inserted_at(before, item, p as int);
            assert(names_of(items@)[i as int] == items@[i as int]@);
        }
        pairs.insert(p, (rank, items[i].clone()));
        assert(pairs_model(pairs@) =~= before.insert(p as int, item));
        i = i + 1;
    }
    let mut sorted: Vec<String> = Vec::new();
    let mut k: usize = 0;
    let ghost all = pairs_model(pairs@);
    while k < pairs.len()
        invariant
            k <= pairs.len(),
            all == pairs_model(pairs@),
            sorted.len() == k,
            forall|j: int| 0 <= j < k ==> sorted@[j]@ == all[j].1,
        decreases pairs.len() - k,
    {
        sorted.push(pairs[k].1.clone());
        k = k + 1;
    }
    assert(names_of(sorted@) =~= sorted_by_rank(ranks@, names_of(items@)));
    sorted
}

} // verus!
