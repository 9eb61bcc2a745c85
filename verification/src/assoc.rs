//! Association lists of text: pairs of a name and a value, in the order in
//! which the names came up.

use vstd::prelude::*;

verus! {

/// The values of a list of pairs.
pub open spec fn pair_views(pairs: Seq<(String, String)>) -> Seq<(Seq<char>, Seq<char>)> {
    Seq::new(pairs.len(), |i: int| (pairs[i].0@, pairs[i].1@))
}

/// The position of the first pair of a name, or the length.
pub open spec fn slot_of(pairs: Seq<(Seq<char>, Seq<char>)>, key: Seq<char>) -> int
    decreases pairs.len(),
{
    if pairs.len() == 0 || pairs[0].0 == key {
        0
    } else {
        1 + slot_of(pairs.drop_first(), key)
    }
}

/// The pairs with a value for a name: in its old place where there is one of
/// that name, else at the end.
pub open spec fn with_pair(
    pairs: Seq<(Seq<char>, Seq<char>)>,
    key: Seq<char>,
    value: Seq<char>,
) -> Seq<(Seq<char>, Seq<char>)> {
    let at = slot_of(pairs, key);
    if at < pairs.len() {
        pairs.update(at, (key, value))
    } else {
        pairs.push((key, value))
    }
}

/// The pairs with each pair of a second list.
pub open spec fn merged(
    pairs: Seq<(Seq<char>, Seq<char>)>,
    more: Seq<(Seq<char>, Seq<char>)>,
) -> Seq<(Seq<char>, Seq<char>)>
    decreases more.len(),
{
    if more.len() == 0 {
        pairs
    } else {
        with_pair(merged(pairs, more.drop_last()), more.last().0, more.last().1)
    }
}

/// The value that a name has.
pub open spec fn lookup(pairs: Seq<(Seq<char>, Seq<char>)>, key: Seq<char>) -> Option<Seq<char>> {
    let at = slot_of(pairs, key);
    if at < pairs.len() {
        Some(pairs[at].1)
    } else {
        None
    }
}

/// The first pair of a name is where none before it has that name.
pub proof fn lemma_slot_of(pairs: Seq<(Seq<char>, Seq<char>)>, key: Seq<char>, n: int)
    requires
        0 <= n <= pairs.len(),
        forall|i: int| 0 <= i < n ==> (#[trigger] pairs[i]).0 != key,
        n < pairs.len() ==> pairs[n].0 == key,
    ensures
        slot_of(pairs, key) == n,
    decreases n,
{
    if n > 0 {
        let rest = pairs.drop_first();
        assert forall|i: int| 0 <= i < n - 1 implies (#[trigger] rest[i]).0 != key by {
            assert(rest[i] == pairs[i + 1]);
        }
        lemma_slot_of(rest, key, n - 1);
    }
}

fn find_slot(pairs: &Vec<(String, String)>, key: &String) -> (r: usize)
    ensures
        r == slot_of(pair_views(pairs@), key@),
        r <= pairs.len(),
{
    let ghost all = pair_views(pairs@);
    let mut i: usize = 0;
    while i < pairs.len() && pairs[i].0 != *key
        invariant
            i <= pairs.len(),
            all == pair_views(pairs@),
            forall|k: int| 0 <= k < i ==> (#[trigger] all[k]).0 != key@,
        decreases pairs.len() - i,
    {
        i += 1;
    }
    proof {
        if i < pairs.len() {
            assert(all[i as int].0 == key@);
        }
        lemma_slot_of(all, key@, i as int);
    }
    i
}

/// Gives a name a value.
pub fn set_pair(pairs: &mut Vec<(String, String)>, key: String, value: String)
    ensures
        pair_views(final(pairs)@) == with_pair(pair_views(old(pairs)@), key@, value@),
{
    let ghost before = pair_views(pairs@);
    let at: usize = find_slot(pairs, &key);
    let ghost (k, v) = (key@, value@);
    if at < pairs.len() {
        pairs[at] = (key, value);
        assert(pair_views(pairs@) =~= before.update(at as int, (k, v)));
    } else {
        pairs.push((key, value));
        assert(pair_views(pairs@) =~= before.push((k, v)));
    }
}

/// Gives each name of a second list its value: those of the second list win.
pub fn merge_pairs(pairs: &mut Vec<(String, String)>, more: &Vec<(String, String)>)
    ensures
        pair_views(final(pairs)@) == merged(pair_views(old(pairs)@), pair_views(more@)),
{
    let ghost before = pair_views(pairs@);
    let ghost all = pair_views(more@);
    let mut i: usize = 0;
    assert(all.take(0) =~= Seq::<(Seq<char>, Seq<char>)>::empty());
    while i < more.len()
        invariant
            i <= more.len(),
            all == pair_views(more@),
            pair_views(pairs@) == merged(before, all.take(i as int)),
        decreases more.len() - i,
    {
        proof {
            assert(all.take(i + 1).drop_last() =~= all.take(i as int));
            assert(all.take(i + 1).last() == all[i as int]);
        }
        set_pair(pairs, more[i].0.clone(), more[i].1.clone());
        i += 1;
    }
    assert(all.take(i as int) =~= all);
}

/// The value that a name has.
pub fn get(pairs: &Vec<(String, String)>, key: &String) -> (r: Option<String>)
    ensures
        crate::text::opt_view(r) == lookup(pair_views(pairs@), key@),
{
    let at: usize = find_slot(pairs, key);
    if at < pairs.len() {
        assert(pair_views(pairs@)[at as int].1 == pairs@[at as int].1@);
        Some(pairs[at].1.clone())
    } else {
        None
    }
}

proof fn lemma_slot_bounds(pairs: Seq<(Seq<char>, Seq<char>)>, key: Seq<char>)
    ensures
        0 <= slot_of(pairs, key) <= pairs.len(),
        slot_of(pairs, key) < pairs.len() ==> pairs[slot_of(pairs, key)].0 == key,
        forall|i: int| 0 <= i < slot_of(pairs, key) ==> (#[trigger] pairs[i]).0 != key,
    decreases pairs.len(),
{
    if pairs.len() > 0 && pairs[0].0 != key {
        let rest = pairs.drop_first();
        lemma_slot_bounds(rest, key);
        assert forall|i: int| 0 <= i < slot_of(pairs, key) implies (#[trigger] pairs[i]).0
            != key by {
            if i > 0 {
                assert(pairs[i] == rest[i - 1]);
            }
        }
    }
}

/// After a name was given a value it has that value, and every other name has
/// the value it had.
pub proof fn law_with_pair(
    pairs: Seq<(Seq<char>, Seq<char>)>,
    key: Seq<char>,
    value: Seq<char>,
    other: Seq<char>,
)
    ensures
        lookup(with_pair(pairs, key, value), key) == Some(value),
        other != key ==> lookup(with_pair(pairs, key, value), other) == lookup(pairs, other),
{
    let at = slot_of(pairs, key);
    let out = with_pair(pairs, key, value);
    lemma_slot_bounds(pairs, key);
    lemma_slot_bounds(pairs, other);
    assert forall|i: int| 0 <= i < at implies (#[trigger] out[i]).0 != key by {
        assert(pairs[i].0 != key);
    }
    lemma_slot_of(out, key, at);
    if other != key {
        let there = slot_of(pairs, other);
        if there < pairs.len() {
            assert forall|i: int| 0 <= i < there implies (#[trigger] out[i]).0 != other by {
                assert(pairs[i].0 != other);
            }
            lemma_slot_of(out, other, there);
        } else {
            assert forall|i: int| 0 <= i < out.len() implies (#[trigger] out[i]).0 != other by {
                if i < pairs.len() {
                    assert(pairs[i].0 != other);
                }
            }
            lemma_slot_of(out, other, out.len() as int);
        }
    }
}

/// Of two lists that are merged, the second wins: a name that it holds has the
/// last value that it gives, every other name keeps its value.
pub proof fn law_merged(
    pairs: Seq<(Seq<char>, Seq<char>)>,
    more: Seq<(Seq<char>, Seq<char>)>,
    key: Seq<char>,
)
    ensures
        (forall|i: int| 0 <= i < more.len() ==> (#[trigger] more[i]).0 != key) ==> lookup(
            merged(pairs, more),
            key,
        ) == lookup(pairs, key),
        forall|i: int|
            0 <= i < more.len() && (#[trigger] more[i]).0 == key && (forall|j: int|
                i < j < more.len() ==> (#[trigger] more[j]).0 != key) ==> lookup(
                merged(pairs, more),
                key,
            ) == Some(more[i].1),
    decreases more.len(),
{
    if more.len() > 0 {
        let front = more.drop_last();
        law_merged(pairs, front, key);
        law_with_pair(merged(pairs, front), more.last().0, more.last().1, key);
        if forall|i: int| 0 <= i < more.len() ==> (#[trigger] more[i]).0 != key {
            assert forall|i: int| 0 <= i < front.len() implies (#[trigger] front[i]).0 != key by {
                assert(front[i] == more[i]);
            }
            assert(more[more.len() - 1].0 != key);
        }
        assert forall|i: int|
            0 <= i < more.len() && (#[trigger] more[i]).0 == key && (forall|j: int|
                i < j < more.len() ==> (#[trigger] more[j]).0 != key) implies lookup(
            merged(pairs, more),
            key,
        ) == Some(more[i].1) by {
            if i < more.len() - 1 {
                assert(front[i] == more[i]);
                assert(more[more.len() - 1].0 != key);
                assert forall|j: int| i < j < front.len() implies (#[trigger] front[j]).0
                    != key by {
                    assert(front[j] == more[j]);
                }
            } else {
                assert(more.last() == more[i]);
            }
        }
    }
}

/// Each name occurs once.
pub open spec fn named_once(pairs: Seq<(Seq<char>, Seq<char>)>) -> bool {
    forall|i: int, j: int|
        0 <= i < j < pairs.len() ==> (#[trigger] pairs[i]).0 != (#[trigger] pairs[j]).0
}

/// A name that is given a value stays the only one of its kind.
pub proof fn law_with_pair_named_once(
    pairs: Seq<(Seq<char>, Seq<char>)>,
    key: Seq<char>,
    value: Seq<char>,
)
    requires
        named_once(pairs),
    ensures
        named_once(with_pair(pairs, key, value)),
{
    let out = with_pair(pairs, key, value);
    lemma_slot_bounds(pairs, key);
    assert forall|i: int, j: int| 0 <= i < j < out.len() implies (#[trigger] out[i]).0 != (
    #[trigger] out[j]).0 by {
        if j < pairs.len() {
            assert(pairs[i].0 != pairs[j].0);
        } else {
            assert(pairs[i].0 != key);
        }
    }
}

/// Lists that are merged name each name once, where the first of them does.
pub proof fn law_merged_named_once(
    pairs: Seq<(Seq<char>, Seq<char>)>,
    more: Seq<(Seq<char>, Seq<char>)>,
)
    requires
        named_once(pairs),
    ensures
        named_once(merged(pairs, more)),
    decreases more.len(),
{
    if more.len() > 0 {
        law_merged_named_once(pairs, more.drop_last());
        law_with_pair_named_once(merged(pairs, more.drop_last()), more.last().0, more.last().1);
    }
}

} // verus!
