//! Ordering: text by code points, and a stable sort by a rank and a text.

use crate::text::chars_of;
use vstd::prelude::*;

verus! {

/// `a` stands before `b` in the order of code points.
pub open spec fn text_before(a: Seq<char>, b: Seq<char>) -> bool
    decreases b.len(),
{
    if b.len() == 0 {
        false
    } else if a.len() == 0 {
        true
    } else if a[0] == b[0] {
        text_before(a.drop_first(), b.drop_first())
    } else {
        (a[0] as u32) < (b[0] as u32)
    }
}

pub proof fn lemma_text_before_total(a: Seq<char>, b: Seq<char>)
    ensures
        text_before(a, b) || text_before(b, a) || a == b,
        !(text_before(a, b) && text_before(b, a)),
    decreases b.len(),
{
    if a.len() == 0 || b.len() == 0 {
        if a.len() == 0 && b.len() == 0 {
            assert(a =~= b);
        }
    } else {
        lemma_text_before_total(a.drop_first(), b.drop_first());
        if a[0] == b[0] && a.drop_first() == b.drop_first() {
            assert(a =~= seq![a[0]] + a.drop_first());
            assert(b =~= seq![b[0]] + b.drop_first());
        }
        if a[0] != b[0] {
            lemma_code_points_differ(a[0], b[0]);
        }
    }
}

proof fn lemma_code_points_differ(a: char, b: char)
    requires
        a != b,
    ensures
        a as u32 != b as u32,
{
}

pub proof fn lemma_text_before_transitive(a: Seq<char>, b: Seq<char>, c: Seq<char>)
    requires
        text_before(a, b),
        text_before(b, c),
    ensures
        text_before(a, c),
    decreases b.len(),
{
    if a.len() > 0 && b.len() > 0 && c.len() > 0 && a[0] == b[0] && b[0] == c[0] {
        lemma_text_before_transitive(a.drop_first(), b.drop_first(), c.drop_first());
    }
}

/// `str`'s `<`: the order of code points.
pub fn text_less(a: &str, b: &str) -> (r: bool)
    ensures
        r == text_before(a@, b@),
{
    let x = chars_of(a);
    let y = chars_of(b);
    let mut i: usize = 0;
    assert(a@.skip(0) =~= a@);
    assert(b@.skip(0) =~= b@);
    while i < x.len() && i < y.len() && x[i] == y[i]
        invariant
            x@ == a@,
            y@ == b@,
            i <= x.len(),
            i <= y.len(),
            text_before(a@, b@) == text_before(a@.skip(i as int), b@.skip(i as int)),
        decreases x.len() - i,
    {
        assert(a@.skip(i as int).drop_first() =~= a@.skip(i + 1));
        assert(b@.skip(i as int).drop_first() =~= b@.skip(i + 1));
        i += 1;
    }
    if i == y.len() {
        false
    } else if i == x.len() {
        true
    } else {
        (x[i] as u32) < (y[i] as u32)
    }
}

/// What a list is sorted by: a rank, and a text among equal ranks.
pub struct Key {
    pub rank: u64,
    pub text: String,
}

/// The value of a [`Key`].
pub ghost struct KeyView {
    pub rank: u64,
    pub text: Seq<char>,
}

impl View for Key {
    type V = KeyView;

    open spec fn view(&self) -> KeyView {
        KeyView { rank: self.rank, text: self.text@ }
    }
}

/// `a` sorts before `b`.
pub open spec fn key_before(a: KeyView, b: KeyView) -> bool {
    a.rank < b.rank || (a.rank == b.rank && text_before(a.text, b.text))
}

pub proof fn lemma_key_before_transitive(a: KeyView, b: KeyView, c: KeyView)
    requires
        key_before(a, b),
        key_before(b, c),
    ensures
        key_before(a, c),
{
    if a.rank == b.rank && b.rank == c.rank {
        lemma_text_before_transitive(a.text, b.text, c.text);
    }
}

pub proof fn lemma_key_before_total(a: KeyView, b: KeyView)
    ensures
        key_before(a, b) || key_before(b, a) || a == b,
        !(key_before(a, b) && key_before(b, a)),
{
    lemma_text_before_total(a.text, b.text);
}

/// Whether `a` sorts before `b`.
pub fn key_less(a: &Key, b: &Key) -> (r: bool)
    ensures
        r == key_before(a@, b@),
{
    a.rank < b.rank || (a.rank == b.rank && text_less(a.text.as_str(), b.text.as_str()))
}

/// `item` put into a sorted list, behind everything that does not sort after
/// it.
pub open spec fn inserted<T>(list: Seq<(KeyView, T)>, item: (KeyView, T)) -> Seq<(KeyView, T)>
    decreases list.len(),
{
    if list.len() == 0 || !key_before(item.0, list.last().0) {
        list.push(item)
    } else {
        inserted(list.drop_last(), item).push(list.last())
    }
}

/// The stable sort of a list by its keys.
pub open spec fn sorted<T>(list: Seq<(KeyView, T)>) -> Seq<(KeyView, T)>
    decreases list.len(),
{
    if list.len() == 0 {
        list
    } else {
        inserted(sorted(list.drop_last()), list.last())
    }
}

/// The items of a list of pairs.
pub open spec fn items<T>(list: Seq<(KeyView, T)>) -> Seq<T> {
    list.map_values(|p: (KeyView, T)| p.1)
}

/// Each item with its key.
pub open spec fn keyed<T>(list: Seq<T>, key: spec_fn(T) -> KeyView) -> Seq<(KeyView, T)> {
    list.map_values(|t: T| (key(t), t))
}

/// The stable sort of a list by what `key` gives for each item.
pub open spec fn sorted_by<T>(list: Seq<T>, key: spec_fn(T) -> KeyView) -> Seq<T> {
    items(sorted(keyed(list, key)))
}

/// No item sorts before an earlier one.
pub open spec fn in_order<T>(list: Seq<(KeyView, T)>) -> bool {
    forall|i: int, j: int|
        0 <= i < j < list.len() ==> !key_before(#[trigger] list[j].0, #[trigger] list[i].0)
}

pub proof fn lemma_inserted<T>(list: Seq<(KeyView, T)>, item: (KeyView, T))
    requires
        in_order(list),
    ensures
        in_order(inserted(list, item)),
        inserted(list, item).to_multiset() == list.to_multiset().insert(item),
        inserted(list, item).len() == list.len() + 1,
    decreases list.len(),
{
    broadcast use vstd::seq_lib::group_to_multiset_ensures;

    let r = inserted(list, item);
    if list.len() == 0 || !key_before(item.0, list.last().0) {
        assert(r == list.push(item));
        assert forall|i: int, j: int| 0 <= i < j < r.len() implies !key_before(
            #[trigger] r[j].0,
            #[trigger] r[i].0,
        ) by {
            if j == list.len() && i < list.len() - 1 {
                let last = list.last().0;
                assert(!key_before(last, list[i].0));
                lemma_key_before_total(last, list[i].0);
                if key_before(item.0, list[i].0) {
                    if key_before(list[i].0, last) {
                        lemma_key_before_transitive(item.0, list[i].0, last);
                    }
                }
            }
        }
    } else {
        let front = list.drop_last();
        let last = list.last();
        let inner = inserted(front, item);
        assert(in_order(front)) by {
            assert forall|i: int, j: int| 0 <= i < j < front.len() implies !key_before(
                #[trigger] front[j].0,
                #[trigger] front[i].0,
            ) by {
                assert(front[i] == list[i] && front[j] == list[j]);
            }
        }
        lemma_inserted(front, item);
        assert(front.push(last) =~= list);
        assert(list.to_multiset() == front.to_multiset().insert(last));
        assert(r.to_multiset() =~= list.to_multiset().insert(item));
        assert forall|i: int, j: int| 0 <= i < j < r.len() implies !key_before(
            #[trigger] r[j].0,
            #[trigger] r[i].0,
        ) by {
            if j == inner.len() {
                assert(r[j] == last);
                assert(inner.to_multiset().count(inner[i]) > 0) by {
                    assert(inner.contains(inner[i]));
                }
                lemma_key_before_total(item.0, last.0);
                if inner[i] != item {
                    assert(front.to_multiset().count(inner[i]) > 0);
                    assert(front.contains(inner[i]));
                    let k = choose|k: int| 0 <= k < front.len() && front[k] == inner[i];
                    assert(front[k] == list[k]);
                    assert(!key_before(list[list.len() - 1].0, list[k].0));
                }
            }
        }
    }
}

/// Sorting puts every item in order and keeps each of them.
pub proof fn lemma_sorted<T>(list: Seq<(KeyView, T)>)
    ensures
        in_order(sorted(list)),
        sorted(list).to_multiset() == list.to_multiset(),
        sorted(list).len() == list.len(),
    decreases list.len(),
{
    broadcast use vstd::seq_lib::group_to_multiset_ensures;

    if list.len() > 0 {
        lemma_sorted(list.drop_last());
        lemma_inserted(sorted(list.drop_last()), list.last());
        assert(list.drop_last().push(list.last()) =~= list);
    }
}

proof fn lemma_inserted_at<T>(list: Seq<(KeyView, T)>, item: (KeyView, T), at: int)
    requires
        0 <= at <= list.len(),
        forall|k: int| at <= k < list.len() ==> key_before(item.0, #[trigger] list[k].0),
        0 < at ==> !key_before(item.0, list[at - 1].0),
    ensures
        inserted(list, item) == list.insert(at, item),
    decreases list.len() - at,
{
    if at == list.len() {
        assert(list.insert(at, item) =~= list.push(item));
    } else {
        lemma_inserted_at(list.drop_last(), item, at);
        assert(list.insert(at, item) =~= list.drop_last().insert(at, item).push(list.last()));
    }
}

/// Keys and items side by side.
pub open spec fn paired<T>(keys: Seq<Key>, list: Seq<T>) -> Seq<(KeyView, T)> {
    Seq::new(list.len(), |i: int| (keys[i]@, list[i]))
}

/// The stable sort of `list` by `keys`, which stand in the same order.
pub fn stable_sort<T>(list: Vec<T>, keys: Vec<Key>) -> (r: Vec<T>)
    requires
        list.len() == keys.len(),
    ensures
        r@ == items(sorted(paired(keys@, list@))),
        r.len() == list.len(),
{
    let ghost all = paired(keys@, list@);
    let mut rest = list;
    let mut rest_keys = keys;
    let mut out: Vec<T> = Vec::new();
    let mut out_keys: Vec<Key> = Vec::new();
    assert(all.skip(0) =~= all);
    assert(paired(out_keys@, out@) =~= sorted(all.take(0)));
    while rest.len() > 0
        invariant
            rest.len() == rest_keys.len(),
            out.len() == out_keys.len(),
            out.len() + rest.len() == all.len(),
            paired(rest_keys@, rest@) == all.skip(out.len() as int),
            paired(out_keys@, out@) == sorted(all.take(out.len() as int)),
        decreases rest.len(),
    {
        let ghost n = out.len() as int;
        let ghost before = paired(out_keys@, out@);
        let ghost left = paired(rest_keys@, rest@);
        let item = rest.remove(0);
        let key = rest_keys.remove(0);
        let ghost pair = (key@, item);
        proof {
            assert(left[0] == pair);
            assert(all[n] == pair);
            assert(paired(rest_keys@, rest@) =~= left.drop_first());
            assert(left.drop_first() =~= all.skip(n + 1));
        }
        let mut at: usize = out.len();
        while at > 0 && key_less(&key, &out_keys[at - 1])
            invariant
                at <= out.len(),
                out.len() == out_keys.len(),
                forall|k: int| at <= k < out.len() ==> key_before(key@, #[trigger] out_keys[k]@),
            decreases at,
        {
            at -= 1;
        }
        proof {
            assert forall|k: int| at <= k < before.len() implies key_before(
                pair.0,
                #[trigger] before[k].0,
            ) by {
                assert(key_before(key@, out_keys[k]@));
            }
            lemma_inserted_at(before, pair, at as int);
            assert(all.take(n + 1).drop_last() =~= all.take(n));
        }
        out.insert(at, item);
        out_keys.insert(at, key);
        assert(paired(out_keys@, out@) =~= before.insert(at as int, pair));
    }
    proof {
        assert(all.take(out.len() as int) =~= all);
        assert(out@ =~= items(paired(out_keys@, out@)));
    }
    out
}

proof fn lemma_same_last<T>(a: Seq<(KeyView, T)>, b: Seq<(KeyView, T)>)
    requires
        in_order(a),
        in_order(b),
        a.to_multiset() == b.to_multiset(),
        a.len() > 0,
        b.len() > 0,
        forall|i: int, j: int|
            0 <= i < a.len() && 0 <= j < a.len() && i != j ==> #[trigger] a[i].0
                != #[trigger] a[j].0,
    ensures
        a.last() == b.last(),
{
    broadcast use vstd::seq_lib::group_to_multiset_ensures;

    let x = a.last();
    let y = b.last();
    assert(b.contains(y));
    assert(a.to_multiset().count(y) > 0);
    assert(a.contains(y));
    let i = choose|i: int| 0 <= i < a.len() && a[i] == y;
    assert(a.contains(x));
    assert(b.to_multiset().count(x) > 0);
    assert(b.contains(x));
    let j = choose|j: int| 0 <= j < b.len() && b[j] == x;
    lemma_key_before_total(x.0, y.0);
    if i < a.len() - 1 {
        assert(!key_before(a[a.len() - 1].0, a[i].0));
        assert(a[i].0 != a[a.len() - 1].0);
    }
    if j < b.len() - 1 {
        assert(!key_before(b[b.len() - 1].0, b[j].0));
    }
}

/// Two lists in order with the same items, whose keys all differ, are equal.
proof fn lemma_in_order_unique<T>(a: Seq<(KeyView, T)>, b: Seq<(KeyView, T)>)
    requires
        in_order(a),
        in_order(b),
        a.to_multiset() == b.to_multiset(),
        forall|i: int, j: int|
            0 <= i < a.len() && 0 <= j < a.len() && i != j ==> #[trigger] a[i].0
                != #[trigger] a[j].0,
    ensures
        a == b,
    decreases a.len(),
{
    broadcast use vstd::seq_lib::group_to_multiset_ensures;

    assert(a.len() == a.to_multiset().len());
    assert(b.len() == b.to_multiset().len());
    if a.len() == 0 {
        assert(a =~= b);
    } else {
        lemma_same_last(a, b);
        let x = a.drop_last();
        let y = b.drop_last();
        assert(x.push(a.last()) =~= a);
        assert(y.push(b.last()) =~= b);
        assert(a.to_multiset().remove(a.last()) =~= x.to_multiset());
        assert(b.to_multiset().remove(b.last()) =~= y.to_multiset());
        lemma_in_order_unique(x, y);
    }
}

/// Where all keys differ, the sorted list does not depend on the order of the
/// items.
pub proof fn lemma_sorted_of_any_order<T>(a: Seq<(KeyView, T)>, b: Seq<(KeyView, T)>)
    requires
        a.to_multiset() == b.to_multiset(),
        forall|i: int, j: int|
            0 <= i < a.len() && 0 <= j < a.len() && i != j ==> #[trigger] a[i].0
                != #[trigger] a[j].0,
    ensures
        sorted(a) == sorted(b),
{
    lemma_sorted(a);
    lemma_sorted(b);
    lemma_distinct_of_multiset(a, sorted(a));
    lemma_in_order_unique(sorted(a), sorted(b));
}

/// How many pairs of a list have the key `k`.
pub open spec fn with_key<T>(list: Seq<(KeyView, T)>, k: KeyView) -> nat
    decreases list.len(),
{
    if list.len() == 0 {
        0
    } else {
        with_key(list.drop_last(), k) + if list.last().0 == k {
            1nat
        } else {
            0
        }
    }
}

proof fn lemma_with_key_counts<T>(list: Seq<(KeyView, T)>, i: int)
    requires
        0 <= i < list.len(),
    ensures
        with_key(list, list[i].0) >= 1,
        forall|j: int|
            0 <= j < list.len() && j != i && #[trigger] list[j].0 == list[i].0 ==> with_key(
                list,
                list[i].0,
            ) >= 2,
    decreases list.len(),
{
    let k = list[i].0;
    let front = list.drop_last();
    if i < front.len() {
        lemma_with_key_counts(front, i);
        assert forall|j: int| 0 <= j < list.len() && j != i && #[trigger] list[j].0 == k implies with_key(
            list,
            k,
        ) >= 2 by {
            if j < front.len() {
                assert(front[j].0 == k);
            }
        }
    } else {
        assert forall|j: int| 0 <= j < list.len() && j != i && #[trigger] list[j].0 == k implies with_key(
            list,
            k,
        ) >= 2 by {
            lemma_with_key_counts(front, j);
        }
    }
}

proof fn lemma_with_key_at_most_one<T>(list: Seq<(KeyView, T)>, k: KeyView)
    requires
        forall|i: int, j: int|
            0 <= i < list.len() && 0 <= j < list.len() && i != j ==> #[trigger] list[i].0
                != #[trigger] list[j].0,
    ensures
        with_key(list, k) <= 1,
        with_key(list, k) == 1 ==> exists|i: int| 0 <= i < list.len() && list[i].0 == k,
    decreases list.len(),
{
    if list.len() > 0 {
        let front = list.drop_last();
        lemma_with_key_at_most_one(front, k);
        if list.last().0 == k {
            assert(list[list.len() - 1].0 == k);
            if with_key(front, k) == 1 {
                let i = choose|i: int| 0 <= i < front.len() && front[i].0 == k;
                assert(list[i].0 == list[list.len() - 1].0);
            }
        } else if with_key(front, k) == 1 {
            let i = choose|i: int| 0 <= i < front.len() && front[i].0 == k;
            assert(list[i].0 == k);
        }
    }
}

proof fn lemma_with_key_of_multiset<T>(a: Seq<(KeyView, T)>, b: Seq<(KeyView, T)>, k: KeyView)
    requires
        a.to_multiset() == b.to_multiset(),
    ensures
        with_key(a, k) == with_key(b, k),
    decreases a.len(),
{
    broadcast use vstd::seq_lib::group_to_multiset_ensures;

    assert(a.len() == a.to_multiset().len());
    assert(b.len() == b.to_multiset().len());
    if a.len() > 0 {
        let x = a.last();
        assert(a.contains(x));
        assert(b.to_multiset().count(x) > 0);
        assert(b.contains(x));
        let j = choose|j: int| 0 <= j < b.len() && b[j] == x;
        lemma_with_key_remove(b, j, k);
        assert(a.drop_last().push(x) =~= a);
        assert(a.drop_last().to_multiset() =~= a.to_multiset().remove(x));
        assert(b.remove(j).to_multiset() =~= b.to_multiset().remove(x));
        lemma_with_key_of_multiset(a.drop_last(), b.remove(j), k);
    }
}

proof fn lemma_with_key_remove<T>(b: Seq<(KeyView, T)>, j: int, k: KeyView)
    requires
        0 <= j < b.len(),
    ensures
        with_key(b, k) == with_key(b.remove(j), k) + if b[j].0 == k {
            1nat
        } else {
            0
        },
    decreases b.len(),
{
    if j < b.len() - 1 {
        lemma_with_key_remove(b.drop_last(), j, k);
        assert(b.remove(j).drop_last() =~= b.drop_last().remove(j));
        assert(b.remove(j).last() == b.last());
    } else {
        assert(b.remove(j) =~= b.drop_last());
    }
}

proof fn lemma_distinct_of_multiset<T>(a: Seq<(KeyView, T)>, b: Seq<(KeyView, T)>)
    requires
        a.to_multiset() == b.to_multiset(),
        forall|i: int, j: int|
            0 <= i < a.len() && 0 <= j < a.len() && i != j ==> #[trigger] a[i].0
                != #[trigger] a[j].0,
    ensures
        forall|i: int, j: int|
            0 <= i < b.len() && 0 <= j < b.len() && i != j ==> #[trigger] b[i].0
                != #[trigger] b[j].0,
{
    assert forall|i: int, j: int| 0 <= i < b.len() && 0 <= j < b.len() && i != j implies #[trigger] b[i].0
        != #[trigger] b[j].0 by {
        if b[i].0 == b[j].0 {
            lemma_with_key_counts(b, i);
            lemma_with_key_of_multiset(a, b, b[i].0);
            lemma_with_key_at_most_one(a, b[i].0);
        }
    }
}

/// The pairs with another item beside each key.
pub open spec fn mapped<T, U>(list: Seq<(KeyView, T)>, f: spec_fn(T) -> U) -> Seq<(KeyView, U)> {
    list.map_values(|p: (KeyView, T)| (p.0, f(p.1)))
}

proof fn lemma_inserted_mapped<T, U>(
    list: Seq<(KeyView, T)>,
    item: (KeyView, T),
    f: spec_fn(T) -> U,
)
    ensures
        mapped(inserted(list, item), f) == inserted(mapped(list, f), (item.0, f(item.1))),
    decreases list.len(),
{
    if list.len() == 0 || !key_before(item.0, list.last().0) {
        assert(mapped(list.push(item), f) =~= mapped(list, f).push((item.0, f(item.1))));
    } else {
        lemma_inserted_mapped(list.drop_last(), item, f);
        assert(mapped(list, f).drop_last() =~= mapped(list.drop_last(), f));
        let inner = inserted(list.drop_last(), item);
        let last = list.last();
        assert(mapped(inner.push(last), f) =~= mapped(inner, f).push((last.0, f(last.1))));
    }
}

/// Sorting only looks at the keys.
pub proof fn lemma_sorted_mapped<T, U>(list: Seq<(KeyView, T)>, f: spec_fn(T) -> U)
    ensures
        mapped(sorted(list), f) == sorted(mapped(list, f)),
    decreases list.len(),
{
    if list.len() == 0 {
        assert(mapped(sorted(list), f) =~= sorted(mapped(list, f)));
    } else {
        lemma_sorted_mapped(list.drop_last(), f);
        lemma_inserted_mapped(sorted(list.drop_last()), list.last(), f);
        assert(mapped(list, f).drop_last() =~= mapped(list.drop_last(), f));
    }
}

/// Where each item stands beside the key that `key` gives it, it does so in the
/// sorted list too.
pub proof fn lemma_sorted_keeps_keys<T>(list: Seq<(KeyView, T)>, key: spec_fn(T) -> KeyView)
    requires
        forall|i: int| 0 <= i < list.len() ==> (#[trigger] list[i]).0 == key(list[i].1),
    ensures
        sorted(list).len() == list.len(),
        forall|i: int|
            0 <= i < sorted(list).len() ==> (#[trigger] sorted(list)[i]).0 == key(
                sorted(list)[i].1,
            ) && list.contains(sorted(list)[i]),
{
    broadcast use vstd::seq_lib::group_to_multiset_ensures;

    lemma_sorted(list);
    let out = sorted(list);
    assert forall|i: int| 0 <= i < out.len() implies (#[trigger] out[i]).0 == key(out[i].1)
        && list.contains(out[i]) by {
        assert(out.contains(out[i]));
        assert(out.to_multiset().count(out[i]) > 0);
        assert(list.contains(out[i]));
        let k = choose|k: int| 0 <= k < list.len() && list[k] == out[i];
        assert(list[k].0 == key(list[k].1));
    }
}

/// A list that is sorted by what `key` gives is in order and has the items that
/// it had.
pub proof fn lemma_sorted_by<T>(list: Seq<T>, key: spec_fn(T) -> KeyView)
    ensures
        sorted_by(list, key).len() == list.len(),
        sorted_by(list, key).to_multiset() == list.to_multiset(),
        forall|i: int, j: int|
            0 <= i < j < list.len() ==> !key_before(
                key(#[trigger] sorted_by(list, key)[j]),
                key(#[trigger] sorted_by(list, key)[i]),
            ),
{
    let pairs = keyed(list, key);
    lemma_sorted_keeps_keys(pairs, key);
    lemma_sorted(pairs);
    let out = sorted(pairs);
    lemma_items_multiset(out, pairs);
    assert(items(pairs) =~= list);
    assert forall|i: int, j: int| 0 <= i < j < list.len() implies !key_before(
        key(#[trigger] sorted_by(list, key)[j]),
        key(#[trigger] sorted_by(list, key)[i]),
    ) by {
        assert(!key_before(out[j].0, out[i].0));
        assert(out[j].0 == key(out[j].1));
        assert(out[i].0 == key(out[i].1));
    }
}

proof fn lemma_items_multiset<T>(a: Seq<(KeyView, T)>, b: Seq<(KeyView, T)>)
    requires
        a.to_multiset() == b.to_multiset(),
    ensures
        items(a).to_multiset() == items(b).to_multiset(),
    decreases a.len(),
{
    broadcast use vstd::seq_lib::group_to_multiset_ensures;

    assert(a.len() == a.to_multiset().len());
    assert(b.len() == b.to_multiset().len());
    if a.len() == 0 {
        assert(a =~= b);
    } else {
        let x = a.last();
        assert(a.contains(x));
        assert(b.to_multiset().count(x) > 0);
        assert(b.contains(x));
        let j = choose|j: int| 0 <= j < b.len() && b[j] == x;
        let front = a.drop_last();
        let rest = b.remove(j);
        assert(front.push(x) =~= a);
        assert(front.to_multiset() =~= a.to_multiset().remove(x));
        assert(rest.to_multiset() =~= b.to_multiset().remove(x));
        lemma_items_multiset(front, rest);
        let ia = items(a);
        let ib = items(b);
        assert(ia =~= items(front).push(x.1));
        assert(ib[j] == x.1);
        assert(ib.remove(j) =~= items(rest));
        assert(ib.contains(x.1));
        assert(ib.to_multiset().count(x.1) > 0);
        assert(ib.remove(j).to_multiset() =~= ib.to_multiset().remove(x.1));
        assert(ia.to_multiset() =~= ib.to_multiset());
    }
}

} // verus!
