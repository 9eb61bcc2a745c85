//! Which items the bars show, and in which order.

use crate::text::{
    dec, decimal, join, joined, law_decimal_round_trip, lemma_split_append,
    lemma_split_one, number, parse_unsigned, split, split_at_each, trim, trimmed, views,
};
use vstd::prelude::*;

verus! {

/// Every item but one.
pub open spec fn other_than(id: u32) -> spec_fn(u32) -> bool {
    |known: u32| known != id
}

/// The hidden items after one was shown or hidden.
pub open spec fn with_visibility(hidden: Seq<u32>, id: u32, visible: bool) -> Seq<u32> {
    let others = hidden.filter(other_than(id));
    if visible {
        others
    } else {
        others.push(id)
    }
}

/// Shows or hides an item.
pub fn set_chrome_item_visible(hidden: &mut Vec<u32>, id: u32, visible: bool)
    ensures
        final(hidden)@ == with_visibility(old(hidden)@, id, visible),
{
    let ghost keep = other_than(id);
    let ghost before = hidden@;
    let mut out: Vec<u32> = Vec::new();
    let mut i: usize = 0;
    assert(before.take(0).filter(keep) =~= Seq::<u32>::empty()) by {
        reveal(Seq::filter);
    }
    while i < hidden.len()
        invariant
            i <= hidden.len(),
            hidden@ == before,
            keep == other_than(id),
            out@ == before.take(i as int).filter(keep),
        decreases hidden.len() - i,
    {
        proof {
            reveal(Seq::filter);
            assert(before.take(i + 1).drop_last() =~= before.take(i as int));
            assert(before.take(i + 1).last() == before[i as int]);
        }
        if hidden[i] != id {
            out.push(hidden[i]);
        }
        i += 1;
    }
    assert(before.take(i as int) =~= before);
    if !visible {
        out.push(id);
    }
    *hidden = out;
}

/// Whether an item is shown.
pub fn is_visible(hidden: &Vec<u32>, id: u32) -> (r: bool)
    ensures
        r == !hidden@.contains(id),
{
    let mut i: usize = 0;
    while i < hidden.len()
        invariant
            i <= hidden.len(),
            forall|k: int| 0 <= k < i ==> hidden[k] != id,
        decreases hidden.len() - i,
    {
        if hidden[i] == id {
            return false;
        }
        i += 1;
    }
    true
}

proof fn lemma_filter(list: Seq<u32>, id: u32, other: u32)
    ensures
        list.filter(other_than(id)).contains(other) <==> list.contains(other) && other
            != id,
    decreases list.len(),
{
    reveal(Seq::filter);
    let keep = other_than(id);
    if list.len() > 0 {
        let front = list.drop_last();
        let last = list.last();
        lemma_filter(front, id, other);
        let out = front.filter(keep);
        assert(list.contains(other) <==> front.contains(other) || other == last) by {
            if list.contains(other) {
                let i = choose|i: int| 0 <= i < list.len() && list[i] == other;
                if i < front.len() {
                    assert(front[i] == other);
                }
            }
            if front.contains(other) {
                let i = choose|i: int| 0 <= i < front.len() && front[i] == other;
                assert(list[i] == other);
            }
            assert(list[list.len() - 1] == last);
        }
        if keep(last) {
            assert(out.push(last).contains(other) <==> out.contains(other) || other == last) by {
                if out.push(last).contains(other) {
                    let i = choose|i: int|
                        0 <= i < out.push(last).len() && out.push(last)[i] == other;
                    if i < out.len() {
                        assert(out[i] == other);
                    }
                }
                if out.contains(other) {
                    let i = choose|i: int| 0 <= i < out.len() && out[i] == other;
                    assert(out.push(last)[i] == other);
                }
                assert(out.push(last)[out.len() as int] == last);
            }
        }
    }
}

/// An item is shown or hidden as was asked for, and every other item stays as
/// it was.
pub proof fn law_visibility(hidden: Seq<u32>, id: u32, visible: bool, other: u32)
    ensures
        with_visibility(hidden, id, visible).contains(id) == !visible,
        other != id ==> with_visibility(hidden, id, visible).contains(other) == hidden.contains(
            other,
        ),
{
    lemma_filter(hidden, id, id);
    lemma_filter(hidden, id, other);
    let others = hidden.filter(other_than(id));
    if !visible {
        let out = others.push(id);
        assert(out == with_visibility(hidden, id, visible));
        assert(out[others.len() as int] == id);
        assert(out.contains(id));
        if others.contains(other) {
            let i = choose|i: int| 0 <= i < others.len() && others[i] == other;
            assert(out[i] == other);
        }
        if out.contains(other) && other != id {
            let i = choose|i: int| 0 <= i < out.len() && out[i] == other;
            assert(others[i] == other);
        }
    }
}

/// The numbers of a list of texts, where each of them is one.
pub open spec fn numbers_of(parts: Seq<Seq<char>>) -> Option<Seq<u32>>
    decreases parts.len(),
{
    if parts.len() == 0 {
        Some(Seq::empty())
    } else {
        match (
            numbers_of(parts.drop_last()),
            number(trimmed(parts.last()), u32::MAX as int),
        ) {
            (Some(before), Some(n)) => Some(before.push(n as u32)),
            _ => None,
        }
    }
}

/// An order in words: numbers between commas; nothing is an empty order.
pub open spec fn order_of(text: Seq<char>) -> Option<Seq<u32>> {
    if trimmed(text).len() == 0 {
        Some(Seq::empty())
    } else {
        numbers_of(split_at_each(text, ','))
    }
}

proof fn lemma_numbers_prefix(parts: Seq<Seq<char>>, n: int)
    requires
        0 <= n <= parts.len(),
        numbers_of(parts.take(n)) is None,
    ensures
        numbers_of(parts) is None,
    decreases parts.len(),
{
    if n == parts.len() {
        assert(parts.take(n) =~= parts);
    } else {
        assert(parts.drop_last().take(n) =~= parts.take(n));
        lemma_numbers_prefix(parts.drop_last(), n);
    }
}

/// The order that was entered; None where something in it is no number.
pub fn parse_chrome_order(text: &str) -> (r: Option<Vec<u32>>)
    ensures
        match order_of(text@) {
            Some(list) => r is Some && r->Some_0@ == list,
            None => r is None,
        },
{
    let mut out: Vec<u32> = Vec::new();
    if trim(text).as_str().is_empty() {
        assert(out@ =~= Seq::<u32>::empty());
        return Some(out);
    }
    let parts = split(text, ',');
    let ghost all = views(parts@);
    let mut i: usize = 0;
    assert(out@ =~= Seq::<u32>::empty());
    assert(all.take(0) =~= Seq::<Seq<char>>::empty());
    while i < parts.len()
        invariant
            i <= parts.len(),
            all == views(parts@),
            all == split_at_each(text@, ','),
            trimmed(text@).len() > 0,
            numbers_of(all.take(i as int)) == Some(out@),
        decreases parts.len() - i,
    {
        proof {
            assert(all.take(i + 1).drop_last() =~= all.take(i as int));
            assert(all.take(i + 1).last() == parts@[i as int]@);
        }
        match parse_unsigned(trim(parts[i].as_str()).as_str(), 0xFFFF_FFFF) {
            Some(n) => {
                out.push(n as u32);
            },
            None => {
                proof {
                    lemma_numbers_prefix(all, i + 1);
                }
                return None;
            },
        }
        i += 1;
    }
    assert(all.take(i as int) =~= all);
    Some(out)
}

pub open spec fn digits_of(order: Seq<u32>) -> Seq<Seq<char>> {
    order.map_values(|n: u32| dec(n as nat))
}

/// An order in words.
pub fn order_text(order: &Vec<u32>) -> (r: String)
    ensures
        r@ == joined(digits_of(order@), ", "@),
{
    let mut parts: Vec<String> = Vec::new();
    let mut i: usize = 0;
    while i < order.len()
        invariant
            i <= order.len(),
            views(parts@) == digits_of(order@.take(i as int)),
        decreases order.len() - i,
    {
        let text = decimal(order[i] as u64);
        proof {
            crate::text::lemma_views_push(parts@, text);
            assert(digits_of(order@.take(i + 1)) =~= digits_of(order@.take(i as int)).push(text@));
        }
        parts.push(text);
        i += 1;
    }
    assert(order@.take(i as int) =~= order@);
    join(&parts, ", ")
}

proof fn lemma_digits(n: u32)
    ensures
        !dec(n as nat).contains(','),
        dec(n as nat).len() > 0,
        trimmed(dec(n as nat)) == dec(n as nat),
        trimmed(seq![' '] + dec(n as nat)) == dec(n as nat),
        number(dec(n as nat), u32::MAX as int) == Some(n as int),
{
    let d = dec(n as nat);
    law_decimal_round_trip(n as nat);
    let sp = crate::text::spaces();
    if d.contains(',') {
        let i = choose|i: int| 0 <= i < d.len() && d[i] == ',';
        assert(crate::text::is_digit(d[i]));
    }
    assert(crate::text::is_digit(d[0]));
    assert(crate::text::is_digit(d[d.len() - 1]));
    crate::text::lemma_trim_front(d, sp, 0);
    assert(d.subrange(0, d.len() as int) =~= d);
    crate::text::lemma_trim_back(d, sp, d.len() as int);
    let e = seq![' '] + d;
    assert(e[0] == ' ');
    assert(e[1] == d[0]);
    crate::text::lemma_trim_front(e, sp, 1);
    assert(e.subrange(1, e.len() as int) =~= d);
}

proof fn lemma_order_splits(order: Seq<u32>)
    requires
        order.len() > 0,
    ensures
        ({
            let text = joined(digits_of(order), ", "@);
            let parts = split_at_each(text, ',');
            &&& numbers_of(parts) == Some(order)
            &&& text.len() > 0
            &&& text[0] == dec(order[0] as nat)[0]
        }),
    decreases order.len(),
{
    reveal_strlit(", ");
    let last = order.last();
    let d = dec(last as nat);
    lemma_digits(last);
    if order.len() == 1 {
        assert(digits_of(order) =~= seq![d]);
        let text = joined(digits_of(order), ", "@);
        assert(text == d);
        lemma_split_one(d, ',');
        let parts = split_at_each(text, ',');
        assert(parts.drop_last() =~= Seq::<Seq<char>>::empty());
        assert(parts.last() == d);
        assert(numbers_of(parts.drop_last()) == Some(Seq::<u32>::empty()));
        assert(Seq::<u32>::empty().push(last) =~= order);
    } else {
        let front = order.drop_last();
        lemma_order_splits(front);
        assert(digits_of(order).drop_last() =~= digits_of(front));
        assert(digits_of(order).last() == d);
        let a = joined(digits_of(front), ", "@);
        let text = joined(digits_of(order), ", "@);
        let b = seq![' '] + d;
        assert(", "@ =~= seq![',', ' ']);
        assert(text =~= a.push(',') + b);
        assert(!b.contains(',')) by {
            if b.contains(',') {
                let i = choose|i: int| 0 <= i < b.len() && b[i] == ',';
                if i > 0 {
                    assert(d[i - 1] == ',');
                }
            }
        }
        lemma_split_append(a, ',', b);
        let parts = split_at_each(text, ',');
        assert(parts.drop_last() =~= split_at_each(a, ','));
        assert(parts.last() == b);
        assert(front.push(last) =~= order);
        assert(text[0] == a[0]);
    }
}

/// An order that is put in words is read back as it was.
pub proof fn law_order_round_trip(order: Seq<u32>)
    ensures
        order_of(joined(digits_of(order), ", "@)) == Some(order),
{
    let text = joined(digits_of(order), ", "@);
    let sp = crate::text::spaces();
    if order.len() == 0 {
        assert(text.len() == 0);
        assert(Seq::<u32>::empty() =~= order);
    } else {
        lemma_order_splits(order);
        lemma_digits(order[0]);
        law_decimal_round_trip(order[0] as nat);
        assert(crate::text::is_digit(dec(order[0] as nat)[0]));
        crate::text::lemma_trim_front(text, sp, 0);
        assert(text.subrange(0, text.len() as int) =~= text);
        lemma_trim_back_nonempty(text, sp);
    }
}

proof fn lemma_trim_back_nonempty(s: Seq<char>, p: spec_fn(char) -> bool)
    requires
        s.len() > 0,
        !p(s[0]),
    ensures
        crate::text::trim_back(s, p).len() > 0,
    decreases s.len(),
{
    if p(s.last()) {
        assert(s.drop_last()[0] == s[0]);
        lemma_trim_back_nonempty(s.drop_last(), p);
    }
}

/// The two bars.
#[derive(Debug, Clone, Copy, PartialEq, Eq, Structural)]
pub enum Bar {
    Top,
    Side,
}

/// The items of a bar that can be shown and hidden, with their numbers.
pub open spec fn items_of(bar: Bar) -> Seq<(Seq<char>, u32)> {
    match bar {
        Bar::Top => seq![
            ("Network"@, 100u32),
            ("Bluetooth"@, 101u32),
            ("Audio"@, 102u32),
            ("HDR display status"@, 103u32),
            ("Power"@, 104u32),
            ("Camera"@, 105u32),
            ("Do Not Disturb"@, 106u32),
            ("Notifications"@, 107u32),
            ("Microphone"@, 108u32),
            ("System updates"@, 109u32),
        ],
        Bar::Side => seq![
            ("Settings"@, 1001u32),
            ("Launcher"@, 1000u32),
            ("Browser"@, 1005u32),
            ("Terminal"@, 1006u32),
            ("Files"@, 1007u32),
        ],
    }
}

/// The items of a bar.
pub fn bar_items(bar: Bar) -> (r: Vec<(&'static str, u32)>)
    ensures
        r.len() == items_of(bar).len(),
        forall|i: int|
            0 <= i < r.len() ==> ((#[trigger] r[i]).0@, r[i].1) == items_of(bar)[i],
{
    let mut out: Vec<(&'static str, u32)> = Vec::new();
    match bar {
        Bar::Top => {
            out.push(("Network", 100));
            out.push(("Bluetooth", 101));
            out.push(("Audio", 102));
            out.push(("HDR display status", 103));
            out.push(("Power", 104));
            out.push(("Camera", 105));
            out.push(("Do Not Disturb", 106));
            out.push(("Notifications", 107));
            out.push(("Microphone", 108));
            out.push(("System updates", 109));
        },
        Bar::Side => {
            out.push(("Settings", 1001));
            out.push(("Launcher", 1000));
            out.push(("Browser", 1005));
            out.push(("Terminal", 1006));
            out.push(("Files", 1007));
        },
    }
    out
}

/// The switches of a bar: the title and number of each item, and whether it is
/// shown.
pub fn bar_switches(bar: Bar, hidden: &Vec<u32>) -> (r: Vec<(&'static str, u32, bool)>)
    ensures
        r.len() == items_of(bar).len(),
        forall|i: int|
            0 <= i < r.len() ==> ((#[trigger] r[i]).0@, r[i].1) == items_of(bar)[i] && r[i].2
                == !hidden@.contains(items_of(bar)[i].1),
{
    let items = bar_items(bar);
    let mut out: Vec<(&'static str, u32, bool)> = Vec::new();
    let mut i: usize = 0;
    while i < items.len()
        invariant
            i <= items.len(),
            out.len() == i,
            items.len() == items_of(bar).len(),
            forall|k: int|
                0 <= k < items.len() ==> ((#[trigger] items[k]).0@, items[k].1) == items_of(bar)[k],
            forall|k: int|
                0 <= k < i ==> ((#[trigger] out[k]).0@, out[k].1) == items_of(bar)[k] && out[k].2
                    == !hidden@.contains(items_of(bar)[k].1),
        decreases items.len() - i,
    {
        let (title, id) = items[i];
        assert(items[i as int].1 == id);
        out.push((title, id, is_visible(hidden, id)));
        i += 1;
    }
    out
}

/// Turning one switch of a bar leaves the others as they were: every item has
/// a number of its own.
pub proof fn law_switches_are_separate(
    bar: Bar,
    hidden: Seq<u32>,
    i: int,
    j: int,
    visible: bool,
)
    requires
        0 <= i < items_of(bar).len(),
        0 <= j < items_of(bar).len(),
    ensures
        ({
            let after = with_visibility(hidden, items_of(bar)[i].1, visible);
            let other = items_of(bar)[j].1;
            after.contains(other) == if i == j {
                !visible
            } else {
                hidden.contains(other)
            }
        }),
{
    let id = items_of(bar)[i].1;
    let other = items_of(bar)[j].1;
    assert(i != j ==> id != other);
    law_visibility(hidden, id, visible, other);
}

} // verus!
