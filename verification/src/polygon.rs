//! Even-odd filling of a polygon whose corners stand on whole pixels.

use crate::font::{everywhere, lemma_points_push, points, scan_row};
use vstd::prelude::*;

verus! {

/// An edge from `p` to `q` crosses the middle of the row `y`.
pub open spec fn crosses(p: (int, int), q: (int, int), y: int) -> bool {
    (p.1 <= y < q.1) || (q.1 <= y < p.1)
}

/// `num / den` rounded to the nearest integer, halves away from zero.
pub open spec fn round_ratio(num: int, den: int) -> int {
    if num >= 0 {
        (2 * num + den) / (2 * den)
    } else {
        -((2 * (-num) + den) / (2 * den))
    }
}

/// Where an edge crosses the middle of the row `y`, to the nearest pixel:
/// `upper.x + (y + 1/2 - upper.y) * (lower.x - upper.x) / (lower.y - upper.y)`.
pub open spec fn crossing(p: (int, int), q: (int, int), y: int) -> int {
    let (upper, lower) = if p.1 <= q.1 {
        (p, q)
    } else {
        (q, p)
    };
    let rise = lower.1 - upper.1;
    round_ratio(2 * upper.0 * rise + (2 * (y - upper.1) + 1) * (lower.0 - upper.0), 2 * rise)
}

/// `v` put into a sorted list, behind everything that is not greater.
pub open spec fn with_value(list: Seq<int>, v: int) -> Seq<int>
    decreases list.len(),
{
    if list.len() == 0 || list.last() <= v {
        list.push(v)
    } else {
        with_value(list.drop_last(), v).push(list.last())
    }
}

/// Where the first `n` edges cross the middle of the row `y`, from left to
/// right.
pub open spec fn crossings(corners: Seq<(int, int)>, y: int, n: int) -> Seq<int>
    decreases n,
{
    if n <= 0 {
        Seq::empty()
    } else {
        let before = crossings(corners, y, n - 1);
        let p = corners[n - 1];
        let q = corners[n % corners.len() as int];
        if crosses(p, q, y) {
            with_value(before, crossing(p, q, y))
        } else {
            before
        }
    }
}

/// The pixels of the row `y` between each odd crossing and the next: those of
/// the first `n` pairs.
pub open spec fn span_pixels(xs: Seq<int>, y: int, n: int) -> Seq<(int, int)>
    decreases n,
{
    if n <= 0 {
        Seq::empty()
    } else {
        span_pixels(xs, y, n - 1) + scan_row(xs[2 * n - 2], xs[2 * n - 1], y, everywhere())
    }
}

/// The pixels of a polygon in the row `y`.
pub open spec fn row_pixels(corners: Seq<(int, int)>, y: int) -> Seq<(int, int)> {
    let xs = crossings(corners, y, corners.len() as int);
    span_pixels(xs, y, xs.len() as int / 2)
}

/// The pixels of a polygon in the rows `y0..y1`.
pub open spec fn rows_pixels(corners: Seq<(int, int)>, y0: int, y1: int) -> Seq<(int, int)>
    decreases y1 - y0,
{
    if y1 <= y0 {
        Seq::empty()
    } else {
        rows_pixels(corners, y0, y1 - 1) + row_pixels(corners, y1 - 1)
    }
}

pub open spec fn top_of(corners: Seq<(int, int)>) -> int
    decreases corners.len(),
{
    if corners.len() <= 1 {
        corners[0].1
    } else {
        let rest = top_of(corners.drop_last());
        if corners.last().1 < rest {
            corners.last().1
        } else {
            rest
        }
    }
}

pub open spec fn bottom_of(corners: Seq<(int, int)>) -> int
    decreases corners.len(),
{
    if corners.len() <= 1 {
        corners[0].1
    } else {
        let rest = bottom_of(corners.drop_last());
        if corners.last().1 > rest {
            corners.last().1
        } else {
            rest
        }
    }
}

/// The pixels of a polygon, row by row from the top.
pub open spec fn polygon_pixels(corners: Seq<(int, int)>) -> Seq<(int, int)> {
    if corners.len() == 0 {
        Seq::empty()
    } else {
        rows_pixels(corners, top_of(corners), bottom_of(corners) + 1)
    }
}

fn rounded(num: i128, den: i128) -> (r: i128)
    requires
        0 < den <= 0x1_0000_0000_0000,
        -0x1_0000_0000_0000_0000_0000 <= num <= 0x1_0000_0000_0000_0000_0000,
    ensures
        r == round_ratio(num as int, den as int),
{
    if num >= 0 {
        (2 * num + den) / (2 * den)
    } else {
        -((2 * (-num) + den) / (2 * den))
    }
}

proof fn lemma_round_up_to(a: int, den: int, bound: int)
    requires
        den > 0,
        a >= 0,
    ensures
        0 <= (2 * a + den) / (2 * den),
        a <= bound * den ==> (2 * a + den) / (2 * den) <= bound,
        a >= bound * den ==> (2 * a + den) / (2 * den) >= bound,
{
    let top = 2 * a + den;
    let q = top / (2 * den);
    vstd::arithmetic::div_mod::lemma_fundamental_div_mod(top, 2 * den);
    vstd::arithmetic::div_mod::lemma_mod_bound(top, 2 * den);
    let rest = top % (2 * den);
    assert(top == 2 * den * q + rest);
    assert(q >= 0) by (nonlinear_arith)
        requires
            top == 2 * den * q + rest,
            rest < 2 * den,
            top >= 0,
            den > 0,
    ;
    if a <= bound * den {
        assert(q <= bound) by (nonlinear_arith)
            requires
                top == 2 * den * q + rest,
                rest >= 0,
                top == 2 * a + den,
                a <= bound * den,
                den > 0,
        ;
    }
    if a >= bound * den {
        assert(q >= bound) by (nonlinear_arith)
            requires
                top == 2 * den * q + rest,
                rest < 2 * den,
                top == 2 * a + den,
                a >= bound * den,
                den > 0,
        ;
    }
}

proof fn lemma_round_bound(num: int, den: int, lo: int, hi: int)
    requires
        den > 0,
        lo * den <= num <= hi * den,
    ensures
        lo <= round_ratio(num, den) <= hi,
{
    if num >= 0 {
        lemma_round_up_to(num, den, lo);
        lemma_round_up_to(num, den, hi);
    } else {
        assert((-lo) * den == -(lo * den)) by (nonlinear_arith);
        assert((-hi) * den == -(hi * den)) by (nonlinear_arith);
        lemma_round_up_to(-num, den, -lo);
        lemma_round_up_to(-num, den, -hi);
    }
}

/// An edge crosses a row between its ends.
proof fn lemma_crossing_bound(p: (int, int), q: (int, int), y: int, lo: int, hi: int)
    requires
        lo <= p.0 <= hi,
        lo <= q.0 <= hi,
        p.1 <= y < q.1,
    ensures
        lo <= crossing(p, q, y) <= hi,
        crossing(p, q, y) == crossing(q, p, y),
{
    let rise = q.1 - p.1;
    let t = 2 * (y - p.1) + 1;
    let num = 2 * p.0 * rise + t * (q.0 - p.0);
    assert(num == p.0 * (2 * rise - t) + q.0 * t) by (nonlinear_arith)
        requires
            num == 2 * p.0 * rise + t * (q.0 - p.0),
    ;
    assert(lo * (2 * rise) <= p.0 * (2 * rise - t) + q.0 * t <= hi * (2 * rise))
        by (nonlinear_arith)
        requires
            lo <= p.0 <= hi,
            lo <= q.0 <= hi,
            0 <= t,
            0 <= 2 * rise - t,
    ;
    lemma_round_bound(num, 2 * rise, lo, hi);
}

fn edge_crossing(p: (i32, i32), q: (i32, i32), y: i32) -> (r: Option<i32>)
    ensures
        ({
            let a = (p.0 as int, p.1 as int);
            let b = (q.0 as int, q.1 as int);
            match r {
                Some(x) => crosses(a, b, y as int) && x == crossing(a, b, y as int),
                None => !crosses(a, b, y as int),
            }
        }),
{
    let (upper, lower) = if p.1 <= q.1 {
        (p, q)
    } else {
        (q, p)
    };
    if upper.1 <= y && y < lower.1 {
        let rise: i128 = lower.1 as i128 - upper.1 as i128;
        let t: i128 = 2 * (y as i128 - upper.1 as i128) + 1;
        let run: i128 = lower.0 as i128 - upper.0 as i128;
        proof {
            lemma_crossing_bound(
                (upper.0 as int, upper.1 as int),
                (lower.0 as int, lower.1 as int),
                y as int,
                i32::MIN as int,
                i32::MAX as int,
            );
            assert(-0x2_0000_0000_0000_0000 <= 2 * upper.0 * rise <= 0x2_0000_0000_0000_0000)
                by (nonlinear_arith)
                requires
                    -0x8000_0000 <= upper.0 <= 0x8000_0000,
                    0 <= rise <= 0x1_0000_0000,
            ;
            assert(-0x8_0000_0000_0000_0000 <= t * run <= 0x8_0000_0000_0000_0000)
                by (nonlinear_arith)
                requires
                    0 <= t <= 0x4_0000_0000,
                    -0x1_0000_0000 <= run <= 0x1_0000_0000,
            ;
        }
        let num: i128 = 2 * upper.0 as i128 * rise + t * run;
        Some(rounded(num, 2 * rise) as i32)
    } else {
        None
    }
}

pub open spec fn ints(list: Seq<i32>) -> Seq<int> {
    list.map_values(|v: i32| v as int)
}

proof fn lemma_with_value_at(list: Seq<int>, v: int, at: int)
    requires
        0 <= at <= list.len(),
        forall|k: int| at <= k < list.len() ==> v < #[trigger] list[k],
        0 < at ==> list[at - 1] <= v,
    ensures
        with_value(list, v) == list.insert(at, v),
    decreases list.len() - at,
{
    if at == list.len() {
        assert(list.insert(at, v) =~= list.push(v));
    } else {
        lemma_with_value_at(list.drop_last(), v, at);
        assert(list.insert(at, v) =~= list.drop_last().insert(at, v).push(list.last()));
    }
}

/// Where the edges of a polygon cross the middle of a row, from left to right.
fn row_crossings(corners: &Vec<(i32, i32)>, y: i32) -> (xs: Vec<i32>)
    ensures
        ints(xs@) == crossings(points(corners@), y as int, corners.len() as int),
{
    let mut xs: Vec<i32> = Vec::new();
    let ghost all = points(corners@);
    let mut n: usize = 0;
    assert(ints(xs@) =~= crossings(all, y as int, 0));
    while n < corners.len()
        invariant
            all == points(corners@),
            n <= corners.len(),
            ints(xs@) == crossings(all, y as int, n as int),
        decreases corners.len() - n,
    {
        let next: usize = if n + 1 < corners.len() {
            n + 1
        } else {
            0
        };
        let p = corners[n];
        let q = corners[next];
        proof {
            assert(next == (n + 1) % corners.len() as int) by {
                if n + 1 == corners.len() {
                    vstd::arithmetic::div_mod::lemma_mod_self_0(corners.len() as int);
                } else {
                    vstd::arithmetic::div_mod::lemma_small_mod((n + 1) as nat, corners.len() as nat);
                }
            }
            assert(all[n as int] == (p.0 as int, p.1 as int));
            assert(all[next as int] == (q.0 as int, q.1 as int));
        }
        if let Some(x) = edge_crossing(p, q, y) {
            let ghost before = xs@;
            let mut at: usize = xs.len();
            while at > 0 && xs[at - 1] > x
                invariant
                    at <= xs.len(),
                    xs@ == before,
                    forall|k: int| at <= k < xs.len() ==> x < #[trigger] xs[k],
                decreases at,
            {
                at -= 1;
            }
            proof {
                assert forall|k: int| at <= k < ints(before).len() implies (x as int)
                    < #[trigger] ints(before)[k] by {
                    assert(x < xs[k]);
                }
                lemma_with_value_at(ints(before), x as int, at as int);
            }
            xs.insert(at, x);
            assert(ints(xs@) =~= ints(before).insert(at as int, x as int));
        }
        n += 1;
    }
    xs
}

/// The pixels of a polygon, row by row from the top.
pub fn polygon_list(corners: &Vec<(i32, i32)>) -> (list: Vec<(i32, i32)>)
    ensures
        points(list@) == polygon_pixels(points(corners@)),
{
    let ghost all = points(corners@);
    let mut list: Vec<(i32, i32)> = Vec::new();
    assert(points(list@) =~= Seq::<(int, int)>::empty());
    if corners.len() == 0 {
        return list;
    }
    let mut top: i32 = corners[0].1;
    let mut bottom: i32 = corners[0].1;
    let mut i: usize = 1;
    assert(all.take(1)[0] == (corners@[0].0 as int, corners@[0].1 as int));
    while i < corners.len()
        invariant
            all == points(corners@),
            1 <= i <= corners.len(),
            top == top_of(all.take(i as int)),
            bottom == bottom_of(all.take(i as int)),
        decreases corners.len() - i,
    {
        let y: i32 = corners[i].1;
        proof {
            assert(all.take(i + 1).drop_last() =~= all.take(i as int));
            assert(all.take(i + 1).last() == (corners@[i as int].0 as int, y as int));
        }
        if y < top {
            top = y;
        }
        if y > bottom {
            bottom = y;
        }
        i += 1;
    }
    assert(all.take(i as int) =~= all);
    let mut row: i64 = top as i64;
    while row <= bottom as i64
        invariant
            corners.len() > 0,
            all == points(corners@),
            top == top_of(all),
            bottom == bottom_of(all),
            top <= row,
            row <= bottom + 1 || row == top,
            points(list@) == rows_pixels(all, top as int, row as int),
        decreases bottom + 1 - row,
    {
        let y: i32 = row as i32;
        let xs = row_crossings(corners, y);
        let ghost cuts = ints(xs@);
        let ghost above = points(list@);
        let pairs: usize = xs.len() / 2;
        let mut k: usize = 0;
        assert(above + span_pixels(cuts, y as int, 0) =~= above);
        while k < pairs
            invariant
                cuts == ints(xs@),
                pairs == xs.len() / 2,
                k <= pairs,
                points(list@) == above + span_pixels(cuts, y as int, k as int),
            decreases pairs - k,
        {
            let x0: i32 = xs[2 * k];
            let x1: i32 = xs[2 * k + 1];
            let ghost left = points(list@);
            let mut x: i32 = x0;
            assert(left + scan_row(x0 as int, x0 as int, y as int, everywhere()) =~= left);
            while x < x1
                invariant
                    x0 <= x,
                    x <= x1 || x == x0,
                    points(list@) == left + scan_row(
                        x0 as int,
                        x as int,
                        y as int,
                        everywhere(),
                    ),
                decreases x1 - x,
            {
                proof {
                    lemma_points_push(list@, (x, y));
                    let row = scan_row(x0 as int, x as int, y as int, everywhere());
                    assert(left + row.push((x as int, y as int)) =~= (left + row).push(
                        (x as int, y as int),
                    ));
                }
                list.push((x, y));
                x += 1;
            }
            proof {
                let row = scan_row(x0 as int, x1 as int, y as int, everywhere());
                assert(scan_row(x0 as int, x as int, y as int, everywhere()) =~= row);
                assert(above + (span_pixels(cuts, y as int, k as int) + row) =~= above
                    + span_pixels(cuts, y as int, k as int) + row);
            }
            k += 1;
        }
        row += 1;
    }
    list
}

/// All pixels lie between two coordinates, in both directions.
pub open spec fn boxed(pixels: Seq<(int, int)>, lo: int, hi: int) -> bool {
    forall|i: int|
        0 <= i < pixels.len() ==> lo <= (#[trigger] pixels[i]).0 <= hi && lo <= pixels[i].1 <= hi
}

pub open spec fn between(list: Seq<int>, lo: int, hi: int) -> bool {
    forall|i: int| 0 <= i < list.len() ==> lo <= #[trigger] list[i] <= hi
}

proof fn lemma_with_value_between(list: Seq<int>, v: int, lo: int, hi: int)
    requires
        between(list, lo, hi),
        lo <= v <= hi,
    ensures
        between(with_value(list, v), lo, hi),
    decreases list.len(),
{
    if list.len() > 0 && list.last() > v {
        let front = list.drop_last();
        assert forall|i: int| 0 <= i < front.len() implies lo <= #[trigger] front[i] <= hi by {
            assert(lo <= list[i] <= hi);
        }
        lemma_with_value_between(front, v, lo, hi);
        assert(lo <= list[list.len() - 1] <= hi);
    }
}

proof fn lemma_crossings_between(corners: Seq<(int, int)>, y: int, n: int, lo: int, hi: int)
    requires
        boxed(corners, lo, hi),
        n <= corners.len(),
    ensures
        between(crossings(corners, y, n), lo, hi),
    decreases n,
{
    if n > 0 {
        lemma_crossings_between(corners, y, n - 1, lo, hi);
        vstd::arithmetic::div_mod::lemma_mod_bound(n, corners.len() as int);
        let p = corners[n - 1];
        let q = corners[n % corners.len() as int];
        if p.1 <= y < q.1 {
            lemma_crossing_bound(p, q, y, lo, hi);
        } else if q.1 <= y < p.1 {
            lemma_crossing_bound(q, p, y, lo, hi);
        }
        if crosses(p, q, y) {
            lemma_with_value_between(crossings(corners, y, n - 1), crossing(p, q, y), lo, hi);
        }
    }
}

proof fn lemma_scan_boxed(x0: int, x1: int, y: int, lo: int, hi: int)
    requires
        lo <= x0,
        x1 <= hi,
        lo <= y <= hi,
    ensures
        boxed(scan_row(x0, x1, y, everywhere()), lo, hi),
    decreases x1 - x0,
{
    if x0 < x1 {
        lemma_scan_boxed(x0, x1 - 1, y, lo, hi);
    }
}

proof fn lemma_span_boxed(xs: Seq<int>, y: int, n: int, lo: int, hi: int)
    requires
        between(xs, lo, hi),
        2 * n <= xs.len(),
        lo <= y <= hi,
    ensures
        boxed(span_pixels(xs, y, n), lo, hi),
    decreases n,
{
    if n > 0 {
        lemma_span_boxed(xs, y, n - 1, lo, hi);
        assert(lo <= xs[2 * n - 2] <= hi && lo <= xs[2 * n - 1] <= hi);
        lemma_scan_boxed(xs[2 * n - 2], xs[2 * n - 1], y, lo, hi);
    }
}

proof fn lemma_rows_boxed(corners: Seq<(int, int)>, y0: int, y1: int, lo: int, hi: int)
    requires
        boxed(corners, lo, hi),
        lo <= y0,
        y1 <= hi + 1,
    ensures
        boxed(rows_pixels(corners, y0, y1), lo, hi),
    decreases y1 - y0,
{
    if y0 < y1 {
        lemma_rows_boxed(corners, y0, y1 - 1, lo, hi);
        let xs = crossings(corners, y1 - 1, corners.len() as int);
        lemma_crossings_between(corners, y1 - 1, corners.len() as int, lo, hi);
        lemma_span_boxed(xs, y1 - 1, xs.len() as int / 2, lo, hi);
    }
}

proof fn lemma_extent_boxed(corners: Seq<(int, int)>, lo: int, hi: int)
    requires
        corners.len() > 0,
        boxed(corners, lo, hi),
    ensures
        lo <= top_of(corners),
        bottom_of(corners) <= hi,
    decreases corners.len(),
{
    assert(lo <= corners[corners.len() - 1].1 <= hi);
    if corners.len() > 1 {
        let front = corners.drop_last();
        assert forall|i: int| 0 <= i < front.len() implies lo <= (#[trigger] front[i]).0 <= hi
            && lo <= front[i].1 <= hi by {
            assert(lo <= corners[i].0 <= hi);
        }
        lemma_extent_boxed(front, lo, hi);
    }
}

/// A polygon stays within every square around its corners.
pub proof fn law_polygon_within_its_corners(corners: Seq<(int, int)>, lo: int, hi: int)
    requires
        boxed(corners, lo, hi),
    ensures
        boxed(polygon_pixels(corners), lo, hi),
{
    if corners.len() > 0 {
        lemma_extent_boxed(corners, lo, hi);
        lemma_rows_boxed(corners, top_of(corners), bottom_of(corners) + 1, lo, hi);
    }
}

/// A ratio is rounded to a whole number that is at most one half away from it.
pub proof fn law_round_ratio(num: int, den: int)
    requires
        den > 0,
    ensures
        -den <= 2 * (num - den * round_ratio(num, den)) <= den,
        round_ratio(-num, den) == -round_ratio(num, den),
{
    let m = if num >= 0 {
        2 * num + den
    } else {
        -2 * num + den
    };
    let q = m / (2 * den);
    vstd::arithmetic::div_mod::lemma_fundamental_div_mod(m, 2 * den);
    vstd::arithmetic::div_mod::lemma_mod_bound(m, 2 * den);
    assert(2 * den * q == 2 * (den * q)) by (nonlinear_arith);
    assert(den * (-q) == -(den * q)) by (nonlinear_arith);
    if num >= 0 {
        assert(round_ratio(num, den) == q);
    } else {
        assert(2 * (-num) + den == m);
        assert(round_ratio(num, den) == -q);
    }
    if num == 0 {
        assert(m == den);
        assert(q == 0) by (nonlinear_arith)
            requires
                q == m / (2 * den),
                m == den,
                den > 0,
        ;
    }
}

/// An edge is crossed by the rows from its upper end to its lower one, the upper
/// row with it and the lower one without, whichever end comes first.
pub proof fn law_crosses(p: (int, int), q: (int, int), y: int)
    ensures
        crosses(p, q, y) <==> crosses(q, p, y),
        p.1 < q.1 ==> (crosses(p, q, y) <==> p.1 <= y < q.1),
        p.1 == q.1 ==> !crosses(p, q, y),
        p.1 != q.1 ==> crossing(p, q, y) == crossing(q, p, y),
{
}

} // verus!
