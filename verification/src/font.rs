//! Drawing into a pixel buffer: rectangles, borders, rings, lines and glyphs.
//!
//! A buffer holds rows of `pitch` bytes, four bytes a pixel: blue, green, red
//! and an unused byte. A drawing is stated as the pixels that it touches, in
//! the order in which it blends them.

use crate::text::{chars_of, string_of};
use vstd::prelude::*;

verus! {

/// Red, green and blue.
pub type Color = (u8, u8, u8);

// ---------------------------------------------------------------------------
// One pixel
// ---------------------------------------------------------------------------

/// `src` laid over `dst` with the weight `alpha` of 255, rounded down.
pub open spec fn mixed(dst: u8, src: u8, alpha: u8) -> u8 {
    ((dst * (255 - alpha) + src * alpha) / 255) as u8
}

/// One channel of a pixel after a blend.
pub fn blend_channel(dst: u8, src: u8, alpha: u8) -> (r: u8)
    ensures
        r == mixed(dst, src, alpha),
{
    proof {
        lemma_mix_bounds(dst as int, src as int, alpha as int);
    }
    let inv: u32 = 255 - alpha as u32;
    ((dst as u32 * inv + src as u32 * alpha as u32) / 255) as u8
}

proof fn lemma_mix_bounds(dst: int, src: int, alpha: int)
    requires
        0 <= dst <= 255,
        0 <= src <= 255,
        0 <= alpha <= 255,
    ensures
        0 <= dst * (255 - alpha) <= 255 * 255,
        0 <= src * alpha <= 255 * 255,
        0 <= dst * (255 - alpha) + src * alpha <= 255 * 255,
{
    assert(0 <= dst * (255 - alpha) <= 255 * (255 - alpha)) by (nonlinear_arith)
        requires
            0 <= dst <= 255,
            0 <= alpha <= 255,
    ;
    assert(0 <= src * alpha <= 255 * alpha) by (nonlinear_arith)
        requires
            0 <= src <= 255,
            0 <= alpha <= 255,
    ;
}

/// A transparent source leaves a channel as it was, an opaque one replaces it,
/// and any other gives a value between the two.
pub proof fn law_blend_channel(dst: u8, src: u8, alpha: u8)
    ensures
        mixed(dst, src, 0) == dst,
        mixed(dst, src, 255) == src,
        dst <= src ==> dst <= mixed(dst, src, alpha) <= src,
        src <= dst ==> src <= mixed(dst, src, alpha) <= dst,
{
    let d = dst as int;
    let s = src as int;
    let a = alpha as int;
    lemma_mix_bounds(d, s, a);
    let sum = d * (255 - a) + s * a;
    assert(d * 255 + s * 0 == 255 * d);
    assert(d * 0 + s * 255 == 255 * s);
    assert(d <= s ==> 255 * d <= sum <= 255 * s) by (nonlinear_arith)
        requires
            sum == d * (255 - a) + s * a,
            0 <= a <= 255,
    ;
    assert(s <= d ==> 255 * s <= sum <= 255 * d) by (nonlinear_arith)
        requires
            sum == d * (255 - a) + s * a,
            0 <= a <= 255,
    ;
}

/// The position of a pixel's first byte.
pub open spec fn pixel_offset(pitch: u32, x: int, y: int) -> int {
    y * pitch + x * 4
}

/// The pixel is outside of the plane, or its position fits 32 bits.
pub open spec fn addressable(pitch: u32, x: int, y: int) -> bool {
    x < 0 || y < 0 || pixel_offset(pitch, x, y) <= u32::MAX
}

/// The buffer after one pixel was blended; pixels outside of it are dropped.
pub open spec fn dotted(
    buf: Seq<u8>,
    pitch: u32,
    x: int,
    y: int,
    color: Color,
    alpha: u8,
) -> Seq<u8> {
    let at = pixel_offset(pitch, x, y);
    if alpha == 0 || x < 0 || y < 0 || at + 4 > buf.len() {
        buf
    } else {
        buf.update(at, mixed(buf[at], color.2, alpha)).update(
            at + 1,
            mixed(buf[at + 1], color.1, alpha),
        ).update(at + 2, mixed(buf[at + 2], color.0, alpha)).update(at + 3, 0)
    }
}

/// Blends one pixel.
pub fn blend_pixel(buf: &mut [u8], pitch: u32, x: i32, y: i32, color: Color, alpha: u8)
    requires
        alpha == 0 || addressable(pitch, x as int, y as int),
    ensures
        final(buf)@ == dotted(old(buf)@, pitch, x as int, y as int, color, alpha),
{
    if alpha == 0 || x < 0 || y < 0 {
        return;
    }
    assert(0 <= y * pitch) by (nonlinear_arith)
        requires
            y >= 0,
            pitch >= 0,
    ;
    let offset: usize = (y as u32 * pitch + x as u32 * 4) as usize;
    if buf.len() < 4 || offset > buf.len() - 4 {
        return;
    }
    buf[offset] = blend_channel(buf[offset], color.2, alpha);
    buf[offset + 1] = blend_channel(buf[offset + 1], color.1, alpha);
    buf[offset + 2] = blend_channel(buf[offset + 2], color.0, alpha);
    buf[offset + 3] = 0;
}

// ---------------------------------------------------------------------------
// Shapes
// ---------------------------------------------------------------------------

/// The pixels `x0..x1` of a row that lie inside, from left to right.
pub open spec fn scan_row(
    x0: int,
    x1: int,
    y: int,
    inside: spec_fn(int, int) -> bool,
) -> Seq<(int, int)>
    decreases x1 - x0,
{
    if x1 <= x0 {
        Seq::empty()
    } else {
        let row = scan_row(x0, x1 - 1, y, inside);
        if inside(x1 - 1, y) {
            row.push((x1 - 1, y))
        } else {
            row
        }
    }
}

/// The pixels of a box that lie inside, row by row from the top.
pub open spec fn scan(
    x0: int,
    x1: int,
    y0: int,
    y1: int,
    inside: spec_fn(int, int) -> bool,
) -> Seq<(int, int)>
    decreases y1 - y0,
{
    if y1 <= y0 {
        Seq::empty()
    } else {
        scan(x0, x1, y0, y1 - 1, inside) + scan_row(x0, x1, y1 - 1, inside)
    }
}

/// The buffer after each of `pixels` was blended, in order.
pub open spec fn painted(
    buf: Seq<u8>,
    pitch: u32,
    pixels: Seq<(int, int)>,
    color: Color,
    alpha: u8,
) -> Seq<u8>
    decreases pixels.len(),
{
    if pixels.len() == 0 {
        buf
    } else {
        let (x, y) = pixels.last();
        dotted(painted(buf, pitch, pixels.drop_last(), color, alpha), pitch, x, y, color, alpha)
    }
}

pub proof fn lemma_painted_push(
    buf: Seq<u8>,
    pitch: u32,
    pixels: Seq<(int, int)>,
    p: (int, int),
    color: Color,
    alpha: u8,
)
    ensures
        painted(buf, pitch, pixels.push(p), color, alpha) == dotted(
            painted(buf, pitch, pixels, color, alpha),
            pitch,
            p.0,
            p.1,
            color,
            alpha,
        ),
{
    assert(pixels.push(p).drop_last() =~= pixels);
}

/// Every pixel of the plane.
pub open spec fn everywhere() -> spec_fn(int, int) -> bool {
    |x: int, y: int| true
}

/// The pixels of a rectangle.
pub open spec fn rect_pixels(x: int, y: int, w: int, h: int) -> Seq<(int, int)> {
    if w <= 0 || h <= 0 {
        Seq::empty()
    } else {
        scan(x, x + w, y, y + h, everywhere())
    }
}

/// The far corner of a rectangle fits the coordinates, and where anything is
/// blended there its pixels are addressable.
pub open spec fn rect_fits(pitch: u32, x: int, y: int, w: int, h: int, alpha: u8) -> bool {
    w <= 0 || h <= 0 || (x + w <= i32::MAX && y + h <= i32::MAX && (alpha == 0 || addressable(
        pitch,
        x + w - 1,
        y + h - 1,
    )))
}

pub proof fn lemma_addressable(pitch: u32, x: int, y: int, x1: int, y1: int)
    requires
        addressable(pitch, x1, y1),
        x <= x1,
        y <= y1,
    ensures
        addressable(pitch, x, y),
{
    if x >= 0 && y >= 0 {
        assert(y * pitch <= y1 * pitch) by (nonlinear_arith)
            requires
                0 <= y <= y1,
                pitch >= 0,
        ;
    }
}

/// Blends a rectangle.
pub fn fill_rect(
    buf: &mut [u8],
    pitch: u32,
    x: i32,
    y: i32,
    w: i32,
    h: i32,
    color: Color,
    alpha: u8,
)
    requires
        rect_fits(pitch, x as int, y as int, w as int, h as int, alpha),
    ensures
        final(buf)@ == painted(
            old(buf)@,
            pitch,
            rect_pixels(x as int, y as int, w as int, h as int),
            color,
            alpha,
        ),
{
    if w <= 0 || h <= 0 {
        return;
    }
    let ghost all = everywhere();
    let mut yy: i32 = y;
    let ghost mut done: Seq<(int, int)> = Seq::empty();
    while yy < y + h
        invariant
            w > 0,
            h > 0,
            x + w <= i32::MAX,
            y + h <= i32::MAX,
            y <= yy <= y + h,
            alpha == 0 || addressable(pitch, x + w - 1, y + h - 1),
            all == everywhere(),
            done == scan(x as int, x + w, y as int, yy as int, all),
            buf@ == painted(old(buf)@, pitch, done, color, alpha),
        decreases y + h - yy,
    {
        let ghost above = done;
        let mut xx: i32 = x;
        while xx < x + w
            invariant
                w > 0,
                h > 0,
                x + w <= i32::MAX,
                y <= yy < y + h,
                x <= xx <= x + w,
                alpha == 0 || addressable(pitch, x + w - 1, y + h - 1),
                all == everywhere(),
                done == above + scan_row(x as int, xx as int, yy as int, all),
                buf@ == painted(old(buf)@, pitch, done, color, alpha),
            decreases x + w - xx,
        {
            proof {
                if alpha != 0 {
                    lemma_addressable(pitch, xx as int, yy as int, x + w - 1, y + h - 1);
                }
                lemma_painted_push(
                    old(buf)@,
                    pitch,
                    done,
                    (xx as int, yy as int),
                    color,
                    alpha,
                );
                assert(above + scan_row(x as int, xx + 1, yy as int, all) =~= done.push(
                    (xx as int, yy as int),
                ));
                done = done.push((xx as int, yy as int));
            }
            blend_pixel(buf, pitch, xx, yy, color, alpha);
            xx += 1;
        }
        yy += 1;
    }
}

/// The pixels of a rectangle, as a list.
pub fn rect_list(x: i32, y: i32, w: i32, h: i32) -> (list: Vec<(i32, i32)>)
    requires
        rect_fits(0, x as int, y as int, w as int, h as int, 0),
    ensures
        points(list@) == rect_pixels(x as int, y as int, w as int, h as int),
{
    let mut list: Vec<(i32, i32)> = Vec::new();
    assert(points(list@) =~= Seq::<(int, int)>::empty());
    if w <= 0 || h <= 0 {
        return list;
    }
    let ghost all = everywhere();
    let mut yy: i32 = y;
    while yy < y + h
        invariant
            w > 0,
            h > 0,
            x + w <= i32::MAX,
            y + h <= i32::MAX,
            y <= yy <= y + h,
            all == everywhere(),
            points(list@) == scan(x as int, x + w, y as int, yy as int, all),
        decreases y + h - yy,
    {
        let ghost above = points(list@);
        let mut xx: i32 = x;
        assert(above + scan_row(x as int, x as int, yy as int, all) =~= above);
        while xx < x + w
            invariant
                w > 0,
                x + w <= i32::MAX,
                x <= xx <= x + w,
                all == everywhere(),
                points(list@) == above + scan_row(x as int, xx as int, yy as int, all),
            decreases x + w - xx,
        {
            proof {
                lemma_points_push(list@, (xx, yy));
                let row = scan_row(x as int, xx as int, yy as int, all);
                assert(above + row.push((xx as int, yy as int)) =~= (above + row).push(
                    (xx as int, yy as int),
                ));
            }
            list.push((xx, yy));
            xx += 1;
        }
        yy += 1;
    }
    list
}

/// The pixels of the four sides of a border: top, bottom, left, right.
pub open spec fn border_pixels(x: int, y: int, w: int, h: int, thickness: int) -> Seq<(int, int)> {
    if thickness <= 0 || w <= 0 || h <= 0 {
        Seq::empty()
    } else {
        rect_pixels(x, y, w, lesser(thickness, h)) + rect_pixels(
            x,
            y + h - thickness,
            w,
            lesser(thickness, h),
        ) + rect_pixels(x, y, lesser(thickness, w), h) + rect_pixels(
            x + w - thickness,
            y,
            lesser(thickness, w),
            h,
        )
    }
}

pub open spec fn lesser(a: int, b: int) -> int {
    if a <= b {
        a
    } else {
        b
    }
}

pub open spec fn greater(a: int, b: int) -> int {
    if a >= b {
        a
    } else {
        b
    }
}

pub proof fn lemma_painted_concat(
    buf: Seq<u8>,
    pitch: u32,
    a: Seq<(int, int)>,
    b: Seq<(int, int)>,
    color: Color,
    alpha: u8,
)
    ensures
        painted(buf, pitch, a + b, color, alpha) == painted(
            painted(buf, pitch, a, color, alpha),
            pitch,
            b,
            color,
            alpha,
        ),
    decreases b.len(),
{
    if b.len() == 0 {
        assert(a + b =~= a);
    } else {
        lemma_painted_concat(buf, pitch, a, b.drop_last(), color, alpha);
        assert((a + b).drop_last() =~= a + b.drop_last());
    }
}

/// Blends the four sides of a rectangle.
pub fn draw_border(
    buf: &mut [u8],
    pitch: u32,
    x: i32,
    y: i32,
    w: i32,
    h: i32,
    thickness: i32,
    color: Color,
    alpha: u8,
)
    requires
        rect_fits(pitch, x as int, y as int, w as int, h as int, alpha),
        w > 0 && h > 0 && thickness > 0 ==> x + w - thickness >= i32::MIN && y + h - thickness
            >= i32::MIN,
    ensures
        final(buf)@ == painted(
            old(buf)@,
            pitch,
            border_pixels(x as int, y as int, w as int, h as int, thickness as int),
            color,
            alpha,
        ),
{
    if thickness <= 0 || w <= 0 || h <= 0 {
        return;
    }
    let across: i32 = if thickness <= h {
        thickness
    } else {
        h
    };
    let along: i32 = if thickness <= w {
        thickness
    } else {
        w
    };
    let ghost top = rect_pixels(x as int, y as int, w as int, across as int);
    let ghost bottom = rect_pixels(x as int, y + h - thickness, w as int, across as int);
    let ghost left = rect_pixels(x as int, y as int, along as int, h as int);
    let ghost right = rect_pixels(x + w - thickness, y as int, along as int, h as int);
    proof {
        if alpha != 0 {
            lemma_addressable(pitch, x + w - 1, y + across - 1, x + w - 1, y + h - 1);
            lemma_addressable(pitch, x + w - 1, y + h - thickness + across - 1, x + w - 1, y + h - 1);
            lemma_addressable(pitch, x + along - 1, y + h - 1, x + w - 1, y + h - 1);
            lemma_addressable(pitch, x + w - thickness + along - 1, y + h - 1, x + w - 1, y + h - 1);
        }
        lemma_painted_concat(buf@, pitch, top, bottom, color, alpha);
        lemma_painted_concat(buf@, pitch, top + bottom, left, color, alpha);
        lemma_painted_concat(buf@, pitch, top + bottom + left, right, color, alpha);
    }
    fill_rect(buf, pitch, x, y, w, across, color, alpha);
    fill_rect(buf, pitch, x, y + h - thickness, w, across, color, alpha);
    fill_rect(buf, pitch, x, y, along, h, color, alpha);
    fill_rect(buf, pitch, x + w - thickness, y, along, h, color, alpha);
}

/// The squared distance between two pixels.
pub open spec fn distance_sq(x: int, y: int, cx: int, cy: int) -> int {
    (x - cx) * (x - cx) + (y - cy) * (y - cy)
}

/// The pixels at a distance from `inner` to `outer`; a negative `inner` counts
/// as none.
pub open spec fn in_ring(cx: int, cy: int, outer: int, inner: int) -> spec_fn(int, int) -> bool {
    |x: int, y: int|
        greater(inner, 0) * greater(inner, 0) <= distance_sq(x, y, cx, cy) <= outer * outer
}

/// The pixels of a ring.
pub open spec fn ring_pixels(cx: int, cy: int, outer: int, inner: int) -> Seq<(int, int)> {
    scan(cx - outer, cx + outer + 1, cy - outer, cy + outer + 1, in_ring(cx, cy, outer, inner))
}

/// The box around the ring fits the coordinates, and the squares fit 32 bits.
pub open spec fn ring_in_range(cx: int, cy: int, outer: int, inner: int) -> bool {
    &&& outer <= 32767
    &&& inner <= 46340
    &&& i32::MIN <= cx - outer
    &&& cx + outer <= i32::MAX
    &&& i32::MIN <= cy - outer
    &&& cy + outer <= i32::MAX
}

/// A ring is in range, and the pixels that are blended are addressable.
pub open spec fn ring_fits(
    pitch: u32,
    cx: int,
    cy: int,
    outer: int,
    inner: int,
    alpha: u8,
) -> bool {
    &&& ring_in_range(cx, cy, outer, inner)
    &&& alpha == 0 || forall|x: int, y: int|
        cx - outer <= x <= cx + outer && cy - outer <= y <= cy + outer && #[trigger] in_ring(
            cx,
            cy,
            outer,
            inner,
        )(x, y) ==> addressable(pitch, x, y)
}

proof fn lemma_square_bound(d: int, r: int)
    requires
        -r <= d <= r,
        0 <= r <= 32767,
    ensures
        0 <= d * d <= r * r,
        r * r <= 1073676289,
{
    assert(0 <= d * d <= r * r && r * r <= 1073676289) by (nonlinear_arith)
        requires
            -r <= d <= r,
            0 <= r <= 32767,
    ;
}

/// The pixels of a list.
pub open spec fn points(list: Seq<(i32, i32)>) -> Seq<(int, int)> {
    list.map_values(|p: (i32, i32)| (p.0 as int, p.1 as int))
}

pub proof fn lemma_points_push(list: Seq<(i32, i32)>, p: (i32, i32))
    ensures
        points(list.push(p)) == points(list).push((p.0 as int, p.1 as int)),
{
    assert(points(list.push(p)) =~= points(list).push((p.0 as int, p.1 as int)));
}

/// Blends a list of pixels, in order.
pub fn blend_all(buf: &mut [u8], pitch: u32, list: &Vec<(i32, i32)>, color: Color, alpha: u8)
    requires
        alpha == 0 || forall|i: int|
            0 <= i < list.len() ==> addressable(
                pitch,
                (#[trigger] list[i]).0 as int,
                list[i].1 as int,
            ),
    ensures
        final(buf)@ == painted(old(buf)@, pitch, points(list@), color, alpha),
{
    let mut i: usize = 0;
    while i < list.len()
        invariant
            i <= list.len(),
            alpha == 0 || forall|i: int|
                0 <= i < list.len() ==> addressable(
                    pitch,
                    (#[trigger] list[i]).0 as int,
                    list[i].1 as int,
                ),
            buf@ == painted(old(buf)@, pitch, points(list@.take(i as int)), color, alpha),
        decreases list.len() - i,
    {
        let (x, y) = list[i];
        proof {
            assert(list@.take(i + 1) =~= list@.take(i as int).push(list@[i as int]));
            lemma_points_push(list@.take(i as int), list@[i as int]);
            lemma_painted_push(
                old(buf)@,
                pitch,
                points(list@.take(i as int)),
                (x as int, y as int),
                color,
                alpha,
            );
        }
        blend_pixel(buf, pitch, x, y, color, alpha);
        i += 1;
    }
    assert(list@.take(i as int) =~= list@);
}

/// The pixels of a ring, none where the outer radius is negative.
pub fn ring_list(cx: i32, cy: i32, outer_r: i32, inner_r: i32) -> (list: Vec<(i32, i32)>)
    requires
        outer_r < 0 || ring_in_range(cx as int, cy as int, outer_r as int, inner_r as int),
    ensures
        points(list@) == ring_pixels(cx as int, cy as int, outer_r as int, inner_r as int),
        forall|i: int|
            0 <= i < list.len() ==> {
                let (x, y) = #[trigger] list[i];
                &&& cx - outer_r <= x <= cx + outer_r
                &&& cy - outer_r <= y <= cy + outer_r
                &&& in_ring(cx as int, cy as int, outer_r as int, inner_r as int)(
                    x as int,
                    y as int,
                )
            },
{
    let mut list: Vec<(i32, i32)> = Vec::new();
    if outer_r < 0 {
        assert(points(list@) =~= Seq::<(int, int)>::empty());
        return list;
    }
    let ghost ring = in_ring(cx as int, cy as int, outer_r as int, inner_r as int);
    let hole: i64 = if inner_r > 0 {
        inner_r as i64
    } else {
        0
    };
    let r: i64 = outer_r as i64;
    proof {
        lemma_square_bound(r as int, r as int);
        assert(0 <= hole * hole <= 46340 * 46340) by (nonlinear_arith)
            requires
                0 <= hole <= 46340,
        ;
    }
    let outer_sq: i64 = r * r;
    let inner_sq: i64 = hole * hole;
    let left: i64 = cx as i64 - r;
    let top: i64 = cy as i64 - r;
    let right: i64 = cx as i64 + r;
    let bottom: i64 = cy as i64 + r;
    let mut y: i64 = top;
    assert(points(list@) =~= Seq::<(int, int)>::empty());
    while y <= bottom
        invariant
            0 <= r <= 32767,
            r == outer_r,
            outer_sq == r * r,
            inner_sq == hole * hole,
            hole == greater(inner_r as int, 0),
            left == cx - r,
            top == cy - r,
            right == cx + r,
            bottom == cy + r,
            i32::MIN <= left,
            right <= i32::MAX,
            i32::MIN <= top,
            bottom <= i32::MAX,
            top <= y <= bottom + 1,
            ring == in_ring(cx as int, cy as int, outer_r as int, inner_r as int),
            points(list@) == scan(left as int, right + 1, top as int, y as int, ring),
            forall|i: int|
                0 <= i < list.len() ==> {
                    let (x, y) = #[trigger] list[i];
                    left <= x <= right && top <= y <= bottom && ring(x as int, y as int)
                },
        decreases bottom + 1 - y,
    {
        let ghost above = points(list@);
        let mut x: i64 = left;
        assert(above + scan_row(left as int, left as int, y as int, ring) =~= above);
        while x <= right
            invariant
                0 <= r <= 32767,
                r == outer_r,
                outer_sq == r * r,
                inner_sq == hole * hole,
                hole == greater(inner_r as int, 0),
                left == cx - r,
                top == cy - r,
                right == cx + r,
                bottom == cy + r,
                i32::MIN <= left,
                right <= i32::MAX,
                i32::MIN <= top,
                bottom <= i32::MAX,
                top <= y <= bottom,
                left <= x <= right + 1,
                ring == in_ring(cx as int, cy as int, outer_r as int, inner_r as int),
                points(list@) == above + scan_row(left as int, x as int, y as int, ring),
                forall|i: int|
                    0 <= i < list.len() ==> {
                        let (x, y) = #[trigger] list[i];
                        left <= x <= right && top <= y <= bottom && ring(x as int, y as int)
                    },
            decreases right + 1 - x,
        {
            let dx: i64 = x - cx as i64;
            let dy: i64 = y - cy as i64;
            proof {
                lemma_square_bound(dx as int, r as int);
                lemma_square_bound(dy as int, r as int);
            }
            let dist_sq: i64 = dx * dx + dy * dy;
            let ghost row = scan_row(left as int, x as int, y as int, ring);
            assert(ring(x as int, y as int) == (inner_sq <= dist_sq <= outer_sq));
            if dist_sq <= outer_sq && dist_sq >= inner_sq {
                proof {
                    let p = (x as int, y as int);
                    lemma_points_push(list@, (x as i32, y as i32));
                    assert(above + row.push(p) =~= (above + row).push(p));
                }
                list.push((x as i32, y as i32));
            }
            x += 1;
        }
        y += 1;
    }
    list
}

/// Blends the pixels whose distance from the centre lies between the two
/// radii; nothing where the outer radius is negative.
pub fn blend_ring(
    buf: &mut [u8],
    pitch: u32,
    cx: i32,
    cy: i32,
    outer_r: i32,
    inner_r: i32,
    color: Color,
    alpha: u8,
)
    requires
        outer_r < 0 || ring_fits(pitch, cx as int, cy as int, outer_r as int, inner_r as int, alpha),
    ensures
        final(buf)@ == painted(
            old(buf)@,
            pitch,
            ring_pixels(cx as int, cy as int, outer_r as int, inner_r as int),
            color,
            alpha,
        ),
{
    let list = ring_list(cx, cy, outer_r, inner_r);
    blend_all(buf, pitch, &list, color, alpha);
}

/// Blends a ring; nothing where the outer radius is not positive.
pub fn draw_circle_ring(
    buf: &mut [u8],
    pitch: u32,
    cx: i32,
    cy: i32,
    outer_r: i32,
    inner_r: i32,
    color: Color,
    alpha: u8,
)
    requires
        outer_r <= 0 || ring_fits(
            pitch,
            cx as int,
            cy as int,
            outer_r as int,
            inner_r as int,
            alpha,
        ),
    ensures
        final(buf)@ == if outer_r <= 0 {
            old(buf)@
        } else {
            painted(
                old(buf)@,
                pitch,
                ring_pixels(cx as int, cy as int, outer_r as int, inner_r as int),
                color,
                alpha,
            )
        },
{
    if outer_r <= 0 {
        return;
    }
    blend_ring(buf, pitch, cx, cy, outer_r, inner_r, color, alpha);
}

// ---------------------------------------------------------------------------
// Lines
// ---------------------------------------------------------------------------

pub open spec fn magnitude(a: int) -> int {
    if a < 0 {
        -a
    } else {
        a
    }
}

/// `n * rise / run`, rounded to the nearest integer, halves up.
pub open spec fn nearest(n: int, rise: int, run: int) -> int {
    if run == 0 {
        0
    } else {
        (2 * n * rise + run) / (2 * run)
    }
}

/// How far the `n`-th point of a line has come along both axes: one step along
/// the longer one, and to the nearest pixel along the other.
pub open spec fn line_offset(dx: int, dy: int, n: int) -> (int, int) {
    if dx >= dy {
        (n, nearest(n, dy, dx))
    } else {
        (nearest(n, dx, dy), n)
    }
}

/// The number of steps of a line.
pub open spec fn line_steps(x0: int, y0: int, x1: int, y1: int) -> int {
    greater(magnitude(x1 - x0), magnitude(y1 - y0))
}

pub open spec fn heading(from: int, to: int) -> int {
    if from < to {
        1
    } else {
        -1
    }
}

/// The `n`-th point of a line.
pub open spec fn line_point(x0: int, y0: int, x1: int, y1: int, n: int) -> (int, int) {
    let (i, j) = line_offset(magnitude(x1 - x0), magnitude(y1 - y0), n);
    (x0 + heading(x0, x1) * i, y0 + heading(y0, y1) * j)
}

/// The pixels of a square brush around a point.
pub open spec fn brush_pixels(p: (int, int), size: int) -> Seq<(int, int)> {
    rect_pixels(p.0 - size / 2, p.1 - size / 2, size, size)
}

/// The pixels of the first `n` brushes of a line.
pub open spec fn brushed(
    x0: int,
    y0: int,
    x1: int,
    y1: int,
    size: int,
    n: int,
) -> Seq<(int, int)>
    decreases n,
{
    if n <= 0 {
        Seq::empty()
    } else {
        brushed(x0, y0, x1, y1, size, n - 1) + brush_pixels(
            line_point(x0, y0, x1, y1, n - 1),
            size,
        )
    }
}

/// The pixels of a line drawn with a square brush, which overlap from point to
/// point.
pub open spec fn line_pixels(x0: int, y0: int, x1: int, y1: int, size: int) -> Seq<(int, int)> {
    if size <= 0 {
        Seq::empty()
    } else {
        brushed(x0, y0, x1, y1, size, line_steps(x0, y0, x1, y1) + 1)
    }
}

/// Each brush of a line fits.
pub open spec fn line_fits(
    pitch: u32,
    x0: int,
    y0: int,
    x1: int,
    y1: int,
    size: int,
    alpha: u8,
) -> bool {
    size <= 0 || forall|n: int|
        0 <= n <= line_steps(x0, y0, x1, y1) ==> brush_fits(
            pitch,
            #[trigger] line_point(x0, y0, x1, y1, n),
            size,
            alpha,
        )
}

pub open spec fn brush_fits(pitch: u32, p: (int, int), size: int, alpha: u8) -> bool {
    &&& i32::MIN <= p.0 - size / 2
    &&& i32::MIN <= p.1 - size / 2
    &&& rect_fits(pitch, p.0 - size / 2, p.1 - size / 2, size, size, alpha)
}

proof fn lemma_nearest(n: int, rise: int, run: int, r: int)
    requires
        run > 0,
        2 * run * r <= 2 * n * rise + run < 2 * run * r + 2 * run,
    ensures
        nearest(n, rise, run) == r,
{
    let num = 2 * n * rise + run;
    let den = 2 * run;
    let rem = num - den * r;
    assert(num == r * den + rem) by (nonlinear_arith)
        requires
            rem == num - den * r,
    ;
    assert(0 <= rem < den) by (nonlinear_arith)
        requires
            rem == num - den * r,
            den == 2 * run,
            num == 2 * n * rise + run,
            2 * run * r <= 2 * n * rise + run < 2 * run * r + 2 * run,
    ;
    vstd::arithmetic::div_mod::lemma_fundamental_div_mod_converse(num, den, r, rem);
}

proof fn lemma_nearest_bounds(n: int, rise: int, run: int)
    requires
        run > 0,
    ensures
        2 * run * nearest(n, rise, run) <= 2 * n * rise + run < 2 * run * nearest(n, rise, run) + 2
            * run,
{
    let num = 2 * n * rise + run;
    let den = 2 * run;
    vstd::arithmetic::div_mod::lemma_fundamental_div_mod(num, den);
    vstd::arithmetic::div_mod::lemma_mod_bound(num, den);
    let q = nearest(n, rise, run);
    assert(den * q == 2 * run * q) by (nonlinear_arith)
        requires
            den == 2 * run,
    ;
}

/// One step along the longer axis: the other coordinate moves when the error
/// term says so, and then it is again the nearest one.
proof fn lemma_line_step(long: int, short: int, n: int, j: int)
    requires
        0 <= short <= long,
        0 <= n < long,
        j == nearest(n, short, long),
    ensures
        2 * long * (j + 1) >= short * (2 * n + 1),
        nearest(n + 1, short, long) == j + if long * (2 * j + 1) <= 2 * short * (n + 1) {
            1int
        } else {
            0
        },
{
    lemma_nearest_bounds(n, short, long);
    assert(2 * long * (j + 1) >= short * (2 * n + 1)) by (nonlinear_arith)
        requires
            2 * n * short + long < 2 * long * j + 2 * long,
            short <= long,
    ;
    let moves = long * (2 * j + 1) <= 2 * short * (n + 1);
    if moves {
        assert(2 * long * (j + 1) <= 2 * (n + 1) * short + long < 2 * long * (j + 1) + 2 * long)
            by (nonlinear_arith)
            requires
                2 * long * j <= 2 * n * short + long < 2 * long * j + 2 * long,
                long * (2 * j + 1) <= 2 * short * (n + 1),
                short <= long,
        ;
        lemma_nearest(n + 1, short, long, j + 1);
    } else {
        assert(2 * long * j <= 2 * (n + 1) * short + long < 2 * long * j + 2 * long)
            by (nonlinear_arith)
            requires
                2 * long * j <= 2 * n * short + long < 2 * long * j + 2 * long,
                long * (2 * j + 1) > 2 * short * (n + 1),
                0 <= short,
        ;
        lemma_nearest(n + 1, short, long, j);
    }
}

/// A line ends where it is drawn to, stays between its ends, and starts where
/// it is drawn from.
proof fn lemma_line_offset(dx: int, dy: int, n: int)
    requires
        0 <= dx,
        0 <= dy,
        0 <= n <= greater(dx, dy),
    ensures
        line_offset(dx, dy, 0) == (0int, 0int),
        line_offset(dx, dy, greater(dx, dy)) == (dx, dy),
        0 <= line_offset(dx, dy, n).0 <= dx,
        0 <= line_offset(dx, dy, n).1 <= dy,
{
    let (long, short) = if dx >= dy {
        (dx, dy)
    } else {
        (dy, dx)
    };
    if long > 0 {
        lemma_nearest(0, short, long, 0);
        assert(2 * long * short <= 2 * long * short + long < 2 * long * short + 2 * long);
        lemma_nearest(long, short, long, short);
        let j = nearest(n, short, long);
        lemma_nearest_bounds(n, short, long);
        assert(0 <= j <= short) by (nonlinear_arith)
            requires
                2 * long * j <= 2 * n * short + long < 2 * long * j + 2 * long,
                0 <= n <= long,
                0 <= short <= long,
                0 < long,
        ;
    }
}

/// The error term after `i` and `j` steps decides both moves as the nearest
/// points do.
proof fn lemma_line_error(dx: int, dy: int, n: int, i: int, j: int, err: int)
    requires
        0 <= dx,
        0 <= dy,
        0 <= n < greater(dx, dy),
        (i, j) == line_offset(dx, dy, n),
        err == dx * (j + 1) - dy * (i + 1),
    ensures
        line_offset(dx, dy, n + 1) == (
            i + if 2 * err >= -dy {
                1int
            } else {
                0
            },
            j + if 2 * err <= dx {
                1int
            } else {
                0
            },
        ),
{
    assert((2 * err >= -dy) == (2 * dx * (j + 1) >= dy * (2 * i + 1))) by (nonlinear_arith)
        requires
            err == dx * (j + 1) - dy * (i + 1),
    ;
    assert((2 * err <= dx) == (dx * (2 * j + 1) <= 2 * dy * (i + 1))) by (nonlinear_arith)
        requires
            err == dx * (j + 1) - dy * (i + 1),
    ;
    if dx >= dy {
        lemma_line_step(dx, dy, n, j);
    } else {
        lemma_line_step(dy, dx, n, i);
        assert(dx * (2 * j + 1) <= 2 * dy * (i + 1)) by (nonlinear_arith)
            requires
                2 * dy * (i + 1) >= dx * (2 * n + 1),
                j == n,
        ;
    }
}

/// The points of a line, from `(x0, y0)` to `(x1, y1)`.
pub fn line_points(x0: i32, y0: i32, x1: i32, y1: i32) -> (list: Vec<(i32, i32)>)
    ensures
        list.len() == line_steps(x0 as int, y0 as int, x1 as int, y1 as int) + 1,
        forall|n: int|
            0 <= n < list.len() ==> ((#[trigger] list[n]).0 as int, list[n].1 as int)
                == line_point(x0 as int, y0 as int, x1 as int, y1 as int, n),
{
    let ghost (a, b, c, d) = (x0 as int, y0 as int, x1 as int, y1 as int);
    let dx: i64 = if x0 < x1 {
        x1 as i64 - x0 as i64
    } else {
        x0 as i64 - x1 as i64
    };
    let dy: i64 = if y0 < y1 {
        y1 as i64 - y0 as i64
    } else {
        y0 as i64 - y1 as i64
    };
    let sx: i64 = if x0 < x1 {
        1
    } else {
        -1
    };
    let sy: i64 = if y0 < y1 {
        1
    } else {
        -1
    };
    let ghost steps = line_steps(a, b, c, d);
    let mut list: Vec<(i32, i32)> = Vec::new();
    let mut err: i64 = dx - dy;
    let mut x: i64 = x0 as i64;
    let mut y: i64 = y0 as i64;
    let ghost mut i: int = 0;
    let ghost mut j: int = 0;
    proof {
        lemma_line_offset(dx as int, dy as int, 0);
        assert(dx * (0 + 1) - dy * (0 + 1) == dx - dy);
    }
    loop
        invariant_except_break
            list.len() <= steps,
            (i, j) == line_offset(dx as int, dy as int, list.len() as int),
        invariant
            a == x0 && b == y0 && c == x1 && d == y1,
            dx == magnitude(c - a),
            dy == magnitude(d - b),
            dx <= 0xFFFF_FFFF,
            dy <= 0xFFFF_FFFF,
            sx == heading(a, c),
            sy == heading(b, d),
            steps == greater(dx as int, dy as int),
            steps == line_steps(a, b, c, d),
            x == a + sx * i,
            y == b + sy * j,
            err == dx * (j + 1) - dy * (i + 1),
            -2 * dy <= err <= 2 * dx,
            forall|n: int|
                0 <= n < list.len() ==> ((#[trigger] list[n]).0 as int, list[n].1 as int)
                    == line_point(a, b, c, d, n),
        ensures
            list.len() == steps + 1,
        decreases steps - list.len(),
    {
        let ghost n = list.len() as int;
        proof {
            lemma_line_offset(dx as int, dy as int, n);
            assert(line_point(a, b, c, d, n) == (x as int, y as int));
            assert(sx * i == i || sx * i == -i) by (nonlinear_arith)
                requires
                    sx == 1 || sx == -1,
            ;
            assert(sy * j == j || sy * j == -j) by (nonlinear_arith)
                requires
                    sy == 1 || sy == -1,
            ;
        }
        list.push((x as i32, y as i32));
        proof {
            assert(x == x1 && y == y1 <==> i == dx && j == dy) by (nonlinear_arith)
                requires
                    x == a + sx * i,
                    y == b + sy * j,
                    0 <= i <= dx,
                    0 <= j <= dy,
                    sx == heading(a, c),
                    sy == heading(b, d),
                    dx == magnitude(c - a),
                    dy == magnitude(d - b),
                    a == x0 && b == y0 && c == x1 && d == y1,
            ;
        }
        if x == x1 as i64 && y == y1 as i64 {
            break;
        }
        let e2: i64 = 2 * err;
        proof {
            lemma_line_error(dx as int, dy as int, n, i, j, err as int);
            lemma_line_offset(dx as int, dy as int, n + 1);
            let i1 = line_offset(dx as int, dy as int, n + 1).0;
            let j1 = line_offset(dx as int, dy as int, n + 1).1;
            assert(sx * (i + 1) == sx * i + sx) by (nonlinear_arith);
            assert(sy * (j + 1) == sy * j + sy) by (nonlinear_arith);
            assert(dx * (j + 1 + 1) == dx * (j + 1) + dx) by (nonlinear_arith);
            assert(dy * (i + 1 + 1) == dy * (i + 1) + dy) by (nonlinear_arith);
            i = i1;
            j = j1;
        }
        if e2 >= -dy {
            err -= dy;
            x += sx;
        }
        if e2 <= dx {
            err += dx;
            y += sy;
        }
    }
    list
}

/// Draws a line from `(x0, y0)` to `(x1, y1)` with a square brush.
pub fn draw_line(
    buf: &mut [u8],
    pitch: u32,
    x0: i32,
    y0: i32,
    x1: i32,
    y1: i32,
    thickness: i32,
    color: Color,
    alpha: u8,
)
    requires
        line_fits(pitch, x0 as int, y0 as int, x1 as int, y1 as int, thickness as int, alpha),
    ensures
        final(buf)@ == painted(
            old(buf)@,
            pitch,
            line_pixels(x0 as int, y0 as int, x1 as int, y1 as int, thickness as int),
            color,
            alpha,
        ),
{
    if thickness <= 0 {
        return;
    }
    let ghost (a, b, c, d) = (x0 as int, y0 as int, x1 as int, y1 as int);
    let ghost size = thickness as int;
    let half: i32 = thickness / 2;
    let list = line_points(x0, y0, x1, y1);
    let mut n: usize = 0;
    while n < list.len()
        invariant
            a == x0 && b == y0 && c == x1 && d == y1,
            size == thickness,
            size > 0,
            half == size / 2,
            line_fits(pitch, a, b, c, d, size, alpha),
            n <= list.len(),
            list.len() == line_steps(a, b, c, d) + 1,
            forall|n: int|
                0 <= n < list.len() ==> ((#[trigger] list[n]).0 as int, list[n].1 as int)
                    == line_point(a, b, c, d, n),
            buf@ == painted(old(buf)@, pitch, brushed(a, b, c, d, size, n as int), color, alpha),
        decreases list.len() - n,
    {
        let (x, y) = list[n];
        proof {
            let p = line_point(a, b, c, d, n as int);
            assert(p == (x as int, y as int));
            assert(brush_fits(pitch, p, size, alpha));
            lemma_painted_concat(
                old(buf)@,
                pitch,
                brushed(a, b, c, d, size, n as int),
                brush_pixels(p, size),
                color,
                alpha,
            );
        }
        fill_rect(buf, pitch, x - half, y - half, thickness, thickness, color, alpha);
        n += 1;
    }
}

// ---------------------------------------------------------------------------
// Glyphs
// ---------------------------------------------------------------------------

/// One rasterised glyph: the pixel of its upper left corner, and the coverage
/// of each of its pixels, row by row.
pub struct Glyph {
    pub x: i32,
    pub y: i32,
    pub width: usize,
    pub height: usize,
    pub coverage: Vec<u8>,
}

/// There is a coverage for each pixel, and each covered pixel fits.
pub open spec fn glyph_fits(pitch: u32, g: Glyph) -> bool {
    &&& g.coverage@.len() == g.width * g.height
    &&& g.width * g.height <= usize::MAX
    &&& g.x + g.width <= i32::MAX
    &&& g.y + g.height <= i32::MAX
    &&& forall|k: int|
        0 <= k < g.coverage@.len() && #[trigger] g.coverage@[k] != 0 ==> addressable(
            pitch,
            g.x + k % g.width as int,
            g.y + k / g.width as int,
        )
}

/// The buffer after the first `n` pixels of a glyph, each blended with its
/// coverage.
pub open spec fn inked(buf: Seq<u8>, pitch: u32, g: Glyph, color: Color, n: int) -> Seq<u8>
    decreases n,
{
    if n <= 0 {
        buf
    } else {
        dotted(
            inked(buf, pitch, g, color, n - 1),
            pitch,
            g.x + (n - 1) % g.width as int,
            g.y + (n - 1) / g.width as int,
            color,
            g.coverage@[n - 1],
        )
    }
}

/// The buffer after the first `n` glyphs of a text.
pub open spec fn lettered(
    buf: Seq<u8>,
    pitch: u32,
    glyphs: Seq<Glyph>,
    color: Color,
    n: int,
) -> Seq<u8>
    decreases n,
{
    if n <= 0 {
        buf
    } else {
        let g = glyphs[n - 1];
        inked(
            lettered(buf, pitch, glyphs, color, n - 1),
            pitch,
            g,
            color,
            g.coverage@.len() as int,
        )
    }
}

/// Where a glyph goes whose pen stands at `caret` on the base line: shifted by
/// its left bearing, and up from the base line by its height and its descent.
pub fn glyph_origin(caret: i32, baseline_y: i32, xmin: i32, ymin: i32, height: i32) -> (r: (
    i32,
    i32,
))
    requires
        i32::MIN <= caret + xmin <= i32::MAX,
        i32::MIN <= baseline_y - ymin <= i32::MAX,
        i32::MIN <= baseline_y - ymin - height <= i32::MAX,
    ensures
        r.0 == caret + xmin,
        r.1 == baseline_y - ymin - height,
{
    (caret + xmin, baseline_y - ymin - height)
}

/// Blends one glyph; a pixel without coverage is not touched.
pub fn draw_glyph(buf: &mut [u8], pitch: u32, glyph: &Glyph, color: Color)
    requires
        glyph_fits(pitch, *glyph),
    ensures
        final(buf)@ == inked(old(buf)@, pitch, *glyph, color, glyph.coverage@.len() as int),
{
    let mut k: usize = 0;
    let mut row: usize = 0;
    let mut col: usize = 0;
    while k < glyph.coverage.len()
        invariant
            glyph_fits(pitch, *glyph),
            k <= glyph.coverage@.len(),
            k == row * glyph.width + col,
            0 <= row,
            0 <= col <= glyph.width,
            k < glyph.coverage@.len() ==> col < glyph.width,
            buf@ == inked(old(buf)@, pitch, *glyph, color, k as int),
        decreases glyph.coverage@.len() - k,
    {
        let alpha: u8 = glyph.coverage[k];
        proof {
            vstd::arithmetic::div_mod::lemma_fundamental_div_mod_converse(
                k as int,
                glyph.width as int,
                row as int,
                col as int,
            );
            assert(row < glyph.height) by (nonlinear_arith)
                requires
                    k == row * glyph.width + col,
                    k < glyph.width * glyph.height,
                    0 <= col,
                    glyph.width > 0,
            ;
        }
        if alpha != 0 {
            assert(glyph.coverage@[k as int] != 0);
            let x: i32 = (glyph.x as i64 + col as i64) as i32;
            let y: i32 = (glyph.y as i64 + row as i64) as i32;
            blend_pixel(buf, pitch, x, y, color, alpha);
        }
        k += 1;
        col += 1;
        if col == glyph.width {
            proof {
                assert((row + 1) * glyph.width == row * glyph.width + glyph.width)
                    by (nonlinear_arith);
            }
            col = 0;
            row += 1;
        }
    }
}

/// Blends the glyphs of a text, from the first to the last.
pub fn draw_text(buf: &mut [u8], pitch: u32, glyphs: &Vec<Glyph>, color: Color)
    requires
        forall|i: int| 0 <= i < glyphs.len() ==> glyph_fits(pitch, #[trigger] glyphs[i]),
    ensures
        final(buf)@ == lettered(old(buf)@, pitch, glyphs@, color, glyphs.len() as int),
{
    let mut n: usize = 0;
    while n < glyphs.len()
        invariant
            n <= glyphs.len(),
            forall|i: int| 0 <= i < glyphs.len() ==> glyph_fits(pitch, #[trigger] glyphs[i]),
            buf@ == lettered(old(buf)@, pitch, glyphs@, color, n as int),
        decreases glyphs.len() - n,
    {
        draw_glyph(buf, pitch, &glyphs[n], color);
        n += 1;
    }
}

// ---------------------------------------------------------------------------
// Cutting text to a width
// ---------------------------------------------------------------------------

/// The first position from `from` on that `flags` marks, or the length `len`.
pub open spec fn first_marked(flags: Seq<bool>, from: int, len: int) -> int
    decreases len - from,
{
    if from >= len || flags[from] {
        from
    } else {
        first_marked(flags, from + 1, len)
    }
}

fn find_marked(flags: &Vec<bool>, from: usize) -> (r: usize)
    requires
        from <= flags.len(),
    ensures
        r == first_marked(flags@, from as int, flags@.len() as int),
        from <= r <= flags.len(),
{
    let mut i: usize = from;
    while i < flags.len() && !flags[i]
        invariant
            from <= i <= flags.len(),
            first_marked(flags@, from as int, flags@.len() as int) == first_marked(
                flags@,
                i as int,
                flags@.len() as int,
            ),
        decreases flags.len() - i,
    {
        i += 1;
    }
    i
}

/// The beginning of `text` that a line of a width holds.
pub open spec fn wrapped(text: Seq<char>, max_width: int, passes: Seq<bool>) -> Seq<char> {
    if max_width <= 0 || text.len() == 0 {
        Seq::empty()
    } else {
        text.take(first_marked(passes, 1, text.len() as int))
    }
}

/// As much of `text` as fits a width: nothing where the width is not positive,
/// else the first character and all that follow until one would pass the width.
/// `passes[k]` says that the first `k + 1` characters are wider than that.
pub fn wrap_to_width(text: &str, max_width: i32, passes: &Vec<bool>) -> (r: String)
    requires
        passes.len() == text@.len(),
    ensures
        r@ == wrapped(text@, max_width as int, passes@),
        r@ == if max_width <= 0 || text@.len() == 0 {
            Seq::<char>::empty()
        } else {
            text@.take(first_marked(passes@, 1, text@.len() as int))
        },
{
    let chars = chars_of(text);
    if max_width <= 0 || chars.len() == 0 {
        return String::new();
    }
    let end: usize = find_marked(passes, 1);
    string_of(&chars, 0, end)
}

/// `text` cut to a width, with an ellipsis where something was cut off.
pub open spec fn ellipsized(text: Seq<char>, fits: bool, passes: Seq<bool>) -> Seq<char> {
    let n = first_marked(passes, 0, text.len() as int);
    if fits {
        text
    } else if n == 0 {
        seq!['.', '.', '.']
    } else {
        text.take(n).push('\u{2026}')
    }
}

/// `text` where it fits a width, else the longest beginning that does, with an
/// ellipsis. `fits` says that all of it fits, `passes[k]` that the first `k + 1`
/// characters do not.
pub fn ellipsize(text: &str, fits: bool, passes: &Vec<bool>) -> (r: String)
    requires
        passes.len() == text@.len(),
    ensures
        r@ == ellipsized(text@, fits, passes@),
{
    if fits {
        return text.to_owned();
    }
    let end: usize = find_marked(passes, 0);
    let chars = chars_of(text);
    let mut out = string_of(&chars, 0, end);
    assert(out@ =~= text@.take(end as int));
    if end == 0 {
        out.push('.');
        out.push('.');
        out.push('.');
        assert(out@ =~= seq!['.', '.', '.']);
    } else {
        out.push('\u{2026}');
    }
    out
}

// ---------------------------------------------------------------------------
// What a drawing leaves alone
// ---------------------------------------------------------------------------

/// A byte of a pixel that is not to the left of the plane nor above it.
pub open spec fn in_pixel(pitch: u32, p: (int, int), at: int) -> bool {
    0 <= p.0 && 0 <= p.1 && pixel_offset(pitch, p.0, p.1) <= at < pixel_offset(pitch, p.0, p.1) + 4
}

/// A drawing keeps the length of the buffer and every byte outside of the
/// pixels that it blends; a transparent one keeps all of it.
pub proof fn law_painted_elsewhere(
    buf: Seq<u8>,
    pitch: u32,
    pixels: Seq<(int, int)>,
    color: Color,
    alpha: u8,
)
    ensures
        painted(buf, pitch, pixels, color, alpha).len() == buf.len(),
        alpha == 0 ==> painted(buf, pitch, pixels, color, alpha) == buf,
        forall|at: int|
            0 <= at < buf.len() && (forall|i: int|
                0 <= i < pixels.len() ==> !in_pixel(pitch, #[trigger] pixels[i], at))
                ==> #[trigger] painted(buf, pitch, pixels, color, alpha)[at] == buf[at],
    decreases pixels.len(),
{
    if pixels.len() > 0 {
        let front = pixels.drop_last();
        law_painted_elsewhere(buf, pitch, front, color, alpha);
        assert forall|at: int|
            0 <= at < buf.len() && (forall|i: int|
                0 <= i < pixels.len() ==> !in_pixel(
                    pitch,
                    #[trigger] pixels[i],
                    at,
                )) implies #[trigger] painted(buf, pitch, pixels, color, alpha)[at] == buf[at] by {
            assert forall|i: int| 0 <= i < front.len() implies !in_pixel(
                pitch,
                #[trigger] front[i],
                at,
            ) by {
                assert(front[i] == pixels[i]);
            }
            assert(!in_pixel(pitch, pixels[pixels.len() - 1], at));
        }
    }
}

proof fn lemma_scan_row_members(
    x0: int,
    x1: int,
    y: int,
    inside: spec_fn(int, int) -> bool,
    p: (int, int),
)
    ensures
        scan_row(x0, x1, y, inside).contains(p) <==> (x0 <= p.0 < x1 && p.1 == y && inside(
            p.0,
            p.1,
        )),
        scan_row(x0, x1, y, inside).no_duplicates(),
    decreases x1 - x0,
{
    if x1 > x0 {
        let row = scan_row(x0, x1 - 1, y, inside);
        lemma_scan_row_members(x0, x1 - 1, y, inside, p);
        lemma_scan_row_members(x0, x1 - 1, y, inside, (x1 - 1, y));
        if inside(x1 - 1, y) {
            let q = (x1 - 1, y);
            assert(row.push(q)[row.len() as int] == q);
            if row.contains(p) {
                let i = choose|i: int| 0 <= i < row.len() && row[i] == p;
                assert(row.push(q)[i] == p);
            }
        }
    }
}

/// The pixels of a scan are the ones of its box that lie inside, each once.
pub proof fn law_scan_members(
    x0: int,
    x1: int,
    y0: int,
    y1: int,
    inside: spec_fn(int, int) -> bool,
    p: (int, int),
)
    ensures
        scan(x0, x1, y0, y1, inside).contains(p) <==> (x0 <= p.0 < x1 && y0 <= p.1 < y1 && inside(
            p.0,
            p.1,
        )),
        scan(x0, x1, y0, y1, inside).no_duplicates(),
    decreases y1 - y0,
{
    if y1 > y0 {
        let above = scan(x0, x1, y0, y1 - 1, inside);
        let row = scan_row(x0, x1, y1 - 1, inside);
        law_scan_members(x0, x1, y0, y1 - 1, inside, p);
        lemma_scan_row_members(x0, x1, y1 - 1, inside, p);
        let all = above + row;
        if above.contains(p) {
            let i = choose|i: int| 0 <= i < above.len() && above[i] == p;
            assert(all[i] == p);
        }
        if row.contains(p) {
            let i = choose|i: int| 0 <= i < row.len() && row[i] == p;
            assert(all[above.len() + i] == p);
        }
        assert forall|i: int, j: int| 0 <= i < all.len() && 0 <= j < all.len() && i != j implies all[i]
            != all[j] by {
            if i < above.len() && j >= above.len() {
                law_scan_members(x0, x1, y0, y1 - 1, inside, all[i]);
                lemma_scan_row_members(x0, x1, y1 - 1, inside, all[j]);
                assert(above.contains(above[i]));
                assert(row.contains(row[j - above.len()]));
            } else if j < above.len() && i >= above.len() {
                law_scan_members(x0, x1, y0, y1 - 1, inside, all[j]);
                lemma_scan_row_members(x0, x1, y1 - 1, inside, all[i]);
                assert(above.contains(above[j]));
                assert(row.contains(row[i - above.len()]));
            }
        }
    }
}

proof fn lemma_pixels_apart(pitch: u32, p: (int, int), q: (int, int), at: int)
    requires
        p != q,
        0 <= p.0,
        4 * p.0 + 4 <= pitch,
        4 * q.0 + 4 <= pitch,
        in_pixel(pitch, p, at),
    ensures
        !in_pixel(pitch, q, at),
{
    if p.1 < q.1 {
        assert(p.1 * pitch + pitch <= q.1 * pitch) by (nonlinear_arith)
            requires
                p.1 < q.1,
                pitch >= 0,
        ;
    } else if q.1 < p.1 {
        assert(q.1 * pitch + pitch <= p.1 * pitch) by (nonlinear_arith)
            requires
                q.1 < p.1,
                pitch >= 0,
        ;
    }
}

/// Where each pixel occurs once and none of them lies beyond the end of its row,
/// each of them that is on the plane is blended exactly once. Those to the left
/// of the plane, above it and below it are dropped.
pub proof fn law_painted_once(
    buf: Seq<u8>,
    pitch: u32,
    pixels: Seq<(int, int)>,
    color: Color,
    alpha: u8,
    i: int,
)
    requires
        pixels.no_duplicates(),
        forall|k: int|
            0 <= k < pixels.len() ==> 4 * (#[trigger] pixels[k]).0 + 4 <= pitch,
        0 <= i < pixels.len(),
        alpha != 0,
        0 <= pixels[i].0,
        0 <= pixels[i].1,
        pixel_offset(pitch, pixels[i].0, pixels[i].1) + 4 <= buf.len(),
    ensures
        ({
            let at = pixel_offset(pitch, pixels[i].0, pixels[i].1);
            let out = painted(buf, pitch, pixels, color, alpha);
            &&& out[at] == mixed(buf[at], color.2, alpha)
            &&& out[at + 1] == mixed(buf[at + 1], color.1, alpha)
            &&& out[at + 2] == mixed(buf[at + 2], color.0, alpha)
            &&& out[at + 3] == 0
        }),
    decreases pixels.len(),
{
    let front = pixels.drop_last();
    let last = pixels.len() - 1;
    let p = pixels[i];
    let at = pixel_offset(pitch, p.0, p.1);
    assert(at >= 0) by (nonlinear_arith)
        requires
            at == p.1 * pitch + p.0 * 4,
            p.1 >= 0,
            p.0 >= 0,
            pitch >= 0,
    ;
    assert forall|k: int| 0 <= k < front.len() implies 4 * (#[trigger] front[k]).0 + 4
        <= pitch by {
        assert(front[k] == pixels[k]);
    }
    law_painted_elsewhere(buf, pitch, front, color, alpha);
    if i == last {
        assert forall|b: int| at <= b < at + 4 implies #[trigger] painted(
            buf,
            pitch,
            front,
            color,
            alpha,
        )[b] == buf[b] by {
            assert forall|k: int| 0 <= k < front.len() implies !in_pixel(
                pitch,
                #[trigger] front[k],
                b,
            ) by {
                assert(front[k] == pixels[k]);
                assert(pixels[k] != pixels[last]);
                lemma_pixels_apart(pitch, p, front[k], b);
            }
        }
    } else {
        assert(front[i] == pixels[i]);
        law_painted_once(buf, pitch, front, color, alpha, i);
        assert(pixels[i] != pixels[last]);
        assert forall|b: int| at <= b < at + 4 implies !in_pixel(pitch, pixels[last], b) by {
            lemma_pixels_apart(pitch, p, pixels[last], b);
        }
        assert(!in_pixel(pitch, pixels[last], at));
        assert(!in_pixel(pitch, pixels[last], at + 1));
        assert(!in_pixel(pitch, pixels[last], at + 2));
        assert(!in_pixel(pitch, pixels[last], at + 3));
    }
}

// ---------------------------------------------------------------------------
// Full opacity
// ---------------------------------------------------------------------------

/// The bytes of a pixel of full opacity: blue, green, red, and nothing.
pub open spec fn shade(color: Color, k: int) -> u8 {
    if k == 0 {
        color.2
    } else if k == 1 {
        color.1
    } else if k == 2 {
        color.0
    } else {
        0
    }
}

/// A pixel of a buffer of `len` bytes holds the byte.
pub open spec fn holds(len: nat, pitch: u32, p: (int, int), at: int) -> bool {
    in_pixel(pitch, p, at) && pixel_offset(pitch, p.0, p.1) + 4 <= len
}

/// No pixel lies beyond the end of its row.
pub open spec fn within_rows(pitch: u32, pixels: Seq<(int, int)>) -> bool {
    forall|i: int| 0 <= i < pixels.len() ==> 4 * (#[trigger] pixels[i]).0 + 4 <= pitch
}

proof fn lemma_opaque(
    buf: Seq<u8>,
    pitch: u32,
    pixels: Seq<(int, int)>,
    color: Color,
    at: int,
)
    requires
        within_rows(pitch, pixels),
        0 <= at < buf.len(),
    ensures
        painted(buf, pitch, pixels, color, 255).len() == buf.len(),
        forall|i: int|
            0 <= i < pixels.len() && holds(buf.len(), pitch, #[trigger] pixels[i], at)
                ==> painted(buf, pitch, pixels, color, 255)[at] == shade(
                color,
                at - pixel_offset(pitch, pixels[i].0, pixels[i].1),
            ),
        (forall|i: int|
            0 <= i < pixels.len() ==> !holds(buf.len(), pitch, #[trigger] pixels[i], at))
            ==> painted(buf, pitch, pixels, color, 255)[at] == buf[at],
    decreases pixels.len(),
{
    if pixels.len() > 0 {
        let front = pixels.drop_last();
        let last = pixels.last();
        let n = pixels.len() - 1;
        assert forall|i: int| 0 <= i < front.len() implies 4 * (#[trigger] front[i]).0 + 4
            <= pitch by {
            assert(front[i] == pixels[i]);
        }
        lemma_opaque(buf, pitch, front, color, at);
        let before = painted(buf, pitch, front, color, 255);
        let after = painted(buf, pitch, pixels, color, 255);
        let start = pixel_offset(pitch, last.0, last.1);
        assert(pixels[n] == last);
        assert(forall|d: u8, c: u8| #[trigger] mixed(d, c, 255) == c);
        if holds(buf.len(), pitch, last, at) {
            assert(after[at] == shade(color, at - start));
            assert forall|i: int|
                0 <= i < pixels.len() && holds(buf.len(), pitch, #[trigger] pixels[i], at) implies
                pixels[i] == last by {
                if pixels[i] != last {
                    lemma_pixels_apart(pitch, last, pixels[i], at);
                }
            }
        } else {
            assert(last.0 >= 0 && last.1 >= 0 ==> start >= 0) by {
                if last.0 >= 0 && last.1 >= 0 {
                    assert(last.1 * pitch >= 0) by (nonlinear_arith)
                        requires
                            last.1 >= 0,
                            pitch >= 0,
                    ;
                }
            }
            assert(after[at] == before[at]);
            assert forall|i: int|
                0 <= i < pixels.len() && holds(buf.len(), pitch, #[trigger] pixels[i], at) implies
                after[at] == shade(color, at - pixel_offset(pitch, pixels[i].0, pixels[i].1)) by {
                assert(i < front.len());
                assert(front[i] == pixels[i]);
            }
            if forall|i: int|
                0 <= i < pixels.len() ==> !holds(buf.len(), pitch, #[trigger] pixels[i], at) {
                assert forall|i: int| 0 <= i < front.len() implies !holds(
                    buf.len(),
                    pitch,
                    #[trigger] front[i],
                    at,
                ) by {
                    assert(front[i] == pixels[i]);
                }
            }
        }
    }
}

/// At full opacity it does not matter in what order pixels are painted, nor how
/// often: drawings of the same pixels leave the same bytes.
pub proof fn law_opaque_drawings(
    buf: Seq<u8>,
    pitch: u32,
    a: Seq<(int, int)>,
    b: Seq<(int, int)>,
    color: Color,
)
    requires
        within_rows(pitch, a),
        forall|p: (int, int)| #[trigger] a.contains(p) <==> b.contains(p),
    ensures
        painted(buf, pitch, a, color, 255) == painted(buf, pitch, b, color, 255),
{
    assert forall|i: int| 0 <= i < b.len() implies 4 * (#[trigger] b[i]).0 + 4 <= pitch by {
        assert(b.contains(b[i]));
        assert(a.contains(b[i]));
        let k = choose|k: int| 0 <= k < a.len() && a[k] == b[i];
        assert(4 * a[k].0 + 4 <= pitch);
    }
    let left = painted(buf, pitch, a, color, 255);
    let right = painted(buf, pitch, b, color, 255);
    law_painted_elsewhere(buf, pitch, a, color, 255);
    law_painted_elsewhere(buf, pitch, b, color, 255);
    assert forall|at: int| 0 <= at < buf.len() implies #[trigger] left[at] == right[at] by {
        lemma_opaque(buf, pitch, a, color, at);
        lemma_opaque(buf, pitch, b, color, at);
        if exists|i: int| 0 <= i < a.len() && holds(buf.len(), pitch, #[trigger] a[i], at) {
            let i = choose|i: int|
                0 <= i < a.len() && holds(buf.len(), pitch, #[trigger] a[i], at);
            assert(a.contains(a[i]));
            assert(b.contains(a[i]));
            let k = choose|k: int| 0 <= k < b.len() && b[k] == a[i];
            assert(holds(buf.len(), pitch, b[k], at));
        } else {
            assert forall|k: int| 0 <= k < b.len() implies !holds(
                buf.len(),
                pitch,
                #[trigger] b[k],
                at,
            ) by {
                assert(b.contains(b[k]));
                assert(a.contains(b[k]));
                let i = choose|i: int| 0 <= i < a.len() && a[i] == b[k];
                assert(!holds(buf.len(), pitch, a[i], at));
            }
        }
    }
    assert(left =~= right);
}

proof fn lemma_rect_members(x: int, y: int, w: int, h: int, p: (int, int))
    ensures
        rect_pixels(x, y, w, h).contains(p) <==> (x <= p.0 < x + w && y <= p.1 < y + h),
{
    if w > 0 && h > 0 {
        law_scan_members(x, x + w, y, y + h, everywhere(), p);
    }
}

proof fn lemma_brushed_members(
    x0: int,
    y0: int,
    x1: int,
    y1: int,
    size: int,
    n: int,
    p: (int, int),
)
    ensures
        brushed(x0, y0, x1, y1, size, n).contains(p) <==> exists|k: int|
            0 <= k < n && brush_pixels(#[trigger] line_point(x0, y0, x1, y1, k), size).contains(p),
    decreases n,
{
    if n > 0 {
        let front = brushed(x0, y0, x1, y1, size, n - 1);
        let brush = brush_pixels(line_point(x0, y0, x1, y1, n - 1), size);
        let all = front + brush;
        lemma_brushed_members(x0, y0, x1, y1, size, n - 1, p);
        if front.contains(p) {
            let i = choose|i: int| 0 <= i < front.len() && front[i] == p;
            assert(all[i] == p);
        }
        if brush.contains(p) {
            let i = choose|i: int| 0 <= i < brush.len() && brush[i] == p;
            assert(all[front.len() + i] == p);
        }
        if all.contains(p) {
            let i = choose|i: int| 0 <= i < all.len() && all[i] == p;
            if i < front.len() {
                assert(front[i] == p);
            } else {
                assert(brush[i - front.len()] == p);
            }
        }
    }
}

proof fn lemma_straight_point(x0: int, y0: int, x1: int, y1: int, n: int)
    requires
        x0 == x1 || y0 == y1,
        0 <= n <= line_steps(x0, y0, x1, y1),
    ensures
        y0 == y1 ==> line_point(x0, y0, x1, y1, n) == (
            if x0 < x1 {
                x0 + n
            } else {
                x0 - n
            },
            y0,
        ),
        x0 == x1 ==> line_point(x0, y0, x1, y1, n) == (
            x0,
            if y0 < y1 {
                y0 + n
            } else {
                y0 - n
            },
        ),
{
    assert(1 * n == n && (-1) * n == -n);
    assert(heading(x0, x1) * 0 == 0 && heading(y0, y1) * 0 == 0);
    let run = line_steps(x0, y0, x1, y1);
    assert(2 * n * 0 == 0) by (nonlinear_arith);
    if run > 0 {
        assert(run / (2 * run) == 0) by (nonlinear_arith)
            requires
                run > 0,
        ;
    }
    assert(nearest(n, 0, run) == 0);
}

/// A horizontal or a vertical line covers the pixels of one rectangle.
proof fn lemma_straight_members(x0: int, y0: int, x1: int, y1: int, size: int, p: (int, int))
    requires
        x0 == x1 || y0 == y1,
        size > 0,
    ensures
        line_pixels(x0, y0, x1, y1, size).contains(p) <==> rect_pixels(
            lesser(x0, x1) - size / 2,
            lesser(y0, y1) - size / 2,
            magnitude(x1 - x0) + size,
            magnitude(y1 - y0) + size,
        ).contains(p),
{
    let half = size / 2;
    let steps = line_steps(x0, y0, x1, y1);
    let (left, top) = (lesser(x0, x1) - half, lesser(y0, y1) - half);
    let (w, h) = (magnitude(x1 - x0) + size, magnitude(y1 - y0) + size);
    lemma_rect_members(left, top, w, h, p);
    lemma_brushed_members(x0, y0, x1, y1, size, steps + 1, p);
    if line_pixels(x0, y0, x1, y1, size).contains(p) {
        let k = choose|k: int|
            0 <= k < steps + 1 && brush_pixels(
                #[trigger] line_point(x0, y0, x1, y1, k),
                size,
            ).contains(p);
        let c = line_point(x0, y0, x1, y1, k);
        lemma_straight_point(x0, y0, x1, y1, k);
        lemma_rect_members(c.0 - half, c.1 - half, size, size, p);
    }
    if rect_pixels(left, top, w, h).contains(p) {
        // The brush whose left or upper edge is at the pixel, or the last one.
        let k = if y0 == y1 {
            let x = lesser(p.0 + half, greater(x0, x1));
            magnitude(x - x0)
        } else {
            let y = lesser(p.1 + half, greater(y0, y1));
            magnitude(y - y0)
        };
        assert(0 <= k <= steps);
        lemma_straight_point(x0, y0, x1, y1, k);
        let c = line_point(x0, y0, x1, y1, k);
        lemma_rect_members(c.0 - half, c.1 - half, size, size, p);
        assert(brush_pixels(c, size).contains(p));
    }
}

/// A horizontal or a vertical line of full opacity leaves exactly what a filled
/// rectangle leaves, whichever of its ends it starts from.
pub proof fn law_straight_line_is_a_rectangle(
    buf: Seq<u8>,
    pitch: u32,
    x0: int,
    y0: int,
    x1: int,
    y1: int,
    size: int,
    color: Color,
)
    requires
        x0 == x1 || y0 == y1,
        size > 0,
        4 * (greater(x0, x1) - size / 2 + size) <= pitch,
    ensures
        painted(buf, pitch, line_pixels(x0, y0, x1, y1, size), color, 255) == painted(
            buf,
            pitch,
            rect_pixels(
                lesser(x0, x1) - size / 2,
                lesser(y0, y1) - size / 2,
                magnitude(x1 - x0) + size,
                magnitude(y1 - y0) + size,
            ),
            color,
            255,
        ),
{
    let (left, top) = (lesser(x0, x1) - size / 2, lesser(y0, y1) - size / 2);
    let (w, h) = (magnitude(x1 - x0) + size, magnitude(y1 - y0) + size);
    let line = line_pixels(x0, y0, x1, y1, size);
    let rect = rect_pixels(left, top, w, h);
    assert forall|p: (int, int)| #[trigger] line.contains(p) <==> rect.contains(p) by {
        lemma_straight_members(x0, y0, x1, y1, size, p);
    }
    assert forall|i: int| 0 <= i < line.len() implies 4 * (#[trigger] line[i]).0 + 4
        <= pitch by {
        assert(line.contains(line[i]));
        lemma_straight_members(x0, y0, x1, y1, size, line[i]);
        lemma_rect_members(left, top, w, h, line[i]);
    }
    law_opaque_drawings(buf, pitch, line, rect, color);
}

/// What is cut is cut as late as it can be: the characters that stay fit, and
/// with one more they do not. What fits is not cut, and what is cut says so.
pub proof fn law_ellipsized(text: Seq<char>, passes: Seq<bool>)
    requires
        passes.len() == text.len(),
    ensures
        ellipsized(text, true, passes) == text,
        ({
            let out = ellipsized(text, false, passes);
            let n = out.len() - 1;
            if text.len() == 0 || passes[0] {
                out == seq!['.', '.', '.']
            } else {
                &&& out.last() == '\u{2026}'
                &&& 0 < n <= text.len() && out.take(n) == text.take(n)
                &&& forall|k: int| 0 <= k < n ==> !passes[k]
                &&& n < text.len() ==> passes[n]
            }
        }),
{
    lemma_first_marked(passes, 0, text.len() as int);
    let n = first_marked(passes, 0, text.len() as int);
    if n > 0 {
        let out = text.take(n).push('\u{2026}');
        assert(out.take(n) =~= text.take(n));
    }
}

/// A line holds at least one character, and as many as fit.
pub proof fn law_wrapped(text: Seq<char>, max_width: int, passes: Seq<bool>)
    requires
        passes.len() == text.len(),
        max_width > 0,
        text.len() > 0,
    ensures
        ({
            let out = wrapped(text, max_width, passes);
            &&& 0 < out.len() <= text.len() && out == text.take(out.len() as int)
            &&& forall|k: int| 1 <= k < out.len() ==> !passes[k]
            &&& out.len() < text.len() ==> passes[out.len() as int]
        }),
        wrapped(text, 0, passes).len() == 0,
{
    lemma_first_marked(passes, 1, text.len() as int);
}

proof fn lemma_first_marked(passes: Seq<bool>, from: int, all: int)
    requires
        0 <= from <= passes.len(),
        all == passes.len(),
    ensures
        from <= first_marked(passes, from, all) <= all,
        forall|k: int| from <= k < first_marked(passes, from, all) ==> !passes[k],
        first_marked(passes, from, all) < all ==> passes[first_marked(passes, from, all)],
    decreases all - from,
{
    if from < passes.len() && !passes[from] {
        lemma_first_marked(passes, from + 1, all);
    }
}

} // verus!
