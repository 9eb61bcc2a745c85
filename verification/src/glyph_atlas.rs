//! Glyphs and icons packed into one texture.
//!
//! Everything in the atlas is white with its coverage as alpha, so that one
//! glyph or icon can be drawn in any colour. The sizes of the text are fixed
//! for the life of the process, and so is the set of characters, so all of it
//! is known at the start.

use crate::font::{
    brush_fits, brush_pixels, brushed, line_fits, line_pixels, line_point, line_points, line_steps,
    points, rect_list, ring_in_range, ring_list, ring_pixels,
};
use crate::keymap::typed_char;
use crate::polygon::{polygon_list, polygon_pixels};
use crate::render::{
    cursor_corners, cursor_polygon, cursor_shifts, in_i32, lemma_arrow_movable, movable, move_all,
    moved, shifts_of_cursor, TextSize,
};
use vstd::prelude::*;

verus! {

/// The faces that text is set in.
#[derive(Clone, Copy, Debug, PartialEq, Eq, Hash, Structural)]
pub enum FontId {
    Regular,
    Medium,
}

/// The icons of the atlas.
#[derive(Clone, Copy, Debug, PartialEq, Eq, Hash, Structural)]
pub enum IconId {
    AvatarDisc,
    AvatarRing,
    PowerIcon,
    CursorOutline,
    CursorBody,
    SpinnerDot,
}

// ---------------------------------------------------------------------------
// The characters
// ---------------------------------------------------------------------------

/// Printable ASCII.
pub const FIRST_CHAR: u32 = 0x20;

pub const LAST_CHAR: u32 = 0x7E;

/// The printable range of Latin-1 Supplement: messages of PAM may hold it.
pub const FIRST_LATIN1: u32 = 0xA0;

pub const LAST_LATIN1: u32 = 0xFF;

/// The characters of the atlas: both ranges, the ellipsis and the bullet.
pub open spec fn is_baked(c: char) -> bool {
    let n = c as u32;
    (FIRST_CHAR <= n && n <= LAST_CHAR) || (FIRST_LATIN1 <= n && n <= LAST_LATIN1) || c
        == '\u{2026}' || c == '\u{2022}'
}

/// The `i`-th character of the atlas.
pub open spec fn baked_char(i: int) -> char {
    if i < 95 {
        (FIRST_CHAR + i) as u8 as char
    } else if i < 191 {
        (FIRST_LATIN1 + (i - 95)) as u8 as char
    } else if i == 191 {
        '\u{2026}'
    } else {
        '\u{2022}'
    }
}

/// The characters of the atlas, in order.
pub fn baked_chars() -> (r: Vec<char>)
    ensures
        r@ == Seq::new(193, |i: int| baked_char(i)),
{
    let mut out: Vec<char> = Vec::new();
    let mut n: u8 = 0x20;
    while n <= 0x7E
        invariant
            0x20 <= n <= 0x7F,
            out@ == Seq::new((n - 0x20) as nat, |i: int| baked_char(i)),
        decreases 0x7F - n,
    {
        out.push(n as char);
        n += 1;
        assert(out@ =~= Seq::new((n - 0x20) as nat, |i: int| baked_char(i)));
    }
    let mut k: u8 = 0;
    while k < 96
        invariant
            0 <= k <= 96,
            out@ == Seq::new((95 + k) as nat, |i: int| baked_char(i)),
        decreases 96 - k,
    {
        out.push((0xA0 + k) as char);
        k += 1;
        assert(out@ =~= Seq::new((95 + k) as nat, |i: int| baked_char(i)));
    }
    out.push('\u{2026}');
    out.push('\u{2022}');
    assert(out@ =~= Seq::new(193, |i: int| baked_char(i)));
    out
}

/// The list of characters holds exactly the baked ones.
pub proof fn law_baked_chars(c: char)
    ensures
        is_baked(c) <==> exists|i: int| 0 <= i < 193 && #[trigger] baked_char(i) == c,
{
    let n = c as u32;
    if is_baked(c) {
        if n <= LAST_CHAR {
            assert(baked_char(n - 0x20) == c);
        } else if n <= LAST_LATIN1 {
            assert(baked_char(n - 0xA0 + 95) == c);
        } else if c == '\u{2026}' {
            assert(baked_char(191) == c);
        } else {
            assert(baked_char(192) == c);
        }
    }
}

/// Every character that can be typed is in the atlas.
pub proof fn law_typed_chars_are_baked(keycode: u32, shift: bool, caps: bool)
    ensures
        match typed_char(keycode, shift, caps) {
            Some(c) => is_baked(c),
            None => true,
        },
{
    crate::keymap::law_typed_is_printable(keycode, shift, caps);
}

// ---------------------------------------------------------------------------
// The scratch canvas of an icon
// ---------------------------------------------------------------------------

/// A canvas of `w` by `h` pixels of four bytes: red, green, blue and alpha.
pub struct Canvas {
    pub w: u32,
    pub h: u32,
    pub data: Vec<u8>,
}

/// A canvas on which nothing was drawn.
pub open spec fn blank(w: int, h: int) -> Seq<u8> {
    Seq::new((w * h * 4) as nat, |i: int| 0u8)
}

/// The canvas after one pixel was covered: white, with the greater coverage.
pub open spec fn covered(
    data: Seq<u8>,
    w: int,
    h: int,
    x: int,
    y: int,
    coverage: u8,
) -> Seq<u8> {
    if coverage == 0 || x < 0 || y < 0 || x >= w || y >= h {
        data
    } else {
        let at = (y * w + x) * 4;
        let a = if data[at + 3] >= coverage {
            data[at + 3]
        } else {
            coverage
        };
        data.update(at, 255).update(at + 1, 255).update(at + 2, 255).update(at + 3, a)
    }
}

/// The canvas after each of `pixels` was fully covered.
pub open spec fn stamped(data: Seq<u8>, w: int, h: int, pixels: Seq<(int, int)>) -> Seq<u8>
    decreases pixels.len(),
{
    if pixels.len() == 0 {
        data
    } else {
        let (x, y) = pixels.last();
        covered(stamped(data, w, h, pixels.drop_last()), w, h, x, y, 255)
    }
}

proof fn lemma_stamped_push(data: Seq<u8>, w: int, h: int, pixels: Seq<(int, int)>, p: (int, int))
    ensures
        stamped(data, w, h, pixels.push(p)) == covered(
            stamped(data, w, h, pixels),
            w,
            h,
            p.0,
            p.1,
            255,
        ),
{
    assert(pixels.push(p).drop_last() =~= pixels);
}

proof fn lemma_stamped_concat(
    data: Seq<u8>,
    w: int,
    h: int,
    a: Seq<(int, int)>,
    b: Seq<(int, int)>,
)
    ensures
        stamped(data, w, h, a + b) == stamped(stamped(data, w, h, a), w, h, b),
    decreases b.len(),
{
    if b.len() == 0 {
        assert(a + b =~= a);
    } else {
        lemma_stamped_concat(data, w, h, a, b.drop_last());
        assert((a + b).drop_last() =~= a + b.drop_last());
    }
}

proof fn lemma_pixel_in_canvas(w: int, h: int, x: int, y: int)
    requires
        0 <= x < w,
        0 <= y < h,
    ensures
        0 <= y * w + x,
        (y * w + x) * 4 + 4 <= w * h * 4,
{
    assert(y * w + x + 1 <= w * h && 0 <= y * w) by (nonlinear_arith)
        requires
            0 <= x < w,
            0 <= y < h,
    ;
}

impl Canvas {
    /// There are four bytes for each pixel, and their number fits 32 bits.
    pub open spec fn wf(&self) -> bool {
        self.data@.len() == self.w * self.h * 4 && self.w * self.h * 4 <= u32::MAX
    }

    /// A blank canvas.
    pub fn new(w: u32, h: u32) -> (r: Canvas)
        requires
            w * h * 4 <= u32::MAX,
        ensures
            r.wf(),
            r.w == w,
            r.h == h,
            r.data@ == blank(w as int, h as int),
    {
        assert(0 <= w * h) by (nonlinear_arith)
            requires
                w >= 0,
                h >= 0,
        ;
        let n: usize = (w * h * 4) as usize;
        let data: Vec<u8> = vec![0u8; n];
        assert(data@ =~= blank(w as int, h as int));
        Canvas { w, h, data }
    }

    /// Covers one pixel; pixels outside of the canvas are dropped.
    pub fn blend(&mut self, x: i32, y: i32, coverage: u8)
        requires
            old(self).wf(),
        ensures
            final(self).wf(),
            final(self).w == old(self).w,
            final(self).h == old(self).h,
            final(self).data@ == covered(
                old(self).data@,
                old(self).w as int,
                old(self).h as int,
                x as int,
                y as int,
                coverage,
            ),
    {
        if coverage == 0 || x < 0 || y < 0 || x as u32 >= self.w || y as u32 >= self.h {
            return;
        }
        proof {
            lemma_pixel_in_canvas(self.w as int, self.h as int, x as int, y as int);
            assert(0 <= y * self.w) by (nonlinear_arith)
                requires
                    y >= 0,
                    self.w >= 0,
            ;
        }
        let at: usize = ((y as u32 * self.w + x as u32) * 4) as usize;
        let before: u8 = self.data[at + 3];
        let a: u8 = if before >= coverage {
            before
        } else {
            coverage
        };
        self.data[at] = 255;
        self.data[at + 1] = 255;
        self.data[at + 2] = 255;
        self.data[at + 3] = a;
    }

    /// Covers a list of pixels.
    pub fn stamp(&mut self, list: &Vec<(i32, i32)>)
        requires
            old(self).wf(),
        ensures
            final(self).wf(),
            final(self).w == old(self).w,
            final(self).h == old(self).h,
            final(self).data@ == stamped(
                old(self).data@,
                old(self).w as int,
                old(self).h as int,
                points(list@),
            ),
    {
        let ghost (w, h) = (self.w as int, self.h as int);
        let ghost before = self.data@;
        let mut i: usize = 0;
        while i < list.len()
            invariant
                i <= list.len(),
                self.wf(),
                self.w == w,
                self.h == h,
                self.data@ == stamped(before, w, h, points(list@.take(i as int))),
            decreases list.len() - i,
        {
            let (x, y) = list[i];
            proof {
                assert(list@.take(i + 1) =~= list@.take(i as int).push(list@[i as int]));
                crate::font::lemma_points_push(list@.take(i as int), list@[i as int]);
                lemma_stamped_push(
                    before,
                    w,
                    h,
                    points(list@.take(i as int)),
                    (x as int, y as int),
                );
            }
            self.blend(x, y, 255);
            i += 1;
        }
        assert(list@.take(i as int) =~= list@);
    }

    /// Covers a disc.
    pub fn fill_circle(&mut self, cx: i32, cy: i32, r: i32)
        requires
            old(self).wf(),
            r < 0 || ring_in_range(cx as int, cy as int, r as int, 0),
        ensures
            final(self).wf(),
            final(self).w == old(self).w,
            final(self).h == old(self).h,
            final(self).data@ == stamped(
                old(self).data@,
                old(self).w as int,
                old(self).h as int,
                ring_pixels(cx as int, cy as int, r as int, 0),
            ),
    {
        let list = ring_list(cx, cy, r, 0);
        self.stamp(&list);
    }

    /// Covers a ring.
    pub fn ring(&mut self, cx: i32, cy: i32, outer: i32, inner: i32)
        requires
            old(self).wf(),
            outer < 0 || ring_in_range(cx as int, cy as int, outer as int, inner as int),
        ensures
            final(self).wf(),
            final(self).w == old(self).w,
            final(self).h == old(self).h,
            final(self).data@ == stamped(
                old(self).data@,
                old(self).w as int,
                old(self).h as int,
                ring_pixels(cx as int, cy as int, outer as int, inner as int),
            ),
    {
        let list = ring_list(cx, cy, outer, inner);
        self.stamp(&list);
    }

    /// Covers a line drawn with a square brush.
    pub fn thick_line(&mut self, x0: i32, y0: i32, x1: i32, y1: i32, thickness: i32)
        requires
            old(self).wf(),
            line_fits(0, x0 as int, y0 as int, x1 as int, y1 as int, thickness as int, 0),
        ensures
            final(self).wf(),
            final(self).w == old(self).w,
            final(self).h == old(self).h,
            final(self).data@ == stamped(
                old(self).data@,
                old(self).w as int,
                old(self).h as int,
                line_pixels(x0 as int, y0 as int, x1 as int, y1 as int, thickness as int),
            ),
    {
        if thickness <= 0 {
            return;
        }
        let ghost (a, b, c, d) = (x0 as int, y0 as int, x1 as int, y1 as int);
        let ghost (w, h) = (self.w as int, self.h as int);
        let ghost before = self.data@;
        let ghost size = thickness as int;
        let half: i32 = thickness / 2;
        let list = line_points(x0, y0, x1, y1);
        let mut n: usize = 0;
        while n < list.len()
            invariant
                a == x0 && b == y0 && c == x1 && d == y1,
                size == thickness,
                size > 0,
                half == size / 2,
                line_fits(0, a, b, c, d, size, 0),
                n <= list.len(),
                list.len() == line_steps(a, b, c, d) + 1,
                forall|n: int|
                    0 <= n < list.len() ==> ((#[trigger] list[n]).0 as int, list[n].1 as int)
                        == line_point(a, b, c, d, n),
                self.wf(),
                self.w == w,
                self.h == h,
                self.data@ == stamped(before, w, h, brushed(a, b, c, d, size, n as int)),
            decreases list.len() - n,
        {
            let (x, y) = list[n];
            proof {
                let p = line_point(a, b, c, d, n as int);
                assert(p == (x as int, y as int));
                assert(brush_fits(0, p, size, 0));
                lemma_stamped_concat(
                    before,
                    w,
                    h,
                    brushed(a, b, c, d, size, n as int),
                    brush_pixels(p, size),
                );
            }
            let brush = rect_list(x - half, y - half, thickness, thickness);
            self.stamp(&brush);
            n += 1;
        }
    }

    /// Covers a polygon that is moved by `(ox, oy)`.
    pub fn polygon(&mut self, corners: &Vec<(i32, i32)>, ox: i32, oy: i32)
        requires
            old(self).wf(),
            movable(polygon_pixels(points(corners@)), ox as int, oy as int),
        ensures
            final(self).wf(),
            final(self).w == old(self).w,
            final(self).h == old(self).h,
            final(self).data@ == stamped(
                old(self).data@,
                old(self).w as int,
                old(self).h as int,
                moved(polygon_pixels(points(corners@)), ox as int, oy as int),
            ),
    {
        let list = polygon_list(corners);
        proof {
            let all = polygon_pixels(points(corners@));
            assert forall|i: int| 0 <= i < list.len() implies in_i32(
                ox + (#[trigger] list[i]).0,
            ) && in_i32(oy + list[i].1) by {
                assert(points(list@)[i] == (list@[i].0 as int, list@[i].1 as int));
                assert(in_i32(ox + all[i].0) && in_i32(oy + all[i].1));
            }
        }
        let here = move_all(&list, ox, oy);
        self.stamp(&here);
    }
}

/// Each coverage as a white pixel.
pub open spec fn tinted(coverage: Seq<u8>) -> Seq<u8> {
    Seq::new(
        coverage.len() * 4,
        |i: int|
            if i % 4 == 3 {
                coverage[i / 4]
            } else {
                255u8
            },
    )
}

/// Each coverage as a white pixel.
pub fn coverage_to_rgba(coverage: &Vec<u8>) -> (r: Vec<u8>)
    ensures
        r@ == tinted(coverage@),
{
    let mut out: Vec<u8> = Vec::new();
    let mut i: usize = 0;
    while i < coverage.len()
        invariant
            i <= coverage.len(),
            out@ == tinted(coverage@.take(i as int)),
        decreases coverage.len() - i,
    {
        out.push(255);
        out.push(255);
        out.push(255);
        out.push(coverage[i]);
        i += 1;
        assert(out@ =~= tinted(coverage@.take(i as int)));
    }
    assert(coverage@.take(i as int) =~= coverage@);
    out
}

// ---------------------------------------------------------------------------
// Icons
// ---------------------------------------------------------------------------

/// A picture that waits to be packed.
pub struct Sprite {
    pub w: u32,
    pub h: u32,
    pub rgba: Vec<u8>,
}

/// The value of a [`Sprite`].
pub ghost struct SpriteView {
    pub w: int,
    pub h: int,
    pub rgba: Seq<u8>,
}

impl View for Sprite {
    type V = SpriteView;

    open spec fn view(&self) -> SpriteView {
        SpriteView { w: self.w as int, h: self.h as int, rgba: self.rgba@ }
    }
}

impl Sprite {
    /// There are four bytes for each pixel.
    pub open spec fn wf(&self) -> bool {
        self.rgba@.len() == self.w * self.h * 4
    }
}

/// The pixels of the outline of the arrow on its canvas: the arrow moved by
/// the first `n` shifts.
pub open spec fn outline_pixels(n: int) -> Seq<(int, int)>
    decreases n,
{
    if n <= 0 {
        Seq::empty()
    } else {
        let (dx, dy) = cursor_shifts()[n - 1];
        outline_pixels(n - 1) + moved(polygon_pixels(cursor_corners()), 1 + dx, 1 + dy)
    }
}

/// Size and pixels of each icon.
pub open spec fn icon_shape(id: IconId) -> (int, int, Seq<(int, int)>) {
    match id {
        IconId::AvatarDisc => (55, 55, ring_pixels(27, 27, 27, 0)),
        IconId::AvatarRing => (61, 61, ring_pixels(30, 30, 30, 24)),
        IconId::PowerIcon => (56, 56, ring_pixels(28, 27, 24, 20) + line_pixels(28, 5, 28, 8, 3)),
        IconId::CursorOutline => (13, 22, outline_pixels(8)),
        IconId::CursorBody => (13, 22, moved(polygon_pixels(cursor_corners()), 1, 1)),
        IconId::SpinnerDot => (7, 7, ring_pixels(3, 3, 3, 0)),
    }
}

/// Each icon as a picture.
pub open spec fn icon_sprite(id: IconId) -> SpriteView {
    let (w, h, pixels) = icon_shape(id);
    SpriteView { w, h, rgba: stamped(blank(w, h), w, h, pixels) }
}

/// The icons of the atlas, in the order in which they are packed.
pub open spec fn all_icons() -> Seq<IconId> {
    seq![
        IconId::AvatarDisc,
        IconId::AvatarRing,
        IconId::PowerIcon,
        IconId::CursorOutline,
        IconId::CursorBody,
        IconId::SpinnerDot,
    ]
}

fn into_sprite(canvas: Canvas) -> (r: Sprite)
    requires
        canvas.wf(),
    ensures
        r.wf(),
        r@ == (SpriteView { w: canvas.w as int, h: canvas.h as int, rgba: canvas.data@ }),
{
    Sprite { w: canvas.w, h: canvas.h, rgba: canvas.data }
}

/// The icons of the atlas.
pub fn build_icon_sprites() -> (r: Vec<(IconId, Sprite)>)
    ensures
        r.len() == 6,
        forall|i: int|
            0 <= i < 6 ==> (#[trigger] r[i]).0 == all_icons()[i] && r[i].1@ == icon_sprite(
                all_icons()[i],
            ) && r[i].1.wf(),
{
    let mut out: Vec<(IconId, Sprite)> = Vec::new();

    let mut disc = Canvas::new(55, 55);
    disc.fill_circle(27, 27, 27);
    out.push((IconId::AvatarDisc, into_sprite(disc)));

    let mut ring = Canvas::new(61, 61);
    ring.ring(30, 30, 30, 24);
    out.push((IconId::AvatarRing, into_sprite(ring)));

    let mut power = Canvas::new(56, 56);
    proof {
        lemma_stamped_concat(
            blank(56, 56),
            56,
            56,
            ring_pixels(28, 27, 24, 20),
            line_pixels(28, 5, 28, 8, 3),
        );
        assert forall|n: int| 0 <= n <= line_steps(28, 5, 28, 8) implies brush_fits(
            0,
            #[trigger] line_point(28, 5, 28, 8, n),
            3,
            0,
        ) by {
            assert(crate::font::nearest(n, 0, 3) == (2 * n * 0 + 3) / 6);
            assert(2 * n * 0 == 0);
        }
    }
    power.ring(28, 27, 24, 20);
    power.thick_line(28, 5, 28, 8, 3);
    out.push((IconId::PowerIcon, into_sprite(power)));

    let corners = cursor_polygon();
    let shifts = shifts_of_cursor();
    let mut outline = Canvas::new(13, 22);
    let mut n: usize = 0;
    assert(shifts.len() == points(shifts@).len());
    while n < 8
        invariant
            0 <= n <= 8,
            shifts.len() == 9,
            points(shifts@) == cursor_shifts(),
            points(corners@) == cursor_corners(),
            outline.wf(),
            outline.w == 13,
            outline.h == 22,
            outline.data@ == stamped(blank(13, 22), 13, 22, outline_pixels(n as int)),
        decreases 8 - n,
    {
        let (dx, dy) = shifts[n];
        proof {
            assert(points(shifts@)[n as int] == (dx as int, dy as int));
            lemma_stamped_concat(
                blank(13, 22),
                13,
                22,
                outline_pixels(n as int),
                moved(polygon_pixels(cursor_corners()), 1 + dx, 1 + dy),
            );
        }
        proof {
            lemma_arrow_movable(1 + dx, 1 + dy);
        }
        outline.polygon(&corners, 1 + dx, 1 + dy);
        n += 1;
    }
    out.push((IconId::CursorOutline, into_sprite(outline)));

    let mut body = Canvas::new(13, 22);
    proof {
        lemma_arrow_movable(1, 1);
    }
    body.polygon(&corners, 1, 1);
    out.push((IconId::CursorBody, into_sprite(body)));

    let mut dot = Canvas::new(7, 7);
    dot.fill_circle(3, 3, 3);
    out.push((IconId::SpinnerDot, into_sprite(dot)));
    out
}

// ---------------------------------------------------------------------------
// Packing
// ---------------------------------------------------------------------------

/// A rectangle of the atlas.
#[derive(Clone, Copy, Debug, PartialEq, Eq, Structural)]
pub struct AtlasRect {
    pub x: u32,
    pub y: u32,
    pub w: u32,
    pub h: u32,
}

impl Default for AtlasRect {
    fn default() -> (r: AtlasRect)
        ensures
            r == (AtlasRect { x: 0, y: 0, w: 0, h: 0 }),
    {
        AtlasRect { x: 0, y: 0, w: 0, h: 0 }
    }
}

/// Packs rectangles onto shelves from left to right, with a gap of one pixel
/// between neighbours and between shelves.
#[derive(Clone, Copy, Debug, PartialEq, Eq, Structural)]
pub struct ShelfPacker {
    pub width: u32,
    pub x: u32,
    pub y: u32,
    pub shelf_h: u32,
}

/// The shelves after a rectangle was placed.
pub open spec fn shelves_after(p: ShelfPacker, w: u32, h: u32) -> ShelfPacker {
    if w == 0 || h == 0 {
        p
    } else if p.x + w > p.width {
        ShelfPacker {
            width: p.width,
            x: (w + 1) as u32,
            y: (p.y + p.shelf_h + 1) as u32,
            shelf_h: h,
        }
    } else {
        ShelfPacker {
            width: p.width,
            x: (p.x + w + 1) as u32,
            y: p.y,
            shelf_h: if p.shelf_h >= h {
                p.shelf_h
            } else {
                h
            },
        }
    }
}

/// Where a rectangle is placed.
pub open spec fn placed_at(p: ShelfPacker, w: u32, h: u32) -> AtlasRect {
    if w == 0 || h == 0 {
        AtlasRect { x: 0, y: 0, w: 0, h: 0 }
    } else if p.x + w > p.width {
        AtlasRect { x: 0, y: (p.y + p.shelf_h + 1) as u32, w, h }
    } else {
        AtlasRect { x: p.x, y: p.y, w, h }
    }
}

/// A rectangle can be placed within 32 bits.
pub open spec fn can_place(p: ShelfPacker, w: u32, h: u32) -> bool {
    w == 0 || h == 0 || (p.x + w <= u32::MAX && if p.x + w > p.width {
        p.y + p.shelf_h + 1 <= u32::MAX && w + 1 <= u32::MAX
    } else {
        p.x + w + 1 <= u32::MAX
    })
}

impl ShelfPacker {
    /// Empty shelves of a width.
    pub fn new(width: u32) -> (r: ShelfPacker)
        ensures
            r == (ShelfPacker { width, x: 0, y: 0, shelf_h: 0 }),
    {
        ShelfPacker { width, x: 0, y: 0, shelf_h: 0 }
    }

    /// Places a rectangle; an empty one takes no room.
    pub fn place(&mut self, w: u32, h: u32) -> (r: AtlasRect)
        requires
            can_place(*old(self), w, h),
        ensures
            r == placed_at(*old(self), w, h),
            *final(self) == shelves_after(*old(self), w, h),
    {
        if w == 0 || h == 0 {
            return AtlasRect::default();
        }
        if self.x + w > self.width {
            self.y = self.y + (self.shelf_h + 1);
            self.x = 0;
            self.shelf_h = 0;
        }
        let rect = AtlasRect { x: self.x, y: self.y, w, h };
        self.x = self.x + (w + 1);
        if self.shelf_h < h {
            self.shelf_h = h;
        }
        rect
    }

    /// The height of all shelves.
    pub fn total_height(&self) -> (r: u32)
        requires
            self.y + self.shelf_h <= u32::MAX,
        ensures
            r == self.y + self.shelf_h,
    {
        self.y + self.shelf_h
    }
}

/// The shelves after the first `n` of a list of sizes.
pub open spec fn shelves(width: u32, sizes: Seq<(u32, u32)>, n: int) -> ShelfPacker
    decreases n,
{
    if n <= 0 {
        ShelfPacker { width, x: 0, y: 0, shelf_h: 0 }
    } else {
        shelves_after(shelves(width, sizes, n - 1), sizes[n - 1].0, sizes[n - 1].1)
    }
}

/// Where the `i`-th of a list of sizes is placed.
pub open spec fn shelf_rect(width: u32, sizes: Seq<(u32, u32)>, i: int) -> AtlasRect {
    placed_at(shelves(width, sizes, i), sizes[i].0, sizes[i].1)
}

/// The height of the shelves after the first `n`.
pub open spec fn shelf_height(width: u32, sizes: Seq<(u32, u32)>, n: int) -> int {
    shelves(width, sizes, n).y + shelves(width, sizes, n).shelf_h
}

/// All sizes of a list can be placed, one after the other.
pub open spec fn can_place_all(width: u32, sizes: Seq<(u32, u32)>) -> bool {
    forall|i: int|
        0 <= i < sizes.len() ==> can_place(
            #[trigger] shelves(width, sizes, i),
            sizes[i].0,
            sizes[i].1,
        )
}

/// Two rectangles have no pixel in common.
pub open spec fn apart(a: AtlasRect, b: AtlasRect) -> bool {
    a.w == 0 || a.h == 0 || b.w == 0 || b.h == 0 || a.x + a.w <= b.x || b.x + b.w <= a.x || a.y
        + a.h <= b.y || b.y + b.h <= a.y
}

/// What the shelves know of a rectangle that stands on them: it is on an
/// earlier shelf, or to the left on the present one.
pub open spec fn shelved(p: ShelfPacker, r: AtlasRect) -> bool {
    r.w == 0 || r.h == 0 || r.y + r.h < p.y || (r.y == p.y && r.h <= p.shelf_h && r.x + r.w < p.x)
}

proof fn lemma_shelved(width: u32, sizes: Seq<(u32, u32)>, i: int, n: int)
    requires
        can_place_all(width, sizes),
        0 <= i < n <= sizes.len(),
    ensures
        shelved(shelves(width, sizes, n), shelf_rect(width, sizes, i)),
        shelves(width, sizes, n).width == width,
    decreases n,
{
    lemma_shelves_width(width, sizes, n - 1);
    assert(can_place(shelves(width, sizes, n - 1), sizes[n - 1].0, sizes[n - 1].1));
    if i < n - 1 {
        lemma_shelved(width, sizes, i, n - 1);
    }
}

proof fn lemma_shelves_width(width: u32, sizes: Seq<(u32, u32)>, n: int)
    ensures
        shelves(width, sizes, n).width == width,
    decreases n,
{
    if n > 0 {
        lemma_shelves_width(width, sizes, n - 1);
    }
}

proof fn lemma_shelf_height_grows(width: u32, sizes: Seq<(u32, u32)>, i: int, n: int)
    requires
        can_place_all(width, sizes),
        0 <= i <= n <= sizes.len(),
    ensures
        shelf_height(width, sizes, i) <= shelf_height(width, sizes, n),
    decreases n,
{
    if i < n {
        assert(can_place(shelves(width, sizes, n - 1), sizes[n - 1].0, sizes[n - 1].1));
        lemma_shelf_height_grows(width, sizes, i, n - 1);
    }
}

/// No two packed rectangles overlap, and there is at least one pixel between
/// them: the later one is to the right of the earlier one, or below it.
pub proof fn law_packed_rects_apart(width: u32, sizes: Seq<(u32, u32)>, i: int, j: int)
    requires
        can_place_all(width, sizes),
        0 <= i < j < sizes.len(),
    ensures
        apart(shelf_rect(width, sizes, i), shelf_rect(width, sizes, j)),
        ({
            let a = shelf_rect(width, sizes, i);
            let b = shelf_rect(width, sizes, j);
            a.w > 0 && a.h > 0 && b.w > 0 && b.h > 0 ==> a.x + a.w + 1 <= b.x || a.y + a.h + 1 <= b.y
        }),
{
    lemma_shelved(width, sizes, i, j);
    assert(can_place(shelves(width, sizes, j), sizes[j].0, sizes[j].1));
    assert(can_place(shelves(width, sizes, i), sizes[i].0, sizes[i].1));
}

/// Each packed rectangle has the size that was asked for, and lies within the
/// height of the shelves and, where it is not wider itself, within their width.
pub proof fn law_packed_rects_inside(width: u32, sizes: Seq<(u32, u32)>, i: int)
    requires
        can_place_all(width, sizes),
        0 <= i < sizes.len(),
    ensures
        ({
            let r = shelf_rect(width, sizes, i);
            &&& sizes[i].0 > 0 && sizes[i].1 > 0 ==> r.w == sizes[i].0 && r.h == sizes[i].1
            &&& sizes[i].0 <= width ==> r.x + r.w <= width
            &&& r.y + r.h <= shelf_height(width, sizes, sizes.len() as int)
        }),
{
    lemma_shelves_width(width, sizes, i);
    assert(can_place(shelves(width, sizes, i), sizes[i].0, sizes[i].1));
    lemma_shelf_height_grows(width, sizes, i + 1, sizes.len() as int);
}

// ---------------------------------------------------------------------------
// Copying pictures into the atlas
// ---------------------------------------------------------------------------

/// The column and the row of the pixel that a byte belongs to.
pub open spec fn column(canvas_w: int, at: int) -> int {
    (at / 4) % canvas_w
}

pub open spec fn row(canvas_w: int, at: int) -> int {
    (at / 4) / canvas_w
}

/// A byte belongs to the pixels of a rectangle.
pub open spec fn byte_in(canvas_w: int, r: AtlasRect, at: int) -> bool {
    r.x <= column(canvas_w, at) < r.x + r.w && r.y <= row(canvas_w, at) < r.y + r.h
}

/// The byte of a picture that lies on a byte of the canvas.
pub open spec fn source_byte(canvas_w: int, src: Seq<u8>, r: AtlasRect, at: int) -> u8 {
    src[((row(canvas_w, at) - r.y) * r.w + (column(canvas_w, at) - r.x)) * 4 + at % 4]
}

/// The canvas with a picture in a rectangle.
pub open spec fn blitted(
    canvas: Seq<u8>,
    canvas_w: int,
    src: Seq<u8>,
    r: AtlasRect,
) -> Seq<u8> {
    Seq::new(
        canvas.len(),
        |at: int|
            if byte_in(canvas_w, r, at) {
                source_byte(canvas_w, src, r, at)
            } else {
                canvas[at]
            },
    )
}

/// The canvas after the first rows of a picture, and `j` bytes of the next.
spec fn partly_blitted(
    canvas: Seq<u8>,
    canvas_w: int,
    src: Seq<u8>,
    r: AtlasRect,
    rows: int,
    j: int,
) -> Seq<u8> {
    Seq::new(
        canvas.len(),
        |at: int|
            if byte_in(canvas_w, r, at) && (row(canvas_w, at) - r.y < rows || (row(canvas_w, at)
                - r.y == rows && (column(canvas_w, at) - r.x) * 4 + at % 4 < j)) {
                source_byte(canvas_w, src, r, at)
            } else {
                canvas[at]
            },
    )
}

proof fn lemma_byte_place(canvas_w: int, at: int)
    requires
        canvas_w > 0,
        at >= 0,
    ensures
        at == (row(canvas_w, at) * canvas_w + column(canvas_w, at)) * 4 + at % 4,
        0 <= column(canvas_w, at) < canvas_w,
        0 <= row(canvas_w, at),
{
    vstd::arithmetic::div_mod::lemma_fundamental_div_mod(at / 4, canvas_w);
    vstd::arithmetic::div_mod::lemma_mod_bound(at / 4, canvas_w);
    vstd::arithmetic::div_mod::lemma_div_pos_is_pos(at / 4, canvas_w);
    let q = row(canvas_w, at);
    assert(canvas_w * q == q * canvas_w) by (nonlinear_arith);
}

proof fn lemma_place_of_byte(canvas_w: int, x: int, y: int, b: int)
    requires
        0 <= x < canvas_w,
        0 <= y,
        0 <= b < 4,
    ensures
        column(canvas_w, (y * canvas_w + x) * 4 + b) == x,
        row(canvas_w, (y * canvas_w + x) * 4 + b) == y,
        ((y * canvas_w + x) * 4 + b) % 4 == b,
        0 <= y * canvas_w,
{
    assert(0 <= y * canvas_w) by (nonlinear_arith)
        requires
            0 <= y,
            0 < canvas_w,
    ;
    let k = y * canvas_w + x;
    assert((k * 4 + b) / 4 == k && (k * 4 + b) % 4 == b);
    vstd::arithmetic::div_mod::lemma_fundamental_div_mod_converse(k, canvas_w, y, x);
}

/// A picture fits the canvas: its pixels are there, each row has its place on
/// the canvas, and positions fit 32 bits. Nothing always fits.
pub open spec fn blit_fits(canvas: Seq<u8>, canvas_w: int, src: Seq<u8>, r: AtlasRect) -> bool {
    r.w == 0 || r.h == 0 || {
        let last = ((r.y + r.h - 1) * canvas_w + r.x) * 4;
        &&& r.x + r.w <= canvas_w
        &&& r.w * r.h * 4 <= src.len()
        &&& last + r.w * 4 <= canvas.len()
        &&& last <= u32::MAX
        &&& r.w * 4 <= u32::MAX
    }
}

/// Copies a picture of a width and a height to a place on the canvas.
pub fn blit(canvas: &mut Vec<u8>, canvas_w: u32, src: &Vec<u8>, w: u32, h: u32, at: AtlasRect)
    requires
        blit_fits(old(canvas)@, canvas_w as int, src@, (AtlasRect { w, h, ..at })),
    ensures
        final(canvas)@ == blitted(
            old(canvas)@,
            canvas_w as int,
            src@,
            (AtlasRect { w, h, ..at }),
        ),
{
    let dst = AtlasRect { x: at.x, y: at.y, w, h };
    let ghost before = canvas@;
    let ghost cw = canvas_w as int;
    if w == 0 || h == 0 {
        assert(blitted(before, cw, src@, dst) =~= before);
        return;
    }
    let mut r: u32 = 0;
    proof {
        assert forall|at: int| 0 <= at < before.len() implies #[trigger] partly_blitted(
            before,
            cw,
            src@,
            dst,
            0,
            0,
        )[at] == before[at] by {
            lemma_byte_place(cw, at);
        }
        assert(canvas@ =~= partly_blitted(before, cw, src@, dst, 0, 0));
    }
    while r < h
        invariant
            0 <= r <= h,
            cw == canvas_w,
            w == dst.w,
            h == dst.h,
            w > 0,
            h > 0,
            blit_fits(before, cw, src@, dst),
            canvas@ == partly_blitted(before, cw, src@, dst, r as int, 0),
        decreases h - r,
    {
        proof {
            assert((dst.y + r) * cw <= (dst.y + h - 1) * cw) by (nonlinear_arith)
                requires
                    0 <= r < h,
                    cw >= 0,
            ;
            assert(dst.y + h - 1 <= (dst.y + h - 1) * cw) by (nonlinear_arith)
                requires
                    cw >= 1,
                    dst.y + h - 1 >= 0,
            ;
            assert(0 <= (dst.y + r) * cw) by (nonlinear_arith)
                requires
                    dst.y + r >= 0,
                    cw >= 0,
            ;
            assert((r * w + w) * 4 <= w * h * 4) by (nonlinear_arith)
                requires
                    0 <= r < h,
                    w >= 0,
            ;
            assert(0 <= r * w) by (nonlinear_arith)
                requires
                    r >= 0,
                    w >= 0,
            ;
            assert(r * w <= (dst.y + r) * cw) by (nonlinear_arith)
                requires
                    0 <= w <= cw,
                    0 <= r,
                    0 <= dst.y,
            ;
        }
        let from: usize = (r * w * 4) as usize;
        let to: usize = (((dst.y + r) * canvas_w + dst.x) * 4) as usize;
        let len: usize = (w * 4) as usize;
        let mut j: usize = 0;
        while j < len
            invariant
                0 <= r < h,
                cw == canvas_w,
                w == dst.w,
                h == dst.h,
                w > 0,
                j <= len,
                len == w * 4,
                from == r * w * 4,
                to == ((dst.y + r) * cw + dst.x) * 4,
                from + len <= src.len(),
                to + len <= before.len(),
                blit_fits(before, cw, src@, dst),
                canvas@ == partly_blitted(before, cw, src@, dst, r as int, j as int),
            decreases len - j,
        {
            let value: u8 = src[from + j];
            let ghost prior = canvas@;
            assert(canvas.len() == before.len());
            canvas[to + j] = value;
            proof {
                let here = to + j;
                let x = dst.x + j as int / 4;
                let y = dst.y + r;
                let b = j as int % 4;
                assert(here == (y * cw + x) * 4 + b);
                lemma_place_of_byte(cw, x, y, b);
                assert(value == source_byte(cw, src@, dst, here));
                let after = partly_blitted(before, cw, src@, dst, r as int, j + 1);
                assert forall|at: int| 0 <= at < before.len() implies #[trigger] canvas@[at]
                    == after[at] by {
                    lemma_byte_place(cw, at);
                    if at != here {
                        assert(canvas@[at] == prior[at]);
                        if byte_in(cw, dst, at) && row(cw, at) - dst.y == r {
                            assert((column(cw, at) - dst.x) * 4 + at % 4 != j) by {
                                if (column(cw, at) - dst.x) * 4 + at % 4 == j {
                                    assert(at == (y * cw + column(cw, at)) * 4 + at % 4);
                                }
                            }
                        }
                    }
                }
                assert(canvas@ =~= after);
            }
            j += 1;
        }
        proof {
            let now = partly_blitted(before, cw, src@, dst, r as int, len as int);
            let next = partly_blitted(before, cw, src@, dst, r + 1, 0);
            assert forall|at: int| 0 <= at < before.len() implies #[trigger] now[at]
                == next[at] by {
                lemma_byte_place(cw, at);
            }
            assert(now =~= next);
        }
        r += 1;
    }
    proof {
        let now = partly_blitted(before, cw, src@, dst, h as int, 0);
        let whole = blitted(before, cw, src@, dst);
        assert forall|at: int| 0 <= at < before.len() implies #[trigger] now[at]
            == whole[at] by {
            lemma_byte_place(cw, at);
        }
        assert(now =~= whole);
    }
}

// ---------------------------------------------------------------------------
// The atlas
// ---------------------------------------------------------------------------

/// The width of the atlas in pixels.
pub const ATLAS_WIDTH: u32 = 1024;

/// A rasterised glyph that waits to be packed: its face, its size in tenths of
/// a pixel, its character, its picture, its bearings, and its advance, which is
/// carried as the bits of the font's own number.
pub struct GlyphSprite {
    pub font: FontId,
    pub size_key: u32,
    pub ch: char,
    pub sprite: Sprite,
    pub xmin: i32,
    pub ymin: i32,
    pub advance: u32,
}

/// Where a glyph is in the atlas, and how it is placed.
#[derive(Clone, Copy, Debug, PartialEq, Eq, Structural)]
pub struct GlyphInfo {
    /// None for a glyph without area, such as the space.
    pub rect: Option<AtlasRect>,
    pub xmin: i32,
    pub ymin: i32,
    pub advance: u32,
}

/// One glyph of the atlas.
#[derive(Clone, Copy, Debug, PartialEq, Eq, Structural)]
pub struct GlyphEntry {
    pub font: FontId,
    pub size_key: u32,
    pub ch: char,
    pub info: GlyphInfo,
}

/// The packed glyphs and icons, and the picture that holds them.
pub struct GlyphAtlas {
    pub height: u32,
    pub canvas: Vec<u8>,
    pub glyphs: Vec<GlyphEntry>,
    pub icons: Vec<(IconId, AtlasRect)>,
}

/// The pictures of the atlas: the glyphs, then the icons.
pub open spec fn pictures(glyphs: Seq<GlyphSprite>) -> Seq<SpriteView> {
    Seq::new(glyphs.len(), |i: int| glyphs[i].sprite@) + Seq::new(
        6,
        |i: int| icon_sprite(all_icons()[i]),
    )
}

/// The sizes of a list of pictures.
pub open spec fn sizes_of(list: Seq<SpriteView>) -> Seq<(u32, u32)> {
    Seq::new(list.len(), |i: int| (list[i].w as u32, list[i].h as u32))
}

/// The place of the `i`-th of a list of pictures.
pub open spec fn atlas_rect(list: Seq<SpriteView>, i: int) -> AtlasRect {
    shelf_rect(ATLAS_WIDTH, sizes_of(list), i)
}

/// The height of the atlas of a list of pictures, at least one pixel.
pub open spec fn atlas_height(list: Seq<SpriteView>) -> int {
    let h = shelf_height(ATLAS_WIDTH, sizes_of(list), list.len() as int);
    if h >= 1 {
        h
    } else {
        1
    }
}

/// The atlas after the first `n` of a list of pictures.
pub open spec fn atlas_canvas(list: Seq<SpriteView>, n: int) -> Seq<u8>
    decreases n,
{
    if n <= 0 {
        Seq::new((ATLAS_WIDTH * atlas_height(list) * 4) as nat, |i: int| 0u8)
    } else {
        blitted(
            atlas_canvas(list, n - 1),
            ATLAS_WIDTH as int,
            list[n - 1].rgba,
            atlas_rect(list, n - 1),
        )
    }
}

/// Each picture is at most as wide as the atlas, has its bytes, and all of them
/// fit into an atlas whose size fits 32 bits.
pub open spec fn atlas_fits(list: Seq<SpriteView>) -> bool {
    &&& forall|i: int|
        0 <= i < list.len() ==> {
            let s = #[trigger] list[i];
            &&& 0 <= s.w <= ATLAS_WIDTH
            &&& 0 <= s.h <= u32::MAX
            &&& s.rgba.len() == s.w * s.h * 4
        }
    &&& can_place_all(ATLAS_WIDTH, sizes_of(list))
    &&& ATLAS_WIDTH * atlas_height(list) * 4 <= u32::MAX
}

proof fn lemma_atlas_canvas_len(list: Seq<SpriteView>, n: int)
    requires
        0 <= n,
    ensures
        atlas_canvas(list, n).len() == ATLAS_WIDTH * atlas_height(list) * 4,
    decreases n,
{
    if n > 0 {
        lemma_atlas_canvas_len(list, n - 1);
    }
}

proof fn lemma_blit_fits(list: Seq<SpriteView>, i: int)
    requires
        atlas_fits(list),
        0 <= i < list.len(),
        list[i].w > 0,
        list[i].h > 0,
    ensures
        blit_fits(
            atlas_canvas(list, i),
            ATLAS_WIDTH as int,
            list[i].rgba,
            atlas_rect(list, i),
        ),
        atlas_rect(list, i).w == list[i].w,
        atlas_rect(list, i).h == list[i].h,
{
    lemma_atlas_canvas_len(list, i);
    law_packed_rects_inside(ATLAS_WIDTH, sizes_of(list), i);
    let r = atlas_rect(list, i);
    let s = list[i];
    assert(r.w == s.w && r.h == s.h);
    assert((r.y + r.h) * 1024 * 4 <= 1024 * atlas_height(list) * 4);
}

proof fn lemma_blit_of_nothing(canvas: Seq<u8>, src: Seq<u8>, r: AtlasRect)
    requires
        r.w == 0 || r.h == 0,
    ensures
        blitted(canvas, ATLAS_WIDTH as int, src, r) == canvas,
{
    assert(blitted(canvas, ATLAS_WIDTH as int, src, r) =~= canvas);
}

/// Each picture can be read back from its place in the atlas: no other one
/// covers it.
pub proof fn law_atlas_keeps_pictures(list: Seq<SpriteView>, i: int, n: int, at: int)
    requires
        atlas_fits(list),
        0 <= i < n <= list.len(),
        0 <= at < ATLAS_WIDTH * atlas_height(list) * 4,
        byte_in(ATLAS_WIDTH as int, atlas_rect(list, i), at),
    ensures
        atlas_canvas(list, n)[at] == source_byte(
            ATLAS_WIDTH as int,
            list[i].rgba,
            atlas_rect(list, i),
            at,
        ),
    decreases n,
{
    lemma_atlas_canvas_len(list, n - 1);
    if i < n - 1 {
        law_atlas_keeps_pictures(list, i, n - 1, at);
        law_packed_rects_apart(ATLAS_WIDTH, sizes_of(list), i, n - 1);
        assert(!byte_in(ATLAS_WIDTH as int, atlas_rect(list, n - 1), at));
    }
}

/// The list holds the glyphs' places, bearings and advances.
pub open spec fn entry_of(list: Seq<SpriteView>, g: GlyphSprite, i: int) -> GlyphEntry {
    GlyphEntry {
        font: g.font,
        size_key: g.size_key,
        ch: g.ch,
        info: GlyphInfo {
            rect: if g.sprite.w == 0 || g.sprite.h == 0 {
                None
            } else {
                Some(atlas_rect(list, i))
            },
            xmin: g.xmin,
            ymin: g.ymin,
            advance: g.advance,
        },
    }
}

/// The last entry for a face, a size and a character.
pub open spec fn last_entry(
    entries: Seq<GlyphEntry>,
    font: FontId,
    size_key: u32,
    ch: char,
) -> Option<GlyphInfo>
    decreases entries.len(),
{
    if entries.len() == 0 {
        None
    } else {
        let e = entries.last();
        if e.font == font && e.size_key == size_key && e.ch == ch {
            Some(e.info)
        } else {
            last_entry(entries.drop_last(), font, size_key, ch)
        }
    }
}

/// The place of an icon, or an empty rectangle.
pub open spec fn place_of_icon(icons: Seq<(IconId, AtlasRect)>, id: IconId) -> AtlasRect
    decreases icons.len(),
{
    if icons.len() == 0 {
        AtlasRect { x: 0, y: 0, w: 0, h: 0 }
    } else if icons.last().0 == id {
        icons.last().1
    } else {
        place_of_icon(icons.drop_last(), id)
    }
}

impl GlyphAtlas {
    /// Packs glyphs and icons: first their places are found, then their
    /// pictures are copied there.
    pub fn build(glyphs: &Vec<GlyphSprite>) -> (r: GlyphAtlas)
        requires
            atlas_fits(pictures(glyphs@)),
        ensures
            r.height == atlas_height(pictures(glyphs@)),
            r.canvas@ == atlas_canvas(pictures(glyphs@), glyphs.len() + 6),
            r.glyphs@ == Seq::new(
                glyphs.len() as nat,
                |i: int| entry_of(pictures(glyphs@), glyphs[i], i),
            ),
            r.icons@ == Seq::new(
                6,
                |i: int|
                    (all_icons()[i], atlas_rect(pictures(glyphs@), glyphs.len() + i)),
            ),
    {
        let icons = build_icon_sprites();
        let ghost list = pictures(glyphs@);
        let ghost sizes = sizes_of(list);
        let mut packer = ShelfPacker::new(ATLAS_WIDTH);
        let mut entries: Vec<GlyphEntry> = Vec::new();
        let mut i: usize = 0;
        while i < glyphs.len()
            invariant
                i <= glyphs.len(),
                list == pictures(glyphs@),
                sizes == sizes_of(list),
                atlas_fits(list),
                packer == shelves(ATLAS_WIDTH, sizes, i as int),
                entries@ == Seq::new(i as nat, |k: int| entry_of(list, glyphs[k], k)),
            decreases glyphs.len() - i,
        {
            let g = &glyphs[i];
            proof {
                assert(list[i as int] == g.sprite@);
                assert(sizes[i as int] == (g.sprite.w, g.sprite.h));
                assert(can_place(
                    shelves(ATLAS_WIDTH, sizes, i as int),
                    sizes[i as int].0,
                    sizes[i as int].1,
                ));
            }
            let rect = packer.place(g.sprite.w, g.sprite.h);
            let place = if g.sprite.w == 0 || g.sprite.h == 0 {
                None
            } else {
                Some(rect)
            };
            entries.push(
                GlyphEntry {
                    font: g.font,
                    size_key: g.size_key,
                    ch: g.ch,
                    info: GlyphInfo { rect: place, xmin: g.xmin, ymin: g.ymin, advance: g.advance },
                },
            );
            i += 1;
            assert(entries@ =~= Seq::new(i as nat, |k: int| entry_of(list, glyphs[k], k)));
        }
        let mut places: Vec<(IconId, AtlasRect)> = Vec::new();
        let mut k: usize = 0;
        while k < icons.len()
            invariant
                k <= icons.len(),
                icons.len() == 6,
                forall|i: int|
                    0 <= i < 6 ==> (#[trigger] icons[i]).0 == all_icons()[i] && icons[i].1@
                        == icon_sprite(all_icons()[i]) && icons[i].1.wf(),
                list == pictures(glyphs@),
                sizes == sizes_of(list),
                atlas_fits(list),
                packer == shelves(ATLAS_WIDTH, sizes, glyphs.len() + k),
                places@ == Seq::new(
                    k as nat,
                    |i: int| (all_icons()[i], atlas_rect(list, glyphs.len() + i)),
                ),
            decreases icons.len() - k,
        {
            let ghost n = glyphs.len() + k;
            proof {
                assert(icons[k as int].0 == all_icons()[k as int]);
                assert(list[n] == icons[k as int].1@);
                assert(sizes[n] == (icons[k as int].1.w, icons[k as int].1.h));
                assert(can_place(shelves(ATLAS_WIDTH, sizes, n), sizes[n].0, sizes[n].1));
            }
            let rect = packer.place(icons[k].1.w, icons[k].1.h);
            places.push((icons[k].0, rect));
            k += 1;
            assert(places@ =~= Seq::new(
                k as nat,
                |i: int| (all_icons()[i], atlas_rect(list, glyphs.len() + i)),
            ));
        }
        assert(list.len() == glyphs.len() + 6);
        let total: u32 = packer.total_height();
        let height: u32 = if total >= 1 {
            total
        } else {
            1
        };
        let size: usize = (ATLAS_WIDTH * height * 4) as usize;
        let mut canvas: Vec<u8> = vec![0u8; size];
        assert(canvas@ =~= atlas_canvas(list, 0));
        let mut i: usize = 0;
        while i < glyphs.len()
            invariant
                i <= glyphs.len(),
                list == pictures(glyphs@),
                atlas_fits(list),
                entries@ == Seq::new(
                    glyphs.len() as nat,
                    |k: int| entry_of(list, glyphs[k], k),
                ),
                canvas@ == atlas_canvas(list, i as int),
            decreases glyphs.len() - i,
        {
            let ghost before = canvas@;
            assert(list[i as int] == glyphs[i as int].sprite@);
            assert(entries@[i as int] == entry_of(list, glyphs[i as int], i as int));
            if let Some(rect) = entries[i].info.rect {
                proof {
                    lemma_blit_fits(list, i as int);
                }
                blit(
                    &mut canvas,
                    ATLAS_WIDTH,
                    &glyphs[i].sprite.rgba,
                    glyphs[i].sprite.w,
                    glyphs[i].sprite.h,
                    rect,
                );
            } else {
                proof {
                    lemma_blit_of_nothing(before, list[i as int].rgba, atlas_rect(list, i as int));
                }
            }
            i += 1;
        }
        let mut k: usize = 0;
        while k < icons.len()
            invariant
                k <= icons.len(),
                icons.len() == 6,
                forall|i: int|
                    0 <= i < 6 ==> (#[trigger] icons[i]).0 == all_icons()[i] && icons[i].1@
                        == icon_sprite(all_icons()[i]) && icons[i].1.wf(),
                list == pictures(glyphs@),
                atlas_fits(list),
                places@ == Seq::new(
                    6,
                    |i: int| (all_icons()[i], atlas_rect(list, glyphs.len() + i)),
                ),
                canvas@ == atlas_canvas(list, glyphs.len() + k),
            decreases icons.len() - k,
        {
            let ghost n = glyphs.len() + k;
            proof {
                assert(icons[k as int].0 == all_icons()[k as int]);
                assert(list[n] == icons[k as int].1@);
                assert(places@[k as int] == (all_icons()[k as int], atlas_rect(list, n)));
                assert(list[n].w > 0 && list[n].h > 0);
                lemma_blit_fits(list, n);
            }
            blit(
                &mut canvas,
                ATLAS_WIDTH,
                &icons[k].1.rgba,
                icons[k].1.w,
                icons[k].1.h,
                places[k].1,
            );
            k += 1;
        }
        GlyphAtlas { height, canvas, glyphs: entries, icons: places }
    }

    /// The glyph of a character, where it is in the atlas.
    pub fn glyph(&self, font: FontId, size_key: u32, ch: char) -> (r: Option<GlyphInfo>)
        ensures
            r == last_entry(self.glyphs@, font, size_key, ch),
    {
        let mut n: usize = self.glyphs.len();
        assert(self.glyphs@.take(n as int) =~= self.glyphs@);
        while n > 0
            invariant
                n <= self.glyphs.len(),
                last_entry(self.glyphs@, font, size_key, ch) == last_entry(
                    self.glyphs@.take(n as int),
                    font,
                    size_key,
                    ch,
                ),
            decreases n,
        {
            let e = self.glyphs[n - 1];
            proof {
                assert(self.glyphs@.take(n as int).last() == e);
                assert(self.glyphs@.take(n as int).drop_last() =~= self.glyphs@.take(n - 1));
            }
            if e.font == font && e.size_key == size_key && e.ch == ch {
                return Some(e.info);
            }
            n -= 1;
        }
        None
    }

    /// The place of an icon.
    pub fn icon_rect(&self, id: IconId) -> (r: AtlasRect)
        ensures
            r == place_of_icon(self.icons@, id),
    {
        let mut n: usize = self.icons.len();
        assert(self.icons@.take(n as int) =~= self.icons@);
        while n > 0
            invariant
                n <= self.icons.len(),
                place_of_icon(self.icons@, id) == place_of_icon(self.icons@.take(n as int), id),
            decreases n,
        {
            proof {
                assert(self.icons@.take(n as int).last() == self.icons@[n - 1]);
                assert(self.icons@.take(n as int).drop_last() =~= self.icons@.take(n - 1));
            }
            if self.icons[n - 1].0 == id {
                return self.icons[n - 1].1;
            }
            n -= 1;
        }
        AtlasRect::default()
    }
}

/// Where a glyph goes whose pen stands at `caret` on the base line; None for a
/// glyph without area.
pub fn glyph_place(info: GlyphInfo, caret: i32, baseline: i32) -> (r: Option<crate::render::Rect>)
    requires
        info.rect is Some ==> {
            let rect = info.rect->Some_0;
            &&& rect.w <= i32::MAX
            &&& rect.h <= i32::MAX
            &&& in_i32(caret + info.xmin)
            &&& in_i32(baseline - info.ymin)
            &&& in_i32(baseline - info.ymin - rect.h)
        },
    ensures
        match info.rect {
            None => r is None,
            Some(rect) => r == Some(
                crate::render::Rect {
                    x: (caret + info.xmin) as i32,
                    y: (baseline - info.ymin - rect.h) as i32,
                    w: rect.w as i32,
                    h: rect.h as i32,
                },
            ),
        },
{
    match info.rect {
        None => None,
        Some(rect) => {
            let (x, y) = crate::font::glyph_origin(
                caret,
                baseline,
                info.xmin,
                info.ymin,
                rect.h as i32,
            );
            Some(crate::render::Rect { x, y, w: rect.w as i32, h: rect.h as i32 })
        },
    }
}

/// The faces and sizes that are baked, in order.
pub open spec fn baked_sizes() -> Seq<(FontId, TextSize)> {
    seq![
        (FontId::Medium, TextSize::Title),
        (FontId::Medium, TextSize::Avatar),
        (FontId::Regular, TextSize::Body),
        (FontId::Regular, TextSize::Small),
        (FontId::Medium, TextSize::Field),
        (FontId::Regular, TextSize::Field),
    ]
}

/// The sizes of the text in tenths of a pixel.
#[derive(Clone, Copy, Debug, PartialEq, Eq, Structural)]
pub struct SizeKeys {
    pub title: u32,
    pub avatar: u32,
    pub body: u32,
    pub field: u32,
    pub small: u32,
}

impl SizeKeys {
    pub open spec fn spec_key(self, size: TextSize) -> u32 {
        match size {
            TextSize::Title => self.title,
            TextSize::Avatar => self.avatar,
            TextSize::Body => self.body,
            TextSize::Field => self.field,
            TextSize::Small => self.small,
        }
    }

    /// The key of a size.
    pub fn key(self, size: TextSize) -> (r: u32)
        ensures
            r == self.spec_key(size),
    {
        match size {
            TextSize::Title => self.title,
            TextSize::Avatar => self.avatar,
            TextSize::Body => self.body,
            TextSize::Field => self.field,
            TextSize::Small => self.small,
        }
    }
}

/// The first `n` faces and sizes, without those whose face and key are those of
/// the one kept before them.
pub open spec fn sizes_to_bake(keys: SizeKeys, n: int) -> Seq<(FontId, TextSize)>
    decreases n,
{
    if n <= 0 {
        Seq::empty()
    } else {
        let before = sizes_to_bake(keys, n - 1);
        let (font, size) = baked_sizes()[n - 1];
        if before.len() > 0 && before.last().0 == font && keys.spec_key(before.last().1)
            == keys.spec_key(size) {
            before
        } else {
            before.push((font, size))
        }
    }
}

/// The faces and sizes whose glyphs are baked.
pub fn atlas_sizes(keys: SizeKeys) -> (r: Vec<(FontId, TextSize)>)
    ensures
        r@ == sizes_to_bake(keys, 6),
{
    let mut all: Vec<(FontId, TextSize)> = Vec::new();
    all.push((FontId::Medium, TextSize::Title));
    all.push((FontId::Medium, TextSize::Avatar));
    all.push((FontId::Regular, TextSize::Body));
    all.push((FontId::Regular, TextSize::Small));
    all.push((FontId::Medium, TextSize::Field));
    all.push((FontId::Regular, TextSize::Field));
    assert(all@ =~= baked_sizes());
    let mut out: Vec<(FontId, TextSize)> = Vec::new();
    let mut n: usize = 0;
    while n < all.len()
        invariant
            n <= all.len(),
            all@ == baked_sizes(),
            out@ == sizes_to_bake(keys, n as int),
        decreases all.len() - n,
    {
        let (font, size) = all[n];
        let last: usize = out.len();
        let repeated = last > 0 && out[last - 1].0 == font && keys.key(out[last - 1].1)
            == keys.key(size);
        if !repeated {
            out.push((font, size));
        }
        n += 1;
    }
    out
}

/// Whether a rectangle can be placed within 32 bits.
fn placeable(p: &ShelfPacker, w: u32, h: u32) -> (r: bool)
    ensures
        r == can_place(*p, w, h),
{
    if w == 0 || h == 0 {
        return true;
    }
    let x: u64 = p.x as u64 + w as u64;
    x <= 0xFFFF_FFFF && if x > p.width as u64 {
        p.y as u64 + p.shelf_h as u64 + 1 <= 0xFFFF_FFFF && w as u64 + 1 <= 0xFFFF_FFFF
    } else {
        x + 1 <= 0xFFFF_FFFF
    }
}

/// Whether a picture has its bytes and is at most as wide as the atlas.
fn packable(sprite: &Sprite) -> (r: bool)
    ensures
        r == (sprite.w <= ATLAS_WIDTH && sprite.rgba@.len() == sprite.w * sprite.h * 4),
{
    if sprite.w > ATLAS_WIDTH {
        return false;
    }
    proof {
        assert(0 <= sprite.w * sprite.h <= 1024 * 0xFFFF_FFFF) by (nonlinear_arith)
            requires
                0 <= sprite.w <= 1024,
                0 <= sprite.h <= 0xFFFF_FFFF,
        ;
    }
    sprite.rgba.len() as u64 == sprite.w as u64 * sprite.h as u64 * 4
}

/// Whether the glyphs and the icons fit into one atlas.
pub fn fits_atlas(glyphs: &Vec<GlyphSprite>) -> (r: bool)
    ensures
        r == atlas_fits(pictures(glyphs@)),
{
    let icons = build_icon_sprites();
    let ghost list = pictures(glyphs@);
    let ghost sizes = sizes_of(list);
    let mut packer = ShelfPacker::new(ATLAS_WIDTH);
    let mut i: usize = 0;
    while i < glyphs.len()
        invariant
            i <= glyphs.len(),
            list == pictures(glyphs@),
            sizes == sizes_of(list),
            packer == shelves(ATLAS_WIDTH, sizes, i as int),
            forall|k: int|
                0 <= k < i ==> {
                    let s = #[trigger] list[k];
                    &&& 0 <= s.w <= ATLAS_WIDTH
                    &&& 0 <= s.h <= u32::MAX
                    &&& s.rgba.len() == s.w * s.h * 4
                },
            forall|k: int|
                0 <= k < i ==> can_place(
                    #[trigger] shelves(ATLAS_WIDTH, sizes, k),
                    sizes[k].0,
                    sizes[k].1,
                ),
        decreases glyphs.len() - i,
    {
        let sprite = &glyphs[i].sprite;
        assert(list[i as int] == sprite@);
        assert(sizes[i as int] == (sprite.w, sprite.h));
        if !packable(sprite) || !placeable(&packer, sprite.w, sprite.h) {
            proof {
                assert(list[i as int] == sprite@);
                assert(packer == shelves(ATLAS_WIDTH, sizes, i as int));
            }
            return false;
        }
        packer.place(sprite.w, sprite.h);
        i += 1;
    }
    let mut k: usize = 0;
    while k < icons.len()
        invariant
            k <= icons.len(),
            icons.len() == 6,
            forall|i: int|
                0 <= i < 6 ==> (#[trigger] icons[i]).0 == all_icons()[i] && icons[i].1@
                    == icon_sprite(all_icons()[i]) && icons[i].1.wf(),
            list == pictures(glyphs@),
            sizes == sizes_of(list),
            packer == shelves(ATLAS_WIDTH, sizes, glyphs.len() + k),
            forall|k2: int|
                0 <= k2 < glyphs.len() + k ==> {
                    let s = #[trigger] list[k2];
                    &&& 0 <= s.w <= ATLAS_WIDTH
                    &&& 0 <= s.h <= u32::MAX
                    &&& s.rgba.len() == s.w * s.h * 4
                },
            forall|k2: int|
                0 <= k2 < glyphs.len() + k ==> can_place(
                    #[trigger] shelves(ATLAS_WIDTH, sizes, k2),
                    sizes[k2].0,
                    sizes[k2].1,
                ),
        decreases icons.len() - k,
    {
        let ghost n = glyphs.len() + k;
        let sprite = &icons[k].1;
        proof {
            assert(icons[k as int].0 == all_icons()[k as int]);
            assert(list[n] == sprite@);
            assert(sizes[n] == (sprite.w, sprite.h));
        }
        if !placeable(&packer, sprite.w, sprite.h) {
            proof {
                assert(packer == shelves(ATLAS_WIDTH, sizes, n));
                assert(n < sizes.len());
            }
            return false;
        }
        packer.place(sprite.w, sprite.h);
        k += 1;
    }
    assert(list.len() == glyphs.len() + 6);
    let total: u64 = packer.y as u64 + packer.shelf_h as u64;
    let height: u64 = if total >= 1 {
        total
    } else {
        1
    };
    1024 * height * 4 <= 0xFFFF_FFFF
}

/// A pixel that is covered is white and keeps the higher of the two coverages;
/// every other byte stays.
pub proof fn law_covered(
    data: Seq<u8>,
    w: int,
    h: int,
    x: int,
    y: int,
    coverage: u8,
    i: int,
)
    requires
        0 <= x < w,
        0 <= y < h,
        data.len() == w * h * 4,
        coverage > 0,
        0 <= i < data.len(),
    ensures
        ({
            let at = (y * w + x) * 4;
            let out = covered(data, w, h, x, y, coverage);
            &&& 0 <= at && at + 3 < data.len() && out.len() == data.len()
            &&& out[at] == 255 && out[at + 1] == 255 && out[at + 2] == 255
            &&& out[at + 3] >= coverage && out[at + 3] >= data[at + 3]
            &&& out[at + 3] == coverage || out[at + 3] == data[at + 3]
            &&& i < at || i > at + 3 ==> out[i] == data[i]
        }),
{
    assert(0 <= y * w) by (nonlinear_arith)
        requires
            0 <= y,
            0 < w,
    ;
    assert(y * w + x + 1 <= w * h) by (nonlinear_arith)
        requires
            0 <= x < w,
            0 <= y < h,
    ;
}

/// A shape that is stamped on a blank canvas leaves its pixels opaque and the
/// others clear.
pub proof fn law_stamped(w: int, h: int, pixels: Seq<(int, int)>, x: int, y: int)
    requires
        0 <= x < w,
        0 <= y < h,
    ensures
        stamped(blank(w, h), w, h, pixels).len() == w * h * 4,
        stamped(blank(w, h), w, h, pixels)[(y * w + x) * 4 + 3] == if pixels.contains((x, y)) {
            255u8
        } else {
            0u8
        },
    decreases pixels.len(),
{
    assert(0 <= y * w) by (nonlinear_arith)
        requires
            0 <= y,
            0 < w,
    ;
    assert(y * w + x + 1 <= w * h) by (nonlinear_arith)
        requires
            0 <= x < w,
            0 <= y < h,
    ;
    let at = (y * w + x) * 4;
    if pixels.len() > 0 {
        let front = pixels.drop_last();
        law_stamped(w, h, front, x, y);
        let (px, py) = pixels.last();
        let before = stamped(blank(w, h), w, h, front);
        if 0 <= px < w && 0 <= py < h {
            law_covered(before, w, h, px, py, 255, at + 3);
            let there = (py * w + px) * 4;
            if (px, py) != (x, y) {
                lemma_places_apart(w, x, y, px, py);
            }
        }
        if pixels.contains((x, y)) && (px, py) != (x, y) {
            let k = choose|k: int| 0 <= k < pixels.len() && pixels[k] == (x, y);
            assert(front[k] == (x, y));
        }
        if front.contains((x, y)) {
            let k = choose|k: int| 0 <= k < front.len() && front[k] == (x, y);
            assert(pixels[k] == (x, y));
        }
        if (px, py) == (x, y) {
            assert(pixels[pixels.len() - 1] == (x, y));
        }
    }
}

proof fn lemma_places_apart(w: int, x: int, y: int, px: int, py: int)
    requires
        0 <= x < w,
        0 <= px < w,
        (px, py) != (x, y),
    ensures
        y * w + x != py * w + px,
{
    if y * w + x == py * w + px {
        vstd::arithmetic::div_mod::lemma_fundamental_div_mod_converse(y * w + x, w, y, x);
        vstd::arithmetic::div_mod::lemma_fundamental_div_mod_converse(y * w + x, w, py, px);
    }
}

/// Every size that a frame writes in is baked, under its own key.
pub proof fn law_sizes_are_baked(keys: SizeKeys, i: int) -> (j: int)
    requires
        0 <= i < 6,
    ensures
        0 <= j < sizes_to_bake(keys, 6).len(),
        sizes_to_bake(keys, 6)[j].0 == baked_sizes()[i].0,
        keys.spec_key(sizes_to_bake(keys, 6)[j].1) == keys.spec_key(baked_sizes()[i].1),
        baked_sizes() == seq![
            (FontId::Medium, TextSize::Title),
            (FontId::Medium, TextSize::Avatar),
            (FontId::Regular, TextSize::Body),
            (FontId::Regular, TextSize::Small),
            (FontId::Medium, TextSize::Field),
            (FontId::Regular, TextSize::Field),
        ],
{
    lemma_size_baked(keys, 6, i)
}

proof fn lemma_size_baked(keys: SizeKeys, n: int, i: int) -> (j: int)
    requires
        0 <= i < n <= 6,
    ensures
        0 <= j < sizes_to_bake(keys, n).len(),
        sizes_to_bake(keys, n)[j].0 == baked_sizes()[i].0,
        keys.spec_key(sizes_to_bake(keys, n)[j].1) == keys.spec_key(baked_sizes()[i].1),
    decreases n,
{
    let before = sizes_to_bake(keys, n - 1);
    if i < n - 1 {
        lemma_size_baked(keys, n - 1, i)
    } else {
        sizes_to_bake(keys, n).len() - 1
    }
}

/// A picture of the atlas is found under its own name: a glyph that was baked
/// once by its font, its size and its character, and each icon by what it is.
pub proof fn law_found_by_name(
    entries: Seq<GlyphEntry>,
    k: int,
    icons: Seq<(IconId, AtlasRect)>,
    n: int,
)
    requires
        0 <= k < entries.len(),
        forall|j: int|
            k < j < entries.len() ==> !((#[trigger] entries[j]).font == entries[k].font
                && entries[j].size_key == entries[k].size_key && entries[j].ch == entries[k].ch),
        0 <= n < icons.len(),
        forall|j: int| n < j < icons.len() ==> (#[trigger] icons[j]).0 != icons[n].0,
    ensures
        last_entry(entries, entries[k].font, entries[k].size_key, entries[k].ch) == Some(
            entries[k].info,
        ),
        place_of_icon(icons, icons[n].0) == icons[n].1,
    decreases entries.len() + icons.len(),
{
    if k < entries.len() - 1 {
        let front = entries.drop_last();
        assert(!(entries[entries.len() - 1].font == entries[k].font && entries[entries.len()
            - 1].size_key == entries[k].size_key && entries[entries.len() - 1].ch
            == entries[k].ch));
        assert forall|j: int| k < j < front.len() implies !((#[trigger] front[j]).font
            == front[k].font && front[j].size_key == front[k].size_key && front[j].ch
            == front[k].ch) by {
            assert(front[j] == entries[j]);
        }
        law_found_by_name(front, k, icons, n);
    } else if n < icons.len() - 1 {
        let front = icons.drop_last();
        assert(icons[icons.len() - 1].0 != icons[n].0);
        assert forall|j: int| n < j < front.len() implies (#[trigger] front[j]).0 != front[n].0 by {
            assert(front[j] == icons[j]);
        }
        law_found_by_name(entries, k, front, n);
    }
}

} // verus!
