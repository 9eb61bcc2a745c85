//! The decisions of the greeter's display output: which connector, mode and
//! buffer layout to use, which of two buffers to draw into, and when.

use crate::text::{
    dec, eq_ignore_ascii_case, law_decimal_round_trip, lowered, parse_i32, signed_number,
};
use vstd::prelude::*;

verus! {

// ---------------------------------------------------------------------------
// What the environment asks for
// ---------------------------------------------------------------------------

#[derive(Clone, Copy, Debug, PartialEq, Eq, Structural)]
pub enum BackgroundStyle {
    Aurora,
    SpiralTunnel,
}

/// The style that is asked for, or else one by the parity of the clock and of
/// the process.
pub open spec fn style_of(value: Option<Seq<char>>, nanos: u128, pid: u32) -> BackgroundStyle {
    if value is Some && lowered(value->Some_0) == lowered("aurora"@) {
        BackgroundStyle::Aurora
    } else if value is Some && lowered(value->Some_0) == lowered("spiral"@) {
        BackgroundStyle::SpiralTunnel
    } else if nanos % 2 == (pid % 2) as u128 {
        BackgroundStyle::Aurora
    } else {
        BackgroundStyle::SpiralTunnel
    }
}

/// The background: `value` is what `FOCALDM_BACKGROUND` holds; where it is
/// neither `aurora` nor `spiral`, the time in nanoseconds and the number of the
/// process decide.
pub fn select_background_style(value: &Option<String>, nanos: u128, pid: u32) -> (r:
    BackgroundStyle)
    ensures
        r == style_of(crate::text::opt_view(*value), nanos, pid),
{
    if let Some(text) = value {
        if eq_ignore_ascii_case(text.as_str(), "aurora") {
            return BackgroundStyle::Aurora;
        }
        if eq_ignore_ascii_case(text.as_str(), "spiral") {
            return BackgroundStyle::SpiralTunnel;
        }
    }
    if nanos % 2 == (pid % 2) as u128 {
        BackgroundStyle::Aurora
    } else {
        BackgroundStyle::SpiralTunnel
    }
}

/// Whether `FOCALDM_BACKGROUND` is unset or holds one of the names that it may
/// hold: `aurora`, `spiral` or `random`.
pub fn background_is_known(value: &Option<String>) -> (r: bool)
    ensures
        r == match *value {
            None => true,
            Some(text) => lowered(text@) == lowered("aurora"@) || lowered(text@) == lowered(
                "spiral"@,
            ) || lowered(text@) == lowered("random"@),
        },
{
    match value {
        None => true,
        Some(text) => eq_ignore_ascii_case(text.as_str(), "aurora") || eq_ignore_ascii_case(
            text.as_str(),
            "spiral",
        ) || eq_ignore_ascii_case(text.as_str(), "random"),
    }
}

/// A positive console number.
pub open spec fn console_number(value: Option<Seq<char>>) -> Option<i32> {
    match value {
        None => None,
        Some(text) => match signed_number(text, i32::MIN as int, i32::MAX as int) {
            Some(n) => if n > 0 {
                Some(n as i32)
            } else {
                None
            },
            None => None,
        },
    }
}

fn parse_console(value: &Option<String>) -> (r: Option<i32>)
    ensures
        r == console_number(crate::text::opt_view(*value)),
{
    match value {
        None => None,
        Some(text) => match parse_i32(text.as_str()) {
            Some(n) => if n > 0 {
                Some(n)
            } else {
                None
            },
            None => None,
        },
    }
}

/// The console that the environment names, the greeter's own variable first.
pub open spec fn vt_from(own: Option<Seq<char>>, session: Option<Seq<char>>) -> Option<i32> {
    match console_number(own) {
        Some(n) => Some(n),
        None => console_number(session),
    }
}

/// The console of the greeter: what `FOCALDM_VT` holds, or else `XDG_VTNR`,
/// where that is a positive number.
pub fn configured_vt(focaldm_vt: &Option<String>, xdg_vtnr: &Option<String>) -> (r: Option<i32>)
    ensures
        r == vt_from(crate::text::opt_view(*focaldm_vt), crate::text::opt_view(*xdg_vtnr)),
        r == match console_number(crate::text::opt_view(*focaldm_vt)) {
            Some(n) => Some(n),
            None => console_number(crate::text::opt_view(*xdg_vtnr)),
        },
{
    match parse_console(focaldm_vt) {
        Some(n) => Some(n),
        None => parse_console(xdg_vtnr),
    }
}

/// The console to ask for at the start: none while the seat is active already.
pub fn vt_to_request(active: bool, vt: Option<i32>) -> (r: Option<i32>)
    ensures
        r == if active {
            None
        } else {
            vt
        },
{
    if active {
        None
    } else {
        vt
    }
}

// ---------------------------------------------------------------------------
// Connectors, modes and buffer layouts
// ---------------------------------------------------------------------------

/// The position of the first flag that is set.
pub open spec fn first_set(flags: Seq<bool>, from: int) -> Option<usize>
    decreases flags.len() - from,
{
    if from >= flags.len() {
        None
    } else if flags[from] {
        Some(from as usize)
    } else {
        first_set(flags, from + 1)
    }
}

fn find_set(flags: &Vec<bool>) -> (r: Option<usize>)
    ensures
        r == first_set(flags@, 0),
{
    let mut i: usize = 0;
    while i < flags.len()
        invariant
            i <= flags.len(),
            first_set(flags@, 0) == first_set(flags@, i as int),
        decreases flags.len() - i,
    {
        if flags[i] {
            return Some(i);
        }
        i += 1;
    }
    None
}

/// The first connector that is connected.
pub fn choose_connector(connected: &Vec<bool>) -> (r: Option<usize>)
    ensures
        r == first_set(connected@, 0),
{
    find_set(connected)
}

/// The first preferred mode, or else the first mode.
pub open spec fn mode_choice(preferred: Seq<bool>) -> Option<usize> {
    match first_set(preferred, 0) {
        Some(i) => Some(i),
        None => if preferred.len() > 0 {
            Some(0usize)
        } else {
            None
        },
    }
}

/// The first preferred mode, or else the first mode.
pub fn choose_mode(preferred: &Vec<bool>) -> (r: Option<usize>)
    ensures
        r == mode_choice(preferred@),
{
    match find_set(preferred) {
        Some(i) => Some(i),
        None => if preferred.len() > 0 {
            Some(0)
        } else {
            None
        },
    }
}

/// The layout in plain rows.
pub const MODIFIER_LINEAR: u64 = 0;

/// The layout that the driver picks.
pub const MODIFIER_INVALID: u64 = 0x00FF_FFFF_FFFF_FFFF;

/// The layouts of a format, in order.
pub open spec fn modifiers_of(formats: Seq<(u32, u64)>, code: u32) -> Seq<u64>
    decreases formats.len(),
{
    if formats.len() == 0 {
        Seq::empty()
    } else {
        let before = modifiers_of(formats.drop_last(), code);
        if formats.last().0 == code {
            before.push(formats.last().1)
        } else {
            before
        }
    }
}

/// The layouts of a format: `formats` holds pairs of a format and a layout.
pub fn modifiers_for_format(formats: &Vec<(u32, u64)>, code: u32) -> (r: Vec<u64>)
    ensures
        r@ == modifiers_of(formats@, code),
{
    let mut out: Vec<u64> = Vec::new();
    let mut i: usize = 0;
    while i < formats.len()
        invariant
            i <= formats.len(),
            out@ == modifiers_of(formats@.take(i as int), code),
        decreases formats.len() - i,
    {
        proof {
            assert(formats@.take(i + 1).drop_last() =~= formats@.take(i as int));
            assert(formats@.take(i + 1).last() == formats@[i as int]);
        }
        if formats[i].0 == code {
            out.push(formats[i].1);
        }
        i += 1;
    }
    assert(formats@.take(i as int) =~= formats@);
    out
}

/// The layouts that both sides know, in the order of the second; where one
/// side names none, those of the other.
pub open spec fn common_modifiers(plane: Seq<u64>, egl: Seq<u64>) -> Seq<u64> {
    if plane.len() == 0 {
        egl
    } else if egl.len() == 0 {
        plane
    } else {
        egl.filter(|m: u64| plane.contains(m))
    }
}

fn copy_modifiers(list: &Vec<u64>) -> (r: Vec<u64>)
    ensures
        r@ == list@,
{
    let mut out: Vec<u64> = Vec::new();
    let mut i: usize = 0;
    while i < list.len()
        invariant
            i <= list.len(),
            out@ == list@.take(i as int),
        decreases list.len() - i,
    {
        out.push(list[i]);
        i += 1;
        assert(list@.take(i as int) =~= list@.take(i - 1).push(list@[i - 1]));
    }
    assert(list@.take(i as int) =~= list@);
    out
}

fn knows(list: &Vec<u64>, m: u64) -> (r: bool)
    ensures
        r == list@.contains(m),
{
    let mut i: usize = 0;
    while i < list.len()
        invariant
            i <= list.len(),
            forall|k: int| 0 <= k < i ==> list[k] != m,
        decreases list.len() - i,
    {
        if list[i] == m {
            return true;
        }
        i += 1;
    }
    false
}

/// The layouts that both sides know.
pub fn intersect_modifiers(plane: &Vec<u64>, egl: &Vec<u64>) -> (r: Vec<u64>)
    ensures
        r@ == common_modifiers(plane@, egl@),
{
    if plane.len() == 0 {
        return copy_modifiers(egl);
    }
    if egl.len() == 0 {
        return copy_modifiers(plane);
    }
    let ghost keep = |m: u64| plane@.contains(m);
    let mut out: Vec<u64> = Vec::new();
    let mut i: usize = 0;
    assert(egl@.take(0).filter(keep) =~= Seq::<u64>::empty()) by {
        reveal(Seq::filter);
    }
    while i < egl.len()
        invariant
            i <= egl.len(),
            keep == (|m: u64| plane@.contains(m)),
            out@ == egl@.take(i as int).filter(keep),
        decreases egl.len() - i,
    {
        proof {
            reveal(Seq::filter);
            assert(egl@.take(i + 1).drop_last() =~= egl@.take(i as int));
            assert(egl@.take(i + 1).last() == egl@[i as int]);
        }
        if knows(plane, egl[i]) {
            out.push(egl[i]);
        }
        i += 1;
    }
    assert(egl@.take(i as int) =~= egl@);
    out
}

/// The layouts to allocate a buffer with: the common ones, or else what the
/// driver picks or plain rows.
pub fn scanout_modifiers(plane: &Vec<(u32, u64)>, egl: &Vec<(u32, u64)>, code: u32) -> (r: Vec<u64>)
    ensures
        ({
            let common = common_modifiers(modifiers_of(plane@, code), modifiers_of(egl@, code));
            r@ == if common.len() == 0 {
                seq![MODIFIER_INVALID, MODIFIER_LINEAR]
            } else {
                common
            }
        }),
{
    let plane_mods = modifiers_for_format(plane, code);
    let egl_mods = modifiers_for_format(egl, code);
    let mut out = intersect_modifiers(&plane_mods, &egl_mods);
    if out.len() == 0 {
        out.push(MODIFIER_INVALID);
        out.push(MODIFIER_LINEAR);
        assert(out@ =~= seq![MODIFIER_INVALID, MODIFIER_LINEAR]);
    }
    out
}

/// Where both sides name layouts, only layouts that both name are used.
pub proof fn law_common_modifiers(plane: Seq<u64>, egl: Seq<u64>, m: u64)
    requires
        plane.len() > 0,
        egl.len() > 0,
    ensures
        common_modifiers(plane, egl).contains(m) <==> plane.contains(m) && egl.contains(m),
{
    lemma_filter_members(egl, |m: u64| plane.contains(m), m);
}

proof fn lemma_filter_members(list: Seq<u64>, keep: spec_fn(u64) -> bool, m: u64)
    ensures
        list.filter(keep).contains(m) <==> list.contains(m) && keep(m),
    decreases list.len(),
{
    reveal(Seq::filter);
    if list.len() > 0 {
        let front = list.drop_last();
        let last = list.last();
        lemma_filter_members(front, keep, m);
        assert(front.push(last) =~= list);
        assert(list.contains(m) <==> front.contains(m) || m == last) by {
            if list.contains(m) {
                let i = choose|i: int| 0 <= i < list.len() && list[i] == m;
                if i < front.len() {
                    assert(front[i] == m);
                }
            }
            if front.contains(m) {
                let i = choose|i: int| 0 <= i < front.len() && front[i] == m;
                assert(list[i] == m);
            }
            if m == last {
                assert(list[list.len() - 1] == m);
            }
        }
        if keep(last) {
            let out = front.filter(keep);
            assert(out.push(last).contains(m) <==> out.contains(m) || m == last) by {
                if out.push(last).contains(m) {
                    let i = choose|i: int| 0 <= i < out.push(last).len() && out.push(last)[i] == m;
                    if i < out.len() {
                        assert(out[i] == m);
                    }
                }
                if out.contains(m) {
                    let i = choose|i: int| 0 <= i < out.len() && out[i] == m;
                    assert(out.push(last)[i] == m);
                }
                if m == last {
                    assert(out.push(last)[out.len() as int] == m);
                }
            }
        }
    }
}

/// How frames get to the screen.
#[derive(Clone, Copy, Debug, PartialEq, Eq, Structural)]
pub enum RenderPath {
    /// Drawn by the GPU into the buffer that is shown.
    DirectGpu,
    /// Drawn by the GPU elsewhere and copied.
    OffscreenGpu,
    /// Painted by the CPU.
    Cpu,
}

/// The best path that works.
pub fn choose_render_path(direct_works: bool, offscreen_works: bool) -> (r: RenderPath)
    ensures
        r == if direct_works {
            RenderPath::DirectGpu
        } else if offscreen_works {
            RenderPath::OffscreenGpu
        } else {
            RenderPath::Cpu
        },
{
    if direct_works {
        RenderPath::DirectGpu
    } else if offscreen_works {
        RenderPath::OffscreenGpu
    } else {
        RenderPath::Cpu
    }
}

// ---------------------------------------------------------------------------
// Two buffers
// ---------------------------------------------------------------------------

/// Which of the two buffers is shown, and whether a flip is under way.
#[derive(Clone, Copy, Debug, PartialEq, Eq, Structural)]
pub struct GreeterOutput {
    pub front: usize,
    pub flip_pending: bool,
}

/// What to do after a batch of display events.
#[derive(Clone, Copy, Debug, PartialEq, Eq, Structural)]
pub enum EventStep {
    /// Read the next batch.
    Again,
    /// Stop reading; whether a flip was completed.
    Finished(bool),
}

impl GreeterOutput {
    /// One of the two buffers is shown.
    pub open spec fn wf(self) -> bool {
        self.front == 0 || self.front == 1
    }

    pub open spec fn spec_back(self) -> usize {
        (1 - self.front) as usize
    }

    /// The buffer that is free to be drawn into.
    pub open spec fn spec_begin(self) -> Option<usize> {
        if self.flip_pending {
            None
        } else {
            Some(self.spec_back())
        }
    }

    /// After the flip to the other buffer was queued.
    pub open spec fn spec_queued(self) -> GreeterOutput {
        GreeterOutput { front: self.spec_back(), flip_pending: true }
    }

    /// After a batch of events.
    pub open spec fn spec_events(self, flips: Seq<bool>) -> GreeterOutput {
        GreeterOutput {
            front: self.front,
            flip_pending: self.flip_pending && !flips.contains(true),
        }
    }

    /// After several batches of events.
    pub open spec fn spec_batches(self, batches: Seq<Seq<bool>>) -> GreeterOutput
        decreases batches.len(),
    {
        if batches.len() == 0 {
            self
        } else {
            self.spec_batches(batches.drop_last()).spec_events(batches.last())
        }
    }

    /// The first buffer is shown, and no flip is under way.
    pub fn new() -> (r: GreeterOutput)
        ensures
            r.wf(),
            r == (GreeterOutput { front: 0, flip_pending: false }),
    {
        GreeterOutput { front: 0, flip_pending: false }
    }

    /// The buffer to draw the next frame into: none while a flip is pending.
    pub fn begin_frame(&self) -> (r: Option<usize>)
        requires
            self.wf(),
        ensures
            r == self.spec_begin(),
            r is Some ==> r->Some_0 != self.front && r->Some_0 < 2,
    {
        if self.flip_pending {
            None
        } else {
            Some(1 - self.front)
        }
    }

    /// The flip to the buffer that was drawn into was queued.
    pub fn frame_queued(&mut self)
        requires
            old(self).wf(),
        ensures
            final(self).wf(),
            *final(self) == old(self).spec_queued(),
    {
        self.front = 1 - self.front;
        self.flip_pending = true;
    }

    /// Takes note of a batch of events, each of which completes a flip or not.
    /// Reading ends with an empty batch and with a completed flip.
    pub fn handle_drm_events(&mut self, flips: &Vec<bool>) -> (r: EventStep)
        ensures
            *final(self) == old(self).spec_events(flips@),
            r == if flips@.contains(true) {
                EventStep::Finished(true)
            } else if flips@.len() == 0 {
                EventStep::Finished(false)
            } else {
                EventStep::Again
            },
    {
        assert(flips.len() <= usize::MAX);
        match find_set(flips) {
            Some(i) => {
                proof {
                    lemma_first_set(flips@, 0);
                }
                self.flip_pending = false;
                EventStep::Finished(true)
            },
            None => {
                proof {
                    lemma_first_set(flips@, 0);
                    assert(!flips@.contains(true));
                }
                if flips.len() == 0 {
                    EventStep::Finished(false)
                } else {
                    EventStep::Again
                }
            },
        }
    }
}

proof fn lemma_first_set(flags: Seq<bool>, from: int)
    requires
        0 <= from <= flags.len(),
        flags.len() <= usize::MAX,
    ensures
        match first_set(flags, from) {
            Some(i) => from <= i < flags.len() && flags[i as int],
            None => forall|k: int| from <= k < flags.len() ==> !flags[k],
        },
    decreases flags.len() - from,
{
    if from < flags.len() && !flags[from] {
        lemma_first_set(flags, from + 1);
    }
}

/// Nothing is ever drawn into the buffer that is shown. After each queued frame
/// nothing is drawn at all until one of the batches of events completes a flip,
/// and then the buffer that was shown before is the free one.
pub proof fn law_front_buffer_is_left_alone(o: GreeterOutput, batches: Seq<Seq<bool>>)
    requires
        o.wf(),
    ensures
        o.spec_begin() is Some ==> o.spec_begin()->Some_0 != o.front && o.spec_begin()->Some_0 < 2,
        ({
            let later = o.spec_queued().spec_batches(batches);
            let flipped = exists|i: int|
                0 <= i < batches.len() && (#[trigger] batches[i]).contains(true);
            &&& later.wf() && later.front == o.spec_back()
            &&& !flipped ==> later.spec_begin() is None
            &&& flipped ==> later.spec_begin() == Some(o.front)
        }),
    decreases batches.len(),
{
    if batches.len() > 0 {
        let front = batches.drop_last();
        law_front_buffer_is_left_alone(o, front);
        if exists|i: int| 0 <= i < front.len() && (#[trigger] front[i]).contains(true) {
            let i = choose|i: int| 0 <= i < front.len() && (#[trigger] front[i]).contains(true);
            assert(batches[i].contains(true));
        } else if batches.last().contains(true) {
            assert(batches[batches.len() - 1].contains(true));
        } else {
            assert forall|i: int| 0 <= i < batches.len() implies !(
            #[trigger] batches[i]).contains(true) by {
                if i < front.len() {
                    assert(!front[i].contains(true));
                }
            }
        }
    }
}

/// The last of the first `rows` rows that starts at a byte or in front of it.
pub open spec fn row_at(at: int, stride: int, rows: int) -> int {
    if stride > 0 && at / stride < rows {
        at / stride
    } else {
        rows - 1
    }
}

/// The picture in a buffer after the first `rows` rows of `pixels` were copied,
/// bottom row first. Where rows overlap, the later one stays.
pub open spec fn upside_down(
    dst: Seq<u8>,
    pixels: Seq<u8>,
    row_bytes: int,
    height: int,
    stride: int,
    rows: int,
) -> Seq<u8> {
    Seq::new(
        dst.len(),
        |at: int|
            {
                let y = row_at(at, stride, rows);
                if rows > 0 && at - y * stride < row_bytes {
                    pixels[(height - 1 - y) * row_bytes + (at - y * stride)]
                } else {
                    dst[at]
                }
            },
    )
}

/// Copies a picture whose rows come from the bottom into a buffer whose rows
/// start at the top, `stride` bytes apart.
pub fn copy_flipped(
    dst: &mut [u8],
    pixels: &[u8],
    row_bytes: usize,
    height: usize,
    stride: usize,
)
    requires
        row_bytes * height <= pixels.len(),
        height > 0 ==> (height - 1) * stride + row_bytes <= old(dst)@.len(),
    ensures
        final(dst)@ == upside_down(
            old(dst)@,
            pixels@,
            row_bytes as int,
            height as int,
            stride as int,
            height as int,
        ),
{
    let ghost before = dst@;
    let ghost (rb, h, st) = (row_bytes as int, height as int, stride as int);
    let mut y: usize = 0;
    if height == 0 {
        assert(dst@ =~= upside_down(before, pixels@, rb, h, st, 0));
        return;
    }
    assert(dst@ =~= upside_down(before, pixels@, rb, h, st, 0));
    while y < height
        invariant
            rb == row_bytes,
            h == height,
            st == stride,
            y <= height,
            rb * h <= pixels.len(),
            (h - 1) * st + rb <= before.len(),
            before.len() == dst.len(),
            dst@ == upside_down(before, pixels@, rb, h, st, y as int),
        decreases height - y,
    {
        let ghost above = dst@;
        proof {
            assert(0 <= y * st <= (h - 1) * st) by (nonlinear_arith)
                requires
                    0 <= y <= h - 1,
                    st >= 0,
            ;
            assert(0 <= (h - 1 - y) * rb && (h - 1 - y) * rb + rb <= rb * h) by (nonlinear_arith)
                requires
                    0 <= y <= h - 1,
                    0 <= rb,
            ;
        }
        let to: usize = y * stride;
        let from: usize = (height - 1 - y) * row_bytes;
        let mut k: usize = 0;
        while k < row_bytes
            invariant
                rb == row_bytes,
                k <= row_bytes,
                to + rb <= before.len(),
                from + rb <= pixels.len(),
                before.len() == dst.len(),
                above.len() == dst.len(),
                forall|at: int|
                    0 <= at < dst.len() ==> #[trigger] dst@[at] == if to <= at < to + k {
                        pixels@[from + (at - to)]
                    } else {
                        above[at]
                    },
            decreases row_bytes - k,
        {
            let b: u8 = pixels[from + k];
            dst[to + k] = b;
            k += 1;
        }
        proof {
            let next = upside_down(before, pixels@, rb, h, st, y + 1);
            assert forall|at: int| 0 <= at < dst.len() implies #[trigger] dst@[at]
                == next[at] by {
                if st > 0 {
                    let q = at / st;
                    vstd::arithmetic::div_mod::lemma_fundamental_div_mod(at, st);
                    vstd::arithmetic::div_mod::lemma_mod_bound(at, st);
                    assert(st * q == q * st) by (nonlinear_arith);
                    assert((q + 1) * st == q * st + st) by (nonlinear_arith);
                    if q < y {
                        assert(at < to) by (nonlinear_arith)
                            requires
                                at < (q + 1) * st,
                                q + 1 <= y,
                                to == y * st,
                                st > 0,
                        ;
                    } else {
                        assert(at >= to) by (nonlinear_arith)
                            requires
                                at >= q * st,
                                q >= y,
                                to == y * st,
                                st > 0,
                        ;
                        assert((y - 1) * st == y * st - st) by (nonlinear_arith);
                    }
                } else {
                    assert(y * st == 0 && (y - 1) * st == 0) by (nonlinear_arith)
                        requires
                            st == 0,
                    ;
                }
            }
            assert(dst@ =~= next);
        }
        y += 1;
    }
}

/// What is chosen is set, and nothing before it is; where anything is set,
/// something is chosen.
pub proof fn law_first_set(flags: Seq<bool>, i: int)
    requires
        flags.len() <= usize::MAX,
    ensures
        first_set(flags, 0) is Some ==> {
            let n = first_set(flags, 0)->Some_0;
            &&& n < flags.len() && flags[n as int]
            &&& 0 <= i < n ==> !flags[i]
        },
        0 <= i < flags.len() && flags[i] ==> first_set(flags, 0) is Some,
{
    lemma_none_before(flags, 0, i);
}

proof fn lemma_none_before(flags: Seq<bool>, from: int, i: int)
    requires
        flags.len() <= usize::MAX,
        0 <= from,
    ensures
        first_set(flags, from) is Some ==> {
            let n = first_set(flags, from)->Some_0;
            &&& from <= n < flags.len() && flags[n as int]
            &&& from <= i < n ==> !flags[i]
        },
        from <= i < flags.len() && flags[i] ==> first_set(flags, from) is Some,
    decreases flags.len() - from,
{
    if from < flags.len() && !flags[from] {
        lemma_none_before(flags, from + 1, i);
    }
}

/// A connector with any mode shows one: the one that the display prefers, else
/// the first.
pub proof fn law_mode_choice(preferred: Seq<bool>)
    requires
        0 < preferred.len() <= usize::MAX,
    ensures
        mode_choice(preferred) is Some,
        mode_choice(preferred)->Some_0 < preferred.len(),
        !preferred.contains(true) ==> mode_choice(preferred)->Some_0 == 0,
        preferred.contains(true) ==> preferred[mode_choice(preferred)->Some_0 as int],
{
    law_first_set(preferred, 0);
    if preferred.contains(true) {
        let i = choose|i: int| 0 <= i < preferred.len() && preferred[i] == true;
        law_first_set(preferred, i);
    }
}

/// The number of a console is read back from its decimal digits; no other number
/// than a positive one is a console.
pub proof fn law_console_number(n: i32, value: Option<Seq<char>>)
    ensures
        n > 0 ==> console_number(Some(dec(n as nat))) == Some(n),
        console_number(Some(seq!['-'] + dec(n as nat))) is None,
        console_number(value) is Some ==> console_number(value)->Some_0 > 0,
        console_number(None) is None,
{
    if n > 0 {
        law_decimal_round_trip(n as nat);
    }
    let t = seq!['-'] + dec(n as nat);
    assert(t[0] == '-');
}

/// The background that is asked for is shown, however it is written; where none
/// is, chance decides between the two, and both can come.
pub proof fn law_style(value: Seq<char>, nanos: u128, pid: u32)
    requires
        nanos < u128::MAX,
    ensures
        lowered(value) == "aurora"@ ==> style_of(Some(value), nanos, pid)
            == BackgroundStyle::Aurora,
        lowered(value) == "spiral"@ ==> style_of(Some(value), nanos, pid)
            == BackgroundStyle::SpiralTunnel,
        style_of(None, nanos, pid) != style_of(None, (nanos + 1) as u128, pid),
        lowered(value) != "aurora"@ && lowered(value) != "spiral"@ ==> style_of(
            Some(value),
            nanos,
            pid,
        ) == style_of(None, nanos, pid),
{
    reveal_strlit("aurora");
    reveal_strlit("spiral");
    assert(lowered("aurora"@) =~= "aurora"@);
    assert(lowered("spiral"@) =~= "spiral"@);
    assert("aurora"@[0] != "spiral"@[0]);
}

/// The modifiers of a format are those that stand beside it, in their order.
pub proof fn law_modifiers(formats: Seq<(u32, u64)>, more: Seq<(u32, u64)>, code: u32, m: u64)
    ensures
        modifiers_of(formats + more, code) == modifiers_of(formats, code) + modifiers_of(
            more,
            code,
        ),
        modifiers_of(formats, code).contains(m) <==> formats.contains((code, m)),
    decreases formats.len(), more.len(),
{
    if more.len() == 0 {
        assert(formats + more =~= formats);
        assert(modifiers_of(formats, code) + modifiers_of(more, code) =~= modifiers_of(
            formats,
            code,
        ));
        if formats.len() > 0 {
            let front = formats.drop_last();
            law_modifiers(front, Seq::empty(), code, m);
            let before = modifiers_of(front, code);
            if formats.contains((code, m)) {
                let i = choose|i: int| 0 <= i < formats.len() && formats[i] == (code, m);
                if i < front.len() {
                    assert(front[i] == (code, m));
                    let j = choose|j: int| 0 <= j < before.len() && before[j] == m;
                    assert(modifiers_of(formats, code)[j] == m);
                } else {
                    assert(modifiers_of(formats, code)[before.len() as int] == m);
                }
            }
            if modifiers_of(formats, code).contains(m) {
                let all = modifiers_of(formats, code);
                let j = choose|j: int| 0 <= j < all.len() && all[j] == m;
                if j < before.len() {
                    assert(before[j] == m);
                    let i = choose|i: int| 0 <= i < front.len() && front[i] == (code, m);
                    assert(formats[i] == (code, m));
                } else {
                    assert(formats[formats.len() - 1] == (code, m));
                }
            }
        }
    } else {
        let front = more.drop_last();
        law_modifiers(formats, front, code, m);
        assert((formats + more).drop_last() =~= formats + front);
        assert((formats + more).last() == more.last());
        assert(modifiers_of(formats + more, code) =~= modifiers_of(formats, code) + modifiers_of(
            more,
            code,
        ));
    }
}

/// The rows that are copied come in the opposite order: the first of the target
/// is the last of the picture, pixel by pixel.
pub proof fn law_upside_down(
    dst: Seq<u8>,
    pixels: Seq<u8>,
    row_bytes: int,
    height: int,
    stride: int,
    y: int,
    x: int,
)
    requires
        0 < row_bytes <= stride,
        0 <= y < height,
        0 <= x < row_bytes,
        (height - 1) * stride + row_bytes <= dst.len(),
    ensures
        0 <= y * stride + x < dst.len(),
        upside_down(dst, pixels, row_bytes, height, stride, height)[y * stride + x] == pixels[(
        height - 1 - y) * row_bytes + x],
{
    assert(0 <= y * stride) by (nonlinear_arith)
        requires
            0 <= y,
            0 < stride,
    ;
    assert(y * stride <= (height - 1) * stride) by (nonlinear_arith)
        requires
            0 <= y < height,
            0 < stride,
    ;
    vstd::arithmetic::div_mod::lemma_fundamental_div_mod_converse(y * stride + x, stride, y, x);
}

/// The variable of the greeter wins over the one of the session, whatever that
/// says; one that names no console does not count.
pub proof fn law_configured_vt(
    own: Option<Seq<char>>,
    session: Option<Seq<char>>,
    other: Option<Seq<char>>,
)
    ensures
        console_number(own) is Some ==> vt_from(own, session) == console_number(own),
        console_number(own) is Some ==> vt_from(own, session) == vt_from(own, other),
        console_number(own) is None ==> vt_from(own, session) == console_number(session),
        vt_from(None, None) is None,
{
}

} // verus!
