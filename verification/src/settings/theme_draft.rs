//! The theme that is being edited.
//!
//! The picker's hue, saturation and value become the components of a colour by
//! arithmetic on doubles, and back. That arithmetic is not done here: what it
//! gives comes in as an argument, and what it is to be done on is returned.

use crate::order::{
    in_order, inserted, items, key_before, keyed, lemma_sorted_by, paired, sorted, sorted_by,
    stable_sort, Key, KeyView,
};
use crate::settings::theme::{
    DocumentView, GradientInterpolation, GradientStop, IntentView, Number, PaintView, Rgba,
    SemanticTheme, ThemeColor, ThemeColorSpace, ThemeDocument, ThemeDynamicRange, ThemePaint,
    ThemePaintIntent, ThemeWallpaper, WallpaperView,
};
use crate::single::{clamp_unit, contained, rank, total_rank, unit, within, HALF, ONE};
use vstd::prelude::*;

verus! {

// ---------------------------------------------------------------------------
// A colour that remembers itself in both spaces
// ---------------------------------------------------------------------------

/// A colour under edit: the space it is shown in, and what it was last in each
/// of the two spaces.
#[derive(Debug, Clone, Copy, PartialEq, Eq, Structural)]
pub struct ThemeEditorColor {
    pub space: ThemeColorSpace,
    pub cached_srgb: Option<ThemeColor>,
    pub cached_display_p3: Option<ThemeColor>,
}

/// A colour is remembered in a space that it is of, and in the space that it is
/// shown in.
pub open spec fn color_ok(c: ThemeEditorColor) -> bool {
    &&& c.space != ThemeColorSpace::Rec2020
    &&& c.space == ThemeColorSpace::Srgb ==> c.cached_srgb is Some
    &&& c.space == ThemeColorSpace::DisplayP3 ==> c.cached_display_p3 is Some
    &&& c.cached_srgb is Some ==> c.cached_srgb->Some_0.space == ThemeColorSpace::Srgb
    &&& c.cached_display_p3 is Some ==> c.cached_display_p3->Some_0.space
        == ThemeColorSpace::DisplayP3
}

pub open spec fn fresh(color: ThemeColor) -> ThemeEditorColor {
    ThemeEditorColor {
        space: color.space,
        cached_srgb: if color.space == ThemeColorSpace::Srgb {
            Some(color)
        } else {
            None
        },
        cached_display_p3: if color.space == ThemeColorSpace::DisplayP3 {
            Some(color)
        } else {
            None
        },
    }
}

/// What is remembered of a colour in a space.
pub open spec fn remembered(c: ThemeEditorColor, space: ThemeColorSpace) -> Option<ThemeColor> {
    match space {
        ThemeColorSpace::Srgb => c.cached_srgb,
        ThemeColorSpace::DisplayP3 => c.cached_display_p3,
        ThemeColorSpace::Rec2020 => None,
    }
}

/// The colour that is shown.
pub open spec fn shown(c: ThemeEditorColor) -> ThemeColor {
    remembered(c, c.space)->Some_0
}

/// The colour after it became another one, shown in that one's space.
pub open spec fn stored(c: ThemeEditorColor, color: ThemeColor) -> ThemeEditorColor {
    match color.space {
        ThemeColorSpace::Srgb => ThemeEditorColor {
            space: ThemeColorSpace::Srgb,
            cached_srgb: Some(color),
            ..c
        },
        ThemeColorSpace::DisplayP3 => ThemeEditorColor {
            space: ThemeColorSpace::DisplayP3,
            cached_display_p3: Some(color),
            ..c
        },
        ThemeColorSpace::Rec2020 => c,
    }
}

impl ThemeEditorColor {
    pub fn new(color: ThemeColor) -> (r: ThemeEditorColor)
        ensures
            r == fresh(color),
            color.space != ThemeColorSpace::Rec2020 ==> color_ok(r) && shown(r) == color,
    {
        ThemeEditorColor {
            space: color.space,
            cached_srgb: if color.space == ThemeColorSpace::Srgb {
                Some(color)
            } else {
                None
            },
            cached_display_p3: if color.space == ThemeColorSpace::DisplayP3 {
                Some(color)
            } else {
                None
            },
        }
    }

    /// The colour that is shown.
    pub fn color(&self) -> (r: ThemeColor)
        requires
            color_ok(*self),
        ensures
            r == shown(*self),
            r.space == self.space,
    {
        let found = match self.space {
            ThemeColorSpace::Srgb => self.cached_srgb,
            ThemeColorSpace::DisplayP3 => self.cached_display_p3,
            ThemeColorSpace::Rec2020 => None,
        };
        found.unwrap()
    }

    /// The colour becomes another one.
    pub fn store(&mut self, color: ThemeColor)
        requires
            color.space != ThemeColorSpace::Rec2020,
        ensures
            *final(self) == stored(*old(self), color),
            shown(*final(self)) == color,
            color_ok(*old(self)) ==> color_ok(*final(self)),
    {
        self.space = color.space;
        if color.space == ThemeColorSpace::Srgb {
            self.cached_srgb = Some(color);
        } else {
            self.cached_display_p3 = Some(color);
        }
    }

    /// The colour is shown in another space: as it was last there, or else with
    /// the components `converted`. Returns it.
    pub fn switch_space(&mut self, target: ThemeColorSpace, converted: Rgba) -> (r: ThemeColor)
        requires
            color_ok(*old(self)),
            target != ThemeColorSpace::Rec2020,
        ensures
            r == match remembered(*old(self), target) {
                Some(color) => color,
                None => ThemeColor { space: target, rgba: converted },
            },
            *final(self) == stored(*old(self), r),
            color_ok(*final(self)),
            r.space == target,
    {
        let found = if target == ThemeColorSpace::Srgb {
            self.cached_srgb
        } else {
            self.cached_display_p3
        };
        let color = match found {
            Some(color) => color,
            None => ThemeColor { space: target, rgba: converted },
        };
        self.store(color);
        color
    }
}

// ---------------------------------------------------------------------------
// The draft
// ---------------------------------------------------------------------------

/// A stop of the gradient under edit.
#[derive(Debug, Clone, Copy, PartialEq, Eq, Structural)]
pub struct ThemeEditorStop {
    pub position: u32,
    pub color: ThemeEditorColor,
}

/// Where the picker stands: the bits of doubles.
#[derive(Debug, Clone, Copy, PartialEq, Eq, Structural)]
pub struct Picker {
    pub hue: u64,
    pub saturation: u64,
    pub value: u64,
    pub alpha: u64,
}

/// The theme under edit.
#[derive(Debug)]
pub struct ThemeEditorDraft {
    pub theme_name: String,
    pub wallpaper: ThemeWallpaper,
    pub semantic: SemanticTheme,
    /// 0 for one colour, 1 for a linear and 2 for a radial gradient.
    pub mode: u32,
    pub picker: Picker,
    pub active_color: ThemeEditorColor,
    pub solid_color: ThemeEditorColor,
    pub stops: Vec<ThemeEditorStop>,
    pub selected_stop: usize,
    pub interpolation_space: ThemeColorSpace,
    pub linear_angle: Number,
    pub radial_center_x: Number,
    pub radial_center_y: Number,
    pub radial_radius: Number,
    pub dynamic_range: ThemeDynamicRange,
    pub hdr_luminance_nits: Number,
}

/// The value of a [`ThemeEditorDraft`].
pub ghost struct DraftView {
    pub theme_name: Seq<char>,
    pub wallpaper: WallpaperView,
    pub semantic: SemanticTheme,
    pub mode: u32,
    pub picker: Picker,
    pub active_color: ThemeEditorColor,
    pub solid_color: ThemeEditorColor,
    pub stops: Seq<ThemeEditorStop>,
    pub selected_stop: int,
    pub interpolation_space: ThemeColorSpace,
    pub linear_angle: Number,
    pub radial_center_x: Number,
    pub radial_center_y: Number,
    pub radial_radius: Number,
    pub dynamic_range: ThemeDynamicRange,
    pub hdr_luminance_nits: Number,
}

impl View for ThemeEditorDraft {
    type V = DraftView;

    open spec fn view(&self) -> DraftView {
        DraftView {
            theme_name: self.theme_name@,
            wallpaper: self.wallpaper@,
            semantic: self.semantic,
            mode: self.mode,
            picker: self.picker,
            active_color: self.active_color,
            solid_color: self.solid_color,
            stops: self.stops@,
            selected_stop: self.selected_stop as int,
            interpolation_space: self.interpolation_space,
            linear_angle: self.linear_angle,
            radial_center_x: self.radial_center_x,
            radial_center_y: self.radial_center_y,
            radial_radius: self.radial_radius,
            dynamic_range: self.dynamic_range,
            hdr_luminance_nits: self.hdr_luminance_nits,
        }
    }
}

/// What holds of every draft: one of its stops is selected, and each of its
/// colours can be shown.
pub open spec fn draft_ok(d: DraftView) -> bool {
    &&& d.mode <= 2
    &&& 0 <= d.selected_stop < d.stops.len()
    &&& color_ok(d.active_color)
    &&& color_ok(d.solid_color)
    &&& forall|i: int| 0 <= i < d.stops.len() ==> color_ok(#[trigger] d.stops[i].color)
}

/// The angle of a new draft: 135 degrees.
pub open spec fn new_angle() -> Number {
    Number { wide: 0x4060_e000_0000_0000, narrow: 0x4307_0000 }
}

/// The centre of a new draft, in both directions: one half.
pub open spec fn new_center() -> Number {
    Number { wide: 0x3fe0_0000_0000_0000, narrow: 0x3f00_0000 }
}

/// The radius of a new draft: three quarters.
pub open spec fn new_radius() -> Number {
    Number { wide: 0x3fe8_0000_0000_0000, narrow: 0x3f40_0000 }
}

/// The luminance of a new draft: 1000 nits.
pub open spec fn new_luminance() -> Number {
    Number { wide: 0x408f_4000_0000_0000, narrow: 0x447a_0000 }
}

/// The colour of the last stop of a new draft.
pub open spec fn second_stop() -> Rgba {
    Rgba { r: 0x3d0f_5c29, g: 0x3c44_9ba6, b: 0x3e38_51ec, a: 0x3f80_0000 }
}

pub open spec fn srgb(rgba: Rgba) -> ThemeColor {
    ThemeColor { space: ThemeColorSpace::Srgb, rgba }
}

/// A new draft with the picker at a place, and the colour that is there.
pub open spec fn new_draft(
    picker: Picker,
    rgba: Rgba,
    wallpaper: WallpaperView,
    semantic: SemanticTheme,
) -> DraftView {
    let color = fresh(srgb(rgba));
    DraftView {
        theme_name: "Untitled Theme"@,
        wallpaper,
        semantic,
        mode: 0,
        picker,
        active_color: color,
        solid_color: color,
        stops: seq![
            ThemeEditorStop { position: 0, color },
            ThemeEditorStop { position: ONE, color: fresh(srgb(second_stop())) },
        ],
        selected_stop: 0,
        interpolation_space: ThemeColorSpace::Srgb,
        linear_angle: new_angle(),
        radial_center_x: new_center(),
        radial_center_y: new_center(),
        radial_radius: new_radius(),
        dynamic_range: ThemeDynamicRange::Sdr,
        hdr_luminance_nits: new_luminance(),
    }
}

/// The colour at the picker, whose components are `now`.
pub open spec fn current(d: DraftView, now: Rgba) -> ThemeColor {
    ThemeColor { space: d.active_color.space, rgba: now }
}

/// The draft after the colour at the picker went to what is edited: the one
/// colour, or the selected stop.
pub open spec fn committed(d: DraftView, now: Rgba) -> DraftView {
    let active = stored(d.active_color, current(d, now));
    if d.mode == 0 {
        DraftView { active_color: active, solid_color: active, ..d }
    } else {
        DraftView {
            active_color: active,
            stops: d.stops.update(
                d.selected_stop,
                ThemeEditorStop { color: active, ..d.stops[d.selected_stop] },
            ),
            ..d
        }
    }
}

/// The draft with the picker at a place.
pub open spec fn at_picker(d: DraftView, picker: Picker) -> DraftView {
    DraftView { picker, ..d }
}

/// The draft after its colour is shown in another space, and the colour that
/// the picker is to be put at; none where it already is in that space.
pub open spec fn in_space(
    d: DraftView,
    target: ThemeColorSpace,
    now: Rgba,
    converted: Rgba,
) -> (DraftView, Option<ThemeColor>) {
    if d.active_color.space == target {
        (d, None)
    } else {
        let c = committed(d, now);
        let color = match remembered(c.active_color, target) {
            Some(color) => color,
            None => ThemeColor { space: target, rgba: converted },
        };
        (DraftView { active_color: stored(c.active_color, color), ..c }, Some(color))
    }
}

pub open spec fn least(a: int, b: int) -> int {
    if a <= b {
        a
    } else {
        b
    }
}

/// The draft with the colour of a stop under edit, and that colour.
pub open spec fn at_stop(d: DraftView, selected: int) -> (DraftView, Option<ThemeColor>) {
    let active = d.stops[selected].color;
    (DraftView { selected_stop: selected, active_color: active, ..d }, Some(shown(active)))
}

/// The draft after it became one colour or a gradient, and the colour that the
/// picker is to be put at.
pub open spec fn in_mode(d: DraftView, mode: u32, now: Rgba) -> (DraftView, Option<ThemeColor>) {
    if d.mode == mode {
        (d, None)
    } else {
        let c = committed(d, now);
        let m: u32 = if mode <= 2 {
            mode
        } else {
            2
        };
        let active = if m == 0 {
            c.solid_color
        } else {
            c.stops[c.selected_stop].color
        };
        (DraftView { mode: m, active_color: active, ..c }, Some(shown(active)))
    }
}

/// The draft after a stop was selected, and the colour that the picker is to be
/// put at.
pub open spec fn with_selected(d: DraftView, selected: int, now: Rgba) -> (
    DraftView,
    Option<ThemeColor>,
) {
    if d.mode == 0 {
        (d, None)
    } else {
        at_stop(committed(d, now), least(selected, d.stops.len() - 1))
    }
}

/// A gap between two stops: how wide it is, and where its middle is.
#[derive(Debug, Clone, Copy, PartialEq, Eq, Structural)]
pub struct Gap {
    pub width: u32,
    pub middle: u32,
}

/// The last of the widest gaps.
pub open spec fn widest(gaps: Seq<Gap>) -> Option<Gap>
    decreases gaps.len(),
{
    if gaps.len() == 0 {
        None
    } else {
        match widest(gaps.drop_last()) {
            Some(g) if rank(g.width) > rank(gaps.last().width) => Some(g),
            _ => Some(gaps.last()),
        }
    }
}

/// Where a new stop goes: into the middle of the widest gap.
pub open spec fn new_position(gaps: Seq<Gap>) -> u32 {
    match widest(gaps) {
        Some(g) => g.middle,
        None => HALF,
    }
}

/// The draft with one more stop, which is selected.
pub open spec fn with_stop(d: DraftView, stop: ThemeEditorStop) -> DraftView {
    DraftView { stops: d.stops.push(stop), selected_stop: d.stops.len() as int, ..d }
}

pub open spec fn with_new_stop(d: DraftView, now: Rgba, gaps: Seq<Gap>) -> DraftView {
    let c = committed(d, now);
    with_stop(
        c,
        ThemeEditorStop {
            position: if d.stops.len() < 2 {
                HALF
            } else {
                new_position(gaps)
            },
            color: c.active_color,
        },
    )
}

pub open spec fn with_duplicate(d: DraftView, now: Rgba, position: u32) -> DraftView {
    let c = committed(d, now);
    with_stop(c, ThemeEditorStop { position, ..c.stops[c.selected_stop] })
}

/// The draft without the selected stop, and the colour that the picker is to
/// be put at; two stops stay.
pub open spec fn without_stop(d: DraftView) -> (DraftView, Option<ThemeColor>) {
    if d.stops.len() <= 2 {
        (d, None)
    } else {
        let rest = DraftView { stops: d.stops.remove(d.selected_stop), ..d };
        at_stop(rest, least(d.selected_stop, rest.stops.len() - 1))
    }
}

pub open spec fn with_position(d: DraftView, position: u32) -> DraftView {
    DraftView {
        stops: d.stops.update(
            d.selected_stop,
            ThemeEditorStop { position: unit(position), ..d.stops[d.selected_stop] },
        ),
        ..d
    }
}

/// The stops by their positions, in the total order.
pub open spec fn stop_key(s: GradientStop) -> KeyView {
    KeyView { rank: rank(s.position) as u64, text: ""@ }
}

pub open spec fn by_position(stops: Seq<GradientStop>) -> Seq<GradientStop> {
    sorted_by(stops, |s: GradientStop| stop_key(s))
}

/// The stops with their colours: that of the selected one is at the picker.
pub open spec fn colored_stops(d: DraftView, now: Rgba) -> Seq<GradientStop> {
    Seq::new(
        d.stops.len(),
        |i: int|
            GradientStop {
                position: d.stops[i].position,
                color: if i == d.selected_stop {
                    current(d, now)
                } else {
                    shown(d.stops[i].color)
                },
            },
    )
}

/// The paint that the draft is of.
pub open spec fn paint_of(d: DraftView, now: Rgba) -> PaintView {
    let interpolation = GradientInterpolation {
        space: d.interpolation_space,
        premultiplied_alpha: true,
    };
    let stops = by_position(colored_stops(d, now));
    if d.mode == 0 {
        PaintView::Solid { color: current(d, now) }
    } else if d.mode == 1 {
        PaintView::LinearGradient { angle: d.linear_angle, interpolation, stops }
    } else {
        PaintView::RadialGradient {
            center_x: d.radial_center_x,
            center_y: d.radial_center_y,
            radius: d.radial_radius,
            interpolation,
            stops,
        }
    }
}

/// The document that the draft is of.
pub open spec fn document_of(d: DraftView, now: Rgba) -> DocumentView {
    DocumentView {
        name: d.theme_name,
        intent: IntentView {
            paint: paint_of(d, now),
            dynamic_range: d.dynamic_range,
            hdr_luminance_nits: d.hdr_luminance_nits,
        },
        wallpaper: d.wallpaper,
        semantic: d.semantic,
    }
}

fn sort_stops(stops: Vec<GradientStop>) -> (r: Vec<GradientStop>)
    ensures
        r@ == by_position(stops@),
{
    let mut keys: Vec<Key> = Vec::new();
    let mut i: usize = 0;
    while i < stops.len()
        invariant
            i <= stops.len(),
            keys.len() == i,
            forall|k: int| 0 <= k < i ==> (#[trigger] keys[k])@ == stop_key(stops[k]),
        decreases stops.len() - i,
    {
        keys.push(Key { rank: total_rank(stops[i].position), text: "".to_owned() });
        i += 1;
    }
    proof {
        let key = |s: GradientStop| stop_key(s);
        assert(paired(keys@, stops@) =~= keyed(stops@, key));
    }
    stable_sort(stops, keys)
}

pub open spec fn bits_key(bits: u32) -> KeyView {
    KeyView { rank: rank(bits) as u64, text: ""@ }
}

impl ThemeEditorDraft {
    /// A new draft. `rgba` is what the picker's place gives; `wallpaper` and
    /// `semantic` are what a theme has at first.
    pub fn new(picker: Picker, rgba: Rgba, wallpaper: ThemeWallpaper, semantic: SemanticTheme) -> (r:
        ThemeEditorDraft)
        ensures
            r@ == new_draft(picker, rgba, wallpaper@, semantic),
            draft_ok(r@),
    {
        let color = ThemeEditorColor::new(ThemeColor { space: ThemeColorSpace::Srgb, rgba });
        let second = ThemeEditorColor::new(
            ThemeColor {
                space: ThemeColorSpace::Srgb,
                rgba: Rgba { r: 0x3d0f_5c29, g: 0x3c44_9ba6, b: 0x3e38_51ec, a: 0x3f80_0000 },
            },
        );
        let mut stops: Vec<ThemeEditorStop> = Vec::new();
        stops.push(ThemeEditorStop { position: 0, color });
        stops.push(ThemeEditorStop { position: ONE, color: second });
        let r = ThemeEditorDraft {
            theme_name: "Untitled Theme".to_owned(),
            wallpaper,
            semantic,
            mode: 0,
            picker,
            active_color: color,
            solid_color: color,
            stops,
            selected_stop: 0,
            interpolation_space: ThemeColorSpace::Srgb,
            linear_angle: Number { wide: 0x4060_e000_0000_0000, narrow: 0x4307_0000 },
            radial_center_x: Number { wide: 0x3fe0_0000_0000_0000, narrow: 0x3f00_0000 },
            radial_center_y: Number { wide: 0x3fe0_0000_0000_0000, narrow: 0x3f00_0000 },
            radial_radius: Number { wide: 0x3fe8_0000_0000_0000, narrow: 0x3f40_0000 },
            dynamic_range: ThemeDynamicRange::Sdr,
            hdr_luminance_nits: Number { wide: 0x408f_4000_0000_0000, narrow: 0x447a_0000 },
        };
        assert(r@.stops =~= new_draft(picker, rgba, r.wallpaper@, semantic).stops);
        r
    }

    /// The space that the colour is shown in.
    pub fn space(&self) -> (r: ThemeColorSpace)
        ensures
            r == self@.active_color.space,
    {
        self.active_color.space
    }

    /// The colour at the picker, whose components are `now`.
    pub fn current_color(&self, now: Rgba) -> (r: ThemeColor)
        ensures
            r == current(self@, now),
    {
        ThemeColor { space: self.active_color.space, rgba: now }
    }

    /// The colour at the picker goes to what is edited.
    pub fn commit_current_color(&mut self, now: Rgba)
        requires
            draft_ok(old(self)@),
        ensures
            final(self)@ == committed(old(self)@, now),
            draft_ok(final(self)@),
    {
        let color = self.current_color(now);
        self.active_color.store(color);
        if self.mode == 0 {
            self.solid_color = self.active_color;
        } else {
            let mut stop = self.stops[self.selected_stop];
            stop.color = self.active_color;
            self.stops.set(self.selected_stop, stop);
        }
    }

    /// The picker is put at a place.
    pub fn load_picker_color(&mut self, picker: Picker)
        ensures
            final(self)@ == at_picker(old(self)@, picker),
    {
        self.picker = picker;
    }

    /// The colour is shown in another space. `now` is the colour at the picker,
    /// `converted` the same colour in the other space. Returns the colour that
    /// the picker is then put at, and that is committed there.
    pub fn switch_space(&mut self, target: ThemeColorSpace, now: Rgba, converted: Rgba) -> (r:
        Option<ThemeColor>)
        requires
            draft_ok(old(self)@),
            target != ThemeColorSpace::Rec2020,
        ensures
            (final(self)@, r) == in_space(old(self)@, target, now, converted),
            draft_ok(final(self)@),
    {
        if self.space() == target {
            return None;
        }
        self.commit_current_color(now);
        let color = self.active_color.switch_space(target, converted);
        Some(color)
    }

    /// The draft becomes one colour, or a gradient. Returns the colour that the
    /// picker is then put at.
    pub fn switch_mode(&mut self, mode: u32, now: Rgba) -> (r: Option<ThemeColor>)
        requires
            draft_ok(old(self)@),
        ensures
            (final(self)@, r) == in_mode(old(self)@, mode, now),
            draft_ok(final(self)@),
    {
        if self.mode == mode {
            return None;
        }
        self.commit_current_color(now);
        self.mode = if mode <= 2 {
            mode
        } else {
            2
        };
        let active = if self.mode == 0 {
            self.solid_color
        } else {
            self.stops[self.selected_stop].color
        };
        let color = active.color();
        self.active_color = active;
        Some(color)
    }

    /// A stop is selected. Returns the colour that the picker is then put at.
    pub fn select_stop(&mut self, selected: usize, now: Rgba) -> (r: Option<ThemeColor>)
        requires
            draft_ok(old(self)@),
        ensures
            (final(self)@, r) == with_selected(old(self)@, selected as int, now),
            draft_ok(final(self)@),
    {
        if self.mode == 0 {
            return None;
        }
        self.commit_current_color(now);
        self.selected_stop = if selected <= self.stops.len() - 1 {
            selected
        } else {
            self.stops.len() - 1
        };
        let active = self.stops[self.selected_stop].color;
        let color = active.color();
        self.active_color = active;
        Some(color)
    }

    /// The positions of the stops, in the total order.
    pub fn sorted_positions(&self) -> (r: Vec<u32>)
        ensures
            r@ == sorted_by(
                Seq::new(self@.stops.len(), |i: int| self@.stops[i].position),
                |bits: u32| bits_key(bits),
            ),
    {
        let ghost all = Seq::new(self@.stops.len(), |i: int| self@.stops[i].position);
        let mut positions: Vec<u32> = Vec::new();
        let mut keys: Vec<Key> = Vec::new();
        let mut i: usize = 0;
        while i < self.stops.len()
            invariant
                i <= self.stops.len(),
                keys.len() == i,
                positions.len() == i,
                all == Seq::new(self@.stops.len(), |i: int| self@.stops[i].position),
                forall|k: int| 0 <= k < i ==> (#[trigger] keys[k])@ == bits_key(all[k]),
                forall|k: int| 0 <= k < i ==> #[trigger] positions[k] == all[k],
            decreases self.stops.len() - i,
        {
            let position: u32 = self.stops[i].position;
            positions.push(position);
            keys.push(Key { rank: total_rank(position), text: "".to_owned() });
            i += 1;
        }
        proof {
            assert(positions@ =~= all);
            assert(paired(keys@, positions@) =~= keyed(all, |bits: u32| bits_key(bits)));
        }
        stable_sort(positions, keys)
    }

    /// A stop of the colour at the picker is added, in the middle of the widest
    /// gap. `gaps` holds the gaps between the sorted positions.
    pub fn add_stop(&mut self, now: Rgba, gaps: &Vec<Gap>)
        requires
            draft_ok(old(self)@),
        ensures
            final(self)@ == with_new_stop(old(self)@, now, gaps@),
            draft_ok(final(self)@),
    {
        self.commit_current_color(now);
        let position = if self.stops.len() < 2 {
            HALF
        } else {
            widest_middle(gaps)
        };
        self.stops.push(ThemeEditorStop { position, color: self.active_color });
        self.selected_stop = self.stops.len() - 1;
    }

    /// The selected stop is doubled; `position` is where its double goes.
    pub fn duplicate_stop(&mut self, now: Rgba, position: u32)
        requires
            draft_ok(old(self)@),
        ensures
            final(self)@ == with_duplicate(old(self)@, now, position),
            draft_ok(final(self)@),
    {
        self.commit_current_color(now);
        let mut duplicate = self.stops[self.selected_stop];
        duplicate.position = position;
        self.stops.push(duplicate);
        self.selected_stop = self.stops.len() - 1;
    }

    /// The selected stop is removed, unless only two are left. Returns the
    /// colour that the picker is then put at.
    pub fn remove_stop(&mut self) -> (r: Option<ThemeColor>)
        requires
            draft_ok(old(self)@),
        ensures
            (final(self)@, r) == without_stop(old(self)@),
            draft_ok(final(self)@),
    {
        if self.stops.len() <= 2 {
            return None;
        }
        let ghost before = self.stops@;
        self.stops.remove(self.selected_stop);
        proof {
            assert forall|i: int| 0 <= i < self.stops@.len() implies color_ok(
                #[trigger] self.stops@[i].color,
            ) by {
                if i < self.selected_stop {
                    assert(self.stops@[i] == before[i]);
                } else {
                    assert(self.stops@[i] == before[i + 1]);
                }
            }
        }
        if self.selected_stop > self.stops.len() - 1 {
            self.selected_stop = self.stops.len() - 1;
        }
        let active = self.stops[self.selected_stop].color;
        let color = active.color();
        self.active_color = active;
        Some(color)
    }

    /// The selected stop goes to a position.
    pub fn set_selected_stop_position(&mut self, position: u32)
        requires
            draft_ok(old(self)@),
        ensures
            final(self)@ == with_position(old(self)@, position),
            draft_ok(final(self)@),
    {
        let mut stop = self.stops[self.selected_stop];
        stop.position = clamp_unit(position);
        self.stops.set(self.selected_stop, stop);
    }

    /// The paint that the draft is of. `now` is the colour at the picker.
    pub fn paint(&self, now: Rgba) -> (r: ThemePaint)
        requires
            draft_ok(self@),
        ensures
            r@ == paint_of(self@, now),
    {
        if self.mode == 0 {
            return ThemePaint::Solid { color: self.current_color(now) };
        }
        let mut stops: Vec<GradientStop> = Vec::new();
        let mut i: usize = 0;
        while i < self.stops.len()
            invariant
                i <= self.stops.len(),
                draft_ok(self@),
                stops@ == colored_stops(self@, now).take(i as int),
            decreases self.stops.len() - i,
        {
            assert(color_ok(self@.stops[i as int].color));
            let color = if i == self.selected_stop {
                self.current_color(now)
            } else {
                self.stops[i].color.color()
            };
            stops.push(GradientStop { position: self.stops[i].position, color });
            i += 1;
            assert(stops@ =~= colored_stops(self@, now).take(i as int));
        }
        assert(stops@ =~= colored_stops(self@, now));
        let stops = sort_stops(stops);
        let interpolation = GradientInterpolation {
            space: self.interpolation_space,
            premultiplied_alpha: true,
        };
        if self.mode == 1 {
            ThemePaint::LinearGradient { angle: self.linear_angle, interpolation, stops }
        } else {
            ThemePaint::RadialGradient {
                center_x: self.radial_center_x,
                center_y: self.radial_center_y,
                radius: self.radial_radius,
                interpolation,
                stops,
            }
        }
    }

    /// The paint, and the luminance that it is meant for.
    pub fn paint_intent(&self, now: Rgba) -> (r: ThemePaintIntent)
        requires
            draft_ok(self@),
        ensures
            r@ == document_of(self@, now).intent,
    {
        ThemePaintIntent {
            paint: self.paint(now),
            dynamic_range: self.dynamic_range,
            hdr_luminance_nits: self.hdr_luminance_nits,
        }
    }

    /// The document that the draft is of.
    pub fn document(&self, now: Rgba) -> (r: ThemeDocument)
        requires
            draft_ok(self@),
        ensures
            r@ == document_of(self@, now),
    {
        ThemeDocument {
            name: self.theme_name.clone(),
            intent: self.paint_intent(now),
            wallpaper: self.wallpaper.copy(),
            semantic: self.semantic,
        }
    }
}

fn widest_middle(gaps: &Vec<Gap>) -> (r: u32)
    ensures
        r == new_position(gaps@),
{
    let mut best: Option<Gap> = None;
    let mut i: usize = 0;
    while i < gaps.len()
        invariant
            i <= gaps.len(),
            best == widest(gaps@.take(i as int)),
        decreases gaps.len() - i,
    {
        assert(gaps@.take(i + 1).drop_last() =~= gaps@.take(i as int));
        let gap = gaps[i];
        best = match best {
            Some(g) => if total_rank(g.width) > total_rank(gap.width) {
                Some(g)
            } else {
                Some(gap)
            },
            None => Some(gap),
        };
        i += 1;
    }
    assert(gaps@.take(gaps@.len() as int) =~= gaps@);
    match best {
        Some(g) => g.middle,
        None => HALF,
    }
}

/// The first of the smallest distances.
pub open spec fn nearest(distances: Seq<u32>) -> Option<int>
    decreases distances.len(),
{
    if distances.len() == 0 {
        None
    } else {
        match nearest(distances.drop_last()) {
            Some(k) if rank(distances[k]) <= rank(distances.last()) => Some(k),
            _ => Some(distances.len() - 1),
        }
    }
}

/// The stop that is nearest to a point: the first of those with the smallest of
/// the distances, which are the bits of numbers.
pub fn nearest_gradient_stop(distances: &Vec<u32>) -> (r: Option<usize>)
    ensures
        match (r, nearest(distances@)) {
            (Some(i), Some(k)) => i == k && i < distances.len(),
            (None, None) => true,
            _ => false,
        },
{
    let mut best: Option<usize> = None;
    let mut i: usize = 0;
    while i < distances.len()
        invariant
            i <= distances.len(),
            match (best, nearest(distances@.take(i as int))) {
                (Some(b), Some(k)) => b == k && b < i,
                (None, None) => true,
                _ => false,
            },
        decreases distances.len() - i,
    {
        assert(distances@.take(i + 1).drop_last() =~= distances@.take(i as int));
        best = match best {
            Some(b) => if total_rank(distances[b]) <= total_rank(distances[i]) {
                Some(b)
            } else {
                Some(i)
            },
            None => Some(i),
        };
        i += 1;
    }
    assert(distances@.take(distances@.len() as int) =~= distances@);
    best
}

/// No stop is nearer than the nearest, and there is one where there are stops.
/// Of those that are equally near the first is taken.
pub proof fn law_nearest(distances: Seq<u32>, i: int)
    requires
        0 <= i < distances.len(),
    ensures
        nearest(distances) is Some,
        0 <= nearest(distances)->Some_0 < distances.len(),
        rank(distances[nearest(distances)->Some_0]) <= rank(distances[i]),
        i < nearest(distances)->Some_0 ==> rank(distances[nearest(distances)->Some_0]) < rank(
            distances[i],
        ),
    decreases distances.len(),
{
    let front = distances.drop_last();
    if distances.len() == 1 {
        assert(nearest(front) is None);
    } else {
        if i < front.len() {
            law_nearest(front, i);
        } else {
            law_nearest(front, 0);
        }
    }
}

// ---------------------------------------------------------------------------
// Opening a document
// ---------------------------------------------------------------------------

/// A component that the picker can show.
pub open spec fn is_component(bits: u32) -> bool {
    within(bits, 0, ONE)
}

/// The colour under edit, or why it cannot be edited.
pub open spec fn editable_color(color: ThemeColor) -> Result<ThemeEditorColor, Seq<char>> {
    if color.space == ThemeColorSpace::Rec2020 {
        Err("Rec.2020 themes are not editable in Phase 7"@)
    } else if !(is_component(color.rgba.r) && is_component(color.rgba.g) && is_component(
        color.rgba.b,
    )) {
        Err("theme color is outside the editable RGB cube"@)
    } else {
        Ok(fresh(color))
    }
}

fn supported_color(color: &ThemeColor) -> (r: Result<ThemeEditorColor, String>)
    ensures
        match r {
            Ok(c) => editable_color(*color) == Ok::<ThemeEditorColor, Seq<char>>(c) && color_ok(c),
            Err(e) => editable_color(*color) == Err::<ThemeEditorColor, Seq<char>>(e@),
        },
{
    if color.space == ThemeColorSpace::Rec2020 {
        return Err("Rec.2020 themes are not editable in Phase 7".to_owned());
    }
    if !(contained(color.rgba.r, 0, ONE) && contained(color.rgba.g, 0, ONE) && contained(
        color.rgba.b,
        0,
        ONE,
    )) {
        return Err("theme color is outside the editable RGB cube".to_owned());
    }
    Ok(ThemeEditorColor::new(*color))
}

/// The stops under edit, or why the first of those that cannot be edited cannot.
pub open spec fn editable_stops(stops: Seq<GradientStop>) -> Result<
    Seq<ThemeEditorStop>,
    Seq<char>,
>
    decreases stops.len(),
{
    if stops.len() == 0 {
        Ok(Seq::empty())
    } else {
        match editable_stops(stops.drop_last()) {
            Err(e) => Err(e),
            Ok(front) => match editable_color(stops.last().color) {
                Err(e) => Err(e),
                Ok(color) => Ok(
                    front.push(ThemeEditorStop { position: stops.last().position, color }),
                ),
            },
        }
    }
}

proof fn lemma_first_fault(stops: Seq<GradientStop>, n: int)
    requires
        0 <= n <= stops.len(),
        editable_stops(stops.take(n)) is Err,
    ensures
        editable_stops(stops) == editable_stops(stops.take(n)),
    decreases stops.len() - n,
{
    if n < stops.len() {
        assert(stops.take(n + 1).drop_last() =~= stops.take(n));
        lemma_first_fault(stops, n + 1);
    } else {
        assert(stops.take(n) =~= stops);
    }
}

fn supported_stops(stops: &Vec<GradientStop>) -> (r: Result<Vec<ThemeEditorStop>, String>)
    ensures
        match r {
            Ok(v) => editable_stops(stops@) == Ok::<Seq<ThemeEditorStop>, Seq<char>>(v@)
                && v.len() == stops.len() && forall|i: int|
                0 <= i < v.len() ==> color_ok(#[trigger] v[i].color),
            Err(e) => editable_stops(stops@) == Err::<Seq<ThemeEditorStop>, Seq<char>>(e@),
        },
{
    let mut out: Vec<ThemeEditorStop> = Vec::new();
    let mut i: usize = 0;
    assert(stops@.take(0) =~= Seq::empty());
    assert(out@ =~= Seq::empty());
    while i < stops.len()
        invariant
            i <= stops.len(),
            out.len() == i,
            editable_stops(stops@.take(i as int)) == Ok::<Seq<ThemeEditorStop>, Seq<char>>(out@),
            forall|k: int| 0 <= k < i ==> color_ok(#[trigger] out[k].color),
        decreases stops.len() - i,
    {
        proof {
            assert(stops@.take(i + 1).drop_last() =~= stops@.take(i as int));
            assert(stops@.take(i + 1).last() == stops@[i as int]);
        }
        match supported_color(&stops[i].color) {
            Ok(color) => {
                out.push(ThemeEditorStop { position: stops[i].position, color });
            },
            Err(e) => {
                proof {
                    lemma_first_fault(stops@, i + 1);
                }
                return Err(e);
            },
        }
        i += 1;
    }
    assert(stops@.take(stops@.len() as int) =~= stops@);
    Ok(out)
}

/// The bits of 360.
pub const FULL_TURN: u32 = 0x43b4_0000;

/// The bits of the smallest radius, one hundredth.
pub const LEAST_RADIUS: u32 = 0x3c23_d70a;

/// The bits of the largest radius, two.
pub const MOST_RADIUS: u32 = 0x4000_0000;

/// Why a gradient cannot be edited, where its stops can.
pub open spec fn gradient_fault(paint: PaintView) -> Option<Seq<char>> {
    let interpolation = match paint {
        PaintView::Solid { .. } => GradientInterpolation {
            space: ThemeColorSpace::Srgb,
            premultiplied_alpha: true,
        },
        PaintView::LinearGradient { interpolation, .. } => interpolation,
        PaintView::RadialGradient { interpolation, .. } => interpolation,
    };
    if interpolation.space == ThemeColorSpace::Rec2020 {
        Some("Rec.2020 interpolation is not editable in Phase 7"@)
    } else if !interpolation.premultiplied_alpha {
        Some("straight-alpha gradient interpolation is not editable in Phase 7"@)
    } else {
        match paint {
            PaintView::Solid { .. } => None,
            PaintView::LinearGradient { angle, .. } => if within(angle.narrow, 0, FULL_TURN) {
                None
            } else {
                Some("linear gradient angle must be between 0 and 360"@)
            },
            PaintView::RadialGradient { center_x, center_y, radius, .. } => if within(
                center_x.narrow,
                0,
                ONE,
            ) && within(center_y.narrow, 0, ONE) && within(
                radius.narrow,
                LEAST_RADIUS,
                MOST_RADIUS,
            ) {
                None
            } else {
                Some("radial gradient geometry is outside editor limits"@)
            },
        }
    }
}

/// A draft of a document before its paint: black, with the picker at black.
pub open spec fn blank(doc: DocumentView) -> DraftView {
    DraftView {
        theme_name: doc.name,
        dynamic_range: doc.intent.dynamic_range,
        hdr_luminance_nits: doc.intent.hdr_luminance_nits,
        ..new_draft(
            Picker { hue: 0, saturation: 0, value: 0, alpha: 0x3ff0_0000_0000_0000 },
            Rgba { r: 0, g: 0, b: 0, a: ONE },
            doc.wallpaper,
            doc.semantic,
        )
    }
}

/// The draft of a document whose stops can be edited.
pub open spec fn with_gradient(
    d: DraftView,
    mode: u32,
    space: ThemeColorSpace,
    stops: Seq<ThemeEditorStop>,
) -> DraftView {
    DraftView {
        mode,
        interpolation_space: space,
        stops,
        selected_stop: 0,
        active_color: stops[0].color,
        ..d
    }
}

/// The draft of a document, or why it cannot be edited. Its picker is yet to be
/// put at the draft's colour.
pub open spec fn opened(doc: DocumentView) -> Result<DraftView, Seq<char>> {
    let d = blank(doc);
    match gradient_fault(doc.intent.paint) {
        Some(e) => Err(e),
        None => match doc.intent.paint {
            PaintView::Solid { color } => match editable_color(color) {
                Err(e) => Err(e),
                Ok(c) => Ok(DraftView { active_color: c, solid_color: c, ..d }),
            },
            PaintView::LinearGradient { angle, interpolation, stops } => match editable_stops(
                stops,
            ) {
                Err(e) => Err(e),
                Ok(list) => Ok(
                    with_gradient(
                        DraftView { linear_angle: angle, ..d },
                        1,
                        interpolation.space,
                        list,
                    ),
                ),
            },
            PaintView::RadialGradient { center_x, center_y, radius, interpolation, stops } => {
                match editable_stops(stops) {
                    Err(e) => Err(e),
                    Ok(list) => Ok(
                        with_gradient(
                            DraftView {
                                radial_center_x: center_x,
                                radial_center_y: center_y,
                                radial_radius: radius,
                                ..d
                            },
                            2,
                            interpolation.space,
                            list,
                        ),
                    ),
                }
            },
        },
    }
}

/// A paint that has stops where it is a gradient.
pub open spec fn has_stops(paint: PaintView) -> bool {
    match paint {
        PaintView::Solid { .. } => true,
        PaintView::LinearGradient { stops, .. } => stops.len() > 0,
        PaintView::RadialGradient { stops, .. } => stops.len() > 0,
    }
}

fn interpolation_fault(interpolation: &GradientInterpolation) -> (r: Option<String>)
    ensures
        match r {
            Some(e) => if interpolation.space == ThemeColorSpace::Rec2020 {
                e@ == "Rec.2020 interpolation is not editable in Phase 7"@
            } else {
                !interpolation.premultiplied_alpha && e@
                    == "straight-alpha gradient interpolation is not editable in Phase 7"@
            },
            None => interpolation.space != ThemeColorSpace::Rec2020
                && interpolation.premultiplied_alpha,
        },
{
    if interpolation.space == ThemeColorSpace::Rec2020 {
        Some("Rec.2020 interpolation is not editable in Phase 7".to_owned())
    } else if !interpolation.premultiplied_alpha {
        Some("straight-alpha gradient interpolation is not editable in Phase 7".to_owned())
    } else {
        None
    }
}

impl ThemeEditorDraft {
    fn set_gradient(&mut self, mode: u32, space: ThemeColorSpace, stops: Vec<ThemeEditorStop>)
        requires
            1 <= mode <= 2,
            stops.len() > 0,
            color_ok(old(self)@.solid_color),
            forall|i: int| 0 <= i < stops.len() ==> color_ok(#[trigger] stops[i].color),
        ensures
            final(self)@ == with_gradient(old(self)@, mode, space, stops@),
            draft_ok(final(self)@),
    {
        self.mode = mode;
        self.interpolation_space = space;
        self.stops = stops;
        self.selected_stop = 0;
        self.active_color = self.stops[0].color;
    }

    /// The draft of a document, or why it cannot be edited. `validated` is what
    /// is wrong with the document in itself. The draft's picker is yet to be
    /// put at the draft's colour.
    pub fn from_document(document: &ThemeDocument, validated: &Result<(), String>) -> (r: Result<
        ThemeEditorDraft,
        String,
    >)
        requires
            validated is Ok ==> has_stops(document@.intent.paint),
        ensures
            match *validated {
                Err(e) => r is Err && r->Err_0@ == e@,
                Ok(_) => match r {
                    Ok(d) => opened(document@) == Ok::<DraftView, Seq<char>>(d@) && draft_ok(d@),
                    Err(e) => opened(document@) == Err::<DraftView, Seq<char>>(e@),
                },
            },
    {
        if let Err(e) = validated {
            return Err(e.clone());
        }
        let mut draft = ThemeEditorDraft::new(
            Picker { hue: 0, saturation: 0, value: 0, alpha: 0x3ff0_0000_0000_0000 },
            Rgba { r: 0, g: 0, b: 0, a: ONE },
            document.wallpaper.copy(),
            document.semantic,
        );
        draft.theme_name = document.name.clone();
        draft.dynamic_range = document.intent.dynamic_range;
        draft.hdr_luminance_nits = document.intent.hdr_luminance_nits;
        assert(draft@ == blank(document@));
        match &document.intent.paint {
            ThemePaint::Solid { color } => {
                match supported_color(color) {
                    Err(e) => Err(e),
                    Ok(c) => {
                        draft.active_color = c;
                        draft.solid_color = c;
                        Ok(draft)
                    },
                }
            },
            ThemePaint::LinearGradient { angle, interpolation, stops } => {
                if let Some(e) = interpolation_fault(interpolation) {
                    return Err(e);
                }
                if !contained(angle.narrow, 0, FULL_TURN) {
                    return Err("linear gradient angle must be between 0 and 360".to_owned());
                }
                draft.linear_angle = *angle;
                match supported_stops(stops) {
                    Err(e) => Err(e),
                    Ok(list) => {
                        draft.set_gradient(1, interpolation.space, list);
                        Ok(draft)
                    },
                }
            },
            ThemePaint::RadialGradient { center_x, center_y, radius, interpolation, stops } => {
                if let Some(e) = interpolation_fault(interpolation) {
                    return Err(e);
                }
                if !contained(center_x.narrow, 0, ONE) || !contained(center_y.narrow, 0, ONE)
                    || !contained(radius.narrow, LEAST_RADIUS, MOST_RADIUS) {
                    return Err("radial gradient geometry is outside editor limits".to_owned());
                }
                draft.radial_center_x = *center_x;
                draft.radial_center_y = *center_y;
                draft.radial_radius = *radius;
                match supported_stops(stops) {
                    Err(e) => Err(e),
                    Ok(list) => {
                        draft.set_gradient(2, interpolation.space, list);
                        Ok(draft)
                    },
                }
            },
        }
    }
}

// ---------------------------------------------------------------------------
// What editing keeps
// ---------------------------------------------------------------------------

/// A gradient never falls below two stops, whatever is done to it.
pub proof fn law_two_stops_stay(
    d: DraftView,
    now: Rgba,
    converted: Rgba,
    target: ThemeColorSpace,
    mode: u32,
    selected: int,
    gaps: Seq<Gap>,
    position: u32,
)
    requires
        draft_ok(d),
        d.stops.len() >= 2,
    ensures
        committed(d, now).stops.len() == d.stops.len(),
        in_space(d, target, now, converted).0.stops.len() == d.stops.len(),
        in_mode(d, mode, now).0.stops.len() == d.stops.len(),
        with_selected(d, selected, now).0.stops.len() == d.stops.len(),
        with_new_stop(d, now, gaps).stops.len() == d.stops.len() + 1,
        with_duplicate(d, now, position).stops.len() == d.stops.len() + 1,
        with_position(d, position).stops.len() == d.stops.len(),
        without_stop(d).0.stops.len() >= 2,
{
}

/// A stop that was just added or doubled is the selected one, and removing it
/// gives back the stops that there were.
pub proof fn law_removing_undoes_adding(d: DraftView, now: Rgba, gaps: Seq<Gap>, position: u32)
    requires
        draft_ok(d),
        d.stops.len() >= 2,
    ensures
        without_stop(with_new_stop(d, now, gaps)).0.stops == committed(d, now).stops,
        without_stop(with_duplicate(d, now, position)).0.stops == committed(d, now).stops,
{
    let c = committed(d, now);
    let a = with_new_stop(d, now, gaps);
    let b = with_duplicate(d, now, position);
    assert(a.stops.remove(a.selected_stop) =~= c.stops);
    assert(b.stops.remove(b.selected_stop) =~= c.stops);
}

/// A colour is not lost by looking at it in the other space: back in its own
/// space it is what it was, whatever was shown in between.
pub proof fn law_colors_survive_a_look_elsewhere(
    d: DraftView,
    target: ThemeColorSpace,
    now: Rgba,
    converted: Rgba,
    picker: Picker,
    landed: Rgba,
    later: Rgba,
    back: Rgba,
)
    requires
        draft_ok(d),
        target != ThemeColorSpace::Rec2020,
        d.active_color.space != target,
    ensures
        ({
            let home = d.active_color.space;
            let away = committed(at_picker(in_space(d, target, now, converted).0, picker), landed);
            &&& away.active_color.space == target
            &&& in_space(away, home, later, back).1 == Some(current(d, now))
            &&& in_space(away, home, later, back).0.active_color.space == home
        }),
{
}

/// A colour under edit in a gradient belongs to its stop: the colours, spaces
/// and opacities of the others, and the one colour of the other mode, stay.
pub proof fn law_stops_own_their_colors(d: DraftView, now: Rgba, selected: int, i: int)
    requires
        draft_ok(d),
        d.mode != 0,
        0 <= selected < d.stops.len(),
        0 <= i < d.stops.len(),
    ensures
        ({
            let after = with_selected(d, selected, now).0;
            &&& i != d.selected_stop ==> after.stops[i] == d.stops[i]
            &&& shown(after.stops[d.selected_stop].color) == current(d, now)
            &&& after.solid_color == d.solid_color
            &&& after.selected_stop == selected
        }),
{
}

/// Modes keep their colours: what was one colour is that again after a gradient
/// was edited.
pub proof fn law_modes_keep_their_colors(
    d: DraftView,
    mode: u32,
    now: Rgba,
    picker: Picker,
    later: Rgba,
)
    requires
        draft_ok(d),
        d.mode == 0,
        1 <= mode <= 2,
    ensures
        in_mode(at_picker(in_mode(d, mode, now).0, picker), 0, later).1 == Some(current(d, now)),
{
}

/// The dynamic range and the luminance do not change the paint.
pub proof fn law_range_leaves_the_paint(
    d: DraftView,
    now: Rgba,
    range: ThemeDynamicRange,
    nits: Number,
)
    ensures
        paint_of(DraftView { dynamic_range: range, hdr_luminance_nits: nits, ..d }, now)
            == paint_of(d, now),
{
    let e = DraftView { dynamic_range: range, hdr_luminance_nits: nits, ..d };
    assert(colored_stops(e, now) =~= colored_stops(d, now));
}

/// The stops of a painted gradient are in the order of their positions, and
/// none is lost.
pub proof fn law_painted_stops_are_sorted(d: DraftView, now: Rgba, i: int, j: int)
    requires
        0 <= i < j < d.stops.len(),
    ensures
        by_position(colored_stops(d, now)).len() == d.stops.len(),
        by_position(colored_stops(d, now)).to_multiset() == colored_stops(d, now).to_multiset(),
        rank(by_position(colored_stops(d, now))[i].position) <= rank(
            by_position(colored_stops(d, now))[j].position,
        ),
{
    let key = |s: GradientStop| stop_key(s);
    let list = colored_stops(d, now);
    lemma_sorted_by(list, key);
    let out = by_position(list);
    assert(!key_before(key(out[j]), key(out[i])));
}

proof fn lemma_sorted_in_order<T>(list: Seq<(KeyView, T)>)
    requires
        in_order(list),
    ensures
        sorted(list) == list,
    decreases list.len(),
{
    if list.len() > 0 {
        let front = list.drop_last();
        assert(in_order(front)) by {
            assert forall|i: int, j: int| 0 <= i < j < front.len() implies !key_before(
                #[trigger] front[j].0,
                #[trigger] front[i].0,
            ) by {
                assert(front[i] == list[i] && front[j] == list[j]);
            }
        }
        lemma_sorted_in_order(front);
        if front.len() > 0 {
            assert(!key_before(list[list.len() - 1].0, list[list.len() - 2].0));
        }
        assert(inserted(front, list.last()) == front.push(list.last()));
        assert(front.push(list.last()) =~= list);
    }
}

/// The stops stand in the order of their positions.
pub open spec fn stops_in_order(stops: Seq<GradientStop>) -> bool {
    forall|i: int, j: int|
        0 <= i < j < stops.len() ==> rank(#[trigger] stops[i].position) <= rank(
            #[trigger] stops[j].position,
        )
}

proof fn lemma_by_position_in_order(stops: Seq<GradientStop>)
    requires
        stops_in_order(stops),
    ensures
        by_position(stops) == stops,
{
    let key = |s: GradientStop| stop_key(s);
    let pairs = keyed(stops, key);
    assert forall|i: int, j: int| 0 <= i < j < pairs.len() implies !key_before(
        #[trigger] pairs[j].0,
        #[trigger] pairs[i].0,
    ) by {
        assert(rank(stops[i].position) <= rank(stops[j].position));
        crate::order::lemma_text_before_total(""@, ""@);
    }
    lemma_sorted_in_order(pairs);
    assert(items(pairs) =~= stops);
}

proof fn lemma_editable_stops(stops: Seq<GradientStop>, i: int)
    requires
        editable_stops(stops) is Ok,
        0 <= i < stops.len(),
    ensures
        editable_stops(stops)->Ok_0.len() == stops.len(),
        editable_stops(stops)->Ok_0[i] == (ThemeEditorStop {
            position: stops[i].position,
            color: fresh(stops[i].color),
        }),
        stops[i].color.space != ThemeColorSpace::Rec2020,
    decreases stops.len(),
{
    let front = stops.drop_last();
    if front.len() == 0 {
        assert(editable_stops(front)->Ok_0.len() == 0);
    } else if i < front.len() {
        lemma_editable_stops(front, i);
    } else {
        lemma_editable_stops(front, 0);
    }
}

/// The stops of a paint; none where it is one colour.
pub open spec fn stops_of(paint: PaintView) -> Seq<GradientStop> {
    match paint {
        PaintView::Solid { .. } => Seq::empty(),
        PaintView::LinearGradient { stops, .. } => stops,
        PaintView::RadialGradient { stops, .. } => stops,
    }
}

/// A document that can be edited is edited without loss: as long as nothing is
/// changed, and the picker gives back the colour that it was put at, the draft
/// is of the very document that was opened. (The stops of a document stand in
/// the order of their positions; others are put in that order.)
pub proof fn law_opened_without_loss(doc: DocumentView, picker: Picker)
    requires
        opened(doc) is Ok,
        has_stops(doc.intent.paint),
        stops_in_order(stops_of(doc.intent.paint)),
    ensures
        ({
            let d = opened(doc)->Ok_0;
            document_of(at_picker(d, picker), shown(d.active_color).rgba) == doc
        }),
{
    let d = at_picker(opened(doc)->Ok_0, picker);
    let now = shown(d.active_color).rgba;
    let stops = stops_of(doc.intent.paint);
    if !(doc.intent.paint is Solid) {
        lemma_editable_stops(stops, 0);
        assert(colored_stops(d, now) =~= stops) by {
            assert forall|i: int| 0 <= i < stops.len() implies colored_stops(d, now)[i]
                == #[trigger] stops[i] by {
                lemma_editable_stops(stops, i);
            }
        }
        lemma_by_position_in_order(stops);
    }
}

/// Themes of a space or an alpha that the editor does not have are refused.
pub proof fn law_unsupported_documents_are_refused(doc: DocumentView)
    requires
        match doc.intent.paint {
            PaintView::Solid { color } => color.space == ThemeColorSpace::Rec2020,
            PaintView::LinearGradient { interpolation, .. } => interpolation.space
                == ThemeColorSpace::Rec2020 || !interpolation.premultiplied_alpha,
            PaintView::RadialGradient { interpolation, .. } => interpolation.space
                == ThemeColorSpace::Rec2020 || !interpolation.premultiplied_alpha,
        },
    ensures
        opened(doc) is Err,
{
}

/// A new stop goes into the middle of a gap than which none is wider, has the
/// colour that is being edited, and is the one that is edited next.
pub proof fn law_new_stop(d: DraftView, now: Rgba, gaps: Seq<Gap>, k: int)
    requires
        draft_ok(d),
        d.stops.len() >= 2,
        0 <= k < gaps.len(),
    ensures
        exists|g: int|
            0 <= g < gaps.len() && rank((#[trigger] gaps[g]).width) >= rank(gaps[k].width)
                && new_position(gaps) == gaps[g].middle,
        ({
            let after = with_new_stop(d, now, gaps);
            &&& after.stops.last().position == new_position(gaps)
            &&& shown(after.stops.last().color) == current(d, now)
            &&& after.selected_stop == after.stops.len() - 1
            &&& after.mode == d.mode
        }),
{
    let g = lemma_widest(gaps, k);
    assert(rank(gaps[g].width) >= rank(gaps[k].width));
}

proof fn lemma_widest(gaps: Seq<Gap>, k: int) -> (g: int)
    requires
        0 <= k < gaps.len(),
    ensures
        0 <= g < gaps.len(),
        widest(gaps) == Some(gaps[g]),
        rank(gaps[g].width) >= rank(gaps[k].width),
    decreases gaps.len(),
{
    let front = gaps.drop_last();
    if front.len() == 0 {
        0
    } else {
        let f = lemma_widest(front, if k < front.len() {
            k
        } else {
            0
        });
        assert(gaps[f] == front[f]);
        if rank(front[f].width) > rank(gaps.last().width) {
            f
        } else {
            gaps.len() - 1
        }
    }
}

/// A slider of a stop moves that stop and no other, and keeps its colour.
pub proof fn law_stop_position(d: DraftView, position: u32, i: int)
    requires
        draft_ok(d),
        0 <= i < d.stops.len(),
    ensures
        ({
            let after = with_position(d, position);
            &&& i == d.selected_stop ==> after.stops[i].position == unit(position)
            &&& i != d.selected_stop ==> after.stops[i] == d.stops[i]
            &&& after.stops[i].color == d.stops[i].color
            &&& after.selected_stop == d.selected_stop && after.mode == d.mode
        }),
{
}

/// A copy of a stop has the colour that is being edited, at the place that was
/// asked for; a stop that is removed is gone, and its neighbour is edited next.
pub proof fn law_copy_and_remove(d: DraftView, now: Rgba, position: u32, i: int)
    requires
        draft_ok(d),
        d.mode != 0,
    ensures
        ({
            let after = with_duplicate(d, now, position);
            &&& after.stops.last().position == position
            &&& shown(after.stops.last().color) == current(d, now)
            &&& after.selected_stop == after.stops.len() - 1
        }),
        d.stops.len() > 2 ==> {
            let (after, color) = without_stop(d);
            &&& after.stops.len() == d.stops.len() - 1
            &&& 0 <= i < d.selected_stop ==> after.stops[i] == d.stops[i]
            &&& d.selected_stop <= i < d.stops.len() - 1 ==> after.stops[i] == d.stops[i + 1]
            &&& color == Some(shown(after.stops[after.selected_stop].color))
            &&& after.active_color == after.stops[after.selected_stop].color
        },
{
}

/// The paint is of the kind that is chosen, with the geometry of that kind.
pub proof fn law_paint(d: DraftView, now: Rgba)
    requires
        draft_ok(d),
    ensures
        d.mode == 0 <==> paint_of(d, now) is Solid,
        d.mode == 1 <==> paint_of(d, now) is LinearGradient,
        d.mode == 2 <==> paint_of(d, now) is RadialGradient,
        d.mode == 0 ==> paint_of(d, now)->Solid_color.rgba == now
            && paint_of(d, now)->Solid_color.space == d.active_color.space,
        d.mode == 1 ==> paint_of(d, now)->angle == d.linear_angle,
        d.mode == 2 ==> paint_of(d, now)->center_x == d.radial_center_x
            && paint_of(d, now)->center_y == d.radial_center_y && paint_of(d, now)->radius
            == d.radial_radius,
        document_of(d, now).name == d.theme_name,
        document_of(d, now).wallpaper == d.wallpaper,
        document_of(d, now).semantic == d.semantic,
{
}

} // verus!
