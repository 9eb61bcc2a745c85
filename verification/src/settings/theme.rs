//! Themes: colours, paints, surfaces and the document that holds them.
//!
//! Numbers are carried as the bits of IEEE 754 singles.

use crate::single::{equal, equals};
use crate::text::{opt_view, same};
use vstd::prelude::*;

verus! {

#[derive(Debug, Clone, Copy, PartialEq, Eq, Structural)]
pub enum ThemeColorSpace {
    Srgb,
    DisplayP3,
    Rec2020,
}

/// The components of a colour, in linear light, and its opacity.
#[derive(Debug, Clone, Copy, PartialEq, Eq, Structural)]
pub struct Rgba {
    pub r: u32,
    pub g: u32,
    pub b: u32,
    pub a: u32,
}

/// A colour of a colour space.
#[derive(Debug, Clone, Copy, PartialEq, Eq, Structural)]
pub struct ThemeColor {
    pub space: ThemeColorSpace,
    pub rgba: Rgba,
}

/// A number as the controls have it, and as the document has it: the bits of a
/// double, and of the single that is nearest to it.
#[derive(Debug, Clone, Copy, PartialEq, Eq, Structural)]
pub struct Number {
    pub wide: u64,
    pub narrow: u32,
}

#[derive(Debug, Clone, Copy, PartialEq, Eq, Structural)]
pub enum ThemeDynamicRange {
    Sdr,
    Hdr,
}

/// The space in which a gradient mixes its colours.
#[derive(Debug, Clone, Copy, PartialEq, Eq, Structural)]
pub struct GradientInterpolation {
    pub space: ThemeColorSpace,
    pub premultiplied_alpha: bool,
}

#[derive(Debug, Clone, Copy, PartialEq, Eq, Structural)]
pub struct GradientStop {
    pub position: u32,
    pub color: ThemeColor,
}

/// What a surface is painted with.
#[derive(Debug, PartialEq, Eq)]
pub enum ThemePaint {
    Solid { color: ThemeColor },
    LinearGradient { angle: Number, interpolation: GradientInterpolation, stops: Vec<GradientStop> },
    RadialGradient {
        center_x: Number,
        center_y: Number,
        radius: Number,
        interpolation: GradientInterpolation,
        stops: Vec<GradientStop>,
    },
}

/// The value of a [`ThemePaint`].
pub ghost enum PaintView {
    Solid { color: ThemeColor },
    LinearGradient { angle: Number, interpolation: GradientInterpolation, stops: Seq<GradientStop> },
    RadialGradient {
        center_x: Number,
        center_y: Number,
        radius: Number,
        interpolation: GradientInterpolation,
        stops: Seq<GradientStop>,
    },
}

impl View for ThemePaint {
    type V = PaintView;

    open spec fn view(&self) -> PaintView {
        match self {
            ThemePaint::Solid { color } => PaintView::Solid { color: *color },
            ThemePaint::LinearGradient { angle, interpolation, stops } => PaintView::LinearGradient {
                angle: *angle,
                interpolation: *interpolation,
                stops: stops@,
            },
            ThemePaint::RadialGradient { center_x, center_y, radius, interpolation, stops } => {
                PaintView::RadialGradient {
                    center_x: *center_x,
                    center_y: *center_y,
                    radius: *radius,
                    interpolation: *interpolation,
                    stops: stops@,
                }
            },
        }
    }
}

/// A paint and the luminance that it is meant for.
#[derive(Debug)]
pub struct ThemePaintIntent {
    pub paint: ThemePaint,
    pub dynamic_range: ThemeDynamicRange,
    pub hdr_luminance_nits: Number,
}

/// The value of a [`ThemePaintIntent`].
pub ghost struct IntentView {
    pub paint: PaintView,
    pub dynamic_range: ThemeDynamicRange,
    pub hdr_luminance_nits: Number,
}

impl View for ThemePaintIntent {
    type V = IntentView;

    open spec fn view(&self) -> IntentView {
        IntentView {
            paint: self.paint@,
            dynamic_range: self.dynamic_range,
            hdr_luminance_nits: self.hdr_luminance_nits,
        }
    }
}

#[derive(Debug, Clone, Copy, PartialEq, Eq, Structural)]
pub enum ThemeWallpaperFit {
    Fill,
    Fit,
    Stretch,
    Center,
    Tile,
}

/// The image behind everything.
#[derive(Debug, PartialEq, Eq)]
pub struct ThemeWallpaper {
    pub path: Option<String>,
    pub fit: ThemeWallpaperFit,
    pub tint: Option<ThemeColor>,
    pub dim: u32,
}

/// The value of a [`ThemeWallpaper`].
pub ghost struct WallpaperView {
    pub path: Option<Seq<char>>,
    pub fit: ThemeWallpaperFit,
    pub tint: Option<ThemeColor>,
    pub dim: u32,
}

impl View for ThemeWallpaper {
    type V = WallpaperView;

    open spec fn view(&self) -> WallpaperView {
        WallpaperView {
            path: opt_view(self.path),
            fit: self.fit,
            tint: self.tint,
            dim: self.dim,
        }
    }
}

/// The colours of a surface: the normal one, and those that override it.
#[derive(Debug, Clone, Copy, PartialEq, Eq, Structural)]
pub struct SurfaceStyle {
    pub normal: ThemeColor,
    pub hover: Option<ThemeColor>,
    pub pressed: Option<ThemeColor>,
    pub selected: Option<ThemeColor>,
    pub focused: Option<ThemeColor>,
    pub urgent: Option<ThemeColor>,
    pub disabled: Option<ThemeColor>,
}

#[derive(Debug, Clone, Copy, PartialEq, Eq, Structural)]
pub struct Surfaces {
    pub bar: SurfaceStyle,
    pub dock: SurfaceStyle,
    pub button: SurfaceStyle,
    pub active_button: SurfaceStyle,
    pub popup: SurfaceStyle,
    pub window_frame: SurfaceStyle,
}

#[derive(Debug, Clone, Copy, PartialEq, Eq, Structural)]
pub struct Edges {
    pub border_color: ThemeColor,
    pub inner_highlight: ThemeColor,
    pub border_width: u32,
    pub radius: u32,
    pub shadow: u32,
    pub glow: u32,
}

#[derive(Debug, Clone, Copy, PartialEq, Eq, Structural)]
pub struct Typography {
    pub primary: ThemeColor,
    pub secondary: ThemeColor,
    pub font_weight: u16,
    pub size: u32,
    pub letter_spacing: u32,
}

#[derive(Debug, Clone, Copy, PartialEq, Eq, Structural)]
pub struct Layout {
    pub bar_height: u32,
    pub dock_width: u32,
    pub padding: u32,
    pub gap: u32,
    pub icon_size: u32,
}

#[derive(Debug, Clone, Copy, PartialEq, Eq, Structural)]
pub enum GamutMapping {
    Clip,
    Perceptual,
    PreserveHue,
}

#[derive(Debug, Clone, Copy, PartialEq, Eq, Structural)]
pub struct ColorBehavior {
    pub gamut: ThemeColorSpace,
    pub dynamic_range: ThemeDynamicRange,
    pub sdr_white_nits: u32,
    pub luminance_cap_nits: u32,
    pub gamut_mapping: GamutMapping,
}

#[derive(Debug, Clone, Copy, PartialEq, Eq, Structural)]
pub struct WallpaperProcessing {
    pub blur: u32,
    pub saturation: u32,
    pub automatic_accent: bool,
}

/// What the surfaces, edges and texts of the desktop look like.
#[derive(Debug, Clone, Copy, PartialEq, Eq, Structural)]
pub struct SemanticTheme {
    pub surfaces: Surfaces,
    pub edges: Edges,
    pub typography: Typography,
    pub layout: Layout,
    pub color_behavior: ColorBehavior,
    pub wallpaper: WallpaperProcessing,
}

/// A theme as it is saved.
#[derive(Debug)]
pub struct ThemeDocument {
    pub name: String,
    pub intent: ThemePaintIntent,
    pub wallpaper: ThemeWallpaper,
    pub semantic: SemanticTheme,
}

/// The value of a [`ThemeDocument`].
pub ghost struct DocumentView {
    pub name: Seq<char>,
    pub intent: IntentView,
    pub wallpaper: WallpaperView,
    pub semantic: SemanticTheme,
}

impl View for ThemeDocument {
    type V = DocumentView;

    open spec fn view(&self) -> DocumentView {
        DocumentView {
            name: self.name@,
            intent: self.intent@,
            wallpaper: self.wallpaper@,
            semantic: self.semantic,
        }
    }
}

// ---------------------------------------------------------------------------
// Copies
// ---------------------------------------------------------------------------

pub fn copy_text(text: &Option<String>) -> (r: Option<String>)
    ensures
        opt_view(r) == opt_view(*text),
{
    match text {
        Some(s) => Some(s.clone()),
        None => None,
    }
}

pub fn copy_stops(stops: &Vec<GradientStop>) -> (r: Vec<GradientStop>)
    ensures
        r@ == stops@,
{
    let mut out: Vec<GradientStop> = Vec::new();
    let mut i: usize = 0;
    while i < stops.len()
        invariant
            i <= stops.len(),
            out@ == stops@.take(i as int),
        decreases stops.len() - i,
    {
        out.push(stops[i]);
        i += 1;
        assert(out@ =~= stops@.take(i as int));
    }
    assert(out@ =~= stops@);
    out
}

impl ThemePaint {
    pub fn copy(&self) -> (r: ThemePaint)
        ensures
            r@ == self@,
    {
        match self {
            ThemePaint::Solid { color } => ThemePaint::Solid { color: *color },
            ThemePaint::LinearGradient { angle, interpolation, stops } => {
                ThemePaint::LinearGradient {
                    angle: *angle,
                    interpolation: *interpolation,
                    stops: copy_stops(stops),
                }
            },
            ThemePaint::RadialGradient { center_x, center_y, radius, interpolation, stops } => {
                ThemePaint::RadialGradient {
                    center_x: *center_x,
                    center_y: *center_y,
                    radius: *radius,
                    interpolation: *interpolation,
                    stops: copy_stops(stops),
                }
            },
        }
    }
}

impl ThemeWallpaper {
    pub fn copy(&self) -> (r: ThemeWallpaper)
        ensures
            r@ == self@,
    {
        ThemeWallpaper {
            path: copy_text(&self.path),
            fit: self.fit,
            tint: self.tint,
            dim: self.dim,
        }
    }
}

impl ThemeDocument {
    pub fn copy(&self) -> (r: ThemeDocument)
        ensures
            r@ == self@,
    {
        ThemeDocument {
            name: self.name.clone(),
            intent: ThemePaintIntent {
                paint: self.intent.paint.copy(),
                dynamic_range: self.intent.dynamic_range,
                hdr_luminance_nits: self.intent.hdr_luminance_nits,
            },
            wallpaper: self.wallpaper.copy(),
            semantic: self.semantic,
        }
    }
}

// ---------------------------------------------------------------------------
// Equality
// ---------------------------------------------------------------------------

/// Two colours are equal: the same space, and equal components.
pub open spec fn equal_colors(a: ThemeColor, b: ThemeColor) -> bool {
    &&& a.space == b.space
    &&& equals(a.rgba.r, b.rgba.r)
    &&& equals(a.rgba.g, b.rgba.g)
    &&& equals(a.rgba.b, b.rgba.b)
    &&& equals(a.rgba.a, b.rgba.a)
}

pub fn same_color(a: &ThemeColor, b: &ThemeColor) -> (r: bool)
    ensures
        r == equal_colors(*a, *b),
{
    a.space == b.space && equal(a.rgba.r, b.rgba.r) && equal(a.rgba.g, b.rgba.g) && equal(
        a.rgba.b,
        b.rgba.b,
    ) && equal(a.rgba.a, b.rgba.a)
}

pub open spec fn equal_choices(a: Option<ThemeColor>, b: Option<ThemeColor>) -> bool {
    match (a, b) {
        (Some(x), Some(y)) => equal_colors(x, y),
        (None, None) => true,
        _ => false,
    }
}

pub fn same_choice(a: &Option<ThemeColor>, b: &Option<ThemeColor>) -> (r: bool)
    ensures
        r == equal_choices(*a, *b),
{
    match (a, b) {
        (Some(x), Some(y)) => same_color(x, y),
        (None, None) => true,
        _ => false,
    }
}

pub open spec fn equal_stop(a: GradientStop, b: GradientStop) -> bool {
    equals(a.position, b.position) && equal_colors(a.color, b.color)
}

pub open spec fn equal_stops(a: Seq<GradientStop>, b: Seq<GradientStop>) -> bool {
    &&& a.len() == b.len()
    &&& forall|i: int| 0 <= i < a.len() ==> #[trigger] equal_stop(a[i], b[i])
}

pub fn same_stops(a: &Vec<GradientStop>, b: &Vec<GradientStop>) -> (r: bool)
    ensures
        r == equal_stops(a@, b@),
{
    if a.len() != b.len() {
        return false;
    }
    let mut i: usize = 0;
    while i < a.len()
        invariant
            i <= a.len(),
            a.len() == b.len(),
            forall|k: int| 0 <= k < i ==> #[trigger] equal_stop(a@[k], b@[k]),
        decreases a.len() - i,
    {
        if !equal(a[i].position, b[i].position) || !same_color(&a[i].color, &b[i].color) {
            assert(!equal_stop(a@[i as int], b@[i as int]));
            return false;
        }
        i += 1;
    }
    true
}

pub open spec fn equal_paints(a: PaintView, b: PaintView) -> bool {
    match (a, b) {
        (PaintView::Solid { color: x }, PaintView::Solid { color: y }) => equal_colors(x, y),
        (
            PaintView::LinearGradient { angle: x, interpolation: ix, stops: sx },
            PaintView::LinearGradient { angle: y, interpolation: iy, stops: sy },
        ) => equals(x.narrow, y.narrow) && ix == iy && equal_stops(sx, sy),
        (
            PaintView::RadialGradient {
                center_x: ax,
                center_y: ay,
                radius: x,
                interpolation: ix,
                stops: sx,
            },
            PaintView::RadialGradient {
                center_x: bx,
                center_y: by,
                radius: y,
                interpolation: iy,
                stops: sy,
            },
        ) => equals(ax.narrow, bx.narrow) && equals(ay.narrow, by.narrow) && equals(
            x.narrow,
            y.narrow,
        ) && ix == iy && equal_stops(sx, sy),
        _ => false,
    }
}

pub fn same_paint(a: &ThemePaint, b: &ThemePaint) -> (r: bool)
    ensures
        r == equal_paints(a@, b@),
{
    match (a, b) {
        (ThemePaint::Solid { color: x }, ThemePaint::Solid { color: y }) => same_color(x, y),
        (
            ThemePaint::LinearGradient { angle: x, interpolation: ix, stops: sx },
            ThemePaint::LinearGradient { angle: y, interpolation: iy, stops: sy },
        ) => equal(x.narrow, y.narrow) && *ix == *iy && same_stops(sx, sy),
        (
            ThemePaint::RadialGradient {
                center_x: ax,
                center_y: ay,
                radius: x,
                interpolation: ix,
                stops: sx,
            },
            ThemePaint::RadialGradient {
                center_x: bx,
                center_y: by,
                radius: y,
                interpolation: iy,
                stops: sy,
            },
        ) => equal(ax.narrow, bx.narrow) && equal(ay.narrow, by.narrow) && equal(
            x.narrow,
            y.narrow,
        ) && *ix == *iy && same_stops(sx, sy),
        _ => false,
    }
}

pub open spec fn equal_surfaces(a: SurfaceStyle, b: SurfaceStyle) -> bool {
    &&& equal_colors(a.normal, b.normal)
    &&& equal_choices(a.hover, b.hover)
    &&& equal_choices(a.pressed, b.pressed)
    &&& equal_choices(a.selected, b.selected)
    &&& equal_choices(a.focused, b.focused)
    &&& equal_choices(a.urgent, b.urgent)
    &&& equal_choices(a.disabled, b.disabled)
}

pub fn same_surface(a: &SurfaceStyle, b: &SurfaceStyle) -> (r: bool)
    ensures
        r == equal_surfaces(*a, *b),
{
    same_color(&a.normal, &b.normal) && same_choice(&a.hover, &b.hover) && same_choice(
        &a.pressed,
        &b.pressed,
    ) && same_choice(&a.selected, &b.selected) && same_choice(&a.focused, &b.focused)
        && same_choice(&a.urgent, &b.urgent) && same_choice(&a.disabled, &b.disabled)
}

pub open spec fn equal_semantics(a: SemanticTheme, b: SemanticTheme) -> bool {
    &&& equal_surfaces(a.surfaces.bar, b.surfaces.bar)
    &&& equal_surfaces(a.surfaces.dock, b.surfaces.dock)
    &&& equal_surfaces(a.surfaces.button, b.surfaces.button)
    &&& equal_surfaces(a.surfaces.active_button, b.surfaces.active_button)
    &&& equal_surfaces(a.surfaces.popup, b.surfaces.popup)
    &&& equal_surfaces(a.surfaces.window_frame, b.surfaces.window_frame)
    &&& equal_colors(a.edges.border_color, b.edges.border_color)
    &&& equal_colors(a.edges.inner_highlight, b.edges.inner_highlight)
    &&& equals(a.edges.border_width, b.edges.border_width)
    &&& equals(a.edges.radius, b.edges.radius)
    &&& equals(a.edges.shadow, b.edges.shadow)
    &&& equals(a.edges.glow, b.edges.glow)
    &&& equal_colors(a.typography.primary, b.typography.primary)
    &&& equal_colors(a.typography.secondary, b.typography.secondary)
    &&& a.typography.font_weight == b.typography.font_weight
    &&& equals(a.typography.size, b.typography.size)
    &&& equals(a.typography.letter_spacing, b.typography.letter_spacing)
    &&& equals(a.layout.bar_height, b.layout.bar_height)
    &&& equals(a.layout.dock_width, b.layout.dock_width)
    &&& equals(a.layout.padding, b.layout.padding)
    &&& equals(a.layout.gap, b.layout.gap)
    &&& equals(a.layout.icon_size, b.layout.icon_size)
    &&& a.color_behavior.gamut == b.color_behavior.gamut
    &&& a.color_behavior.dynamic_range == b.color_behavior.dynamic_range
    &&& equals(a.color_behavior.sdr_white_nits, b.color_behavior.sdr_white_nits)
    &&& equals(a.color_behavior.luminance_cap_nits, b.color_behavior.luminance_cap_nits)
    &&& a.color_behavior.gamut_mapping == b.color_behavior.gamut_mapping
    &&& equals(a.wallpaper.blur, b.wallpaper.blur)
    &&& equals(a.wallpaper.saturation, b.wallpaper.saturation)
    &&& a.wallpaper.automatic_accent == b.wallpaper.automatic_accent
}

pub fn same_semantics(a: &SemanticTheme, b: &SemanticTheme) -> (r: bool)
    ensures
        r == equal_semantics(*a, *b),
{
    same_surface(&a.surfaces.bar, &b.surfaces.bar) && same_surface(
        &a.surfaces.dock,
        &b.surfaces.dock,
    ) && same_surface(&a.surfaces.button, &b.surfaces.button) && same_surface(
        &a.surfaces.active_button,
        &b.surfaces.active_button,
    ) && same_surface(&a.surfaces.popup, &b.surfaces.popup) && same_surface(
        &a.surfaces.window_frame,
        &b.surfaces.window_frame,
    ) && same_color(&a.edges.border_color, &b.edges.border_color) && same_color(
        &a.edges.inner_highlight,
        &b.edges.inner_highlight,
    ) && equal(a.edges.border_width, b.edges.border_width) && equal(a.edges.radius, b.edges.radius)
        && equal(a.edges.shadow, b.edges.shadow) && equal(a.edges.glow, b.edges.glow)
        && same_color(&a.typography.primary, &b.typography.primary) && same_color(
        &a.typography.secondary,
        &b.typography.secondary,
    ) && a.typography.font_weight == b.typography.font_weight && equal(
        a.typography.size,
        b.typography.size,
    ) && equal(a.typography.letter_spacing, b.typography.letter_spacing) && equal(
        a.layout.bar_height,
        b.layout.bar_height,
    ) && equal(a.layout.dock_width, b.layout.dock_width) && equal(
        a.layout.padding,
        b.layout.padding,
    ) && equal(a.layout.gap, b.layout.gap) && equal(a.layout.icon_size, b.layout.icon_size)
        && a.color_behavior.gamut == b.color_behavior.gamut && a.color_behavior.dynamic_range
        == b.color_behavior.dynamic_range && equal(
        a.color_behavior.sdr_white_nits,
        b.color_behavior.sdr_white_nits,
    ) && equal(a.color_behavior.luminance_cap_nits, b.color_behavior.luminance_cap_nits)
        && a.color_behavior.gamut_mapping == b.color_behavior.gamut_mapping && equal(
        a.wallpaper.blur,
        b.wallpaper.blur,
    ) && equal(a.wallpaper.saturation, b.wallpaper.saturation) && a.wallpaper.automatic_accent
        == b.wallpaper.automatic_accent
}

/// Two documents are equal: numbers as numbers, all else as it is.
pub open spec fn equal_documents(a: DocumentView, b: DocumentView) -> bool {
    &&& a.name == b.name
    &&& equal_paints(a.intent.paint, b.intent.paint)
    &&& a.intent.dynamic_range == b.intent.dynamic_range
    &&& equals(a.intent.hdr_luminance_nits.narrow, b.intent.hdr_luminance_nits.narrow)
    &&& a.wallpaper.path == b.wallpaper.path
    &&& a.wallpaper.fit == b.wallpaper.fit
    &&& equal_choices(a.wallpaper.tint, b.wallpaper.tint)
    &&& equals(a.wallpaper.dim, b.wallpaper.dim)
    &&& equal_semantics(a.semantic, b.semantic)
}

pub fn same_text(a: &Option<String>, b: &Option<String>) -> (r: bool)
    ensures
        r == (opt_view(*a) == opt_view(*b)),
{
    match (a, b) {
        (Some(x), Some(y)) => same(x.as_str(), y.as_str()),
        (None, None) => true,
        _ => false,
    }
}

/// `==` on two documents.
pub fn same_document(a: &ThemeDocument, b: &ThemeDocument) -> (r: bool)
    ensures
        r == equal_documents(a@, b@),
{
    same(a.name.as_str(), b.name.as_str()) && same_paint(&a.intent.paint, &b.intent.paint)
        && a.intent.dynamic_range == b.intent.dynamic_range && equal(
        a.intent.hdr_luminance_nits.narrow,
        b.intent.hdr_luminance_nits.narrow,
    ) && same_text(&a.wallpaper.path, &b.wallpaper.path) && a.wallpaper.fit == b.wallpaper.fit
        && same_choice(&a.wallpaper.tint, &b.wallpaper.tint) && equal(
        a.wallpaper.dim,
        b.wallpaper.dim,
    ) && same_semantics(&a.semantic, &b.semantic)
}

// ---------------------------------------------------------------------------
// Surfaces and the menus that choose among them
// ---------------------------------------------------------------------------

#[derive(Debug, Clone, Copy, PartialEq, Eq, Structural)]
pub enum InteractionState {
    Normal,
    Hover,
    Pressed,
    Selected,
    Focused,
    Urgent,
    Disabled,
}

/// The state at a position of the menu.
pub open spec fn state_at(index: u32) -> InteractionState {
    match index {
        1u32 => InteractionState::Hover,
        2u32 => InteractionState::Pressed,
        3u32 => InteractionState::Selected,
        4u32 => InteractionState::Focused,
        5u32 => InteractionState::Urgent,
        6u32 => InteractionState::Disabled,
        _ => InteractionState::Normal,
    }
}

/// The state at a position of the menu.
pub fn interaction_state_from_index(index: u32) -> (r: InteractionState)
    ensures
        r == state_at(index),
{
    match index {
        1 => InteractionState::Hover,
        2 => InteractionState::Pressed,
        3 => InteractionState::Selected,
        4 => InteractionState::Focused,
        5 => InteractionState::Urgent,
        6 => InteractionState::Disabled,
        _ => InteractionState::Normal,
    }
}

/// The surface at a position of the menu.
pub open spec fn surface_at(theme: SemanticTheme, index: u32) -> SurfaceStyle {
    match index {
        1u32 => theme.surfaces.dock,
        2u32 => theme.surfaces.button,
        3u32 => theme.surfaces.active_button,
        4u32 => theme.surfaces.popup,
        5u32 => theme.surfaces.window_frame,
        _ => theme.surfaces.bar,
    }
}

/// The theme with another style of the surface at a position of the menu.
pub open spec fn with_surface(theme: SemanticTheme, index: u32, style: SurfaceStyle) -> SemanticTheme {
    let s = theme.surfaces;
    SemanticTheme {
        surfaces: match index {
            1u32 => Surfaces { dock: style, ..s },
            2u32 => Surfaces { button: style, ..s },
            3u32 => Surfaces { active_button: style, ..s },
            4u32 => Surfaces { popup: style, ..s },
            5u32 => Surfaces { window_frame: style, ..s },
            _ => Surfaces { bar: style, ..s },
        },
        ..theme
    }
}

/// The surface at a position of the menu.
pub fn semantic_surface(theme: &SemanticTheme, index: u32) -> (r: &SurfaceStyle)
    ensures
        *r == surface_at(*theme, index),
{
    match index {
        1 => &theme.surfaces.dock,
        2 => &theme.surfaces.button,
        3 => &theme.surfaces.active_button,
        4 => &theme.surfaces.popup,
        5 => &theme.surfaces.window_frame,
        _ => &theme.surfaces.bar,
    }
}

/// The surface at a position of the menu, to be changed.
pub fn semantic_surface_mut(theme: &mut SemanticTheme, index: u32) -> (r: &mut SurfaceStyle)
    ensures
        *r == surface_at(*old(theme), index),
        *final(theme) == with_surface(*old(theme), index, *final(r)),
{
    match index {
        1 => &mut theme.surfaces.dock,
        2 => &mut theme.surfaces.button,
        3 => &mut theme.surfaces.active_button,
        4 => &mut theme.surfaces.popup,
        5 => &mut theme.surfaces.window_frame,
        _ => &mut theme.surfaces.bar,
    }
}

/// The colour that a style has for a state alone.
pub open spec fn override_of(style: SurfaceStyle, state: InteractionState) -> Option<ThemeColor> {
    match state {
        InteractionState::Normal => None,
        InteractionState::Hover => style.hover,
        InteractionState::Pressed => style.pressed,
        InteractionState::Selected => style.selected,
        InteractionState::Focused => style.focused,
        InteractionState::Urgent => style.urgent,
        InteractionState::Disabled => style.disabled,
    }
}

/// The style with another colour for a state alone.
pub open spec fn with_override(
    style: SurfaceStyle,
    state: InteractionState,
    color: Option<ThemeColor>,
) -> SurfaceStyle {
    match state {
        InteractionState::Normal => style,
        InteractionState::Hover => SurfaceStyle { hover: color, ..style },
        InteractionState::Pressed => SurfaceStyle { pressed: color, ..style },
        InteractionState::Selected => SurfaceStyle { selected: color, ..style },
        InteractionState::Focused => SurfaceStyle { focused: color, ..style },
        InteractionState::Urgent => SurfaceStyle { urgent: color, ..style },
        InteractionState::Disabled => SurfaceStyle { disabled: color, ..style },
    }
}

impl SurfaceStyle {
    /// The colour for a state alone.
    pub fn override_for(&self, state: InteractionState) -> (r: Option<ThemeColor>)
        ensures
            r == override_of(*self, state),
    {
        match state {
            InteractionState::Normal => None,
            InteractionState::Hover => self.hover,
            InteractionState::Pressed => self.pressed,
            InteractionState::Selected => self.selected,
            InteractionState::Focused => self.focused,
            InteractionState::Urgent => self.urgent,
            InteractionState::Disabled => self.disabled,
        }
    }

    /// Sets the colour for a state alone; the normal colour is not one of them.
    pub fn set_override(&mut self, state: InteractionState, color: Option<ThemeColor>)
        ensures
            *final(self) == with_override(*old(self), state, color),
    {
        match state {
            InteractionState::Normal => {},
            InteractionState::Hover => self.hover = color,
            InteractionState::Pressed => self.pressed = color,
            InteractionState::Selected => self.selected = color,
            InteractionState::Focused => self.focused = color,
            InteractionState::Urgent => self.urgent = color,
            InteractionState::Disabled => self.disabled = color,
        }
    }
}

/// A change of one surface leaves the others alone, and a change for one state
/// the other states.
pub proof fn law_one_surface_one_state(
    theme: SemanticTheme,
    index: u32,
    other: u32,
    state: InteractionState,
    other_state: InteractionState,
    color: ThemeColor,
)
    requires
        index < 6,
        other < 6,
        state != InteractionState::Normal,
    ensures
        ({
            let style = with_override(surface_at(theme, index), state, Some(color));
            let after = with_surface(theme, index, style);
            &&& override_of(surface_at(after, index), state) == Some(color)
            &&& state != other_state ==> override_of(surface_at(after, index), other_state)
                == override_of(surface_at(theme, index), other_state)
            &&& index != other ==> surface_at(after, other) == surface_at(theme, other)
            &&& surface_at(after, index).normal == surface_at(theme, index).normal
            &&& after.edges == theme.edges && after.typography == theme.typography
            &&& with_surface(after, index, surface_at(theme, index)) == theme
        }),
{
}

/// The controls for a surface and a state: whether the colour can be overridden,
/// whether it is, and whether its components can be changed.
#[derive(Debug, Clone, Copy, PartialEq, Eq, Structural)]
pub struct ColorControls {
    pub override_sensitive: bool,
    pub override_active: bool,
    pub color_sensitive: bool,
}

/// The controls for a surface and a state.
pub open spec fn controls_for(theme: SemanticTheme, surface: u32, state: u32) -> ColorControls {
    let s = state_at(state);
    let explicit = s == InteractionState::Normal || override_of(surface_at(theme, surface), s)
        is Some;
    ColorControls {
        override_sensitive: s != InteractionState::Normal,
        override_active: explicit,
        color_sensitive: explicit,
    }
}

/// The controls for the surface and the state that the menus show.
pub fn color_controls(theme: &SemanticTheme, surface: u32, state: u32) -> (r: ColorControls)
    ensures
        r == controls_for(*theme, surface, state),
{
    let s = interaction_state_from_index(state);
    let explicit = if s == InteractionState::Normal {
        true
    } else {
        match semantic_surface(theme, surface).override_for(s) {
            Some(_) => true,
            None => false,
        }
    };
    ColorControls {
        override_sensitive: s != InteractionState::Normal,
        override_active: explicit,
        color_sensitive: explicit,
    }
}

/// The theme after the switch for an override was turned.
pub open spec fn after_override(
    theme: SemanticTheme,
    surface: u32,
    state: u32,
    active: bool,
    color: ThemeColor,
) -> SemanticTheme {
    with_surface(
        theme,
        surface,
        with_override(
            surface_at(theme, surface),
            state_at(state),
            if active {
                Some(color)
            } else {
                None
            },
        ),
    )
}

/// The switch for an override was turned; `color` is what the controls show.
pub fn toggle_override(
    theme: &mut SemanticTheme,
    surface: u32,
    state: u32,
    active: bool,
    color: ThemeColor,
)
    ensures
        *final(theme) == after_override(*old(theme), surface, state, active, color),
{
    let s = interaction_state_from_index(state);
    semantic_surface_mut(theme, surface).set_override(
        s,
        if active {
            Some(color)
        } else {
            None
        },
    );
}

/// The theme after a colour was set for a surface and a state.
pub open spec fn after_color(
    theme: SemanticTheme,
    surface: u32,
    state: u32,
    color: ThemeColor,
) -> SemanticTheme {
    let style = surface_at(theme, surface);
    with_surface(
        theme,
        surface,
        if state_at(state) == InteractionState::Normal {
            SurfaceStyle { normal: color, ..style }
        } else {
            with_override(style, state_at(state), Some(color))
        },
    )
}

/// A component of a surface's colour was changed.
pub fn set_state_color(theme: &mut SemanticTheme, surface: u32, state: u32, color: ThemeColor)
    ensures
        *final(theme) == after_color(*old(theme), surface, state, color),
{
    let s = interaction_state_from_index(state);
    let style = semantic_surface_mut(theme, surface);
    if s == InteractionState::Normal {
        style.normal = color;
    } else {
        style.set_override(s, Some(color));
    }
}

/// The positions of the menus of states and of surfaces stand for these.
pub proof fn law_theme_menus(theme: SemanticTheme)
    ensures
        state_at(0) == InteractionState::Normal,
        state_at(1) == InteractionState::Hover,
        state_at(2) == InteractionState::Pressed,
        state_at(3) == InteractionState::Selected,
        state_at(4) == InteractionState::Focused,
        state_at(5) == InteractionState::Urgent,
        state_at(6) == InteractionState::Disabled,
        surface_at(theme, 0) == theme.surfaces.bar,
        surface_at(theme, 1) == theme.surfaces.dock,
        surface_at(theme, 2) == theme.surfaces.button,
        surface_at(theme, 3) == theme.surfaces.active_button,
        surface_at(theme, 4) == theme.surfaces.popup,
        surface_at(theme, 5) == theme.surfaces.window_frame,
{
}

/// The colour that a surface has in a state: its own, where it has one.
pub open spec fn color_in(style: SurfaceStyle, state: InteractionState) -> ThemeColor {
    match override_of(style, state) {
        Some(color) => color,
        None => style.normal,
    }
}

/// A colour that is chosen is the colour of its surface in its state, and what
/// the switch turns off shows the colour that the surface has otherwise; other
/// states with colours of their own keep them.
pub proof fn law_chosen_color(
    theme: SemanticTheme,
    surface: u32,
    state: u32,
    other: u32,
    color: ThemeColor,
)
    requires
        surface < 6,
        state < 7,
        other < 7,
    ensures
        color_in(
            surface_at(after_color(theme, surface, state, color), surface),
            state_at(state),
        ) == color,
        other != state && override_of(surface_at(theme, surface), state_at(other)) is Some
            ==> color_in(
            surface_at(after_color(theme, surface, state, color), surface),
            state_at(other),
        ) == color_in(surface_at(theme, surface), state_at(other)),
        state > 0 ==> color_in(
            surface_at(after_override(theme, surface, state, true, color), surface),
            state_at(state),
        ) == color,
        state > 0 ==> color_in(
            surface_at(after_override(theme, surface, state, false, color), surface),
            state_at(state),
        ) == surface_at(theme, surface).normal,
        state > 0 ==> {
            let on = after_override(theme, surface, state, true, color);
            let off = after_override(theme, surface, state, false, color);
            &&& controls_for(on, surface, state).override_active && controls_for(
                on,
                surface,
                state,
            ).color_sensitive
            &&& !controls_for(off, surface, state).override_active && !controls_for(
                off,
                surface,
                state,
            ).color_sensitive
            &&& controls_for(on, surface, state).override_sensitive && controls_for(
                off,
                surface,
                state,
            ).override_sensitive
        },
        !controls_for(theme, surface, 0).override_sensitive,
        controls_for(theme, surface, 0).color_sensitive,
        after_color(theme, surface, state, color).layout == theme.layout,
        after_color(theme, surface, state, color).edges == theme.edges,
{
}

/// Documents that count as the same agree in every setting that is not a number,
/// and no number of one differs from its counterpart.
pub proof fn law_same_documents_agree(a: DocumentView, b: DocumentView)
    requires
        equal_documents(a, b),
    ensures
        a.name == b.name,
        a.intent.dynamic_range == b.intent.dynamic_range,
        a.wallpaper.path == b.wallpaper.path,
        a.wallpaper.fit == b.wallpaper.fit,
        a.wallpaper.tint is Some <==> b.wallpaper.tint is Some,
        equals(a.wallpaper.dim, b.wallpaper.dim),
        a.intent.paint is Solid <==> b.intent.paint is Solid,
        a.intent.paint is LinearGradient <==> b.intent.paint is LinearGradient,
        a.semantic.typography.font_weight == b.semantic.typography.font_weight,
        equals(a.semantic.typography.size, b.semantic.typography.size),
        equals(a.semantic.typography.letter_spacing, b.semantic.typography.letter_spacing),
        equals(a.semantic.edges.border_width, b.semantic.edges.border_width),
        equals(a.semantic.edges.radius, b.semantic.edges.radius),
        equals(a.semantic.edges.shadow, b.semantic.edges.shadow),
        equals(a.semantic.edges.glow, b.semantic.edges.glow),
        equals(a.semantic.layout.bar_height, b.semantic.layout.bar_height),
        equals(a.semantic.layout.dock_width, b.semantic.layout.dock_width),
        equals(a.semantic.layout.padding, b.semantic.layout.padding),
        equals(a.semantic.layout.gap, b.semantic.layout.gap),
        equals(a.semantic.layout.icon_size, b.semantic.layout.icon_size),
        equals(
            a.semantic.color_behavior.sdr_white_nits,
            b.semantic.color_behavior.sdr_white_nits,
        ),
        equals(
            a.semantic.color_behavior.luminance_cap_nits,
            b.semantic.color_behavior.luminance_cap_nits,
        ),
        a.semantic.color_behavior.gamut == b.semantic.color_behavior.gamut,
        a.semantic.color_behavior.gamut_mapping == b.semantic.color_behavior.gamut_mapping,
        a.semantic.color_behavior.dynamic_range == b.semantic.color_behavior.dynamic_range,
        equals(a.semantic.wallpaper.blur, b.semantic.wallpaper.blur),
        equals(a.semantic.wallpaper.saturation, b.semantic.wallpaper.saturation),
        a.semantic.wallpaper.automatic_accent == b.semantic.wallpaper.automatic_accent,
        equal_documents(b, a),
{
    lemma_same_colors(a.semantic.edges.border_color, b.semantic.edges.border_color);
    lemma_same_colors(a.semantic.edges.inner_highlight, b.semantic.edges.inner_highlight);
    lemma_same_colors(a.semantic.typography.primary, b.semantic.typography.primary);
    lemma_same_colors(a.semantic.typography.secondary, b.semantic.typography.secondary);
    lemma_same_surfaces(a.semantic.surfaces.bar, b.semantic.surfaces.bar);
    lemma_same_surfaces(a.semantic.surfaces.dock, b.semantic.surfaces.dock);
    lemma_same_surfaces(a.semantic.surfaces.button, b.semantic.surfaces.button);
    lemma_same_surfaces(a.semantic.surfaces.active_button, b.semantic.surfaces.active_button);
    lemma_same_surfaces(a.semantic.surfaces.popup, b.semantic.surfaces.popup);
    lemma_same_surfaces(a.semantic.surfaces.window_frame, b.semantic.surfaces.window_frame);
    match (a.intent.paint, b.intent.paint) {
        (PaintView::Solid { color: x }, PaintView::Solid { color: y }) => {
            lemma_same_colors(x, y);
        },
        (
            PaintView::LinearGradient { stops: x, .. },
            PaintView::LinearGradient { stops: y, .. },
        ) => {
            lemma_same_stops(x, y);
        },
        (
            PaintView::RadialGradient { stops: x, .. },
            PaintView::RadialGradient { stops: y, .. },
        ) => {
            lemma_same_stops(x, y);
        },
        _ => {},
    }
}

proof fn lemma_same_colors(a: ThemeColor, b: ThemeColor)
    ensures
        equal_colors(a, b) == equal_colors(b, a),
{
}

proof fn lemma_same_surfaces(a: SurfaceStyle, b: SurfaceStyle)
    ensures
        equal_surfaces(a, b) == equal_surfaces(b, a),
{
}

proof fn lemma_same_stops(a: Seq<GradientStop>, b: Seq<GradientStop>)
    requires
        equal_stops(a, b),
    ensures
        equal_stops(b, a),
{
    assert forall|i: int| 0 <= i < b.len() implies #[trigger] equal_stop(b[i], a[i]) by {
        assert(equal_stop(a[i], b[i]));
    }
}

} // verus!
