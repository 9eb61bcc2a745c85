//! The theme editor: what its controls do to the draft, and what they show.

use crate::settings::theme::{
    ColorBehavior, Edges, GamutMapping, Layout, Number, Rgba, SemanticTheme, SurfaceStyle, Surfaces,
    ThemeColor, ThemeColorSpace, ThemeDynamicRange, ThemeWallpaperFit, Typography,
    WallpaperProcessing, WallpaperView,
};
use crate::settings::theme_draft::{draft_ok, in_space, DraftView, Picker, ThemeEditorDraft};
use crate::single::{larger, max, ONE};
use crate::text::{dec, decimal, opt_view};
use vstd::prelude::*;

verus! {

// ---------------------------------------------------------------------------
// The wallpaper
// ---------------------------------------------------------------------------

/// The fit at a position of the menu.
pub open spec fn fit_at(index: u32) -> ThemeWallpaperFit {
    match index {
        1u32 => ThemeWallpaperFit::Fit,
        2u32 => ThemeWallpaperFit::Stretch,
        3u32 => ThemeWallpaperFit::Center,
        4u32 => ThemeWallpaperFit::Tile,
        _ => ThemeWallpaperFit::Fill,
    }
}

/// The position of a fit in the menu.
pub open spec fn fit_place(fit: ThemeWallpaperFit) -> u32 {
    match fit {
        ThemeWallpaperFit::Fill => 0,
        ThemeWallpaperFit::Fit => 1,
        ThemeWallpaperFit::Stretch => 2,
        ThemeWallpaperFit::Center => 3,
        ThemeWallpaperFit::Tile => 4,
    }
}

/// The gamut mapping at a position of the menu.
pub open spec fn mapping_at(index: u32) -> GamutMapping {
    match index {
        0u32 => GamutMapping::Clip,
        2u32 => GamutMapping::PreserveHue,
        _ => GamutMapping::Perceptual,
    }
}

/// The position of a gamut mapping in the menu.
pub open spec fn mapping_place(mapping: GamutMapping) -> u32 {
    match mapping {
        GamutMapping::Clip => 0,
        GamutMapping::Perceptual => 1,
        GamutMapping::PreserveHue => 2,
    }
}

/// The space at a position of the menus for the gamut and the interpolation.
pub open spec fn space_at(index: u32) -> ThemeColorSpace {
    if index == 0 {
        ThemeColorSpace::Srgb
    } else {
        ThemeColorSpace::DisplayP3
    }
}

/// The position of a space in the menus.
pub open spec fn space_place(space: ThemeColorSpace) -> u32 {
    if space == ThemeColorSpace::Srgb {
        0
    } else {
        1
    }
}

/// What is chosen from a menu is what the menu then shows.
pub proof fn law_menus_show_the_choice(fit: u32, mapping: u32, space: u32)
    requires
        fit < 5,
        mapping < 3,
        space < 2,
    ensures
        fit_place(fit_at(fit)) == fit,
        mapping_place(mapping_at(mapping)) == mapping,
        space_place(space_at(space)) == space,
{
}

fn space_from_index(index: u32) -> (r: ThemeColorSpace)
    ensures
        r == space_at(index),
{
    if index == 0 {
        ThemeColorSpace::Srgb
    } else {
        ThemeColorSpace::DisplayP3
    }
}

fn space_index(space: ThemeColorSpace) -> (r: u32)
    ensures
        r == space_place(space),
{
    if space == ThemeColorSpace::Srgb {
        0
    } else {
        1
    }
}

pub open spec fn with_wallpaper(d: DraftView, w: WallpaperView) -> DraftView {
    DraftView { wallpaper: w, ..d }
}

/// The draft with a colour of the wallpaper as the colour of active buttons.
pub open spec fn with_accent(d: DraftView, accent: Option<ThemeColor>) -> DraftView {
    match accent {
        Some(color) => DraftView {
            semantic: SemanticTheme {
                surfaces: Surfaces {
                    active_button: SurfaceStyle {
                        normal: color,
                        ..d.semantic.surfaces.active_button
                    },
                    ..d.semantic.surfaces
                },
                ..d.semantic
            },
            ..d
        },
        None => d,
    }
}

/// What a number of the theme is.
#[derive(Debug, Clone, Copy, PartialEq, Eq, Structural)]
pub enum ScaleField {
    BorderWidth,
    Radius,
    Shadow,
    Glow,
    FontWeight,
    FontSize,
    LetterSpacing,
    BarHeight,
    DockWidth,
    Padding,
    Gap,
    IconSize,
    SdrWhite,
    LuminanceCap,
    WallpaperBlur,
    WallpaperSaturation,
}

/// The theme after one of its numbers was set; `weight` is the number as a
/// font's weight. The cap on luminance stays at or above the white of SDR.
pub open spec fn after_scale(t: SemanticTheme, field: ScaleField, value: u32, weight: u16) -> SemanticTheme {
    match field {
        ScaleField::BorderWidth => SemanticTheme {
            edges: Edges { border_width: value, ..t.edges },
            ..t
        },
        ScaleField::Radius => SemanticTheme { edges: Edges { radius: value, ..t.edges }, ..t },
        ScaleField::Shadow => SemanticTheme { edges: Edges { shadow: value, ..t.edges }, ..t },
        ScaleField::Glow => SemanticTheme { edges: Edges { glow: value, ..t.edges }, ..t },
        ScaleField::FontWeight => SemanticTheme {
            typography: Typography { font_weight: weight, ..t.typography },
            ..t
        },
        ScaleField::FontSize => SemanticTheme {
            typography: Typography { size: value, ..t.typography },
            ..t
        },
        ScaleField::LetterSpacing => SemanticTheme {
            typography: Typography { letter_spacing: value, ..t.typography },
            ..t
        },
        ScaleField::BarHeight => SemanticTheme {
            layout: Layout { bar_height: value, ..t.layout },
            ..t
        },
        ScaleField::DockWidth => SemanticTheme {
            layout: Layout { dock_width: value, ..t.layout },
            ..t
        },
        ScaleField::Padding => SemanticTheme { layout: Layout { padding: value, ..t.layout }, ..t },
        ScaleField::Gap => SemanticTheme { layout: Layout { gap: value, ..t.layout }, ..t },
        ScaleField::IconSize => SemanticTheme {
            layout: Layout { icon_size: value, ..t.layout },
            ..t
        },
        ScaleField::SdrWhite => SemanticTheme {
            color_behavior: ColorBehavior {
                sdr_white_nits: value,
                luminance_cap_nits: larger(t.color_behavior.luminance_cap_nits, value),
                ..t.color_behavior
            },
            ..t
        },
        ScaleField::LuminanceCap => SemanticTheme {
            color_behavior: ColorBehavior {
                luminance_cap_nits: larger(value, t.color_behavior.sdr_white_nits),
                ..t.color_behavior
            },
            ..t
        },
        ScaleField::WallpaperBlur => SemanticTheme {
            wallpaper: WallpaperProcessing { blur: value, ..t.wallpaper },
            ..t
        },
        ScaleField::WallpaperSaturation => SemanticTheme {
            wallpaper: WallpaperProcessing { saturation: value, ..t.wallpaper },
            ..t
        },
    }
}

/// After the white of SDR or the cap on luminance was set to a number, the cap
/// is not below the white.
pub proof fn law_cap_is_not_below_white(t: SemanticTheme, field: ScaleField, value: u32, weight: u16)
    requires
        field == ScaleField::SdrWhite || field == ScaleField::LuminanceCap,
        !crate::single::is_nan(value),
        !crate::single::is_nan(t.color_behavior.sdr_white_nits),
        !crate::single::is_nan(t.color_behavior.luminance_cap_nits),
    ensures
        ({
            let after = after_scale(t, field, value, weight).color_behavior;
            crate::single::value(after.sdr_white_nits) <= crate::single::value(
                after.luminance_cap_nits,
            )
        }),
{
}

/// Which colour of the theme a button chooses.
#[derive(Debug, Clone, Copy, PartialEq, Eq, Structural)]
pub enum ColorTarget {
    PrimaryText,
    SecondaryText,
    Border,
    InnerHighlight,
}

/// The theme after one of its colours was chosen.
pub open spec fn after_target(t: SemanticTheme, target: ColorTarget, color: ThemeColor) -> SemanticTheme {
    match target {
        ColorTarget::PrimaryText => SemanticTheme {
            typography: Typography { primary: color, ..t.typography },
            ..t
        },
        ColorTarget::SecondaryText => SemanticTheme {
            typography: Typography { secondary: color, ..t.typography },
            ..t
        },
        ColorTarget::Border => SemanticTheme {
            edges: Edges { border_color: color, ..t.edges },
            ..t
        },
        ColorTarget::InnerHighlight => SemanticTheme {
            edges: Edges { inner_highlight: color, ..t.edges },
            ..t
        },
    }
}

/// Which number of a gradient's shape a control sets.
#[derive(Debug, Clone, Copy, PartialEq, Eq, Structural)]
pub enum GeometryField {
    LinearAngle,
    RadialCenterX,
    RadialCenterY,
    RadialRadius,
}

pub open spec fn after_geometry(d: DraftView, field: GeometryField, value: Number) -> DraftView {
    match field {
        GeometryField::LinearAngle => DraftView { linear_angle: value, ..d },
        GeometryField::RadialCenterX => DraftView { radial_center_x: value, ..d },
        GeometryField::RadialCenterY => DraftView { radial_center_y: value, ..d },
        GeometryField::RadialRadius => DraftView { radial_radius: value, ..d },
    }
}

/// A key that moves something.
#[derive(Debug, Clone, Copy, PartialEq, Eq, Structural)]
pub enum EditorKey {
    Left,
    Right,
    Up,
    Down,
    Home,
    End,
    Other,
}

/// What the controls show of a draft.
#[derive(Debug)]
pub struct DraftControls {
    pub mode: u32,
    pub gamut: u32,
    pub dynamic_range: u32,
    pub luminance_sensitive: bool,
    pub interpolation: u32,
    pub gradient_visible: bool,
    pub angle_visible: bool,
    pub radial_visible: bool,
    pub remove_sensitive: bool,
    pub wallpaper_text: String,
    pub clear_wallpaper_sensitive: bool,
    pub wallpaper_fit: u32,
    pub tint_active: bool,
    pub gamut_mapping: u32,
    pub automatic_accent: bool,
}

/// What the controls show of a draft.
pub open spec fn shows(d: DraftView, c: DraftControls) -> bool {
    let is_hdr = d.dynamic_range == ThemeDynamicRange::Hdr;
    &&& c.mode == d.mode
    &&& c.gamut == space_place(d.active_color.space)
    &&& c.dynamic_range == (if is_hdr {
        1u32
    } else {
        0u32
    })
    &&& c.luminance_sensitive == is_hdr
    &&& c.interpolation == space_place(d.interpolation_space)
    &&& c.gradient_visible == (d.mode != 0)
    &&& c.angle_visible == (d.mode == 1)
    &&& c.radial_visible == (d.mode == 2)
    &&& c.remove_sensitive == (d.stops.len() > 2)
    &&& c.wallpaper_text@ == (match d.wallpaper.path {
        Some(path) => path,
        None => "No wallpaper selected"@,
    })
    &&& c.clear_wallpaper_sensitive == (d.wallpaper.path is Some)
    &&& c.wallpaper_fit == fit_place(d.wallpaper.fit)
    &&& c.tint_active == (d.wallpaper.tint is Some)
    &&& c.gamut_mapping == mapping_place(d.semantic.color_behavior.gamut_mapping)
    &&& c.automatic_accent == d.semantic.wallpaper.automatic_accent
}

impl ThemeEditorDraft {
    /// An image was chosen for the wallpaper; none where it is no local file.
    /// `accent` is the colour that was found in it. Returns what the row says.
    pub fn choose_wallpaper(&mut self, path: Option<String>, accent: Option<ThemeColor>) -> (r:
        String)
        ensures
            match path {
                None => final(self)@ == old(self)@ && r@ == "Wallpaper must be a local image"@,
                Some(p) => final(self)@ == with_accent(
                    with_wallpaper(
                        old(self)@,
                        (WallpaperView { path: Some(p@), ..old(self)@.wallpaper }),
                    ),
                    if old(self)@.semantic.wallpaper.automatic_accent {
                        accent
                    } else {
                        None
                    },
                ) && r@ == p@,
            },
    {
        match path {
            None => "Wallpaper must be a local image".to_owned(),
            Some(p) => {
                let text = p.clone();
                self.wallpaper.path = Some(p);
                if self.semantic.wallpaper.automatic_accent {
                    if let Some(color) = accent {
                        self.semantic.surfaces.active_button.normal = color;
                    }
                }
                text
            },
        }
    }

    /// The wallpaper is taken away.
    pub fn clear_wallpaper(&mut self)
        ensures
            final(self)@ == with_wallpaper(
                old(self)@,
                (WallpaperView { path: None, ..old(self)@.wallpaper }),
            ),
    {
        self.wallpaper.path = None;
    }

    /// A fit was chosen from the menu.
    pub fn choose_fit(&mut self, index: u32)
        ensures
            final(self)@ == with_wallpaper(
                old(self)@,
                (WallpaperView { fit: fit_at(index), ..old(self)@.wallpaper }),
            ),
    {
        self.wallpaper.fit = match index {
            1 => ThemeWallpaperFit::Fit,
            2 => ThemeWallpaperFit::Stretch,
            3 => ThemeWallpaperFit::Center,
            4 => ThemeWallpaperFit::Tile,
            _ => ThemeWallpaperFit::Fill,
        };
    }

    /// The tint was turned on or off; `color` is what its controls show.
    pub fn toggle_tint(&mut self, active: bool, color: ThemeColor)
        ensures
            final(self)@ == with_wallpaper(
                old(self)@,
                (WallpaperView {
                    tint: if active {
                        Some(color)
                    } else {
                        None
                    },
                    ..old(self)@.wallpaper
                }),
            ),
    {
        self.wallpaper.tint = if active {
            Some(color)
        } else {
            None
        };
    }

    /// A component of the tint was changed; nothing where there is no tint.
    pub fn set_tint(&mut self, color: ThemeColor)
        ensures
            final(self)@ == if old(self)@.wallpaper.tint is Some {
                with_wallpaper(
                    old(self)@,
                    (WallpaperView { tint: Some(color), ..old(self)@.wallpaper }),
                )
            } else {
                old(self)@
            },
    {
        if let Some(_) = self.wallpaper.tint {
            self.wallpaper.tint = Some(color);
        }
    }

    /// The accent from the wallpaper was turned on or off; `accent` is the
    /// colour that was found in the wallpaper.
    pub fn toggle_automatic_accent(&mut self, active: bool, accent: Option<ThemeColor>)
        ensures
            final(self)@ == with_accent(
                (DraftView {
                    semantic: SemanticTheme {
                        wallpaper: WallpaperProcessing {
                            automatic_accent: active,
                            ..old(self)@.semantic.wallpaper
                        },
                        ..old(self)@.semantic
                    },
                    ..old(self)@
                }),
                if active && old(self)@.wallpaper.path is Some {
                    accent
                } else {
                    None
                },
            ),
    {
        self.semantic.wallpaper.automatic_accent = active;
        if active {
            if let Some(_) = self.wallpaper.path {
                if let Some(color) = accent {
                    self.semantic.surfaces.active_button.normal = color;
                }
            }
        }
    }

    /// A number of the theme was set; `weight` is the number as a font's weight.
    pub fn set_scale(&mut self, field: ScaleField, value: u32, weight: u16)
        ensures
            final(self)@ == (DraftView {
                semantic: after_scale(old(self)@.semantic, field, value, weight),
                ..old(self)@
            }),
    {
        match field {
            ScaleField::BorderWidth => self.semantic.edges.border_width = value,
            ScaleField::Radius => self.semantic.edges.radius = value,
            ScaleField::Shadow => self.semantic.edges.shadow = value,
            ScaleField::Glow => self.semantic.edges.glow = value,
            ScaleField::FontWeight => self.semantic.typography.font_weight = weight,
            ScaleField::FontSize => self.semantic.typography.size = value,
            ScaleField::LetterSpacing => self.semantic.typography.letter_spacing = value,
            ScaleField::BarHeight => self.semantic.layout.bar_height = value,
            ScaleField::DockWidth => self.semantic.layout.dock_width = value,
            ScaleField::Padding => self.semantic.layout.padding = value,
            ScaleField::Gap => self.semantic.layout.gap = value,
            ScaleField::IconSize => self.semantic.layout.icon_size = value,
            ScaleField::SdrWhite => {
                let cap: u32 = self.semantic.color_behavior.luminance_cap_nits;
                self.semantic.color_behavior.sdr_white_nits = value;
                self.semantic.color_behavior.luminance_cap_nits = max(cap, value);
            },
            ScaleField::LuminanceCap => {
                let white: u32 = self.semantic.color_behavior.sdr_white_nits;
                self.semantic.color_behavior.luminance_cap_nits = max(value, white);
            },
            ScaleField::WallpaperBlur => self.semantic.wallpaper.blur = value,
            ScaleField::WallpaperSaturation => self.semantic.wallpaper.saturation = value,
        }
    }

    /// A gamut mapping was chosen from the menu.
    pub fn choose_mapping(&mut self, index: u32)
        ensures
            final(self)@ == (DraftView {
                semantic: SemanticTheme {
                    color_behavior: ColorBehavior {
                        gamut_mapping: mapping_at(index),
                        ..old(self)@.semantic.color_behavior
                    },
                    ..old(self)@.semantic
                },
                ..old(self)@
            }),
    {
        self.semantic.color_behavior.gamut_mapping = match index {
            0 => GamutMapping::Clip,
            2 => GamutMapping::PreserveHue,
            _ => GamutMapping::Perceptual,
        };
    }

    /// A colour of the theme was chosen.
    pub fn set_target(&mut self, target: ColorTarget, color: ThemeColor)
        ensures
            final(self)@ == (DraftView {
                semantic: after_target(old(self)@.semantic, target, color),
                ..old(self)@
            }),
    {
        match target {
            ColorTarget::PrimaryText => self.semantic.typography.primary = color,
            ColorTarget::SecondaryText => self.semantic.typography.secondary = color,
            ColorTarget::Border => self.semantic.edges.border_color = color,
            ColorTarget::InnerHighlight => self.semantic.edges.inner_highlight = color,
        }
    }

    /// A dynamic range was chosen from the menu: HDR is the second.
    pub fn choose_dynamic_range(&mut self, index: u32)
        ensures
            ({
                let range = if index == 1 {
                    ThemeDynamicRange::Hdr
                } else {
                    ThemeDynamicRange::Sdr
                };
                final(self)@ == (DraftView {
                    dynamic_range: range,
                    semantic: SemanticTheme {
                        color_behavior: ColorBehavior {
                            dynamic_range: range,
                            ..old(self)@.semantic.color_behavior
                        },
                        ..old(self)@.semantic
                    },
                    ..old(self)@
                })
            }),
    {
        let range = if index == 1 {
            ThemeDynamicRange::Hdr
        } else {
            ThemeDynamicRange::Sdr
        };
        self.dynamic_range = range;
        self.semantic.color_behavior.dynamic_range = range;
    }

    /// A luminance was chosen.
    pub fn set_luminance(&mut self, nits: Number)
        ensures
            final(self)@ == (DraftView {
                hdr_luminance_nits: nits,
                semantic: SemanticTheme {
                    color_behavior: ColorBehavior {
                        luminance_cap_nits: nits.narrow,
                        ..old(self)@.semantic.color_behavior
                    },
                    ..old(self)@.semantic
                },
                ..old(self)@
            }),
    {
        self.hdr_luminance_nits = nits;
        self.semantic.color_behavior.luminance_cap_nits = nits.narrow;
    }

    /// A gamut was chosen from the menu. Returns the colour that the picker is
    /// then put at.
    pub fn choose_gamut(&mut self, index: u32, now: Rgba, converted: Rgba) -> (r: Option<
        ThemeColor,
    >)
        requires
            draft_ok(old(self)@),
        ensures
            ({
                let (after, color) = in_space(old(self)@, space_at(index), now, converted);
                &&& r == color
                &&& final(self)@ == (DraftView {
                    semantic: SemanticTheme {
                        color_behavior: ColorBehavior {
                            gamut: space_at(index),
                            ..after.semantic.color_behavior
                        },
                        ..after.semantic
                    },
                    ..after
                })
            }),
            draft_ok(final(self)@),
    {
        let target = space_from_index(index);
        let color = self.switch_space(target, now, converted);
        self.semantic.color_behavior.gamut = target;
        color
    }

    /// A space for the interpolation was chosen from the menu.
    pub fn choose_interpolation(&mut self, index: u32)
        ensures
            final(self)@ == (DraftView { interpolation_space: space_at(index), ..old(self)@ }),
    {
        self.interpolation_space = space_from_index(index);
    }

    /// A number of the gradient's shape was set.
    pub fn set_geometry(&mut self, field: GeometryField, value: Number)
        ensures
            final(self)@ == after_geometry(old(self)@, field, value),
    {
        match field {
            GeometryField::LinearAngle => self.linear_angle = value,
            GeometryField::RadialCenterX => self.radial_center_x = value,
            GeometryField::RadialCenterY => self.radial_center_y = value,
            GeometryField::RadialRadius => self.radial_radius = value,
        }
    }

    /// A key on the rail of stops moves the selected stop: a step down, a step
    /// up, or to an end. `less` and `more` are where the steps lead. Returns
    /// the new position, or none where the key does nothing.
    pub fn on_stop_key(&mut self, key: EditorKey, less: u32, more: u32) -> (r: Option<u32>)
        requires
            draft_ok(old(self)@),
        ensures
            r == match key {
                EditorKey::Left | EditorKey::Down => Some(less),
                EditorKey::Right | EditorKey::Up => Some(more),
                EditorKey::Home => Some(0u32),
                EditorKey::End => Some(ONE),
                EditorKey::Other => None,
            },
            final(self)@ == match r {
                Some(position) => crate::settings::theme_draft::with_position(old(self)@, position),
                None => old(self)@,
            },
            draft_ok(final(self)@),
    {
        let position: u32 = match key {
            EditorKey::Left | EditorKey::Down => less,
            EditorKey::Right | EditorKey::Up => more,
            EditorKey::Home => 0,
            EditorKey::End => ONE,
            EditorKey::Other => {
                return None;
            },
        };
        self.set_selected_stop_position(position);
        Some(position)
    }

    /// A key on the saturation and value square moves the picker. The arguments
    /// are where the steps lead. Returns whether the key does anything.
    pub fn on_picker_key(
        &mut self,
        key: EditorKey,
        less_saturation: u64,
        more_saturation: u64,
        less_value: u64,
        more_value: u64,
    ) -> (r: bool)
        ensures
            r == (key != EditorKey::Other),
            ({
                let p = old(self)@.picker;
                let one: u64 = 0x3ff0_0000_0000_0000;
                final(self)@ == (DraftView {
                    picker: match key {
                        EditorKey::Left => Picker { saturation: less_saturation, ..p },
                        EditorKey::Right => Picker { saturation: more_saturation, ..p },
                        EditorKey::Up => Picker { value: more_value, ..p },
                        EditorKey::Down => Picker { value: less_value, ..p },
                        EditorKey::Home => Picker { saturation: 0, value: one, ..p },
                        EditorKey::End => Picker { saturation: one, value: 0, ..p },
                        EditorKey::Other => p,
                    },
                    ..old(self)@
                })
            }),
    {
        let one: u64 = 0x3ff0_0000_0000_0000;
        match key {
            EditorKey::Left => self.picker.saturation = less_saturation,
            EditorKey::Right => self.picker.saturation = more_saturation,
            EditorKey::Up => self.picker.value = more_value,
            EditorKey::Down => self.picker.value = less_value,
            EditorKey::Home => {
                self.picker.saturation = 0;
                self.picker.value = one;
            },
            EditorKey::End => {
                self.picker.saturation = one;
                self.picker.value = 0;
            },
            EditorKey::Other => {
                return false;
            },
        }
        true
    }

    /// A key on the hue ring turns the hue. `less` and `more` are where the
    /// steps lead. Returns whether the key does anything.
    pub fn on_hue_key(&mut self, key: EditorKey, less: u64, more: u64) -> (r: bool)
        ensures
            r == (key != EditorKey::Other),
            ({
                let p = old(self)@.picker;
                final(self)@ == (DraftView {
                    picker: match key {
                        EditorKey::Left | EditorKey::Down => Picker { hue: less, ..p },
                        EditorKey::Right | EditorKey::Up => Picker { hue: more, ..p },
                        EditorKey::Home => Picker { hue: 0, ..p },
                        EditorKey::End => Picker { hue: 0x4076_7ffb_e76c_8b44, ..p },
                        EditorKey::Other => p,
                    },
                    ..old(self)@
                })
            }),
    {
        match key {
            EditorKey::Left | EditorKey::Down => self.picker.hue = less,
            EditorKey::Right | EditorKey::Up => self.picker.hue = more,
            EditorKey::Home => self.picker.hue = 0,
            EditorKey::End => self.picker.hue = 0x4076_7ffb_e76c_8b44,
            EditorKey::Other => {
                return false;
            },
        }
        true
    }

    /// What the controls show of the draft.
    pub fn controls(&self) -> (r: DraftControls)
        ensures
            shows(self@, r),
    {
        let is_hdr = self.dynamic_range == ThemeDynamicRange::Hdr;
        let (wallpaper_text, chosen) = match &self.wallpaper.path {
            Some(path) => (path.clone(), true),
            None => ("No wallpaper selected".to_owned(), false),
        };
        DraftControls {
            mode: self.mode,
            gamut: space_index(self.active_color.space),
            dynamic_range: if is_hdr {
                1
            } else {
                0
            },
            luminance_sensitive: is_hdr,
            interpolation: space_index(self.interpolation_space),
            gradient_visible: self.mode != 0,
            angle_visible: self.mode == 1,
            radial_visible: self.mode == 2,
            remove_sensitive: self.stops.len() > 2,
            wallpaper_text,
            clear_wallpaper_sensitive: chosen,
            wallpaper_fit: match self.wallpaper.fit {
                ThemeWallpaperFit::Fill => 0,
                ThemeWallpaperFit::Fit => 1,
                ThemeWallpaperFit::Stretch => 2,
                ThemeWallpaperFit::Center => 3,
                ThemeWallpaperFit::Tile => 4,
            },
            tint_active: match self.wallpaper.tint {
                Some(_) => true,
                None => false,
            },
            gamut_mapping: match self.semantic.color_behavior.gamut_mapping {
                GamutMapping::Clip => 0,
                GamutMapping::Perceptual => 1,
                GamutMapping::PreserveHue => 2,
            },
            automatic_accent: self.semantic.wallpaper.automatic_accent,
        }
    }
}

// ---------------------------------------------------------------------------
// Texts
// ---------------------------------------------------------------------------

/// The name of a space.
pub open spec fn space_name(space: ThemeColorSpace) -> Seq<char> {
    match space {
        ThemeColorSpace::Srgb => "sRGB"@,
        ThemeColorSpace::DisplayP3 => "Display P3"@,
        ThemeColorSpace::Rec2020 => "Rec.2020"@,
    }
}

fn space_label(space: ThemeColorSpace) -> (r: &'static str)
    ensures
        r@ == space_name(space),
{
    match space {
        ThemeColorSpace::Srgb => "sRGB",
        ThemeColorSpace::DisplayP3 => "Display P3",
        ThemeColorSpace::Rec2020 => "Rec.2020",
    }
}

/// The numbers of a draft as they are shown: without digits behind the point.
#[derive(Debug)]
pub struct ShownNumbers {
    pub hue: String,
    pub saturation_percent: String,
    pub value_percent: String,
    pub luminance_nits: String,
}

/// What kind of paint it is, and which stop of how many is selected.
pub open spec fn paint_text(d: DraftView) -> Seq<char> {
    let stop = dec((d.selected_stop + 1) as nat) + "/"@ + dec(d.stops.len()) + "  ·  "@;
    if d.mode == 1 {
        "Linear · Stop "@ + stop
    } else if d.mode == 2 {
        "Radial · Stop "@ + stop
    } else {
        "Solid  ·  "@
    }
}

/// Whether the colour is one that sRGB does not have; `in_srgb` says whether
/// it has it.
pub open spec fn is_outside(d: DraftView, in_srgb: bool) -> bool {
    d.active_color.space == ThemeColorSpace::DisplayP3 && !in_srgb
}

/// The line below the picker.
pub open spec fn status_text(d: DraftView, n: ShownNumbers, in_srgb: bool) -> Seq<char> {
    paint_text(d) + space_name(d.active_color.space) + "  ·  "@ + (if d.dynamic_range
        == ThemeDynamicRange::Hdr {
        "HDR  ·  "@ + n.luminance_nits@ + " nits"@
    } else {
        "SDR"@
    }) + "  ·  H "@ + n.hue@ + "°  S "@ + n.saturation_percent@ + "%  V "@ + n.value_percent@
        + "%"@ + (if d.active_color.space != ThemeColorSpace::DisplayP3 {
        ""@
    } else if in_srgb {
        "  ·  Inside sRGB gamut"@
    } else {
        "  ●  Outside sRGB gamut"@
    })
}

/// The line below the picker, and whether it is a warning.
pub fn theme_editor_status(draft: &ThemeEditorDraft, n: &ShownNumbers, in_srgb: bool) -> (r: (
    String,
    bool,
))
    requires
        draft_ok(draft@),
    ensures
        r.0@ == status_text(draft@, *n, in_srgb),
        r.1 == is_outside(draft@, in_srgb),
{
    let mut out = if draft.mode == 1 {
        "Linear · Stop ".to_owned()
    } else if draft.mode == 2 {
        "Radial · Stop ".to_owned()
    } else {
        "Solid  ·  ".to_owned()
    };
    if draft.mode == 1 || draft.mode == 2 {
        let count = draft.stops.len();
        let mut stop = decimal(draft.selected_stop as u64 + 1);
        stop.append("/");
        stop.append(decimal(count as u64).as_str());
        stop.append("  ·  ");
        out.append(stop.as_str());
    }
    assert(out@ == paint_text(draft@));
    out.append(space_label(draft.space()));
    out.append("  ·  ");
    if draft.dynamic_range == ThemeDynamicRange::Hdr {
        let mut range = "HDR  ·  ".to_owned();
        range.append(n.luminance_nits.as_str());
        range.append(" nits");
        out.append(range.as_str());
    } else {
        out.append("SDR");
    }
    out.append("  ·  H ");
    out.append(n.hue.as_str());
    out.append("°  S ");
    out.append(n.saturation_percent.as_str());
    out.append("%  V ");
    out.append(n.value_percent.as_str());
    out.append("%");
    let p3 = draft.space() == ThemeColorSpace::DisplayP3;
    if !p3 {
        out.append("");
    } else if in_srgb {
        out.append("  ·  Inside sRGB gamut");
    } else {
        out.append("  ●  Outside sRGB gamut");
    }
    (out, p3 && !in_srgb)
}

/// What is read out of the saturation and value square.
pub open spec fn picker_text(d: DraftView, n: ShownNumbers, in_srgb: bool) -> Seq<char> {
    space_name(d.active_color.space) + " saturation "@ + n.saturation_percent@
        + " percent, value "@ + n.value_percent@ + " percent"@ + (if is_outside(d, in_srgb) {
        ", outside sRGB gamut"@
    } else {
        ""@
    })
}

/// What is read out of the saturation and value square.
pub fn picker_accessibility(draft: &ThemeEditorDraft, n: &ShownNumbers, in_srgb: bool) -> (r:
    String)
    ensures
        r@ == picker_text(draft@, *n, in_srgb),
{
    let mut out = space_label(draft.space()).to_owned();
    out.append(" saturation ");
    out.append(n.saturation_percent.as_str());
    out.append(" percent, value ");
    out.append(n.value_percent.as_str());
    out.append(" percent");
    if draft.space() == ThemeColorSpace::DisplayP3 && !in_srgb {
        out.append(", outside sRGB gamut");
    } else {
        out.append("");
    }
    out
}

/// What is read out of the hue ring.
pub fn hue_accessibility(n: &ShownNumbers) -> (r: String)
    ensures
        r@ == n.hue@ + " degrees"@,
{
    n.hue.clone().concat(" degrees")
}

/// What is read out of the rail of stops; `percent` is the selected stop's
/// position. Nothing where there is no gradient.
pub fn gradient_stop_accessibility(draft: &ThemeEditorDraft, percent: &str) -> (r: Option<String>)
    requires
        draft_ok(draft@),
    ensures
        opt_view(r) == if draft@.mode == 0 {
            None
        } else {
            Some(
                "Stop "@ + dec((draft@.selected_stop + 1) as nat) + " of "@ + dec(
                    draft@.stops.len(),
                ) + ", position "@ + percent@ + " percent"@,
            )
        },
{
    if draft.mode == 0 {
        return None;
    }
    let count = draft.stops.len();
    let mut out = "Stop ".to_owned();
    out.append(decimal(draft.selected_stop as u64 + 1).as_str());
    out.append(" of ");
    out.append(decimal(count as u64).as_str());
    out.append(", position ");
    out.append(percent);
    out.append(" percent");
    Some(out)
}

/// The line below the preview.
pub fn preview_range_text(draft: &ThemeEditorDraft, nits: &str) -> (r: String)
    ensures
        r@ == if draft@.dynamic_range == ThemeDynamicRange::Hdr {
            "HDR · "@ + nits@ + " nits · SDR-mapped preview"@
        } else {
            "SDR preview"@
        },
{
    if draft.dynamic_range == ThemeDynamicRange::Hdr {
        let mut out = "HDR · ".to_owned();
        out.append(nits);
        out.append(" nits · SDR-mapped preview");
        out
    } else {
        "SDR preview".to_owned()
    }
}

/// What a slider shows.
pub open spec fn scale_of(t: SemanticTheme, field: ScaleField) -> u32 {
    match field {
        ScaleField::BorderWidth => t.edges.border_width,
        ScaleField::Radius => t.edges.radius,
        ScaleField::Shadow => t.edges.shadow,
        ScaleField::Glow => t.edges.glow,
        ScaleField::FontWeight => t.typography.font_weight as u32,
        ScaleField::FontSize => t.typography.size,
        ScaleField::LetterSpacing => t.typography.letter_spacing,
        ScaleField::BarHeight => t.layout.bar_height,
        ScaleField::DockWidth => t.layout.dock_width,
        ScaleField::Padding => t.layout.padding,
        ScaleField::Gap => t.layout.gap,
        ScaleField::IconSize => t.layout.icon_size,
        ScaleField::SdrWhite => t.color_behavior.sdr_white_nits,
        ScaleField::LuminanceCap => t.color_behavior.luminance_cap_nits,
        ScaleField::WallpaperBlur => t.wallpaper.blur,
        ScaleField::WallpaperSaturation => t.wallpaper.saturation,
    }
}

/// A slider sets its own setting and no other, but that the cap follows the
/// white it may not fall below.
pub proof fn law_scales(
    t: SemanticTheme,
    field: ScaleField,
    other: ScaleField,
    value: u32,
    weight: u16,
)
    ensures
        field != ScaleField::FontWeight && field != ScaleField::LuminanceCap ==> scale_of(
            after_scale(t, field, value, weight),
            field,
        ) == value,
        after_scale(t, ScaleField::FontWeight, value, weight).typography.font_weight == weight,
        other != field && !(field == ScaleField::SdrWhite && other == ScaleField::LuminanceCap)
            ==> scale_of(after_scale(t, field, value, weight), other) == scale_of(t, other),
        after_scale(t, field, value, weight).surfaces == t.surfaces,
{
}

/// The colour of a target.
pub open spec fn target_of(t: SemanticTheme, target: ColorTarget) -> ThemeColor {
    match target {
        ColorTarget::PrimaryText => t.typography.primary,
        ColorTarget::SecondaryText => t.typography.secondary,
        ColorTarget::Border => t.edges.border_color,
        ColorTarget::InnerHighlight => t.edges.inner_highlight,
    }
}

/// A colour button sets its own colour and no other.
pub proof fn law_targets(
    t: SemanticTheme,
    target: ColorTarget,
    other: ColorTarget,
    color: ThemeColor,
)
    ensures
        target_of(after_target(t, target, color), target) == color,
        other != target ==> target_of(after_target(t, target, color), other) == target_of(
            t,
            other,
        ),
        after_target(t, target, color).surfaces == t.surfaces,
{
}

/// One number of the geometry.
pub open spec fn geometry_of(d: DraftView, field: GeometryField) -> Number {
    match field {
        GeometryField::LinearAngle => d.linear_angle,
        GeometryField::RadialCenterX => d.radial_center_x,
        GeometryField::RadialCenterY => d.radial_center_y,
        GeometryField::RadialRadius => d.radial_radius,
    }
}

/// A slider of the geometry sets its own number and no other.
pub proof fn law_geometry(d: DraftView, field: GeometryField, other: GeometryField, value: Number)
    ensures
        geometry_of(after_geometry(d, field, value), field) == value,
        other != field ==> geometry_of(after_geometry(d, field, value), other) == geometry_of(
            d,
            other,
        ),
        after_geometry(d, field, value).stops == d.stops,
{
}

/// The positions of the menus stand for these.
pub proof fn law_editor_menus()
    ensures
        fit_at(0) == ThemeWallpaperFit::Fill,
        fit_at(1) == ThemeWallpaperFit::Fit,
        fit_at(2) == ThemeWallpaperFit::Stretch,
        fit_at(3) == ThemeWallpaperFit::Center,
        fit_at(4) == ThemeWallpaperFit::Tile,
        mapping_at(0) == GamutMapping::Clip,
        mapping_at(1) == GamutMapping::Perceptual,
        mapping_at(2) == GamutMapping::PreserveHue,
        space_at(0) == ThemeColorSpace::Srgb,
        space_at(1) == ThemeColorSpace::DisplayP3,
{
}

/// An accent colours the active button and nothing else.
pub proof fn law_accent(d: DraftView, color: ThemeColor)
    ensures
        with_accent(d, Some(color)).semantic.surfaces.active_button.normal == color,
        with_accent(d, Some(color)).semantic.surfaces.button == d.semantic.surfaces.button,
        with_accent(d, Some(color)).semantic.surfaces.bar == d.semantic.surfaces.bar,
        with_accent(d, Some(color)).semantic.surfaces.dock == d.semantic.surfaces.dock,
        with_accent(d, Some(color)).semantic.surfaces.popup == d.semantic.surfaces.popup,
        with_accent(d, Some(color)).semantic.surfaces.window_frame
            == d.semantic.surfaces.window_frame,
        with_accent(d, Some(color)).stops == d.stops,
        with_accent(d, None) == d,
{
}

} // verus!
