use focaldesk::settings::gamut::{srgb_gamut_boundary_segments, Segment};
use focaldesk::settings::theme::{
    color_controls, set_state_color, toggle_override, ColorBehavior, ColorControls, Edges,
    GamutMapping, GradientInterpolation, GradientStop, Layout, Number, Rgba, SemanticTheme,
    SurfaceStyle, Surfaces, ThemeColor, ThemeColorSpace, ThemeDocument, ThemeDynamicRange,
    ThemePaint, ThemePaintIntent, ThemeWallpaper, ThemeWallpaperFit, Typography,
    WallpaperProcessing,
};
use focaldesk::settings::theme_draft::{
    nearest_gradient_stop, Gap, Picker, ThemeEditorColor, ThemeEditorDraft,
};
use focaldesk::settings::theme_editor::{
    gradient_stop_accessibility, hue_accessibility, picker_accessibility, preview_range_text,
    theme_editor_status, ColorTarget, EditorKey, GeometryField, ScaleField, ShownNumbers,
};
use focaldesk::settings::theme_files::{
    installed_themes_root, theme_editor_path_label, theme_editor_toml_path, theme_package_path,
    ThemeFiles,
};
use focaldesk::settings::theme_preview::{
    job_action, theme_editor_reply, theme_editor_runtime_label, LivePreview, ThemeEditorIpcAction,
    ThemeEditorIpcJob, ThemeEditorReply, ThemeEditorRuntimeStatus,
};

// The arithmetic of the picker.

fn srgb_decode(component: f64) -> f64 {
    if component <= 0.04045 {
        component / 12.92
    } else {
        ((component + 0.055) / 1.055).powf(2.4)
    }
}

fn srgb_encode(component: f32) -> f64 {
    let component = f64::from(component.max(0.0));
    if component <= 0.003_130_8 {
        component * 12.92
    } else {
        1.055 * component.powf(1.0 / 2.4) - 0.055
    }
}

fn hsv_to_rgb(hue: f64, saturation: f64, value: f64) -> [f64; 3] {
    let chroma = value * saturation;
    let sector = (hue.rem_euclid(360.0)) / 60.0;
    let x = chroma * (1.0 - (sector.rem_euclid(2.0) - 1.0).abs());
    let [r, g, b] = match sector as u32 {
        0 => [chroma, x, 0.0],
        1 => [x, chroma, 0.0],
        2 => [0.0, chroma, x],
        3 => [0.0, x, chroma],
        4 => [x, 0.0, chroma],
        _ => [chroma, 0.0, x],
    };
    let match_value = value - chroma;
    [r + match_value, g + match_value, b + match_value]
}

fn rgb_to_hsv([r, g, b]: [f64; 3]) -> (f64, f64, f64) {
    let maximum = r.max(g).max(b);
    let minimum = r.min(g).min(b);
    let delta = maximum - minimum;
    let hue = if delta <= f64::EPSILON {
        0.0
    } else if maximum == r {
        60.0 * ((g - b) / delta).rem_euclid(6.0)
    } else if maximum == g {
        60.0 * ((b - r) / delta + 2.0)
    } else {
        60.0 * ((r - g) / delta + 4.0)
    };
    let saturation = if maximum <= f64::EPSILON {
        0.0
    } else {
        delta / maximum
    };
    (hue, saturation, maximum)
}

fn picker(hue: f64, saturation: f64, value: f64, alpha: f64) -> Picker {
    Picker {
        hue: hue.to_bits(),
        saturation: saturation.to_bits(),
        value: value.to_bits(),
        alpha: alpha.to_bits(),
    }
}

/// The components of the colour at the picker.
fn decoded(p: Picker) -> Rgba {
    let [r, g, b] = hsv_to_rgb(
        f64::from_bits(p.hue),
        f64::from_bits(p.saturation),
        f64::from_bits(p.value),
    );
    rgba(
        srgb_decode(r) as f32,
        srgb_decode(g) as f32,
        srgb_decode(b) as f32,
        f64::from_bits(p.alpha) as f32,
    )
}

/// Where the picker stands for a colour.
fn encoded(color: ThemeColor) -> Picker {
    let part = |bits: u32| srgb_encode(f32::from_bits(bits)).clamp(0.0, 1.0);
    let (hue, saturation, value) =
        rgb_to_hsv([part(color.rgba.r), part(color.rgba.g), part(color.rgba.b)]);
    picker(
        hue,
        saturation,
        value,
        f64::from(f32::from_bits(color.rgba.a)),
    )
}

fn rgba(r: f32, g: f32, b: f32, a: f32) -> Rgba {
    Rgba {
        r: r.to_bits(),
        g: g.to_bits(),
        b: b.to_bits(),
        a: a.to_bits(),
    }
}

fn color(space: ThemeColorSpace, r: f32, g: f32, b: f32, a: f32) -> ThemeColor {
    ThemeColor {
        space,
        rgba: rgba(r, g, b, a),
    }
}

fn srgb(r: f32, g: f32, b: f32, a: f32) -> ThemeColor {
    color(ThemeColorSpace::Srgb, r, g, b, a)
}

/// A colour's components in another space; any change of them will do here.
fn converted(now: Rgba) -> Rgba {
    rgba(
        f32::from_bits(now.r) * 0.5 + f32::from_bits(now.g) * 0.25,
        f32::from_bits(now.g) * 0.75,
        f32::from_bits(now.b) * 0.75,
        f32::from_bits(now.a),
    )
}

fn number(value: f64) -> Number {
    Number {
        wide: value.to_bits(),
        narrow: (value as f32).to_bits(),
    }
}

fn style(shade: f32) -> SurfaceStyle {
    SurfaceStyle {
        normal: srgb(shade, shade, shade, 1.0),
        hover: None,
        pressed: None,
        selected: None,
        focused: None,
        urgent: None,
        disabled: None,
    }
}

fn semantic() -> SemanticTheme {
    SemanticTheme {
        surfaces: Surfaces {
            bar: style(0.1),
            dock: style(0.2),
            button: style(0.3),
            active_button: style(0.4),
            popup: style(0.5),
            window_frame: style(0.6),
        },
        edges: Edges {
            border_color: srgb(0.2, 0.2, 0.2, 1.0),
            inner_highlight: srgb(0.3, 0.3, 0.3, 1.0),
            border_width: 1.0f32.to_bits(),
            radius: 10.0f32.to_bits(),
            shadow: 0.4f32.to_bits(),
            glow: 0.15f32.to_bits(),
        },
        typography: Typography {
            primary: srgb(0.9, 0.9, 0.9, 1.0),
            secondary: srgb(0.7, 0.7, 0.7, 1.0),
            font_weight: 500,
            size: 14.0f32.to_bits(),
            letter_spacing: 0.0f32.to_bits(),
        },
        layout: Layout {
            bar_height: 36.0f32.to_bits(),
            dock_width: 64.0f32.to_bits(),
            padding: 12.0f32.to_bits(),
            gap: 8.0f32.to_bits(),
            icon_size: 24.0f32.to_bits(),
        },
        color_behavior: ColorBehavior {
            gamut: ThemeColorSpace::Srgb,
            dynamic_range: ThemeDynamicRange::Sdr,
            sdr_white_nits: 203.0f32.to_bits(),
            luminance_cap_nits: 1000.0f32.to_bits(),
            gamut_mapping: GamutMapping::Perceptual,
        },
        wallpaper: WallpaperProcessing {
            blur: 0.0f32.to_bits(),
            saturation: 1.0f32.to_bits(),
            automatic_accent: false,
        },
    }
}

fn wallpaper() -> ThemeWallpaper {
    ThemeWallpaper {
        path: None,
        fit: ThemeWallpaperFit::Fill,
        tint: None,
        dim: 0.0f32.to_bits(),
    }
}

fn new_draft(hue: f64, saturation: f64, value: f64, alpha: f64) -> ThemeEditorDraft {
    let p = picker(hue, saturation, value, alpha);
    ThemeEditorDraft::new(p, decoded(p), wallpaper(), semantic())
}

fn now(draft: &ThemeEditorDraft) -> Rgba {
    decoded(draft.picker)
}

fn switch_mode(draft: &mut ThemeEditorDraft, mode: u32) {
    let at = now(draft);
    if let Some(color) = draft.switch_mode(mode, at) {
        draft.load_picker_color(encoded(color));
    }
}

fn switch_space(draft: &mut ThemeEditorDraft, target: ThemeColorSpace) {
    let at = now(draft);
    if let Some(color) = draft.switch_space(target, at, converted(at)) {
        let place = encoded(color);
        draft.load_picker_color(place);
        draft.commit_current_color(decoded(place));
    }
}

fn select_stop(draft: &mut ThemeEditorDraft, selected: usize) {
    let at = now(draft);
    if let Some(color) = draft.select_stop(selected, at) {
        draft.load_picker_color(encoded(color));
    }
}

fn add_stop(draft: &mut ThemeEditorDraft) {
    let positions: Vec<f32> = draft
        .sorted_positions()
        .iter()
        .map(|bits| f32::from_bits(*bits))
        .collect();
    let gaps: Vec<Gap> = positions
        .windows(2)
        .map(|pair| Gap {
            width: (pair[1] - pair[0]).to_bits(),
            middle: ((pair[0] + pair[1]) * 0.5).to_bits(),
        })
        .collect();
    let at = now(draft);
    draft.add_stop(at, &gaps);
}

fn duplicate_stop(draft: &mut ThemeEditorDraft) {
    let position = f32::from_bits(draft.stops[draft.selected_stop].position);
    let at = now(draft);
    draft.duplicate_stop(at, (position + 0.05).min(1.0).to_bits());
}

fn remove_stop(draft: &mut ThemeEditorDraft) {
    if let Some(color) = draft.remove_stop() {
        draft.load_picker_color(encoded(color));
    }
}

fn selected_position(draft: &ThemeEditorDraft) -> f32 {
    f32::from_bits(draft.stops[draft.selected_stop].position)
}

#[test]
fn theme_editor_preserves_out_of_srgb_p3_draft_across_switches() {
    let mut draft = new_draft(0.0, 1.0, 1.0, 1.0);
    switch_space(&mut draft, ThemeColorSpace::DisplayP3);
    draft.picker.hue = 0.0f64.to_bits();
    draft.picker.saturation = 1.0f64.to_bits();
    draft.picker.value = 1.0f64.to_bits();
    let p3_red = draft.current_color(now(&draft));
    assert_eq!(p3_red.space, ThemeColorSpace::DisplayP3);
    let [red, green, blue] = [p3_red.rgba.r, p3_red.rgba.g, p3_red.rgba.b]
        .map(|bits| f64::from(f32::from_bits(bits)));
    assert!(!p3_is_in_srgb([red, green, blue]));

    switch_space(&mut draft, ThemeColorSpace::Srgb);
    assert_eq!(draft.space(), ThemeColorSpace::Srgb);
    switch_space(&mut draft, ThemeColorSpace::DisplayP3);
    assert_eq!(draft.space(), ThemeColorSpace::DisplayP3);
    assert_eq!(draft.current_color(now(&draft)), p3_red);
}

#[test]
fn theme_editor_gradient_stop_lifecycle_keeps_two_minimum() {
    let mut draft = new_draft(205.0, 0.8, 0.9, 1.0);
    switch_mode(&mut draft, 1);
    add_stop(&mut draft);
    assert_eq!(draft.stops.len(), 3);
    assert_eq!(selected_position(&draft), 0.5);
    duplicate_stop(&mut draft);
    assert_eq!(draft.stops.len(), 4);
    assert_eq!(selected_position(&draft), 0.55);
    remove_stop(&mut draft);
    remove_stop(&mut draft);
    remove_stop(&mut draft);
    assert_eq!(draft.stops.len(), 2);
}

#[test]
fn theme_editor_gradient_paint_sorts_stops_and_keeps_geometry() {
    let mut draft = new_draft(205.0, 0.8, 0.9, 1.0);
    switch_mode(&mut draft, 1);
    draft.stops[0].position = 0.9f32.to_bits();
    draft.stops[1].position = 0.1f32.to_bits();
    draft.set_geometry(GeometryField::LinearAngle, number(42.0));
    let ThemePaint::LinearGradient { angle, stops, .. } = draft.paint(now(&draft)) else {
        panic!("expected linear gradient");
    };
    assert_eq!(angle, number(42.0));
    assert_eq!(stops[0].position, 0.1f32.to_bits());
    assert_eq!(stops[1].position, 0.9f32.to_bits());

    switch_mode(&mut draft, 2);
    draft.set_geometry(GeometryField::RadialCenterX, number(0.25));
    draft.set_geometry(GeometryField::RadialCenterY, number(0.75));
    draft.set_geometry(GeometryField::RadialRadius, number(1.2));
    let ThemePaint::RadialGradient {
        center_x,
        center_y,
        radius,
        ..
    } = draft.paint(now(&draft))
    else {
        panic!("expected radial gradient");
    };
    assert_eq!((center_x, center_y), (number(0.25), number(0.75)));
    assert_eq!(radius, number(1.2));
}

#[test]
fn theme_editor_gradient_stop_owns_color_gamut_and_alpha() {
    let mut draft = new_draft(205.0, 0.8, 0.9, 1.0);
    switch_mode(&mut draft, 1);
    switch_space(&mut draft, ThemeColorSpace::DisplayP3);
    draft.picker = picker(0.0, 1.0, 1.0, 0.4);
    select_stop(&mut draft, 1);

    let first = draft.stops[0].color.color();
    assert_eq!(first.space, ThemeColorSpace::DisplayP3);
    assert!((f32::from_bits(first.rgba.a) - 0.4).abs() < f32::EPSILON);
    assert_eq!(first.rgba, rgba(1.0, 0.0, 0.0, 0.4));
    assert_eq!(draft.stops[1].color.color().space, ThemeColorSpace::Srgb);
}

#[test]
fn theme_editor_gradient_stop_hit_testing_selects_nearest() {
    let distances = |positions: &[f32], to: f32| -> Vec<u32> {
        positions.iter().map(|p| (p - to).abs().to_bits()).collect()
    };
    let stops = [0.1f32, 0.8];
    assert_eq!(nearest_gradient_stop(&distances(&stops, 0.2)), Some(0));
    assert_eq!(nearest_gradient_stop(&distances(&stops, 0.7)), Some(1));
    assert_eq!(nearest_gradient_stop(&distances(&[], 0.5)), None);
    assert_eq!(
        nearest_gradient_stop(&distances(&[0.5, 0.5, 0.5], 0.2)),
        Some(0)
    );
}

#[test]
fn theme_editor_dynamic_range_does_not_change_paint_or_luminance_setting() {
    let mut draft = new_draft(205.0, 0.8, 0.9, 1.0);
    draft.set_luminance(number(650.0));
    let source = draft.paint(now(&draft));

    draft.choose_dynamic_range(1);
    assert_eq!(draft.dynamic_range, ThemeDynamicRange::Hdr);
    assert_eq!(draft.paint(now(&draft)), source);
    assert_eq!(draft.hdr_luminance_nits, number(650.0));
    draft.choose_dynamic_range(0);
    assert_eq!(draft.dynamic_range, ThemeDynamicRange::Sdr);
    assert_eq!(draft.paint(now(&draft)), source);
    assert_eq!(draft.hdr_luminance_nits, number(650.0));
}

#[test]
fn theme_editor_paint_intent_wraps_solid_and_gradient_paints() {
    let mut draft = new_draft(205.0, 0.8, 0.9, 1.0);
    draft.dynamic_range = ThemeDynamicRange::Hdr;
    draft.hdr_luminance_nits = number(800.0);
    let solid = draft.paint_intent(now(&draft));
    assert_eq!(solid.dynamic_range, ThemeDynamicRange::Hdr);
    assert_eq!(solid.hdr_luminance_nits, number(800.0));
    assert!(matches!(solid.paint, ThemePaint::Solid { .. }));

    switch_mode(&mut draft, 1);
    let gradient = draft.paint_intent(now(&draft));
    assert_eq!(gradient.dynamic_range, ThemeDynamicRange::Hdr);
    assert_eq!(gradient.hdr_luminance_nits, number(800.0));
    assert!(matches!(gradient.paint, ThemePaint::LinearGradient { .. }));
}

fn document(name: &str, paint: ThemePaint) -> ThemeDocument {
    ThemeDocument {
        name: name.to_string(),
        intent: ThemePaintIntent {
            paint,
            dynamic_range: ThemeDynamicRange::Sdr,
            hdr_luminance_nits: number(1000.0),
        },
        wallpaper: wallpaper(),
        semantic: semantic(),
    }
}

fn polar_light() -> ThemeDocument {
    let mut document = document(
        "Polar Light",
        ThemePaint::LinearGradient {
            angle: number(73.0),
            interpolation: GradientInterpolation {
                space: ThemeColorSpace::DisplayP3,
                premultiplied_alpha: true,
            },
            stops: vec![
                GradientStop {
                    position: 0.0f32.to_bits(),
                    color: color(ThemeColorSpace::DisplayP3, 1.0, 0.2, 0.1, 0.7),
                },
                GradientStop {
                    position: 1.0f32.to_bits(),
                    color: srgb(0.1, 0.3, 0.8, 1.0),
                },
            ],
        },
    );
    document.intent.dynamic_range = ThemeDynamicRange::Hdr;
    document.intent.hdr_luminance_nits = number(750.0);
    document.wallpaper = ThemeWallpaper {
        path: Some("/tmp/polar-light.png".to_string()),
        fit: ThemeWallpaperFit::Tile,
        tint: Some(srgb(0.1, 0.2, 0.3, 0.4)),
        dim: 0.25f32.to_bits(),
    };
    document
}

#[test]
fn theme_editor_document_restores_gradient_hdr_and_gamut_metadata() {
    let document = polar_light();
    let draft = ThemeEditorDraft::from_document(&document, &Ok(())).unwrap();
    assert_eq!(draft.theme_name, "Polar Light");
    assert_eq!(draft.mode, 1);
    assert_eq!(draft.linear_angle, number(73.0));
    assert_eq!(draft.interpolation_space, ThemeColorSpace::DisplayP3);
    assert_eq!(draft.dynamic_range, ThemeDynamicRange::Hdr);
    assert_eq!(draft.hdr_luminance_nits, number(750.0));
    assert_eq!(
        draft.stops[0].color.color().space,
        ThemeColorSpace::DisplayP3
    );
    assert_eq!(draft.stops[1].color.color().space, ThemeColorSpace::Srgb);
    assert_eq!(draft.wallpaper, document.wallpaper);
}

#[test]
fn theme_editor_rejects_documents_it_cannot_edit_losslessly() {
    let document = document(
        "Future gamut",
        ThemePaint::Solid {
            color: color(ThemeColorSpace::Rec2020, 0.5, 0.5, 0.5, 1.0),
        },
    );
    assert!(ThemeEditorDraft::from_document(&document, &Ok(()))
        .unwrap_err()
        .contains("Rec.2020"));
}

#[test]
fn theme_editor_save_path_adds_toml_extension_only_when_missing() {
    assert_eq!(theme_editor_toml_path("aurora"), "aurora.toml");
    assert_eq!(theme_editor_toml_path("aurora.theme"), "aurora.theme");
    assert_eq!(theme_package_path("aurora"), "aurora.fdtheme");
}

fn status() -> ThemeEditorRuntimeStatus {
    ThemeEditorRuntimeStatus {
        preview_active: true,
        applied_revision: 4,
        gradient_rendering: true,
        semantic_rendering: true,
        wallpaper_processing: true,
        layout_metrics: true,
        typography_metrics: true,
        contrast_issue_count: 0,
    }
}

#[test]
fn theme_editor_runtime_status_reports_preview_and_gradient_capability() {
    let status = status();
    assert_eq!(
        theme_editor_runtime_label(status, false),
        "Connected · preview active · 0 contrast issues"
    );
    assert_eq!(
        theme_editor_runtime_label(
            ThemeEditorRuntimeStatus {
                gradient_rendering: false,
                ..status
            },
            true
        ),
        "Connected · gradients preview at their midpoint"
    );
}

#[test]
fn theme_editor_runtime_labels_of_other_compositors() {
    let one = ThemeEditorRuntimeStatus {
        contrast_issue_count: 1,
        ..status()
    };
    assert_eq!(
        theme_editor_runtime_label(one, true),
        "Connected · preview active · 1 contrast issue"
    );
    let applied = ThemeEditorRuntimeStatus {
        preview_active: false,
        ..status()
    };
    assert_eq!(
        theme_editor_runtime_label(applied, true),
        "Connected · applied revision 4"
    );
    let partial = ThemeEditorRuntimeStatus {
        layout_metrics: false,
        ..status()
    };
    assert_eq!(
        theme_editor_runtime_label(partial, true),
        "Connected · compositor has partial semantic renderer support"
    );
    let plain = ThemeEditorRuntimeStatus {
        semantic_rendering: false,
        ..status()
    };
    assert_eq!(
        theme_editor_runtime_label(plain, true),
        "Connected · compositor lacks semantic theme rendering"
    );
}

#[test]
fn theme_documents_are_edited_without_loss() {
    let document = polar_light();
    let mut draft = ThemeEditorDraft::from_document(&document, &Ok(())).unwrap();
    let shown = draft.active_color.color();
    draft.load_picker_color(encoded(shown));
    let again = draft.document(shown.rgba);
    assert_eq!(format!("{again:?}"), format!("{document:?}"));
}

#[test]
fn theme_documents_that_cannot_be_edited_say_why() {
    let interpolation = |space, premultiplied_alpha| GradientInterpolation {
        space,
        premultiplied_alpha,
    };
    let stop = |c: ThemeColor| GradientStop { position: 0, color: c };
    let linear = |angle, i, c| ThemePaint::LinearGradient {
        angle: number(angle),
        interpolation: i,
        stops: vec![stop(srgb(0.0, 0.0, 0.0, 1.0)), stop(c)],
    };
    let radial = |x, radius| ThemePaint::RadialGradient {
        center_x: number(x),
        center_y: number(0.5),
        radius: number(radius),
        interpolation: interpolation(ThemeColorSpace::Srgb, true),
        stops: vec![stop(srgb(0.0, 0.0, 0.0, 1.0))],
    };
    let fault = |paint| {
        ThemeEditorDraft::from_document(&document("x", paint), &Ok(()))
            .err()
            .unwrap_or_default()
    };
    let white = srgb(1.0, 1.0, 1.0, 1.0);
    let fine = interpolation(ThemeColorSpace::Srgb, true);
    assert_eq!(fault(linear(360.0, fine, white)), "");
    assert_eq!(
        fault(linear(361.0, fine, white)),
        "linear gradient angle must be between 0 and 360"
    );
    assert_eq!(
        fault(linear(0.0, interpolation(ThemeColorSpace::Rec2020, true), white)),
        "Rec.2020 interpolation is not editable in Phase 7"
    );
    assert_eq!(
        fault(linear(0.0, interpolation(ThemeColorSpace::Srgb, false), white)),
        "straight-alpha gradient interpolation is not editable in Phase 7"
    );
    assert_eq!(
        fault(linear(0.0, fine, srgb(1.5, 0.0, 0.0, 1.0))),
        "theme color is outside the editable RGB cube"
    );
    assert_eq!(
        fault(linear(0.0, fine, srgb(f32::NAN, 0.0, 0.0, 1.0))),
        "theme color is outside the editable RGB cube"
    );
    assert_eq!(fault(radial(1.0, 2.0)), "");
    assert_eq!(fault(radial(1.0, 0.01)), "");
    assert_eq!(
        fault(radial(1.0, 0.005)),
        "radial gradient geometry is outside editor limits"
    );
    assert_eq!(
        fault(radial(-0.1, 1.0)),
        "radial gradient geometry is outside editor limits"
    );
    let broken = ThemeEditorDraft::from_document(&polar_light(), &Err("no name".to_string()));
    assert_eq!(broken.unwrap_err(), "no name");
}

#[test]
fn colors_remember_both_spaces() {
    let mut c = ThemeEditorColor::new(srgb(0.1, 0.2, 0.3, 1.0));
    let first = c.switch_space(ThemeColorSpace::DisplayP3, rgba(0.4, 0.5, 0.6, 1.0));
    assert_eq!(first, color(ThemeColorSpace::DisplayP3, 0.4, 0.5, 0.6, 1.0));
    let back = c.switch_space(ThemeColorSpace::Srgb, rgba(0.9, 0.9, 0.9, 1.0));
    assert_eq!(back, srgb(0.1, 0.2, 0.3, 1.0));
    c.store(srgb(0.7, 0.7, 0.7, 1.0));
    assert_eq!(c.color(), srgb(0.7, 0.7, 0.7, 1.0));
    let again = c.switch_space(ThemeColorSpace::DisplayP3, rgba(0.0, 0.0, 0.0, 1.0));
    assert_eq!(again, first);
}

#[test]
fn modes_keep_their_colors() {
    let mut draft = new_draft(205.0, 0.8, 0.9, 1.0);
    let before = draft.current_color(now(&draft));
    switch_mode(&mut draft, 2);
    draft.picker = picker(10.0, 0.5, 0.5, 1.0);
    let at = now(&draft);
    let loaded = draft.switch_mode(0, at);
    assert_eq!(loaded, Some(before));
    assert_eq!(draft.switch_mode(0, at), None);
    assert!(draft.switch_mode(9, at).is_some());
    assert_eq!(draft.mode, 2);
}

#[test]
fn removing_undoes_adding() {
    let mut draft = new_draft(205.0, 0.8, 0.9, 1.0);
    switch_mode(&mut draft, 1);
    let at = now(&draft);
    draft.commit_current_color(at);
    let before = draft.stops.clone();
    add_stop(&mut draft);
    assert_ne!(draft.stops, before);
    remove_stop(&mut draft);
    assert_eq!(draft.stops, before);
    duplicate_stop(&mut draft);
    remove_stop(&mut draft);
    assert_eq!(draft.stops, before);
}

#[test]
fn stops_are_kept_within_the_rail() {
    let mut draft = new_draft(205.0, 0.8, 0.9, 1.0);
    switch_mode(&mut draft, 1);
    for (given, kept) in [(-3.0f32, 0.0f32), (0.25, 0.25), (7.0, 1.0)] {
        draft.set_selected_stop_position(given.to_bits());
        assert_eq!(selected_position(&draft), kept);
    }
    let less = 0.2f32.to_bits();
    let more = 0.4f32.to_bits();
    assert_eq!(draft.on_stop_key(EditorKey::Left, less, more), Some(less));
    assert_eq!(draft.on_stop_key(EditorKey::Up, less, more), Some(more));
    assert_eq!(selected_position(&draft), 0.4);
    assert_eq!(
        draft.on_stop_key(EditorKey::End, less, more),
        Some(1.0f32.to_bits())
    );
    assert_eq!(draft.on_stop_key(EditorKey::Home, less, more), Some(0));
    assert_eq!(draft.on_stop_key(EditorKey::Other, less, more), None);
    assert_eq!(selected_position(&draft), 0.0);
}

#[test]
fn keys_move_the_picker() {
    let mut draft = new_draft(205.0, 0.8, 0.9, 1.0);
    assert!(draft.on_picker_key(EditorKey::Home, 1, 2, 3, 4));
    assert_eq!(f64::from_bits(draft.picker.saturation), 0.0);
    assert_eq!(f64::from_bits(draft.picker.value), 1.0);
    assert!(draft.on_picker_key(EditorKey::End, 1, 2, 3, 4));
    assert_eq!(f64::from_bits(draft.picker.saturation), 1.0);
    assert_eq!(f64::from_bits(draft.picker.value), 0.0);
    assert!(draft.on_picker_key(EditorKey::Left, 1, 2, 3, 4));
    assert!(draft.on_picker_key(EditorKey::Up, 1, 2, 3, 4));
    assert_eq!((draft.picker.saturation, draft.picker.value), (1, 4));
    assert!(!draft.on_picker_key(EditorKey::Other, 5, 6, 7, 8));
    assert!(draft.on_hue_key(EditorKey::End, 1, 2));
    assert_eq!(f64::from_bits(draft.picker.hue), 359.999);
    assert!(draft.on_hue_key(EditorKey::Down, 1, 2));
    assert_eq!(draft.picker.hue, 1);
    assert!(!draft.on_hue_key(EditorKey::Other, 3, 4));
}

#[test]
fn new_drafts_hold_these_numbers() {
    let draft = new_draft(205.0, 0.88, 1.0, 1.0);
    assert_eq!(draft.theme_name, "Untitled Theme");
    assert_eq!(draft.linear_angle, number(135.0));
    assert_eq!(draft.radial_center_x, number(0.5));
    assert_eq!(draft.radial_center_y, number(0.5));
    assert_eq!(draft.radial_radius, number(0.75));
    assert_eq!(draft.hdr_luminance_nits, number(1000.0));
    assert_eq!(draft.stops[1].position, 1.0f32.to_bits());
    assert_eq!(
        draft.stops[1].color.color(),
        srgb(0.035, 0.012, 0.180, 1.0)
    );
}

#[test]
fn the_widest_gap_takes_the_new_stop() {
    let mut draft = new_draft(205.0, 0.8, 0.9, 1.0);
    switch_mode(&mut draft, 1);
    draft.set_selected_stop_position(0.5f32.to_bits());
    select_stop(&mut draft, 1);
    draft.set_selected_stop_position(0.75f32.to_bits());
    assert_eq!(
        draft.sorted_positions(),
        vec![0.5f32.to_bits(), 0.75f32.to_bits()]
    );
    add_stop(&mut draft);
    assert_eq!(selected_position(&draft), 0.625);
    let mut even = new_draft(205.0, 0.8, 0.9, 1.0);
    even.add_stop(rgba(0.0, 0.0, 0.0, 1.0), &vec![Gap { width: 5, middle: 7 }, Gap { width: 5, middle: 9 }]);
    assert_eq!(even.stops[2].position, 9);
}

#[test]
fn surfaces_are_changed_one_at_a_time() {
    let mut theme = semantic();
    let red = srgb(1.0, 0.0, 0.0, 1.0);
    assert_eq!(
        color_controls(&theme, 2, 1),
        ColorControls {
            override_sensitive: true,
            override_active: false,
            color_sensitive: false,
        }
    );
    toggle_override(&mut theme, 2, 1, true, red);
    assert_eq!(theme.surfaces.button.hover, Some(red));
    assert_eq!(theme.surfaces.button.pressed, None);
    assert_eq!(theme.surfaces.dock, semantic().surfaces.dock);
    assert!(color_controls(&theme, 2, 1).color_sensitive);
    toggle_override(&mut theme, 2, 1, false, red);
    assert_eq!(theme, semantic());
    toggle_override(&mut theme, 2, 0, true, red);
    assert_eq!(theme, semantic());
    set_state_color(&mut theme, 5, 0, red);
    assert_eq!(theme.surfaces.window_frame.normal, red);
    set_state_color(&mut theme, 9, 6, red);
    assert_eq!(theme.surfaces.bar.disabled, Some(red));
    assert_eq!(
        color_controls(&theme, 0, 0),
        ColorControls {
            override_sensitive: false,
            override_active: true,
            color_sensitive: true,
        }
    );
}

#[test]
fn the_cap_stays_above_the_white() {
    let mut draft = new_draft(205.0, 0.8, 0.9, 1.0);
    draft.set_scale(ScaleField::SdrWhite, 1200.0f32.to_bits(), 0);
    assert_eq!(
        draft.semantic.color_behavior.luminance_cap_nits,
        1200.0f32.to_bits()
    );
    draft.set_scale(ScaleField::LuminanceCap, 500.0f32.to_bits(), 0);
    assert_eq!(
        draft.semantic.color_behavior.luminance_cap_nits,
        1200.0f32.to_bits()
    );
    draft.set_scale(ScaleField::FontWeight, 700.0f32.to_bits(), 700);
    assert_eq!(draft.semantic.typography.font_weight, 700);
    draft.set_scale(ScaleField::Gap, 3.0f32.to_bits(), 3);
    assert_eq!(draft.semantic.layout.gap, 3.0f32.to_bits());
    draft.set_target(ColorTarget::Border, srgb(0.0, 1.0, 0.0, 1.0));
    assert_eq!(
        draft.semantic.edges.border_color,
        srgb(0.0, 1.0, 0.0, 1.0)
    );
}

#[test]
fn wallpapers_bring_their_accent_only_when_asked() {
    let mut draft = new_draft(205.0, 0.8, 0.9, 1.0);
    let accent = srgb(0.5, 0.1, 0.1, 1.0);
    assert_eq!(
        draft.choose_wallpaper(None, Some(accent)),
        "Wallpaper must be a local image"
    );
    assert_eq!(
        draft.choose_wallpaper(Some("/a.png".to_string()), Some(accent)),
        "/a.png"
    );
    assert_eq!(draft.semantic, semantic());
    draft.toggle_automatic_accent(true, Some(accent));
    assert_eq!(draft.semantic.surfaces.active_button.normal, accent);
    draft.clear_wallpaper();
    assert_eq!(draft.controls().wallpaper_text, "No wallpaper selected");
    draft.set_tint(accent);
    assert_eq!(draft.wallpaper.tint, None);
    draft.toggle_tint(true, accent);
    draft.set_tint(srgb(0.0, 0.0, 0.0, 0.5));
    assert_eq!(draft.wallpaper.tint, Some(srgb(0.0, 0.0, 0.0, 0.5)));
    draft.choose_fit(3);
    draft.choose_mapping(2);
    draft.choose_interpolation(1);
    let controls = draft.controls();
    assert_eq!(controls.wallpaper_fit, 3);
    assert_eq!(controls.gamut_mapping, 2);
    assert_eq!(controls.interpolation, 1);
    assert!(controls.tint_active && !controls.gradient_visible);
}

#[test]
fn choosing_a_gamut_tells_the_theme() {
    let mut draft = new_draft(205.0, 0.8, 0.9, 1.0);
    let at = now(&draft);
    let loaded = draft.choose_gamut(1, at, converted(at));
    assert_eq!(
        loaded,
        Some(ThemeColor {
            space: ThemeColorSpace::DisplayP3,
            rgba: converted(at),
        })
    );
    assert_eq!(
        draft.semantic.color_behavior.gamut,
        ThemeColorSpace::DisplayP3
    );
    assert_eq!(draft.choose_gamut(1, at, converted(at)), None);
}

#[test]
fn the_editor_describes_the_draft() {
    let numbers = ShownNumbers {
        hue: "205".to_string(),
        saturation_percent: "80".to_string(),
        value_percent: "90".to_string(),
        luminance_nits: "650".to_string(),
    };
    let mut draft = new_draft(205.0, 0.8, 0.9, 1.0);
    assert_eq!(
        theme_editor_status(&draft, &numbers, true),
        ("Solid  ·  sRGB  ·  SDR  ·  H 205°  S 80%  V 90%".to_string(), false)
    );
    assert_eq!(gradient_stop_accessibility(&draft, "0"), None);
    assert_eq!(preview_range_text(&draft, "650"), "SDR preview");
    switch_mode(&mut draft, 1);
    select_stop(&mut draft, 1);
    switch_space(&mut draft, ThemeColorSpace::DisplayP3);
    draft.choose_dynamic_range(1);
    assert_eq!(
        theme_editor_status(&draft, &numbers, false),
        (
            "Linear · Stop 2/2  ·  Display P3  ·  HDR  ·  650 nits  ·  H 205°  S 80%  V 90%  ●  Outside sRGB gamut"
                .to_string(),
            true
        )
    );
    assert_eq!(
        picker_accessibility(&draft, &numbers, false),
        "Display P3 saturation 80 percent, value 90 percent, outside sRGB gamut"
    );
    assert_eq!(hue_accessibility(&numbers), "205 degrees");
    assert_eq!(
        gradient_stop_accessibility(&draft, "100"),
        Some("Stop 2 of 2, position 100 percent".to_string())
    );
    assert_eq!(
        preview_range_text(&draft, "650"),
        "HDR · 650 nits · SDR-mapped preview"
    );
}

#[test]
fn files_follow_what_is_saved_and_opened() {
    let mut draft = new_draft(205.0, 0.8, 0.9, 1.0);
    let mut files = ThemeFiles::new(draft.document(now(&draft)));
    assert!(!files.is_dirty(&draft.document(now(&draft))));
    assert_eq!(theme_editor_path_label(&files.path, false), "Not saved yet");
    draft.theme_name = "Other".to_string();
    let changed = draft.document(now(&draft));
    assert!(files.is_dirty(&changed));
    assert!(files.may_open(&changed).is_some());
    assert!(files.may_import(&changed).is_some());
    assert_eq!(files.save_target(), None);
    assert_eq!(
        files.on_saved(draft.document(now(&draft)), "/t", &Err("full".to_string())),
        "Save failed: full"
    );
    assert!(files.is_dirty(&changed));
    assert_eq!(
        files.on_saved(draft.document(now(&draft)), "/t", &Ok(())),
        "Theme saved"
    );
    assert_eq!(files.save_target(), Some("/t.toml".to_string()));
    assert!(files.may_open(&changed).is_none());
    assert_eq!(
        theme_editor_path_label(&files.path, true),
        "/t.toml · Unsaved changes"
    );
    assert_eq!(
        files.on_opened(&mut draft, "/u.toml".to_string(), Err("gone".to_string()), &Ok(())),
        "Open failed: gone"
    );
    assert_eq!(draft.theme_name, "Other");
    assert_eq!(
        files.on_imported(
            &mut draft,
            "polar".to_string(),
            "/p/theme.toml".to_string(),
            Ok(polar_light()),
            &Ok(())
        ),
        "Installed: polar"
    );
    assert_eq!(draft.theme_name, "Polar Light");
    assert_eq!(files.uninstall_target(), Some("polar".to_string()));
    draft.theme_name = "Mine".to_string();
    assert_eq!(files.revert(&mut draft, &Ok(())), "Unsaved changes reverted");
    assert_eq!(draft.theme_name, "Polar Light");
    assert_eq!(
        files.revert(&mut draft, &Err("bad".to_string())),
        "Revert failed: bad"
    );
    assert_eq!(
        files.on_uninstalled(&mut draft, &Err("busy".to_string())),
        "Uninstall failed: busy"
    );
    assert_eq!(
        files.on_uninstalled(&mut draft, &Ok(())),
        "Theme uninstalled; editor draft retained"
    );
    assert_eq!(files.path, None);
    assert_eq!(draft.wallpaper.path, None);
    assert_eq!(ThemeFiles::export_message(&Ok(())), "Package exported");
    assert_eq!(
        installed_themes_root(&Some("/d".to_string())),
        "/d/focaldesk/themes"
    );
    assert_eq!(installed_themes_root(&None), "./focaldesk/themes");
}

#[test]
fn previews_come_one_at_a_time() {
    let draft = new_draft(205.0, 0.8, 0.9, 1.0);
    let current = || draft.document(now(&draft));
    let (mut live, first) = LivePreview::new();
    assert!(matches!(first, ThemeEditorIpcJob::Probe));
    assert!(live.on_tick(current()).is_none());
    assert!(matches!(live.on_map(), ThemeEditorIpcJob::Probe));
    let job = live.on_tick(current()).unwrap();
    assert_eq!(job_action(&job), (ThemeEditorIpcAction::Preview, false));
    assert!(live.on_tick(polar_light()).is_none());
    let text = live.on_answer(ThemeEditorIpcAction::Preview, false, Ok(status()));
    assert_eq!(text, "Connected · preview active · 0 contrast issues");
    assert!(live.connected && live.apply_sensitive && live.revert_sensitive);
    assert!(live.on_tick(current()).is_none());
    let job = live.on_tick(polar_light()).unwrap();
    assert_eq!(job_action(&job), (ThemeEditorIpcAction::Preview, true));
    live.on_send_failed();
    assert!(live.on_tick(polar_light()).is_none());
    let (job, text) = live.on_toggle(false, current());
    assert!(matches!(job, Some(ThemeEditorIpcJob::Revert)));
    assert_eq!(text, "Disabling preview…");
    assert!(live.on_tick(polar_light()).is_none());
    let (job, _) = live.on_toggle(true, current());
    assert!(job.is_none());
    assert!(live.on_tick(current()).is_some());
    let (job, text) = live.on_apply(current());
    assert!(matches!(job, ThemeEditorIpcJob::Apply(_)));
    assert_eq!(text, "Applying runtime theme…");
    let (job, text) = live.on_revert(current());
    assert!(matches!(job, ThemeEditorIpcJob::Revert));
    assert_eq!(text, "Reverting preview…");
    assert!(matches!(live.on_unmap(), ThemeEditorIpcJob::Revert));
    assert!(live.on_tick(polar_light()).is_none());
    let text = live.on_answer(ThemeEditorIpcAction::Apply, false, Err("lost".to_string()));
    assert_eq!(text, "Apply failed · lost");
    assert!(!live.apply_sensitive);
    let text = live.on_answer(ThemeEditorIpcAction::Probe, false, Err("lost".to_string()));
    assert_eq!(text, "Disconnected · lost");
}

#[test]
fn replies_of_another_protocol_are_refused() {
    let reply = |protocol_version| ThemeEditorReply::Status {
        protocol_version,
        status: status(),
    };
    assert_eq!(theme_editor_reply(reply(3), 3), Ok(status()));
    assert_eq!(
        theme_editor_reply(reply(2), 3),
        Err("unsupported compositor theme protocol 2; editor requires 3".to_string())
    );
    assert_eq!(
        theme_editor_reply(
            ThemeEditorReply::Error {
                message: "no".to_string()
            },
            3
        ),
        Err("no".to_string())
    );
    assert_eq!(
        theme_editor_reply(
            ThemeEditorReply::Other {
                text: "Ok".to_string()
            },
            3
        ),
        Err("unexpected compositor response: Ok".to_string())
    );
}

#[test]
fn the_edge_of_the_gamut_parts_its_cells() {
    assert!(srgb_gamut_boundary_segments(&vec![true], 1).is_empty());
    assert!(srgb_gamut_boundary_segments(&vec![], 0).is_empty());
    let cells = 3;
    let gamut = vec![true, true, false, true, false, false, false, false, false];
    let segments = srgb_gamut_boundary_segments(&gamut, cells);
    let segment = |x1, y1, x2, y2| Segment { x1, y1, x2, y2 };
    assert_eq!(
        segments,
        vec![
            segment(2, 0, 2, 1),
            segment(1, 1, 2, 1),
            segment(1, 1, 1, 2),
            segment(0, 2, 1, 2),
        ]
    );
    assert!(srgb_gamut_boundary_segments(&vec![false; 16], 4).is_empty());
}

/// Whether a colour of the wide gamut at a place of the picker is also in the
/// narrow one.
fn p3_point_is_in_srgb(hue: f64, saturation: f64, value: f64) -> bool {
    p3_is_in_srgb(hsv_to_rgb(hue, saturation, value).map(srgb_decode))
}

/// Whether linear Display P3 light has its place in the sRGB cube.
fn p3_is_in_srgb([r, g, b]: [f64; 3]) -> bool {
    [
        1.224_940_1 * r - 0.224_940_4 * g,
        -0.042_056_9 * r + 1.042_057_1 * g,
        -0.019_637_6 * r - 0.078_636_1 * g + 1.098_273_5 * b,
    ]
    .iter()
    .all(|channel| (-1.0e-5..=1.0 + 1.0e-5).contains(channel))
}

fn boundary_of(hue: f64, cells: u32) -> Vec<Segment> {
    let mut gamut = Vec::new();
    for y in 0..cells {
        for x in 0..cells {
            let last = f64::from(cells.max(2) - 1);
            let saturation = f64::from(x) / last;
            let value = 1.0 - f64::from(y) / last;
            gamut.push(p3_point_is_in_srgb(hue, saturation, value));
        }
    }
    srgb_gamut_boundary_segments(&gamut, cells)
}

#[test]
fn theme_editor_p3_boundary_tracks_hue_and_stays_normalized() {
    let red_boundary = boundary_of(0.0, 32);
    let green_boundary = boundary_of(120.0, 32);
    assert!(!red_boundary.is_empty());
    assert!(!green_boundary.is_empty());
    assert_ne!(red_boundary, green_boundary);
    assert!(red_boundary
        .iter()
        .flat_map(|s| [s.x1, s.y1, s.x2, s.y2])
        .map(|place| f64::from(place) / 32.0)
        .all(|coordinate| (0.0..=1.0).contains(&coordinate)));
    assert!(boundary_of(0.0, 1).is_empty());
}
