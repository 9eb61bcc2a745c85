use focaldesk::settings::arrangement::{preview_caption, preview_size, repair_appearances, Drag};
use focaldesk::settings::chrome::{
    bar_items, bar_switches, is_visible, order_text, parse_chrome_order, set_chrome_item_visible,
    Bar,
};
use focaldesk::settings::displays::{
    align_hdr_requests_across_capable_outputs, apply_runtime_statuses,
    display_color_profile_index, hdr_appearance_preset, hdr_appearance_preset_index,
    hdr_status_subtitle, output_config_from_display, refresh_label, refresh_options,
    resolution_label, resolution_options, selected_display_color_profile, set_appearance_field,
    set_primary, transform_from_index, transform_index, DisplayColorProfile, DisplayConfig,
    DisplayModeConfig, DisplayRuntimeOutputStatus, ExclusiveHdrPhase, HdrAppearance,
    HdrAppearanceField, Level, HDR_APPEARANCE_CUSTOM_PRESET,
};

use focaldesk::double::narrow;

fn level(value: f32) -> Level {
    Level {
        bits: value.to_bits(),
    }
}

fn neutral() -> HdrAppearance {
    HdrAppearance {
        black_level_nits: level(0.0),
        reference_white_nits: level(203.0),
        peak_nits: level(1000.0),
        full_frame_peak_nits: level(600.0),
        saturation: level(1.0),
        midtone_gamma: level(1.0),
    }
}

fn test_display(name: &str, hdr_requested: bool) -> DisplayConfig {
    DisplayConfig {
        name: name.to_string(),
        enabled: true,
        mode_width: 2560,
        mode_height: 1440,
        refresh_mhz: 120_000,
        available_modes: Vec::new(),
        scale: 1.0f64.to_bits(),
        logical_x: 0,
        logical_y: 0,
        physical_width_mm: None,
        physical_height_mm: None,
        primary: name == "DP-3",
        transform: "Normal".to_string(),
        color_profile: DisplayColorProfile::Auto,
        icc_profile_path: None,
        hdr_supported: true,
        hdr_requested,
        hdr_enabled: false,
        hdr_appearance: neutral(),
        icc_lut_fallback_active: false,
        wide_gamut_active: false,
        exclusive_hdr_phase: ExclusiveHdrPhase::Off,
        exclusive_hdr_reason: None,
    }
}

#[test]
fn hdr_status_distinguishes_request_from_active_output() {
    assert_eq!(hdr_status_subtitle(true, true), "Active now");
    assert_eq!(hdr_status_subtitle(true, false), "Requested, but inactive");
    assert_eq!(hdr_status_subtitle(false, false), "Off");
}

#[test]
fn chrome_order_parser_accepts_empty_and_numeric_lists() {
    assert_eq!(parse_chrome_order(""), Some(vec![]));
    assert_eq!(
        parse_chrome_order("104, 100,101"),
        Some(vec![104, 100, 101])
    );
    assert_eq!(parse_chrome_order("network, 100"), None);
}

#[test]
fn chrome_orders_are_read_back_as_they_are_shown() {
    for order in [vec![], vec![7], vec![104, 100, 101, u32::MAX, 0]] {
        assert_eq!(parse_chrome_order(&order_text(&order)), Some(order));
    }
    assert_eq!(order_text(&vec![104, 100]), "104, 100");
    assert_eq!(parse_chrome_order("4294967296"), None);
}

#[test]
fn chrome_items_are_hidden_and_shown() {
    let mut hidden = vec![3, 5];
    set_chrome_item_visible(&mut hidden, 5, true);
    assert_eq!(hidden, vec![3]);
    set_chrome_item_visible(&mut hidden, 7, false);
    set_chrome_item_visible(&mut hidden, 7, false);
    assert_eq!(hidden, vec![3, 7]);
    assert!(!is_visible(&hidden, 7));
    assert!(is_visible(&hidden, 5));
}

#[test]
fn display_output_config_keeps_hdr_request_and_runtime_state_separate() {
    let display = DisplayConfig {
        name: "DP-1".to_string(),
        enabled: true,
        mode_width: 3840,
        mode_height: 2160,
        refresh_mhz: 60_000,
        available_modes: Vec::new(),
        scale: 1.0f64.to_bits(),
        logical_x: 0,
        logical_y: 0,
        physical_width_mm: None,
        physical_height_mm: None,
        primary: true,
        transform: "Normal".to_string(),
        color_profile: DisplayColorProfile::Auto,
        icc_profile_path: None,
        hdr_supported: true,
        hdr_requested: true,
        hdr_enabled: false,
        hdr_appearance: neutral(),
        icc_lut_fallback_active: false,
        wide_gamut_active: false,
        exclusive_hdr_phase: ExclusiveHdrPhase::Off,
        exclusive_hdr_reason: None,
    };

    let output = output_config_from_display(&display);

    assert!(output.hdr_requested);
    assert!(!output.hdr_enabled);
    assert_eq!(output.hdr_appearance, neutral());
}

#[test]
fn refresh_selector_uses_modes_for_current_resolution() {
    let mut display = test_display("DP-4", true);
    display.available_modes = vec![
        DisplayModeConfig {
            width: 2560,
            height: 1440,
            refresh_mhz: 120_000,
        },
        DisplayModeConfig {
            width: 1920,
            height: 1080,
            refresh_mhz: 60_000,
        },
        DisplayModeConfig {
            width: 2560,
            height: 1440,
            refresh_mhz: 60_000,
        },
    ];
    assert_eq!(refresh_options(&display, 2560, 1440), vec![60_000, 120_000]);
}

#[test]
fn apply_hdr10_requests_every_capable_sibling() {
    let mut displays = vec![test_display("DP-3", false), test_display("DP-4", true)];
    assert!(align_hdr_requests_across_capable_outputs(&mut displays));
    assert!(displays.iter().all(|display| display.hdr_requested));

    let mut already_aligned = vec![test_display("DP-3", true), test_display("DP-4", true)];
    assert!(!align_hdr_requests_across_capable_outputs(
        &mut already_aligned
    ));

    let mut none_requested = vec![test_display("DP-3", false), test_display("DP-4", false)];
    assert!(!align_hdr_requests_across_capable_outputs(
        &mut none_requested
    ));
    assert!(none_requested.iter().all(|display| !display.hdr_requested));
}

#[test]
fn hdr_appearance_presets_are_valid_and_custom_values_are_detected() {
    for selected in 0..HDR_APPEARANCE_CUSTOM_PRESET {
        let appearance = hdr_appearance_preset(selected, neutral()).unwrap();
        assert_eq!(hdr_appearance_preset_index(appearance, neutral()), selected);
    }

    let custom = HdrAppearance {
        reference_white_nits: level(225.0),
        ..neutral()
    };
    assert_eq!(
        hdr_appearance_preset_index(custom, neutral()),
        HDR_APPEARANCE_CUSTOM_PRESET
    );
    assert!(hdr_appearance_preset(HDR_APPEARANCE_CUSTOM_PRESET, neutral()).is_none());
}

#[test]
fn hdr_presets_hold_these_numbers() {
    let bright = hdr_appearance_preset(1, neutral()).unwrap();
    assert_eq!(bright.black_level_nits, level(0.05));
    assert_eq!(bright.reference_white_nits, level(250.0));
    assert_eq!(bright.peak_nits, level(450.0));
    assert_eq!(bright.full_frame_peak_nits, level(300.0));
    assert_eq!(bright.saturation, level(1.0));
    assert_eq!(bright.midtone_gamma, level(0.9));
    let vivid = hdr_appearance_preset(2, neutral()).unwrap();
    assert_eq!(vivid.reference_white_nits, level(203.0));
    assert_eq!(vivid.saturation, level(1.1));
    assert_eq!(vivid.midtone_gamma, level(1.1));
}

#[test]
fn hdr_levels_stay_ordered() {
    let a = set_appearance_field(neutral(), HdrAppearanceField::ReferenceWhite, level(1200.0));
    assert_eq!(a.reference_white_nits, level(1200.0));
    assert_eq!(a.peak_nits, level(1200.0));
    assert_eq!(a.full_frame_peak_nits, level(600.0));
    let b = set_appearance_field(a, HdrAppearanceField::Peak, level(400.0));
    assert_eq!(b.peak_nits, level(400.0));
    assert_eq!(b.reference_white_nits, level(400.0));
    assert_eq!(b.full_frame_peak_nits, level(400.0));
}

#[test]
fn resolutions_are_listed_once() {
    let mut display = test_display("DP-4", false);
    let mode = |width, height, refresh_mhz| DisplayModeConfig {
        width,
        height,
        refresh_mhz,
    };
    display.available_modes = vec![
        mode(1920, 1080, 60_000),
        mode(2560, 1440, 120_000),
        mode(1920, 1080, 75_000),
    ];
    let options = resolution_options(&display);
    assert_eq!(options.len(), 2);
    assert!(options.contains(&(2560, 1440)));
    assert!(options.contains(&(1920, 1080)));
    assert_eq!(resolution_label(1920, 1080), "1920 x 1080");
    assert_eq!(refresh_label(59_940), "59 Hz");
}

#[test]
fn at_most_one_display_is_primary() {
    let mut displays = vec![test_display("DP-3", false), test_display("DP-4", false)];
    set_primary(&mut displays, 1, true);
    assert!(!displays[0].primary);
    assert!(displays[1].primary);
    set_primary(&mut displays, 1, false);
    assert!(!displays[0].primary && !displays[1].primary);
}

#[test]
fn orientations_and_profiles_survive_their_menus() {
    for index in 0..4 {
        assert_eq!(transform_index(transform_from_index(index)), index);
    }
    for index in 0..3 {
        assert_eq!(
            display_color_profile_index(selected_display_color_profile(index)),
            index
        );
    }
}

#[test]
fn reports_of_the_compositor_keep_the_settings() {
    let mut displays = vec![test_display("DP-3", true), test_display("DP-4", false)];
    let statuses = vec![DisplayRuntimeOutputStatus {
        connector: "DP-3".to_string(),
        icc_lut_fallback_active: true,
        wide_gamut_active: true,
        hdr_supported: true,
        hdr_requested: false,
        hdr_active: true,
        exclusive_hdr_phase: ExclusiveHdrPhase::Active,
        exclusive_hdr_reason: Some("because".to_string()),
    }];
    apply_runtime_statuses(&mut displays, &statuses, true);
    assert!(displays[0].hdr_enabled);
    assert!(displays[0].hdr_requested);
    assert!(displays[0].wide_gamut_active);
    assert_eq!(displays[0].exclusive_hdr_phase, ExclusiveHdrPhase::Active);
    assert_eq!(displays[0].mode_width, 2560);
    assert!(!displays[1].hdr_enabled);
}

#[test]
fn displays_are_dragged_and_come_back() {
    let mut displays = vec![test_display("DP-3", false), test_display("DP-4", false)];
    displays[1].logical_x = 100;
    let mut drag = Drag {
        selected: None,
        start_x: 0,
        start_y: 0,
    };
    drag.on_begin(&displays, &vec![false, true]);
    assert_eq!(drag.selected, Some(1));
    drag.on_update(&mut displays, 50, -20);
    assert_eq!((displays[1].logical_x, displays[1].logical_y), (150, -20));
    drag.on_update(&mut displays, 0, 0);
    assert_eq!((displays[1].logical_x, displays[1].logical_y), (100, 0));
    drag.on_end();
    drag.on_update(&mut displays, 50, 50);
    assert_eq!((displays[1].logical_x, displays[1].logical_y), (100, 0));
    drag.on_begin(&displays, &vec![false, false]);
    assert_eq!(drag.selected, None);
}

#[test]
fn the_picture_of_a_display_turns_with_it() {
    let mut display = test_display("DP-3", false);
    assert_eq!(preview_size(&display), (2560, 1440));
    display.transform = "Rotate270".to_string();
    assert_eq!(preview_size(&display), (1440, 2560));
    assert_eq!(preview_caption(&display), "2560×1440 @ 120000Hz");
}

#[test]
fn appearances_that_are_not_valid_become_neutral() {
    let mut displays = vec![test_display("DP-3", false), test_display("DP-4", false)];
    for display in &mut displays {
        display.hdr_appearance.saturation = level(9.0);
    }
    repair_appearances(&mut displays, &vec![true, false], neutral());
    assert_eq!(displays[0].hdr_appearance.saturation, level(9.0));
    assert_eq!(displays[1].hdr_appearance, neutral());
}

#[test]
fn bars_list_their_switches() {
    assert_eq!(bar_items(Bar::Side)[0], ("Settings", 1001));
    assert_eq!(bar_items(Bar::Top).len(), 10);
    let mut hidden = vec![104];
    set_chrome_item_visible(&mut hidden, 101, false);
    let shown: Vec<&str> = bar_switches(Bar::Top, &hidden)
        .into_iter()
        .filter(|(_, _, visible)| *visible)
        .map(|(title, _, _)| title)
        .collect();
    assert_eq!(
        shown,
        [
            "Network",
            "Audio",
            "HDR display status",
            "Camera",
            "Do Not Disturb",
            "Notifications",
            "Microphone",
            "System updates"
        ]
    );
}

#[test]
fn doubles_are_narrowed_to_the_nearest_single() {
    let mut list = vec![
        0.0,
        1.0,
        1.25,
        0.1,
        1.0 + f64::EPSILON,
        16_777_217.0,
        16_777_219.0,
        f64::from(f32::MAX),
        f64::from(f32::MAX) * (1.0 + 1.0e-8),
        f64::from(f32::MAX) * (1.0 + 3.0e-8),
        f64::MAX,
        f64::INFINITY,
        f64::MIN_POSITIVE,
        f64::from(f32::MIN_POSITIVE),
        f64::from(f32::MIN_POSITIVE) * 0.999_999_99,
        f64::from(f32::from_bits(1)),
        f64::from(f32::from_bits(1)) * 0.5,
        f64::from(f32::from_bits(1)) * 0.500_001,
        f64::from(f32::from_bits(1)) * 1.5,
        f64::from(f32::from_bits(1)) * 2.5,
    ];
    let mut seed = 0x9e37_79b9_7f4a_7c15u64;
    for _ in 0..20_000 {
        seed ^= seed << 13;
        seed ^= seed >> 7;
        seed ^= seed << 17;
        let spread = (seed >> 40) % 320;
        list.push(f64::from_bits((seed & 0xf_ffff_ffff_ffff) | ((863 + spread) << 52)));
    }
    for value in list {
        for value in [value, -value] {
            assert_eq!(narrow(value.to_bits()), (value as f32).to_bits(), "{value:e}");
        }
    }
    assert!(f32::from_bits(narrow(f64::NAN.to_bits())).is_nan());
}

#[test]
fn the_compositor_is_told_the_narrowed_scale() {
    let mut display = test_display("DP-1", false);
    display.scale = 1.1f64.to_bits();
    let output = output_config_from_display(&display);
    assert_eq!(output.scale, (1.1f64 as f32).to_bits());
    assert_ne!(u64::from(output.scale), display.scale);
}
