use focaldesk::settings::appearance::{Appearance, Comfort};
use focaldesk::settings::audio::{
    both_failed, get_volume_command, set_volume_command, unreadable_volume,
};
use focaldesk::settings::bluetooth::{
    bluetooth_status, no_devices_title, scanning_after, switch_message, waiting_text,
    BluetoothSnapshot, BluetoothSwitch, DeviceButton, Discovery, RESCAN_SECONDS,
};
use focaldesk::settings::control::{call_error, ControlCommand};
use focaldesk::settings::displays::{
    apply_hdr_message, awaiting_logout, calibration_message, display_icc_profile_label,
    display_key, display_outputs, display_summary, exclusive_button_label,
    exclusive_button_sensitive, exclusive_hdr_status_text, exclusive_phase,
    exclusive_row_subtitle, hdr_calibration_pattern, hdr_switch_active, icc_subtitle,
    manual_logout_reason, on_exclusive_saved, on_logout_awaited, refresh_all_outputs_hdr_control,
    refresh_position, resolution_position, select_color_profile, select_orientation,
    select_refresh, select_resolution, select_scale, set_enabled, set_hdr_request,
    set_icc_profile, toggle_exclusive_hdr, DisplayColorProfile, DisplayConfig, DisplayLayout,
    DisplayModeConfig, DisplayRuntimeOutputStatus, DisplaySwitch, ExclusiveHdrPhase,
    ExclusiveHdrState, HdrAppearance, HdrAppearanceField, HdrCalibrationPattern, HdrTuning, Level,
    StagedDisplays, HDR_APPEARANCE_CUSTOM_PRESET,
};
use focaldesk::settings::network::{
    ethernet_command, ethernet_connected, ethernet_message, ethernet_snapshot,
    ethernet_state_label, ethernet_status, load_ethernet_snapshot, no_networks_title,
    populate_ethernet_list, populate_wifi_list, wifi_connect_message, wifi_radio_command, wifi_radio_message, wifi_security_label,
    wifi_status, WifiSnapshot,
};
use focaldesk::settings::options::{
    browser_launch_backend_index, debug_log_level_index, lid_close_action_index,
    low_battery_action_index, performance_profile_name, power_button_action_index,
    selected_browser_launch_backend, selected_debug_log_level, selected_lid_close_action,
    selected_low_battery_action, selected_power_button_action, LowBatteryAction, PerformanceMode,
    DockVisibility, PowerButtonAction,
};
use focaldesk::settings::printers::{
    entered_install_message, install_message, load_printer_snapshot, printer_command,
    printer_message, printer_status_text, printers_status, refresh_installable_printer_list,
    refresh_printer_list, PrinterButton, PrinterNext, PrinterSnapshot,
};
use focaldesk::settings::privacy::{
    permission_decision_label, permission_resource_label, permission_scope_label, revoke_message,
    saved_permission_subtitle, saved_permission_title, AiPermissionRecord, PermissionDecision,
    PermissionResource, PermissionScope, PermissionTarget,
};

fn words(command: &ControlCommand) -> Vec<String> {
    let mut out = vec![command.program.clone()];
    out.extend(command.args.iter().cloned());
    out
}

fn ok() -> Result<String, String> {
    Ok(String::new())
}

fn failed(text: &str) -> Result<String, String> {
    Err(text.to_string())
}

fn level(value: f32) -> Level {
    Level {
        bits: value.to_bits(),
    }
}

fn neutral() -> HdrAppearance {
    HdrAppearance {
        black_level_nits: level(0.0),
        reference_white_nits: level(203.0),
        peak_nits: level(1000.0),
        full_frame_peak_nits: level(600.0),
        saturation: level(1.0),
        midtone_gamma: level(1.0),
    }
}

fn display(name: &str) -> DisplayConfig {
    DisplayConfig {
        name: name.to_string(),
        enabled: true,
        mode_width: 1920,
        mode_height: 1080,
        refresh_mhz: 60_000,
        available_modes: Vec::new(),
        scale: 1.0f64.to_bits(),
        logical_x: 0,
        logical_y: 0,
        physical_width_mm: None,
        physical_height_mm: None,
        primary: false,
        transform: "Normal".to_string(),
        color_profile: DisplayColorProfile::Auto,
        icc_profile_path: None,
        hdr_supported: true,
        hdr_requested: false,
        hdr_enabled: false,
        hdr_appearance: neutral(),
        icc_lut_fallback_active: false,
        wide_gamut_active: false,
        exclusive_hdr_phase: ExclusiveHdrPhase::Off,
        exclusive_hdr_reason: None,
    }
}

#[test]
fn rows_change_only_their_own_display() {
    let mut all = vec![display("A"), display("B")];
    let modes = vec![
        DisplayModeConfig { width: 800, height: 600, refresh_mhz: 75_000 },
        DisplayModeConfig { width: 800, height: 600, refresh_mhz: 60_000 },
    ];
    select_resolution(&mut all, 1, &modes, (800, 600));
    assert_eq!(
        (all[1].mode_width, all[1].mode_height, all[1].refresh_mhz),
        (800, 600, 60_000)
    );
    select_resolution(&mut all, 1, &modes, (1024, 768));
    assert_eq!(all[1].refresh_mhz, 60_000);
    select_refresh(&mut all, 1, 75_000);
    assert_eq!(all[1].refresh_mhz, 75_000);
    select_orientation(&mut all, 1, 3);
    assert_eq!(all[1].transform, "Rotate270");
    select_scale(&mut all, 1, 1.5f64.to_bits());
    assert_eq!(f64::from_bits(all[1].scale), 1.5);
    set_enabled(&mut all, 1, false);
    assert!(!all[1].enabled);
    select_color_profile(&mut all, 1, 2);
    assert_eq!(all[1].color_profile, DisplayColorProfile::DisplayP3);
    set_icc_profile(&mut all, 1, Some("/usr/share/color/desk.icc".to_string()));
    set_hdr_request(&mut all, 1, true);
    assert!(all[1].hdr_requested);
    assert!(hdr_switch_active(&all[1]));
    assert_eq!(all[0], display("A"));
    set_enabled(&mut all, 2, false);
    select_orientation(&mut all, 9, 1);
    assert_eq!(all[0], display("A"));
    assert_eq!((all[1].transform.as_str(), all[1].enabled), ("Rotate270", false));
    assert_eq!(
        display_summary(&all[1], "1.50"),
        "1024x768 @ 75 Hz  |  Portrait Left  |  desk.icc  |  sRGB advertised  |  Scale 1.50  |  Disabled"
    );
    assert_eq!(
        icc_subtitle(&all[1].icc_profile_path),
        "Selected: desk.icc"
    );
    assert_eq!(icc_subtitle(&None), "No ICC file selected");
    assert_eq!(display_icc_profile_label("/"), "/");
    let outputs = display_outputs(&all);
    assert_eq!(outputs.len(), 2);
    assert_eq!((outputs[1].connector.as_str(), outputs[1].width), ("B", 1024));
}

#[test]
fn menus_stand_at_the_current_mode() {
    let sizes = vec![(800, 600), (1024, 768)];
    assert_eq!(resolution_position(&sizes, (1024, 768)), 1);
    assert_eq!(resolution_position(&sizes, (1, 1)), 0);
    assert_eq!(refresh_position(&vec![60_000, 75_000], 75_000), 1);
    assert_eq!(refresh_position(&vec![], 75_000), 0);
}

#[test]
fn hdr_for_all_counts_the_capable_displays() {
    let mut all = vec![display("A"), display("B")];
    assert_eq!(
        refresh_all_outputs_hdr_control(&all),
        (
            "Turn on HDR output request for one or more displays first".to_string(),
            false
        )
    );
    set_hdr_request(&mut all, 0, true);
    let (text, usable) = refresh_all_outputs_hdr_control(&all);
    assert_eq!(
        text,
        "Apply HDR10 to all 2 capable displays so they share the same encode; mixed HDR10/SDR will not match"
    );
    assert!(usable);
    set_enabled(&mut all, 1, false);
    assert_eq!(
        refresh_all_outputs_hdr_control(&all).0,
        "Apply HDR10 to 1 capable display"
    );
    assert_eq!(
        refresh_all_outputs_hdr_control(&vec![]).0,
        "No active HDR10-capable displays were detected"
    );
    assert_eq!(
        apply_hdr_message(&Err("no socket".to_string())),
        "Could not apply HDR10 through focaldesk-desktop: no socket"
    );
    assert_eq!(
        apply_hdr_message(&Ok(())),
        "HDR10 request sent to focaldesk-desktop; waiting for KMS validation…"
    );
}

#[test]
fn exclusive_hdr_is_asked_for_and_given_up() {
    let off = ExclusiveHdrState {
        phase: ExclusiveHdrPhase::Off,
        connector: None,
        reason: None,
        session_id: None,
    };
    let (asked, message) = toggle_exclusive_hdr(&off, "DP-1");
    assert_eq!(asked.phase, ExclusiveHdrPhase::Requested);
    assert_eq!(asked.connector.as_deref(), Some("DP-1"));
    assert_eq!(
        message,
        "Restarting into guarded exclusive HDR10 verification…"
    );
    assert_eq!(exclusive_phase(&asked, "DP-1"), ExclusiveHdrPhase::Requested);
    assert_eq!(exclusive_phase(&asked, "DP-2"), ExclusiveHdrPhase::Off);
    assert!(!exclusive_button_sensitive(asked.phase));
    assert_eq!(exclusive_button_label(asked.phase, false), "Restarting…");
    assert_eq!(exclusive_button_label(asked.phase, true), "Log Out Manually");
    let active = ExclusiveHdrState {
        phase: ExclusiveHdrPhase::Active,
        connector: Some("DP-1".to_string()),
        reason: None,
        session_id: Some("s".to_string()),
    };
    assert_eq!(exclusive_button_label(active.phase, false), "Disable & Restart");
    assert_eq!(exclusive_row_subtitle(active.phase), Some("Active now"));
    assert_eq!(exclusive_row_subtitle(ExclusiveHdrPhase::Off), None);
    let (given_up, message) = toggle_exclusive_hdr(&active, "DP-1");
    assert_eq!(given_up.phase, ExclusiveHdrPhase::Disabled);
    assert_eq!(given_up.session_id, None);
    assert_eq!(
        message,
        "Normal multi-monitor SDR is armed for the next session"
    );
    assert_eq!(
        toggle_exclusive_hdr(&active, "DP-2").0.phase,
        ExclusiveHdrPhase::Requested
    );
    assert_eq!(
        exclusive_hdr_status_text(ExclusiveHdrPhase::Failed, &None),
        "Previous attempt failed: unknown safety check failure"
    );
    assert_eq!(
        exclusive_hdr_status_text(ExclusiveHdrPhase::Requested, &Some("why".to_string())),
        "why"
    );
    let reaction = on_exclusive_saved("armed", &Ok(()));
    assert_eq!((reaction.subtitle.as_str(), reaction.usable), ("armed", Some(false)));
    let reaction = on_exclusive_saved("armed", &Err("full".to_string()));
    assert_eq!(reaction.subtitle, "Could not arm exclusive HDR10: full");
    let waiting = awaiting_logout(&asked, "busy");
    assert_eq!(waiting.phase, ExclusiveHdrPhase::Requested);
    assert_eq!(waiting.connector, asked.connector);
    assert_eq!(waiting.reason.as_deref(), Some("busy"));
    let reaction = on_logout_awaited("busy", &Ok(()));
    assert_eq!(reaction.label, Some("Log Out Manually"));
    let reaction = on_logout_awaited("busy.", &Err("full".to_string()));
    assert_eq!(
        reaction.subtitle,
        "busy. Could not save restart status: full"
    );
    assert_eq!(
        manual_logout_reason("busy"),
        "HDR10 is armed, but automatic restart was unavailable (busy). Log out once manually to load the updated compositor."
    );
}

#[test]
fn previews_run_out_unless_kept() {
    let mut tuning = HdrTuning::new(neutral(), neutral());
    assert_eq!(tuning.preset, 0);
    tuning.on_scale(HdrAppearanceField::Peak, level(1200.0));
    assert_eq!(tuning.preset, HDR_APPEARANCE_CUSTOM_PRESET);
    let (text, first) = tuning.on_preview(&Ok(()), &Ok(()));
    assert_eq!(text, "Previewing live for 15 seconds; choose Keep to save");
    let first = first.unwrap();
    let second = tuning.on_preview(&Ok(()), &Ok(())).1.unwrap();
    assert!(!tuning.is_current(first));
    assert_eq!(tuning.on_expired(first, &Ok(()), neutral()), None);
    assert_eq!(tuning.draft.peak_nits, level(1200.0));
    assert_eq!(
        tuning.on_expired(second, &Err("gone".to_string()), neutral()).as_deref(),
        Some("Could not restore saved HDR appearance: gone")
    );
    assert_eq!(
        tuning.on_expired(second, &Ok(()), neutral()).as_deref(),
        Some("Preview expired; restored the saved values")
    );
    assert_eq!(tuning.draft, neutral());
    tuning.on_scale(HdrAppearanceField::Saturation, level(1.1));
    let third = tuning.on_preview(&Ok(()), &Ok(())).1.unwrap();
    let draft = tuning.draft;
    assert_eq!(
        tuning.on_keep(&Ok(())),
        ("Saved for this display".to_string(), Some(draft))
    );
    assert_eq!(tuning.on_expired(third, &Ok(()), neutral()), None);
    assert_eq!(tuning.confirmed, draft);
    assert_eq!(
        tuning.on_keep(&Err("bad".to_string())),
        ("Cannot save: bad".to_string(), None)
    );
    assert_eq!(
        tuning.on_preview(&Err("bad".to_string()), &Ok(())),
        ("Not previewed: bad".to_string(), None)
    );
    assert_eq!(
        tuning.on_preview(&Ok(()), &Err("off".to_string())),
        ("Preview unavailable: off".to_string(), None)
    );
    assert!(tuning.on_preset(1, neutral()));
    assert!(!tuning.on_preset(HDR_APPEARANCE_CUSTOM_PRESET, neutral()));
    tuning.on_reset(neutral());
    assert_eq!((tuning.draft, tuning.preset), (neutral(), 0));
}

#[test]
fn calibration_patterns_are_named_by_their_place() {
    assert_eq!(hdr_calibration_pattern(0), HdrCalibrationPattern::Off);
    assert_eq!(
        hdr_calibration_pattern(5),
        HdrCalibrationPattern::PeakFullFrame
    );
    assert_eq!(hdr_calibration_pattern(6), HdrCalibrationPattern::Off);
    assert_eq!(
        calibration_message(HdrCalibrationPattern::Off, &Ok(())),
        "Calibration pattern disabled"
    );
    assert_eq!(
        calibration_message(HdrCalibrationPattern::Overview, &Err("x".to_string())),
        "Calibration unavailable: x"
    );
}

#[test]
fn bar_switches_follow_the_settings() {
    let mut layout = DisplayLayout {
        topbar_on_all_outputs: false,
        sidebar_on_all_outputs: false,
        remember_focused_output: false,
    };
    layout.set(DisplaySwitch::Sidebar, true);
    assert!(layout.sidebar_on_all_outputs);
    let key = display_key(DisplaySwitch::Topbar);
    assert_eq!(key, "displays.topbar_on_all_outputs");
    assert_eq!(
        layout.on_event(key, Some(true)),
        Some((DisplaySwitch::Topbar, true))
    );
    assert!(layout.topbar_on_all_outputs);
    assert_eq!(layout.on_event("displays.unknown", Some(true)), None);
    assert_eq!(layout.on_event(key, None), None);
}

#[test]
fn the_network_panel_speaks_of_its_state() {
    assert!(populate_wifi_list(&WifiSnapshot {
        enabled: true,
        networks: Vec::new(),
        error: None,
    })
    .is_empty());
    assert_eq!(wifi_security_label(" "), "Open network");
    assert_eq!(wifi_security_label("--"), "Open network");
    assert_eq!(wifi_security_label("WPA2"), "Secured network");
    let snapshot = |enabled: bool, error: Option<&str>| WifiSnapshot {
        enabled,
        networks: Vec::new(),
        error: error.map(|e| e.to_string()),
    };
    assert_eq!(wifi_status(&snapshot(true, None)).text, "Wi-Fi is enabled");
    assert_eq!(wifi_status(&snapshot(false, None)).text, "Wi-Fi is disabled");
    let down = wifi_status(&snapshot(true, Some("no nmcli")));
    assert_eq!(down.text, "Wi-Fi service unavailable");
    assert!(down.unavailable);
    assert_eq!(down.details.as_deref(), Some("no nmcli"));
    assert_eq!(no_networks_title(true), "No Wi-Fi networks found");
    assert_eq!(no_networks_title(false), "Turn on Wi-Fi to scan for networks");
    assert_eq!(words(&wifi_radio_command(true)), ["nmcli", "radio", "wifi", "on"]);
    assert_eq!(words(&wifi_radio_command(false)), ["nmcli", "radio", "wifi", "off"]);
    assert_eq!(wifi_radio_message(false, &ok()), "Wi-Fi disabled");
    assert_eq!(wifi_radio_message(true, &failed("no radio")), "no radio");
    assert_eq!(wifi_connect_message("home", &ok()), "Connected to home");
}

#[test]
fn wired_devices_can_be_connected_and_disconnected() {
    assert_eq!(
        words(&load_ethernet_snapshot()),
        ["nmcli", "-t", "-f", "DEVICE,TYPE,STATE,CONNECTION", "device", "status"]
    );
    let snapshot = ethernet_snapshot(Ok(
        "eth0:ethernet:connected:Wired 1\neth1:ethernet:disconnected:--\nwlan0:wifi:connected:home\n"
            .to_string(),
    ));
    assert_eq!(snapshot.devices.len(), 2);
    assert_eq!(
        ethernet_status(&snapshot).text,
        "Ethernet devices are managed by NetworkManager"
    );
    let (first, second) = (&snapshot.devices[0], &snapshot.devices[1]);
    assert!(ethernet_connected(first) && !ethernet_connected(second));
    assert_eq!(ethernet_state_label(first), "connected | Wired 1");
    assert_eq!(
        ethernet_state_label(second),
        "disconnected | No active connection"
    );
    assert_eq!(
        words(&ethernet_command(first)),
        ["nmcli", "device", "disconnect", "eth0"]
    );
    assert_eq!(
        words(&ethernet_command(second)),
        ["nmcli", "device", "connect", "eth1"]
    );
    assert_eq!(ethernet_message(first, &ok()), "Disconnected eth0");
    assert_eq!(ethernet_message(second, &failed("busy")), "busy");
    let down = ethernet_snapshot(failed("no nmcli"));
    assert!(down.devices.is_empty());
    let rows = populate_ethernet_list(&snapshot);
    assert_eq!(rows.len(), 2);
    assert_eq!(rows[0].title, "eth0");
    assert!(rows[0].connected && !rows[1].connected);
    let rows = populate_ethernet_list(&down);
    assert_eq!(rows.len(), 1);
    assert_eq!(
        rows[0].subtitle,
        "Plug in a wired adapter or enable one in NetworkManager"
    );
    assert_eq!(ethernet_status(&down).text, "Network service unavailable");
    assert_eq!(
        ethernet_status(&ethernet_snapshot(ok())).text,
        "No Ethernet devices found"
    );
}

fn printers(answers: [Result<String, String>; 6]) -> (PrinterSnapshot, Vec<Vec<String>>) {
    let mut load = load_printer_snapshot();
    let mut asked = Vec::new();
    for answer in answers {
        asked.push(words(&load.question().0));
        match load.answer(answer) {
            PrinterNext::Ask { load: next } => load = next,
            PrinterNext::Snapshot { snapshot } => return (snapshot, asked),
        }
    }
    panic!("the questions do not end");
}

#[test]
fn printers_are_asked_for_in_six_steps() {
    let (snapshot, asked) = printers([
        Ok("scheduler is running".to_string()),
        Ok("device for Office: ipp://office/print".to_string()),
        Ok("network ipp://cellar.local/print".to_string()),
        Ok("printer Office is idle.  enabled since today".to_string()),
        Ok("Office accepting requests since today".to_string()),
        Ok("system default destination: Office".to_string()),
    ]);
    assert_eq!(
        asked,
        [
            ["lpstat", "-r"],
            ["lpstat", "-v"],
            ["lpinfo", "-v"],
            ["lpstat", "-p"],
            ["lpstat", "-a"],
            ["lpstat", "-d"]
        ]
    );
    assert!(snapshot.scheduler_running);
    assert_eq!(snapshot.error, None);
    assert_eq!(printers_status(&snapshot), "Printers are managed by CUPS");
    let office = &snapshot.printers[0];
    assert_eq!(office.name, "Office");
    assert!(office.is_default && office.enabled);
    assert_eq!(office.device_uri.as_deref(), Some("ipp://office/print"));
    assert_eq!(snapshot.installable_printers[0].uri, "ipp://cellar.local/print");
    assert_eq!(
        words(&printer_command(office, PrinterButton::SetDefault)),
        ["lpadmin", "-d", "Office"]
    );
    assert_eq!(
        words(&printer_command(office, PrinterButton::Toggle)),
        ["cupsdisable", "Office"]
    );
    assert_eq!(
        printer_message(office, PrinterButton::SetDefault, &ok()),
        "Office set as default printer"
    );
    assert_eq!(
        printer_message(office, PrinterButton::Toggle, &ok()),
        "cupsdisable sent to Office"
    );
    let row = &refresh_printer_list(&snapshot)[0];
    assert_eq!(row.title, "Office");
    assert_eq!((row.set_default, row.toggle), (None, Some("Disable")));
    assert_eq!(
        refresh_installable_printer_list(&snapshot)[0].1,
        "network | ipp://cellar.local/print"
    );
    assert!(printer_status_text(office).starts_with("Enabled | "));
    assert!(printer_status_text(office).ends_with(" | idle | ipp://office/print | Default"));
    assert_eq!(entered_install_message(" New ", &ok()), "New installed");
    assert_eq!(
        install_message("New", &ok()),
        "New installed with IPP Everywhere"
    );
    assert_eq!(install_message("New", &failed("denied")), "denied");
}

#[test]
fn a_silent_scheduler_ends_the_search_for_printers() {
    let mut load = load_printer_snapshot();
    let mut steps = 0;
    let snapshot = loop {
        steps += 1;
        match load.answer(failed("lpstat: not found")) {
            PrinterNext::Ask { load: next } => load = next,
            PrinterNext::Snapshot { snapshot } => break snapshot,
        }
    };
    assert!(steps <= 6);
    assert_eq!(snapshot.error.as_deref(), Some("lpstat: not found"));
    assert!(snapshot.printers.is_empty());
    assert_eq!(refresh_printer_list(&snapshot)[0].title, "No Printers Found");
    assert_eq!(
        refresh_installable_printer_list(&snapshot)[0].0,
        "No Installable Printers Found"
    );
}

#[test]
fn the_bluetooth_panel_speaks_of_its_state() {
    let snapshot = |powered, scanning| BluetoothSnapshot {
        powered,
        scanning,
        devices: Vec::new(),
        error: None,
    };
    assert_eq!(
        bluetooth_status(&snapshot(false, true)).text,
        "Bluetooth is powered off"
    );
    assert_eq!(
        bluetooth_status(&snapshot(true, true)).text,
        "Bluetooth is scanning"
    );
    assert_eq!(
        bluetooth_status(&snapshot(true, false)).text,
        "Bluetooth is powered on"
    );
    assert_eq!(no_devices_title(true), "No Bluetooth devices found");
    assert_eq!(no_devices_title(false), "Turn on Bluetooth to manage devices");
    assert_eq!(waiting_text(DeviceButton::Remove), None);
    assert_eq!(
        waiting_text(DeviceButton::Connect),
        Some("Connecting Bluetooth device…")
    );
    assert_eq!(
        switch_message(BluetoothSwitch::Scan, true, &ok()),
        "Bluetooth scan enabled"
    );
    assert_eq!(
        switch_message(BluetoothSwitch::Power, false, &failed("no adapter")),
        "no adapter"
    );
    assert!(scanning_after(true, false, &failed("no adapter")));
    assert!(!scanning_after(true, false, &ok()));
}

#[test]
fn menus_of_options_show_their_choice() {
    for index in 0..4 {
        assert_eq!(
            power_button_action_index(selected_power_button_action(index)),
            index
        );
        assert_eq!(lid_close_action_index(selected_lid_close_action(index)), index);
        assert_eq!(
            low_battery_action_index(selected_low_battery_action(index)),
            index
        );
    }
    for index in 0..3 {
        assert_eq!(
            browser_launch_backend_index(selected_browser_launch_backend(index)),
            index
        );
    }
    for index in 0..5 {
        assert_eq!(debug_log_level_index(selected_debug_log_level(index)), index);
    }
    assert_eq!(
        selected_power_button_action(1),
        PowerButtonAction::Suspend
    );
    assert_eq!(selected_low_battery_action(2), LowBatteryAction::Hibernate);
    assert_eq!(
        performance_profile_name(PerformanceMode::PowerSaver),
        "power-saver"
    );
}

#[test]
fn saved_decisions_are_worded() {
    let record = AiPermissionRecord {
        app_identity: "org.example.App".to_string(),
        resource: PermissionResource::ScreenShareOutput,
        target: PermissionTarget::Named("DP-1".to_string()),
        scope: PermissionScope::Persistent,
        decision: PermissionDecision::Deny,
    };
    assert_eq!(saved_permission_title(&record), "Output share — Denied");
    assert_eq!(
        saved_permission_subtitle(&record),
        "org.example.App • DP-1 • Persistent"
    );
    assert_eq!(permission_decision_label(PermissionDecision::Ask), "Ask");
    assert_eq!(permission_scope_label(PermissionScope::Once), "Once");
    assert_eq!(
        permission_resource_label(PermissionResource::FileSave),
        "File save"
    );
    assert_ne!(revoke_message(true, true), revoke_message(true, false));
}

#[test]
fn volumes_are_set_by_two_programs() {
    assert_eq!(
        words(&get_volume_command(false)),
        ["wpctl", "get-volume", "@DEFAULT_AUDIO_SINK@"]
    );
    assert_eq!(
        words(&set_volume_command(true, "40%")),
        ["pactl", "set-sink-volume", "@DEFAULT_SINK@", "40%"]
    );
    assert_eq!(both_failed("a", "b"), "a; b");
    assert_eq!(
        unreadable_volume(true),
        "pactl returned an unreadable volume"
    );
    assert_eq!(call_error("wpctl", "not found"), "wpctl: not found");
}

fn report(name: &str, supported: bool, requested: bool) -> DisplayRuntimeOutputStatus {
    DisplayRuntimeOutputStatus {
        connector: name.to_string(),
        icc_lut_fallback_active: false,
        wide_gamut_active: false,
        hdr_supported: supported,
        hdr_requested: requested,
        hdr_active: false,
        exclusive_hdr_phase: ExclusiveHdrPhase::Off,
        exclusive_hdr_reason: None,
    }
}

#[test]
fn a_staged_request_survives_reports_until_it_is_sent() {
    let statuses = vec![report("A", true, false), report("B", true, false)];
    let mut staged = StagedDisplays::new(vec![display("A"), display("B")], &statuses);
    assert!(!staged.dirty);
    staged.on_switch(0, true, true);
    assert!(!staged.dirty && !staged.displays[0].hdr_requested);
    staged.on_switch(0, true, false);
    assert!(staged.dirty && staged.displays[0].hdr_requested);
    staged.on_report(&statuses);
    staged.on_report(&Vec::new());
    assert!(staged.dirty && staged.displays[0].hdr_requested);

    let told = staged.on_apply();
    assert!(told.iter().all(|output| output.hdr_requested));
    assert!(staged.displays[1].hdr_requested);
    assert_eq!(
        staged.on_applied(&Err("refused".to_string())),
        "Could not apply HDR10 through focaldesk-desktop: refused"
    );
    staged.on_report(&statuses);
    assert!(staged.dirty && staged.displays[0].hdr_requested);
    assert!(staged.on_applied(&Ok(())).starts_with("HDR10 request sent"));
    assert!(!staged.dirty);
    staged.on_report(&statuses);
    assert!(!staged.displays[0].hdr_requested);
}

#[test]
fn a_kept_appearance_is_stored_with_its_display() {
    let mut all = vec![display("A"), display("B")];
    let mut tuning = HdrTuning::new(neutral(), neutral());
    tuning.on_scale(HdrAppearanceField::Saturation, level(1.2));
    let refused = tuning.keep_for(&Err("too bright".to_string()), &mut all, 1);
    assert_eq!(refused, "Cannot save: too bright");
    assert_eq!(all[1], display("B"));
    assert_eq!(tuning.keep_for(&Ok(()), &mut all, 1), "Saved for this display");
    assert_eq!(all[1].hdr_appearance.saturation, level(1.2));
    assert_eq!(tuning.confirmed, tuning.draft);
    assert_eq!(all[0], display("A"));
    assert_eq!(tuning.keep_for(&Ok(()), &mut all, 7), "Saved for this display");
    assert_eq!(all.len(), 2);
}

#[test]
fn reduced_motion_is_the_absence_of_animations() {
    let mut comfort = Comfort { high_contrast: false, animations: true };
    assert!(!comfort.reduces_motion());
    comfort.set_reduced_motion(true);
    assert!(comfort.reduces_motion() && !comfort.animations);
    comfort.set_high_contrast(true);
    assert_eq!(comfort, Comfort { high_contrast: true, animations: false });
}

#[test]
fn the_appearance_is_reset_to_the_defaults() {
    let look = |theme: &str, chrome| Appearance {
        shader_chrome: chrome,
        work_area_glass: chrome,
        output_focus_glow: chrome,
        theme: theme.to_string(),
        glow_strength: 0.5f64.to_bits(),
        font_scale: 1.0f64.to_bits(),
        dock: DockVisibility::AlwaysVisible,
    };
    let mut appearance = look("Eagle", false);
    appearance.reset_to_defaults(look("Default", true));
    assert_eq!(appearance.theme, "Default");
    assert!(appearance.shader_chrome && appearance.work_area_glass);
}

#[test]
fn the_list_is_read_anew_while_devices_are_searched_for() {
    assert_eq!(RESCAN_SECONDS, 2);
    let mut discovery = Discovery::new();
    assert!(!discovery.on_tick());
    discovery.on_switch(true, &failed("no adapter"));
    assert!(!discovery.on_tick());
    discovery.on_switch(true, &ok());
    assert!(discovery.on_tick());
    discovery.on_snapshot(&BluetoothSnapshot {
        powered: true,
        scanning: false,
        devices: Vec::new(),
        error: None,
    });
    assert!(!discovery.on_tick());
}
