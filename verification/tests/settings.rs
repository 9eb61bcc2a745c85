use focaldesk::settings::appearance::{
    initial_theme_index, theme_at, theme_index, Appearance, AppearanceChange, ControlUpdate,
    SettingValue,
};
use focaldesk::settings::audio::{
    load_audio_devices, normalize_audio_label, pactl_percents, parse_pactl_default_device,
    parse_pactl_devices, parse_pactl_short_devices, parse_wpctl_devices,
    set_default_audio_device, AudioDeviceKind, AudioNext,
};
use focaldesk::settings::bluetooth::{
    on_task_end, populate_bluetooth_list, BluetoothDevice, BluetoothSnapshot, DeviceButton,
    TaskEnd,
};
use focaldesk::settings::control::{
    command, command_outcome, outcome_message, timeout_error, ControlCommand,
};
use focaldesk::settings::desktop::{desktop_outcome, DesktopReply, DesktopRequest};
use focaldesk::settings::keyboard::{
    editable_keybindings, reset_shortcuts, set_shortcut, shortcut,
};
use focaldesk::settings::network::{
    load_wifi_snapshot, parse_ethernet_devices, parse_wifi_networks, split_nmcli_line,
    wifi_connect, wifi_row, WifiNext,
};
use focaldesk::settings::options::{
    dock_visibility_from_index, dock_visibility_index, option_at, option_index,
    performance_mode_index, power_timeout_values, retention_index, retention_limit,
    selected_performance_mode, suspend_timeout_values, DockVisibility,
};
use focaldesk::settings::panels::{initial_panel, panel_names, requested_panel};
use focaldesk::settings::power::{power_status_text, run_power_action, Battery, PowerReply, PowerSnapshot};
use focaldesk::settings::printers::{
    apply_accepting_jobs, install_printer, parse_default_printer, parse_installable_printers,
    parse_printer_devices, parse_printer_states, sanitize_printer_name, suggested_printer_name,
    valid_printer_name,
};
use focaldesk::settings::privacy::{
    permission_target_label, populate_saved_permissions, AiPermissionRecord, PermissionDecision,
    PermissionResource, PermissionScope, PermissionTarget,
};
use focaldesk::settings::location_permissions::{LocationAccuracy, LocationPermissionRecord};
use focaldesk::settings::session::{
    copy_message, diagnostics_text, displays_path, existing_focaldesk_log_path,
    focaldesk_config_path, focaldesk_log_candidates, open_log_message, session_type_label,
    Diagnostics,
};
use focaldesk::settings::sound::{choose_device, device_message, device_row, DeviceRow};

fn some(text: &str) -> Option<String> {
    Some(text.to_string())
}

fn words(command: &ControlCommand) -> Vec<String> {
    let mut out = vec![command.program.clone()];
    out.extend(command.args.iter().cloned());
    out
}

const PACTL: &str = "Sink #1
\tState: RUNNING
\tName: alsa_output.usb
\tDescription: USB Audio
\tPorts:
\t\tanalog-output: Headphones (type: Headphones, priority: 100)
\tActive Port: analog-output
Sink #2
\tState: SUSPENDED
\tName: alsa_output.pci
\tDescription: Built-in Audio
";

#[test]
fn pactl_lists_become_choices() {
    let devices = parse_pactl_devices(PACTL, AudioDeviceKind::Sink, &some("alsa_output.pci"));
    let selectors: Vec<&str> = devices.iter().map(|d| d.selector.as_str()).collect();
    assert_eq!(selectors.len(), 2);
    assert_eq!(selectors[0], "alsa_output.pci");
    assert_eq!(selectors[1], "alsa_output.usb");
    assert!(devices[1].label.contains("Headphones") || devices[1].label.contains("USB Audio"));
    assert_eq!(
        parse_pactl_default_device("Default Sink: x\nDefault Source: y\n", AudioDeviceKind::Source),
        some("y")
    );
    let short = parse_pactl_short_devices(
        "1\talsa_output.a\tm\n2\talsa_output.b\tm\n",
        AudioDeviceKind::Sink,
        &some("alsa_output.b"),
    );
    assert_eq!(short[0].selector, "alsa_output.b");
    assert_eq!(short.len(), 2);
}

#[test]
fn monitors_are_no_sources() {
    let devices = parse_pactl_short_devices(
        "1\talsa_output.a.monitor\tm\n2\talsa_input.b\tm\n",
        AudioDeviceKind::Source,
        &None,
    );
    assert_eq!(devices.len(), 1);
    assert_eq!(devices[0].selector, "alsa_input.b");
}

#[test]
fn wpctl_lists_become_choices() {
    let output = "Audio
  Devices:
      40. Card

  Sinks:
      51. Headset [vol: 1.00]
  *   50. Speakers [vol: 0.40]

  Sources:
      60. Microphone [vol: 1.00]
";
    let sinks = parse_wpctl_devices(output, AudioDeviceKind::Sink);
    assert_eq!(sinks.len(), 2);
    assert_eq!(sinks[0].selector, "wpctl:50");
    assert_eq!(sinks[0].label, "Speakers");
    let sources = parse_wpctl_devices(output, AudioDeviceKind::Source);
    assert_eq!(sources[0].selector, "wpctl:60");
    assert_eq!(
        words(&set_default_audio_device(AudioDeviceKind::Sink, "wpctl:50")),
        vec!["wpctl", "set-default", "50"]
    );
    assert_eq!(
        words(&set_default_audio_device(AudioDeviceKind::Source, "mic")),
        vec!["pactl", "set-default-source", "mic"]
    );
}

#[test]
fn labels_are_words() {
    assert_eq!(
        normalize_audio_label(" \"alsa_output.usb_Card.analog\" "),
        "usb Card analog"
    );
    assert_eq!(
        pactl_percents("Volume: front-left: 26214 /  40% / -23 dB"),
        vec!["40"]
    );
}

#[test]
fn audio_devices_are_looked_for_program_by_program() {
    let load = load_audio_devices(AudioDeviceKind::Sink);
    assert_eq!(load.question().program, "pactl");
    let AudioNext::Ask { load } = load.answer(Err("pactl: gone".to_string())) else {
        panic!("expected another question");
    };
    assert_eq!(load.question().program, "wpctl");
    let AudioNext::Failed { error } = load.answer(Err("wpctl: gone".to_string())) else {
        panic!("expected a failure");
    };
    assert!(error.contains("pactl: gone") && error.contains("wpctl: gone"));
}

#[test]
fn sound_rows_offer_what_was_found() {
    let none = device_row(AudioDeviceKind::Sink, &Ok(Vec::new()));
    assert!(matches!(none, DeviceRow::Text { text, .. } if text == "No Output Devices"));
    let lost = device_row(AudioDeviceKind::Source, &Err("gone".to_string()));
    assert!(matches!(
        lost,
        DeviceRow::Text { text, subtitle } if text == "Input Detection Unavailable" && subtitle == "gone"
    ));
    let devices = parse_pactl_devices(PACTL, AudioDeviceKind::Sink, &None);
    assert_eq!(
        words(&choose_device(AudioDeviceKind::Sink, &devices, 1).unwrap()),
        vec!["pactl", "set-default-sink", devices[1].selector.as_str()]
    );
    assert!(choose_device(AudioDeviceKind::Sink, &devices, 2).is_none());
    let row = device_row(AudioDeviceKind::Sink, &Ok(devices));
    assert!(matches!(row, DeviceRow::Menu { labels } if labels.len() == 2));
    assert_eq!(
        device_message(AudioDeviceKind::Sink, &Ok(())),
        "Default output changed"
    );
    assert_eq!(
        device_message(AudioDeviceKind::Source, &Err("no".to_string())),
        "Could not change input: no"
    );
}

#[test]
fn commands_report_what_they_said() {
    assert_eq!(
        words(&command("nmcli").arg("radio").arg("wifi")),
        vec!["nmcli", "radio", "wifi"]
    );
    assert_eq!(
        command_outcome("p", true, " out \n", ""),
        Ok("out".to_string())
    );
    assert_eq!(
        command_outcome("p", false, "out", " err "),
        Err("p: err".to_string())
    );
    assert_eq!(
        command_outcome("p", false, "out", "  "),
        Err("p: out".to_string())
    );
    assert_eq!(timeout_error("p", 5), "p: command timed out after 5s");
    assert_eq!(outcome_message(&Err("bad".to_string()), "done"), "bad");
}

#[test]
fn escaped_fields_are_split() {
    assert_eq!(split_nmcli_line("a:b\\:c::d\\\\"), vec!["a", "b:c", "", "d\\"]);
    assert_eq!(split_nmcli_line(""), vec![""]);
}

#[test]
fn networks_are_listed_once_and_the_active_one_first() {
    let networks = parse_wifi_networks(
        " :home:WPA2:40\n*:caf\u{e9}:WPA2:30\n :home:WPA2:70\n :::10\n :open::90\n",
    );
    let names: Vec<&str> = networks.iter().map(|n| n.ssid.as_str()).collect();
    assert_eq!(names[0], "caf\u{e9}");
    assert!(networks[0].active);
    assert_eq!(names.iter().filter(|n| **n == "home").count(), 1);
    let home = networks.iter().find(|n| n.ssid == "home").unwrap();
    assert_eq!(home.signal, 70);
    let open = networks.iter().find(|n| n.ssid == "open").unwrap();
    assert!(!wifi_row(open).asks_password);
    assert!(wifi_row(home).asks_password);
    assert!(words(&wifi_connect("home", true, "secret")).contains(&"secret".to_string()));
    assert!(!words(&wifi_connect("open", false, "secret")).contains(&"secret".to_string()));
    let (first, seconds) = load_wifi_snapshot().question();
    assert_eq!(first.program, "nmcli");
    assert!(seconds > 0);
    assert!(matches!(
        load_wifi_snapshot().answer(Err("no nmcli".to_string())),
        WifiNext::Snapshot { .. } | WifiNext::Ask { .. }
    ));
}

#[test]
fn only_wired_devices_are_listed() {
    let devices = parse_ethernet_devices(
        "wlan0:wifi:connected:home\neth1:ethernet:disconnected:\neth0:ethernet:connected:Wired\n",
    );
    assert_eq!(devices.len(), 2);
    assert!(devices.iter().all(|d| d.device.starts_with("eth")));
    let eth0 = devices.iter().find(|d| d.device == "eth0").unwrap();
    assert_eq!(eth0.connection, some("Wired"));
}

#[test]
fn printer_names_are_made_valid() {
    for name in ["My Printer!", "  a/b#c  ", "", "---", "caf\u{e9}", &"x".repeat(300)] {
        assert!(valid_printer_name(&sanitize_printer_name(name)), "{name}");
        assert!(valid_printer_name(&suggested_printer_name(name)));
    }
    assert!(!valid_printer_name("a b"));
    assert!(!valid_printer_name(""));
    assert!(install_printer("a b", "ipp://x", "everywhere").is_err());
    let command = install_printer("desk", "ipp://x", "everywhere").unwrap();
    assert_eq!(command.program, "lpadmin");
    assert!(command.args.contains(&"ipp://x".to_string()));
}

#[test]
fn printers_are_read_from_cups() {
    assert_eq!(
        parse_default_printer("system default destination: desk\n"),
        some("desk")
    );
    assert_eq!(parse_default_printer("no system default destination\n"), None);
    let devices = parse_printer_devices("device for desk: ipp://desk/ipp\n");
    assert_eq!(
        devices,
        vec![("desk".to_string(), "ipp://desk/ipp".to_string())]
    );
    let mut printers = parse_printer_states(
        "printer desk is idle.  enabled since Mon\nprinter old disabled since Mon -\n",
        &devices,
    );
    assert_eq!(printers.len(), 2);
    let desk = printers.iter().find(|p| p.name == "desk").unwrap();
    assert!(desk.enabled);
    assert_eq!(desk.device_uri, some("ipp://desk/ipp"));
    apply_accepting_jobs(&mut printers, "printer desk accepting requests since Mon\nprinter old rejecting since Mon -\n");
    assert!(printers.iter().find(|p| p.name == "desk").unwrap().accepting_jobs);
    assert!(!printers.iter().find(|p| p.name == "old").unwrap().accepting_jobs);
    let found = parse_installable_printers(
        "network ipp://desk/ipp\nnetwork ipp://other/ipp\nnetwork ipp\n",
        &devices,
    );
    assert!(found.iter().all(|p| p.uri != "ipp://desk/ipp"));
    assert!(found.iter().any(|p| p.uri == "ipp://other/ipp"));
}

#[test]
fn bluetooth_buttons_fit_the_device() {
    let device = |paired, connected| BluetoothDevice {
        name: "Mouse".to_string(),
        address: "AA:BB".to_string(),
        connected,
        paired,
    };
    let snapshot = BluetoothSnapshot {
        powered: true,
        scanning: false,
        devices: vec![device(false, false), device(true, false), device(true, true)],
        error: None,
    };
    let rows = populate_bluetooth_list(&snapshot);
    assert_eq!(rows.len(), 3);
    assert!(rows[0].buttons.contains(&DeviceButton::Pair));
    assert!(rows[1].buttons.contains(&DeviceButton::Connect));
    assert!(rows[2].buttons.contains(&DeviceButton::Disconnect));
    let lost = on_task_end(DeviceButton::Pair, "AA:BB", &TaskEnd::Vanished);
    assert_eq!(lost.text, "Bluetooth pairing task stopped unexpectedly");
}

#[test]
fn menus_keep_their_choice() {
    for index in 0..3 {
        assert_eq!(
            performance_mode_index(selected_performance_mode(index)),
            index
        );
        assert_eq!(
            dock_visibility_index(dock_visibility_from_index(index)),
            index
        );
    }
    for values in [power_timeout_values(), suspend_timeout_values()] {
        for index in 0..values.len() as u32 {
            assert_eq!(option_index(&values, option_at(&values, index)), index);
        }
        assert_eq!(option_index(&values, Some(987_654)), 0);
    }
    for index in 0..4 {
        let limit = retention_limit(index);
        assert_eq!(retention_limit(retention_index(limit)), limit);
    }
}

#[test]
fn power_is_described() {
    let snapshot = PowerSnapshot {
        batteries: vec![Battery {
            percentage: some("80"),
            state: some("discharging"),
        }],
        line_power_online: Some(false),
        performance_profile: None,
    };
    assert!(power_status_text(&snapshot).contains("80"));
    assert_ne!(
        run_power_action(PowerReply::Started),
        run_power_action(PowerReply::Refused)
    );
}

#[test]
fn saved_permissions_are_listed() {
    let ai = AiPermissionRecord {
        app_identity: "org.example.Chat".to_string(),
        resource: PermissionResource::AiChat,
        target: PermissionTarget::Named("files".to_string()),
        scope: PermissionScope::Persistent,
        decision: PermissionDecision::Allow,
    };
    let location = LocationPermissionRecord {
        app_id: "org.example.Maps".to_string(),
        accuracy: LocationAccuracy::Exact,
    };
    assert_eq!(permission_target_label(&ai.target), "files");
    let rows = populate_saved_permissions(&Some(vec![ai]), &Some(vec![location]));
    assert_eq!(rows.len(), 2);
    assert!(rows.iter().all(|row| row.revocable));
    assert!(rows.iter().any(|row| row.title == "Location — Allowed"
        && row.subtitle == "org.example.Maps • Exact location • XDG portal"));
    let empty = populate_saved_permissions(&Some(Vec::new()), &Some(Vec::new()));
    assert!(empty.iter().all(|row| !row.revocable));
}

#[test]
fn shortcuts_are_set_and_reset() {
    let bindings = editable_keybindings();
    assert_eq!(bindings.len(), 8);
    let mut shortcuts = vec![("stale".to_string(), "x".to_string())];
    assert_eq!(shortcut(&shortcuts, &bindings[0]), "Super+Enter");
    set_shortcut(&mut shortcuts, &bindings[0], "  Ctrl+T ");
    assert_eq!(shortcut(&shortcuts, &bindings[0]), "Ctrl+T");
    assert_eq!(shortcut(&shortcuts, &bindings[1]), "Super+B");
    reset_shortcuts(&mut shortcuts);
    assert_eq!(shortcuts.len(), 8);
    for binding in &bindings {
        assert_eq!(shortcut(&shortcuts, binding), binding.default_shortcut);
    }
}

#[test]
fn panels_are_asked_for_by_name() {
    let args = |list: &[&str]| list.iter().map(|a| a.to_string()).collect::<Vec<_>>();
    assert_eq!(requested_panel(&args(&["x", "--panel", "Sound"])), some("sound"));
    assert_eq!(requested_panel(&args(&["--panel=POWER"])), some("power"));
    assert_eq!(requested_panel(&args(&["--panel"])), None);
    assert_eq!(requested_panel(&args(&["x"])), None);
    assert_eq!(panel_names().len(), 15);
    assert_eq!(initial_panel(&some("theme editor")), 1);
    assert_eq!(initial_panel(&some("nothing")), 0);
    assert_eq!(initial_panel(&None), 0);
}

fn appearance() -> Appearance {
    Appearance {
        shader_chrome: false,
        work_area_glass: false,
        output_focus_glow: false,
        theme: "Default".to_string(),
        glow_strength: 0.5f64.to_bits(),
        font_scale: 1.0f64.to_bits(),
        dock: DockVisibility::AlwaysVisible,
    }
}

#[test]
fn appearance_changes_come_back() {
    let mut here = appearance();
    let key = here.on_change(AppearanceChange::WorkAreaGlass(true));
    assert_eq!(key, "appearance.work_area_glass");
    let mut there = appearance();
    assert_eq!(
        there.on_setting(key, SettingValue::Truth(true)),
        Some(ControlUpdate::Glass(true))
    );
    assert_eq!(format!("{here:?}"), format!("{there:?}"));
    assert_eq!(there.on_setting(key, SettingValue::Number(1)), None);
    assert_eq!(there.on_setting("other", SettingValue::Truth(false)), None);
    assert_eq!(
        there.on_setting("appearance.theme", SettingValue::Text("Eagle".to_string())),
        Some(ControlUpdate::Theme(Some(1)))
    );
    assert_eq!(
        there.on_setting("appearance.theme", SettingValue::Text("Mine".to_string())),
        Some(ControlUpdate::Theme(None))
    );
    assert_eq!(there.theme, "Mine");
    assert_eq!(initial_theme_index("Mine"), 0);
    assert_eq!(
        there.on_setting("dock.visibility", SettingValue::Dock(DockVisibility::Autohide)),
        Some(ControlUpdate::Shelf(2))
    );
    for index in 0..4 {
        assert_eq!(theme_index(theme_at(index).unwrap()), Some(index));
    }
    assert!(there.choose_theme(2));
    assert_eq!(there.theme, "Moonbase");
    assert!(!there.choose_theme(4));
    assert!(!there.choose_dock(2));
    assert!(there.choose_dock(0));
    assert_eq!(there.dock, DockVisibility::IntelligentDodge);
}

#[test]
fn the_session_is_reported() {
    assert_eq!(session_type_label(&some("tty"), &None, &some(":0")), "tty");
    assert_eq!(session_type_label(&some(""), &some("wayland-1"), &None), "wayland");
    assert_eq!(session_type_label(&None, &some(""), &some(":0")), "x11");
    assert_eq!(session_type_label(&None, &None, &None), "unknown");
    assert_eq!(
        focaldesk_config_path(&some("/c")),
        "/c/focaldesk/config.toml"
    );
    assert_eq!(
        displays_path(&None, "/home/ada"),
        "/home/ada/.config/focaldesk/displays.json"
    );
    let logs = focaldesk_log_candidates(&some("/l"), &None, &some("/cache"));
    assert_eq!(
        logs,
        vec!["/l", "/cache/focaldesk/focaldesk.log", "/tmp/focaldesk.log"]
    );
    assert_eq!(
        existing_focaldesk_log_path(&logs, &vec![false, true, true]),
        some("/cache/focaldesk/focaldesk.log")
    );
    assert_eq!(
        existing_focaldesk_log_path(&logs, &vec![false, false, false]),
        None
    );
    let report = diagnostics_text(&Diagnostics {
        version: "1".to_string(),
        build_hash: "abc".to_string(),
        debug_build: false,
        os: "linux".to_string(),
        arch: "x86_64".to_string(),
        session_type: "wayland".to_string(),
        current_exe: None,
        config_path: "/c".to_string(),
        settings_path: "/s".to_string(),
        log_path: some("/l"),
        wayland_display: some("wayland-1"),
        display: None,
        current_desktop: some("focaldesk"),
    });
    assert_eq!(
        report,
        "FocalDesk diagnostics\nVersion: 1\nBuild hash: abc\nBuild profile: release\nOS/arch: linux/x86_64\nSession type: wayland\nCurrent executable: unknown\nConfig path: /c\nSettings path: /s\nLog path: /l\nWAYLAND_DISPLAY: wayland-1\nDISPLAY: unset\nXDG_CURRENT_DESKTOP: focaldesk"
    );
    assert_eq!(open_log_message(&Some(true)), "Opened log file");
    assert_eq!(open_log_message(&Some(false)), "Unable to open log file");
    assert_eq!(open_log_message(&None), "No FocalDesk log file was found");
    assert_eq!(copy_message(false), "Clipboard is unavailable");
}

#[test]
fn the_desktop_replies() {
    assert_eq!(
        desktop_outcome(DesktopRequest::Displays, DesktopReply::Done),
        Ok(())
    );
    assert_eq!(
        desktop_outcome(
            DesktopRequest::HdrAppearance,
            DesktopReply::Unexpected {
                text: "Pong".to_string()
            }
        ),
        Err("unexpected HDR appearance response: Pong".to_string())
    );
    assert_eq!(
        desktop_outcome(
            DesktopRequest::Displays,
            DesktopReply::Rejected {
                message: "no".to_string()
            }
        ),
        Err("no".to_string())
    );
}

#[test]
fn normal_labels_stay_as_they_are() {
    for label in ["alsa_input.pci-0000_00.analog", "  _a..b_ c ", "Speakers", "", "alsa_output."] {
        let once = normalize_audio_label(label);
        assert_eq!(normalize_audio_label(&once), once);
        assert!(!once.contains(['_', '.']));
        assert_eq!(once, once.split_whitespace().collect::<Vec<_>>().join(" "));
    }
    assert_eq!(normalize_audio_label("alsa_input.pci-0000_00.analog"), "pci-0000 00 analog");
}
