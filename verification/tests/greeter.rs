use focaldesk::drm_backend::{
    background_is_known, choose_connector, choose_mode, choose_render_path, configured_vt, copy_flipped,
    intersect_modifiers, modifiers_for_format, scanout_modifiers, select_background_style,
    vt_to_request, BackgroundStyle, EventStep, GreeterOutput, RenderPath,
};
use focaldesk::greeter::{launch_power_action, should_render, Greeter, Redraw, BTN_LEFT};
use focaldesk::ipc_client::{AuthMessageStyle, Request, Response};
use focaldesk::keymap::{
    keycode_to_char, vt_switch_target, Modifiers, KEY_BACKSPACE, KEY_CAPSLOCK, KEY_ENTER, KEY_ESC,
    KEY_LEFTALT, KEY_LEFTCTRL, KEY_LEFTSHIFT,
};
use focaldesk::login::{LoginState, UiEvent};
use focaldesk::render::{
    avatar_char, avatar_color, can_compose, can_draw, can_paint, compose_frame, field_text,
    frame_layout, headline, hover, note, notice, notice_count, paint_frame, paint_frame_gpu,
    paint_op, placeholder, power_menu, power_menu_items, prompt_line, subtitle, Cut, DrawOp,
    FrameMetrics, FrameState, GpuOp, Palette, PowerAction, Rect,
};

fn key(greeter: &mut Greeter, code: u32) -> focaldesk::greeter::Reaction {
    let reaction = greeter.on_key(code, true);
    greeter.on_key(code, false);
    reaction
}

fn username(greeter: &Greeter) -> String {
    match &greeter.login {
        LoginState::EnterUsername { username, .. } => username.clone(),
        _ => panic!("expected the user name"),
    }
}

#[test]
fn keys_type_letters_and_signs() {
    assert_eq!(keycode_to_char(38, false, false), Some('a'));
    assert_eq!(keycode_to_char(38, true, false), Some('A'));
    assert_eq!(keycode_to_char(38, false, true), Some('A'));
    assert_eq!(keycode_to_char(38, true, true), Some('a'));
    assert_eq!(keycode_to_char(10, false, false), Some('1'));
    assert_eq!(keycode_to_char(10, true, false), Some('!'));
    assert_eq!(keycode_to_char(10, false, true), Some('1'));
    assert_eq!(keycode_to_char(65, false, false), Some(' '));
    assert_eq!(keycode_to_char(KEY_ENTER, false, false), None);
    assert_eq!(vt_switch_target(67), Some(1));
    assert_eq!(vt_switch_target(76), Some(10));
    assert_eq!(vt_switch_target(95), Some(11));
    assert_eq!(vt_switch_target(96), Some(12));
    assert_eq!(vt_switch_target(77), None);
}

#[test]
fn caps_lock_toggles_on_each_press() {
    let mut mods = Modifiers::default();
    for on in [true, false, true] {
        assert!(mods.track(KEY_CAPSLOCK, true));
        assert!(mods.track(KEY_CAPSLOCK, false));
        assert_eq!(mods.caps, on);
    }
    assert!(!mods.track(38, true));
}

#[test]
fn backspace_undoes_typing() {
    let mut greeter = Greeter::new(800, 600, true);
    key(&mut greeter, 38);
    greeter.on_key(KEY_LEFTSHIFT, true);
    key(&mut greeter, 38);
    greeter.on_key(KEY_LEFTSHIFT, false);
    assert_eq!(username(&greeter), "aA");
    key(&mut greeter, KEY_BACKSPACE);
    assert_eq!(username(&greeter), "a");
    key(&mut greeter, KEY_BACKSPACE);
    key(&mut greeter, KEY_BACKSPACE);
    assert_eq!(username(&greeter), "");
}

#[test]
fn a_login_is_typed() {
    let mut greeter = Greeter::new(800, 600, true);
    key(&mut greeter, 38);
    let reaction = key(&mut greeter, KEY_ENTER);
    assert!(reaction.flush);
    assert!(matches!(
        reaction.requests.as_slice(),
        [Request::CreateSession { username }] if username == "a"
    ));
    greeter.on_responses(vec![Response::AuthMessage {
        style: AuthMessageStyle::Secret,
        message: "Password: ".to_string(),
    }]);
    key(&mut greeter, 56);
    let reaction = key(&mut greeter, KEY_ENTER);
    assert!(matches!(
        reaction.requests.as_slice(),
        [Request::PostAuthResponse { response: Some(text) }] if text == "b"
    ));
    let reaction = greeter.on_responses(vec![Response::SessionStarted]);
    assert!(reaction.stop);
    assert!(greeter.login.is_done());
    assert!(key(&mut greeter, KEY_ESC).requests.is_empty());
}

#[test]
fn consoles_are_switched_with_control_and_alt() {
    let mut greeter = Greeter::new(800, 600, true);
    greeter.on_key(KEY_LEFTCTRL, true);
    assert_eq!(greeter.on_key(68, true).change_vt, None);
    greeter.on_key(KEY_LEFTALT, true);
    let reaction = greeter.on_key(68, true);
    assert_eq!(reaction.change_vt, Some(2));
    assert_eq!(reaction.redraw, Redraw::No);
}

#[test]
fn the_power_menu_is_opened_and_clicked() {
    let mut greeter = Greeter::new(800, 600, true);
    greeter.frame.power_button = Rect {
        x: 10,
        y: 10,
        w: 20,
        h: 20,
    };
    greeter.frame.power_menu_items = vec![(
        PowerAction::Restart,
        Rect {
            x: 10,
            y: 50,
            w: 40,
            h: 10,
        },
    )];
    assert_eq!(greeter.pointer, Some((400, 300)));
    greeter.on_button(BTN_LEFT, true);
    assert!(!greeter.power_menu_open);
    greeter.handle_pointer_absolute(15, 15);
    assert!(greeter.on_button(BTN_LEFT, true).launch.is_none());
    assert!(greeter.power_menu_open);
    greeter.handle_pointer_motion(0, 40);
    assert_eq!(greeter.pointer, Some((15, 55)));
    let reaction = greeter.on_button(BTN_LEFT, true);
    assert_eq!(reaction.launch, Some(PowerAction::Restart));
    assert!(!greeter.power_menu_open);
    assert_eq!(
        launch_power_action(PowerAction::Restart),
        vec!["--no-block", "reboot"]
    );
    greeter.power_menu_open = true;
    assert_eq!(key(&mut greeter, KEY_ESC).redraw, Redraw::Now);
    assert!(!greeter.power_menu_open);
    assert!(greeter.on_button(BTN_LEFT, false).launch.is_none());
}

#[test]
fn nothing_is_drawn_without_the_seat() {
    assert!(should_render(true, true, Redraw::Now));
    assert!(should_render(true, false, Redraw::WhenIdle));
    assert!(!should_render(true, true, Redraw::WhenIdle));
    assert!(!should_render(false, false, Redraw::Now));
    assert!(!should_render(true, false, Redraw::No));
    let mut greeter = Greeter::new(10, 10, true);
    assert_eq!(greeter.on_session(false).redraw, Redraw::No);
    assert_eq!(greeter.on_session(true).redraw, Redraw::Now);
}

fn cut(n: usize) -> Cut {
    Cut {
        fits: true,
        passes: vec![false; n],
    }
}

fn metrics(state: &LoginState) -> FrameMetrics {
    FrameMetrics {
        panel_w: 480,
        panel_h: 320,
        title_ascent: 40,
        title_step: 50,
        body_ascent: 16,
        small_ascent: 12,
        small_step: 18,
        field_ascent: 18,
        shown_width: 30,
        note_x: 100,
        spinner: Vec::new(),
        subtitle: cut(subtitle(state).chars().count()),
        prompt: cut(prompt_line(state).chars().count()),
        notices: Vec::new(),
        note: cut(note(state).0.chars().count()),
    }
}

#[test]
fn secrets_are_not_shown() {
    let state = LoginState::Prompt {
        username: "ada".to_string(),
        style: AuthMessageStyle::Secret,
        message: "Password: ".to_string(),
        input: "hunter2".to_string(),
        notices: Vec::new(),
    };
    assert_eq!(field_text(&state), "\u{2022}".repeat(7));
    let frame = FrameState {
        login: &state,
        pointer: None,
        power_menu_open: true,
        caret_on: true,
        paint_background: true,
    };
    let (ops, targets) = compose_frame(1280, 720, &frame, &metrics(&state));
    for op in &ops {
        if let DrawOp::Text { text, .. } = op {
            assert!(!text.contains("hunter2"));
        }
    }
    assert_eq!(targets.power_menu_items.len(), 4);
    let (gpu, drawn) = paint_frame_gpu(1280, 720, &frame, &metrics(&state));
    assert_eq!(drawn.power_menu_items, targets.power_menu_items);
    assert!(gpu.iter().any(|op| matches!(op, GpuOp::Icon { .. })));
    assert!(gpu
        .iter()
        .any(|op| matches!(op, GpuOp::Text { text, .. } if text.contains('\u{2022}'))));
}

#[test]
fn the_frame_follows_the_login() {
    let start = LoginState::default();
    let waiting = LoginState::Waiting {
        username: "ada".to_string(),
        notices: Vec::new(),
    };
    assert_ne!(headline(&start), headline(&waiting));
    assert_eq!(field_text(&start), "");
    assert!(!placeholder(&start).is_empty());
}

#[test]
fn the_panel_and_the_menu_are_on_the_screen() {
    let layout = frame_layout(1280, 720, 480, 320);
    assert!(layout.panel.x >= 0 && layout.panel.x + layout.panel.w <= 1280);
    assert!(layout.panel.y >= 0 && layout.panel.y + layout.panel.h <= 720);
    let menu = power_menu(layout.power_button, 720);
    assert!(menu.x >= 0 && menu.x + menu.w <= 1280 && menu.y + menu.h <= 720);
    let items = power_menu_items(menu);
    let names: Vec<&str> = items.iter().map(|(action, _)| action.label()).collect();
    assert_eq!(names.len(), 4);
    for (i, (_, a)) in items.iter().enumerate() {
        for (_, b) in &items[i + 1..] {
            assert!(a.y + a.h <= b.y || b.y + b.h <= a.y);
        }
    }
    let rect = Rect {
        x: 0,
        y: 0,
        w: 2,
        h: 2,
    };
    assert!(hover(Some((1, 1)), rect));
    assert!(!hover(Some((2, 1)), rect));
    assert!(!hover(None, rect));
}

#[test]
fn backgrounds_are_chosen_by_name_or_by_chance() {
    let name = |s: &str| Some(s.to_string());
    assert_eq!(
        select_background_style(&name("AURORA"), 1, 2),
        BackgroundStyle::Aurora
    );
    assert_eq!(
        select_background_style(&name("spiral"), 2, 2),
        BackgroundStyle::SpiralTunnel
    );
    assert_eq!(
        select_background_style(&None, 4, 2),
        BackgroundStyle::Aurora
    );
    assert_eq!(
        select_background_style(&name("x"), 3, 2),
        BackgroundStyle::SpiralTunnel
    );
}

#[test]
fn the_console_comes_from_the_environment() {
    let text = |s: &str| Some(s.to_string());
    assert_eq!(configured_vt(&text("3"), &text("4")), Some(3));
    assert_eq!(configured_vt(&text("0"), &text("4")), Some(4));
    assert_eq!(configured_vt(&text("x"), &None), None);
    assert_eq!(vt_to_request(true, Some(3)), None);
    assert_eq!(vt_to_request(false, Some(3)), Some(3));
}

#[test]
fn outputs_and_modes_are_chosen() {
    assert_eq!(choose_connector(&vec![false, true, true]), Some(1));
    assert_eq!(choose_connector(&vec![false]), None);
    assert_eq!(choose_mode(&vec![false, false, true]), Some(2));
    assert_eq!(choose_mode(&vec![false, false]), Some(0));
    assert_eq!(choose_mode(&vec![]), None);
    assert_eq!(choose_render_path(true, false), RenderPath::DirectGpu);
    assert_eq!(choose_render_path(false, true), RenderPath::OffscreenGpu);
    assert_eq!(choose_render_path(false, false), RenderPath::Cpu);
}

#[test]
fn modifiers_are_those_of_both_sides() {
    let formats = vec![(1, 10), (2, 20), (1, 11)];
    assert_eq!(modifiers_for_format(&formats, 1), vec![10, 11]);
    assert_eq!(intersect_modifiers(&vec![5, 6, 7], &vec![7, 5]), vec![7, 5]);
    assert_eq!(intersect_modifiers(&vec![], &vec![7, 5]), vec![7, 5]);
    assert_eq!(intersect_modifiers(&vec![3], &vec![]), vec![3]);
    assert_eq!(
        scanout_modifiers(&vec![(1, 10), (1, 11)], &vec![(1, 11), (1, 12)], 1),
        vec![11]
    );
}

#[test]
fn the_front_buffer_is_not_drawn_to() {
    let mut output = GreeterOutput::new();
    let front = output.front;
    let back = output.begin_frame().unwrap();
    assert_ne!(back, front);
    output.frame_queued();
    assert_eq!(output.begin_frame(), None);
    assert_eq!(
        output.handle_drm_events(&vec![true]),
        EventStep::Finished(true)
    );
    assert!(output.begin_frame().is_some());
    let mut dst = vec![0; 6];
    copy_flipped(&mut dst, &vec![1, 2, 3, 4], 2, 2, 3);
    assert_eq!(dst, vec![3, 4, 0, 1, 2, 0]);
}

#[test]
fn a_frame_is_painted_within_its_buffer() {
    let state = LoginState::Prompt {
        username: "ada".to_string(),
        style: AuthMessageStyle::Visible,
        message: "Code: ".to_string(),
        input: String::new(),
        notices: vec![(AuthMessageStyle::Error, "wrong".to_string())],
    };
    assert_eq!(notice_count(&state), 1);
    assert_eq!(
        notice(&state, 0),
        (AuthMessageStyle::Error, "wrong".to_string())
    );
    assert_eq!(avatar_char(&state), 'S');
    assert_eq!(avatar_color(&state), (74, 170, 150));
    let mut sizes = metrics(&state);
    sizes.notices = vec![cut(5)];
    let frame = FrameState {
        login: &state,
        pointer: Some((5, 5)),
        power_menu_open: true,
        caret_on: true,
        paint_background: false,
    };
    assert!(can_compose(1024, 768, &state, &sizes));
    let (ops, targets) = compose_frame(1024, 768, &frame, &sizes);
    assert!(ops.iter().all(can_draw));
    assert!(!can_draw(&DrawOp::Cursor {
        x: i32::MIN,
        y: 0
    }));
    let step = sizes.small_step;
    sizes.small_step = i32::MAX;
    assert!(!can_compose(1024, 768, &state, &sizes));
    sizes.small_step = step;
    let pitch = 1024 * 4;
    let palette = Palette {
        width: 1024,
        height: 768,
        colors: Vec::new(),
        runs: ops.iter().map(|_| Vec::new()).collect(),
    };
    for (op, run) in ops.iter().zip(&palette.runs) {
        assert!(can_paint(pitch, op, &palette, run));
    }
    let mut buf = vec![0u8; pitch as usize * 768];
    let clicked = paint_frame(&mut buf, pitch, 1024, 768, &frame, &sizes, &palette);
    assert_eq!(clicked.power_button, targets.power_button);
    assert_eq!(clicked.power_menu_items, targets.power_menu_items);
    assert_eq!(clicked.field, targets.field);
    let mut steps = vec![0u8; pitch as usize * 768];
    for (op, run) in ops.iter().zip(&palette.runs) {
        paint_op(&mut steps, pitch, op, &palette, run);
    }
    assert!(buf == steps);
    let at = |x: i32, y: i32| {
        let i = y as usize * pitch as usize + x as usize * 4;
        (buf[i], buf[i + 1], buf[i + 2])
    };
    let field = targets.field;
    assert_ne!(at(field.x + 10, field.y + 10), (0, 0, 0));
    assert_ne!(at(5, 6), (0, 0, 0));
    assert_eq!(at(900, 700), (0, 0, 0));
    assert!(!can_paint(pitch, &DrawOp::Background, &palette, &Vec::new()));
}

#[test]
fn a_click_outside_closes_the_menu() {
    let mut greeter = Greeter::new(800, 600, true);
    greeter.power_menu_open = true;
    greeter.close_power_menu();
    assert!(!greeter.power_menu_open);
    assert_eq!(greeter.handle_primary_click(), None);
    greeter.on_key(30, true);
    let reaction = greeter.submit_ui_event(UiEvent::Cancel);
    assert!(!reaction.stop);
}

#[test]
fn rows_without_a_stride_cover_each_other() {
    let mut dst = vec![0u8; 3];
    copy_flipped(&mut dst, &vec![1, 2, 3, 4], 2, 2, 0);
    assert_eq!(dst, [1, 2, 0]);
}

#[test]
fn renderers_agree_on_where_to_click() {
    let login = LoginState::default();
    let other = LoginState::Waiting { username: "ada".to_string(), notices: Vec::new() };
    for open in [false, true] {
        let plain = FrameState {
            login: &login,
            pointer: None,
            power_menu_open: open,
            caret_on: false,
            paint_background: false,
        };
        let painted = FrameState {
            login: &other,
            pointer: Some((700, 40)),
            power_menu_open: open,
            caret_on: true,
            paint_background: true,
        };
        let (ops, _) = compose_frame(800, 600, &painted, &metrics(&other));
        let palette = Palette {
            width: 800,
            height: 600,
            colors: vec![(1, 2, 3); 800 * 600],
            runs: ops.iter().map(|_| Vec::new()).collect(),
        };
        assert!(ops.iter().all(|op| can_paint(3200, op, &palette, &Vec::new())));
        let mut buf = vec![0u8; 3200 * 600];
        let cpu = paint_frame(&mut buf, 3200, 800, 600, &painted, &metrics(&other), &palette);
        let (_, gpu) = paint_frame_gpu(800, 600, &plain, &metrics(&login));
        assert_eq!(cpu.power_button, gpu.power_button);
        assert_eq!(cpu.field, gpu.field);
        assert_eq!(cpu.power_menu_items, gpu.power_menu_items);
        assert_eq!(cpu.power_menu_items.len(), if open { 4 } else { 0 });
    }
}

#[test]
fn only_three_backgrounds_are_known() {
    let known = |name: &str| background_is_known(&Some(name.to_string()));
    assert!(background_is_known(&None));
    assert!(known("Aurora") && known("spiral") && known("RANDOM"));
    assert!(!known("") && !known("stars"));
}
