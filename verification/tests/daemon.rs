use focaldesk::config::{Config, ConfigError, ConfigFile, ConfigRead};
use focaldesk::ipc::{AuthMessageStyle, Response};
use focaldesk::ipc_client::{PowerAction, Transfer};
use focaldesk::pam::{
    c_string_safe, env_strings, failure_message, greeter_exec_spec, next_exec_step, next_stage,
    pipe_step, session_exec_spec, ExecStep, PipeStep, SessionProcess, Stage, UserEntry,
};
use focaldesk::supervise::{
    next_phase, Backoff, Drive, DriveAction, DriveEvent, Phase, PhaseEnd,
};
use focaldesk::vt::{check_vt, VtError};

fn user() -> UserEntry {
    UserEntry {
        name: "ada".to_string(),
        dir: "/home/ada".to_string(),
        shell: "/bin/sh".to_string(),
        uid: 1000,
        gid: 100,
    }
}

fn pair(a: &str, b: &str) -> (String, String) {
    (a.to_string(), b.to_string())
}

#[test]
fn sessions_get_an_environment_of_their_own() {
    let mut cfg = Config::default();
    cfg.vt = 7;
    cfg.keyboard_variant = "nodeadkeys".to_string();
    cfg.session_environment = vec![pair("XDG_SEAT", "seat1"), pair("EXTRA", "yes")];
    let spec = session_exec_spec(&cfg, &user());
    assert_eq!(spec.program, "/usr/bin/focaldesk");
    assert_eq!(
        spec.env,
        vec![
            pair("HOME", "/home/ada"),
            pair("USER", "ada"),
            pair("LOGNAME", "ada"),
            pair("SHELL", "/bin/sh"),
            pair("XDG_SESSION_TYPE", "wayland"),
            pair("XDG_CURRENT_DESKTOP", "focaldesk"),
            pair("XDG_SEAT", "seat1"),
            pair("XDG_VTNR", "7"),
            pair("XKB_DEFAULT_LAYOUT", "us"),
            pair("XKB_DEFAULT_VARIANT", "nodeadkeys"),
            pair("EXTRA", "yes"),
        ]
    );
    assert_eq!(spec.current_dir.as_deref(), Some("/home/ada"));
    assert_eq!((spec.uid, spec.gid), (1000, 100));
}

#[test]
fn the_greeter_gets_its_socket() {
    let spec = greeter_exec_spec(&Config::default(), &user());
    assert_eq!(spec.program, "/usr/libexec/focaldm-greeter");
    assert_eq!(
        spec.env,
        vec![
            pair("FOCALDM_SOCKET", "/run/focaldmd/greeter.sock"),
            pair("XDG_RUNTIME_DIR", "/run/user/1000"),
            pair("FOCALDM_VT", "1"),
            pair("XDG_VTNR", "1"),
        ]
    );
    assert_eq!(spec.current_dir, None);
}

#[test]
fn variables_that_no_c_string_holds_are_left_out() {
    assert!(c_string_safe("plain"));
    assert!(!c_string_safe("a\0b"));
    assert_eq!(
        env_strings(&vec![pair("A", "1"), pair("B", "x\0y"), pair("C", "")]),
        vec!["A=1", "C="]
    );
}

#[test]
fn programs_start_only_with_dropped_privileges() {
    let mut step = ExecStep::NullInput;
    let mut seen = Vec::new();
    while step != ExecStep::Exec {
        seen.push(step);
        let ok = !matches!(step, ExecStep::NullInput | ExecStep::ChangeDir);
        step = next_exec_step(step, ok);
    }
    assert_eq!(
        seen,
        vec![
            ExecStep::NullInput,
            ExecStep::ChangeDir,
            ExecStep::CheckUser,
            ExecStep::SetGroup,
            ExecStep::InitGroups,
            ExecStep::SetUser,
            ExecStep::CheckProgram,
        ]
    );
    assert_eq!(next_exec_step(ExecStep::SetUser, false), ExecStep::Exit(1));
    assert_eq!(next_exec_step(ExecStep::Exec, false), ExecStep::Exit(127));
}

#[test]
fn sessions_open_only_after_authentication() {
    let mut stage = Stage::Context;
    let mut count = 0;
    while stage != Stage::Open {
        stage = next_stage(stage, true);
        count += 1;
    }
    assert_eq!(count, 7);
    assert_eq!(next_stage(Stage::Authenticate, false), Stage::ReportFailure);
    assert_eq!(next_stage(Stage::AwaitGo, false), Stage::Ended);
    assert_eq!(next_stage(Stage::Open, false), Stage::ReportResult);
    assert_eq!(
        failure_message(Stage::Authenticate, "bad password"),
        "authentication failed: bad password"
    );
    assert_eq!(failure_message(Stage::Context, "x"), "pam ctx: x");
}

#[test]
fn pipes_are_read_to_their_end() {
    assert_eq!(pipe_step(0, 4, Transfer::Moved(3)), PipeStep::More(3));
    assert_eq!(pipe_step(3, 4, Transfer::Moved(1)), PipeStep::Complete);
    assert_eq!(pipe_step(3, 4, Transfer::Moved(0)), PipeStep::Ended);
    assert_eq!(pipe_step(3, 4, Transfer::Interrupted), PipeStep::More(3));
    assert_eq!(pipe_step(3, 4, Transfer::Failed), PipeStep::Failed);
}

#[test]
fn exit_statuses_are_kept() {
    let mut process = SessionProcess::new(7);
    assert_eq!(process.wait(3), 3);
    assert_eq!(process.wait(9), 3);
}

#[test]
fn crashes_double_the_delay() {
    let second = 1_000_000_000;
    let mut backoff = Backoff::new(0);
    let mut delays = Vec::new();
    for i in 0..9 {
        delays.push(backoff.next_delay(i * second));
    }
    assert_eq!(
        delays,
        vec![200, 400, 800, 1600, 3200, 6400, 10_000, 10_000, 10_000]
    );
    assert_eq!(backoff.next_delay(60 * second), 200);
}

#[test]
fn one_login_is_driven_at_a_time() {
    let mut drive = Drive::new();
    let start = drive.on_event(DriveEvent::CreateSession {
        username: "ada".to_string(),
    });
    assert!(matches!(start, DriveAction::Start { username } if username == "ada"));
    let again = drive.on_event(DriveEvent::CreateSession {
        username: "bob".to_string(),
    });
    let DriveAction::Send {
        response: Response::AuthError { message },
    } = again
    else {
        panic!("expected an error");
    };
    assert_eq!(message, "authentication already in progress");
    let reply = drive.on_event(DriveEvent::PostAuthResponse {
        response: Some("early".to_string()),
    });
    assert!(matches!(reply, DriveAction::Nothing));
    let prompt = drive.on_event(DriveEvent::Prompt {
        style: AuthMessageStyle::Secret,
        message: "Password: ".to_string(),
        takes_reply: true,
    });
    assert!(matches!(
        prompt,
        DriveAction::Send {
            response: Response::AuthMessage { .. }
        }
    ));
    let reply = drive.on_event(DriveEvent::PostAuthResponse {
        response: Some("hunter2".to_string()),
    });
    assert!(matches!(reply, DriveAction::Reply { text } if text == "hunter2"));
    let failed = drive.on_event(DriveEvent::Failed {
        message: "no".to_string(),
    });
    assert!(matches!(failed, DriveAction::SendAndDrop { .. }));
    assert_eq!(drive, Drive::new());
    drive.on_event(DriveEvent::CreateSession {
        username: "ada".to_string(),
    });
    let done = drive.on_event(DriveEvent::Succeeded);
    assert!(matches!(
        done,
        DriveAction::Authenticated {
            response: Response::SessionStarted
        }
    ));
    assert!(matches!(
        drive.on_event(DriveEvent::CancelSession),
        DriveAction::DropTransaction
    ));
    assert!(matches!(
        drive.on_event(DriveEvent::GreeterExited),
        DriveAction::Crashed
    ));
}

#[test]
fn the_console_is_handed_over_after_a_login() {
    let mut phase = Phase::Delay;
    let mut seen = Vec::new();
    while phase != Phase::RunSession {
        seen.push(phase);
        phase = next_phase(phase, PhaseEnd::Done);
        assert!(seen.len() < 20);
    }
    assert!(seen.contains(&Phase::DriveLogin));
    assert!(seen.contains(&Phase::AwaitHandoff));
    assert!(seen.contains(&Phase::OpenSession));
    assert_eq!(
        next_phase(Phase::DriveLogin, PhaseEnd::GreeterGone),
        next_phase(Phase::Accept, PhaseEnd::GreeterGone)
    );
}

#[test]
fn consoles_have_numbers_up_to_63() {
    assert_eq!(check_vt(0), Err(VtError::Invalid(0)));
    assert_eq!(check_vt(1), Ok(()));
    assert_eq!(check_vt(63), Ok(()));
    assert_eq!(check_vt(64), Err(VtError::Invalid(64)));
}

#[test]
fn a_file_overlays_the_defaults() {
    let file = || ConfigFile {
        greeter_user: None,
        greeter_cmd: None,
        session_cmd: Some("/usr/bin/other".to_string()),
        socket_path: None,
        pam_service: None,
        greeter_pam_service: None,
        tty_name: None,
        vt: Some(3),
        keyboard_layout: None,
        keyboard_variant: None,
        keyboard_model: None,
        keyboard_options: None,
        session_environment: None,
    };
    let cfg = Config::load(ConfigRead::Parsed { file: file() }).unwrap();
    assert_eq!(cfg.session_cmd, "/usr/bin/other");
    assert_eq!(cfg.vt, 3);
    assert_eq!(cfg.greeter_cmd, Config::default().greeter_cmd);
    let missing = Config::load(ConfigRead::Missing).unwrap();
    assert_eq!(missing, Config::default());
    let again = cfg.overlay(file());
    assert_eq!(again.vt, 3);
    assert!(matches!(
        Config::load(ConfigRead::Unreadable {
            error: "denied".to_string()
        }),
        Err(ConfigError::Read { error }) if error == "denied"
    ));
    assert!(matches!(
        Config::load(ConfigRead::Invalid {
            error: "line 1".to_string()
        }),
        Err(ConfigError::Parse { error }) if error == "line 1"
    ));
}

#[test]
fn a_power_request_leaves_the_login_alone() {
    let mut drive = Drive::new();
    drive.on_event(DriveEvent::CreateSession {
        username: "ada".to_string(),
    });
    let before = drive;
    assert!(matches!(
        drive.on_event(DriveEvent::Power { action: PowerAction::Restart }),
        DriveAction::Power { action: PowerAction::Restart }
    ));
    assert_eq!(drive, before);
}

#[test]
fn each_variable_of_a_session_is_named_once() {
    let mut cfg = Config::default();
    cfg.keyboard_model = "pc105".to_string();
    cfg.session_environment = vec![
        pair("HOME", "/elsewhere"),
        pair("EXTRA", "one"),
        pair("XKB_DEFAULT_MODEL", "pc104"),
        pair("EXTRA", "two"),
    ];
    let env = session_exec_spec(&cfg, &user()).env;
    let mut names: Vec<&str> = env.iter().map(|(name, _)| name.as_str()).collect();
    names.sort_unstable();
    let count = names.len();
    names.dedup();
    assert_eq!(names.len(), count);
    for expected in [
        pair("HOME", "/elsewhere"),
        pair("EXTRA", "two"),
        pair("XKB_DEFAULT_MODEL", "pc104"),
    ] {
        assert!(env.contains(&expected));
    }
}
