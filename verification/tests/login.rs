use focaldesk::ipc_client::{AuthMessageStyle, Request, Response};
use focaldesk::login::{LoginState, UiEvent};

fn submit_user(state: &mut LoginState, name: &str) -> Vec<Request> {
    *state = LoginState::EnterUsername {
        username: name.into(),
        error: None,
    };
    state.on_ui_event(UiEvent::SubmitUsername)
}

#[test]
fn happy_path() {
    let mut s = LoginState::default();

    let reqs = submit_user(&mut s, "steven");
    assert!(matches!(reqs.as_slice(), [Request::CreateSession { .. }]));
    assert!(matches!(s, LoginState::Waiting { .. }));

    s.on_response(Response::AuthMessage {
        style: AuthMessageStyle::Secret,
        message: "Password: ".into(),
    });
    let LoginState::Prompt { ref mut input, style, .. } = s else {
        panic!("expected prompt");
    };
    assert_eq!(style, AuthMessageStyle::Secret);
    input.push_str("hunter2");

    let reqs = s.on_ui_event(UiEvent::SubmitPrompt);
    assert!(matches!(
        reqs.as_slice(),
        [Request::PostAuthResponse { response: Some(_) }]
    ));

    s.on_response(Response::SessionStarted);
    assert!(s.is_done());
}

#[test]
fn auth_failure_returns_to_username_with_error() {
    let mut s = LoginState::default();
    submit_user(&mut s, "steven");
    s.on_response(Response::AuthError {
        message: "authentication failed".into(),
    });
    assert!(matches!(
        s,
        LoginState::EnterUsername { error: Some(_), .. }
    ));
}

#[test]
fn cancel_from_prompt_sends_cancel_session() {
    let mut s = LoginState::default();
    submit_user(&mut s, "steven");
    s.on_response(Response::AuthMessage {
        style: AuthMessageStyle::Secret,
        message: "Password: ".into(),
    });
    let reqs = s.on_ui_event(UiEvent::Cancel);
    assert!(matches!(reqs.as_slice(), [Request::CancelSession]));
    assert!(matches!(s, LoginState::EnterUsername { .. }));
}

#[test]
fn empty_username_is_ignored() {
    let mut s = LoginState::default();
    let reqs = s.on_ui_event(UiEvent::SubmitUsername);
    assert!(reqs.is_empty());
    assert!(matches!(s, LoginState::EnterUsername { .. }));
}

#[test]
fn info_notice_attaches_to_prompt() {
    let mut s = LoginState::default();
    submit_user(&mut s, "steven");
    s.on_response(Response::AuthMessage {
        style: AuthMessageStyle::Secret,
        message: "Password: ".into(),
    });
    s.on_response(Response::AuthMessage {
        style: AuthMessageStyle::Info,
        message: "Your password expires in 3 days".into(),
    });
    let LoginState::Prompt { notices, .. } = &s else {
        panic!("expected prompt");
    };
    assert_eq!(notices.len(), 1);
}

#[test]
fn the_answer_is_sent_and_leaves_the_state() {
    let mut s = LoginState::Prompt {
        username: "ada".into(),
        style: AuthMessageStyle::Secret,
        message: "Password: ".into(),
        input: "hunter2".into(),
        notices: Vec::new(),
    };
    let reqs = s.on_ui_event(UiEvent::SubmitPrompt);
    let [Request::PostAuthResponse { response: Some(answer) }] = reqs.as_slice() else {
        panic!("expected an answer");
    };
    assert_eq!(answer, "hunter2");
    let LoginState::Waiting { username, notices } = &s else {
        panic!("expected to wait");
    };
    assert_eq!(username, "ada");
    assert!(notices.is_empty());
}

#[test]
fn the_user_name_is_trimmed_and_kept() {
    let mut s = LoginState::default();
    let reqs = submit_user(&mut s, "  ada ");
    let [Request::CreateSession { username }] = reqs.as_slice() else {
        panic!("expected a session");
    };
    assert_eq!(username, "ada");
    s.on_response(Response::AuthError { message: "no".into() });
    let LoginState::EnterUsername { username, error } = &s else {
        panic!("expected the user name");
    };
    assert_eq!(username, "ada");
    assert_eq!(error.as_deref(), Some("no"));
}

#[test]
fn done_is_final() {
    let mut s = LoginState::Done;
    assert!(s.on_ui_event(UiEvent::Cancel).is_empty());
    assert!(s.on_ui_event(UiEvent::SubmitUsername).is_empty());
    assert!(s.on_ui_event(UiEvent::SubmitPrompt).is_empty());
    s.on_response(Response::AuthError { message: "late".into() });
    assert!(s.is_done());
    s.on_response(Response::AuthMessage {
        style: AuthMessageStyle::Secret,
        message: "Password: ".into(),
    });
    assert!(s.is_done());
}

#[test]
fn late_messages_are_ignored_at_the_user_name() {
    let mut s = LoginState::EnterUsername {
        username: "ada".into(),
        error: None,
    };
    s.on_response(Response::AuthError { message: "late".into() });
    let LoginState::EnterUsername { username, error } = &s else {
        panic!("expected the user name");
    };
    assert_eq!(username, "ada");
    assert!(error.is_none());
}

fn say(state: &mut LoginState, style: AuthMessageStyle, message: &str) {
    state.on_response(Response::AuthMessage { style, message: message.into() });
}

#[test]
fn notices_before_the_prompt_are_kept() {
    let mut s = LoginState::default();
    submit_user(&mut s, "steven");
    say(&mut s, AuthMessageStyle::Info, "expires soon");
    let LoginState::Waiting { username, notices } = &s else {
        panic!("expected to wait");
    };
    assert_eq!(username, "steven");
    assert_eq!(notices.len(), 1);
    say(&mut s, AuthMessageStyle::Error, "last try");
    say(&mut s, AuthMessageStyle::Secret, "Password: ");
    say(&mut s, AuthMessageStyle::Info, "caps lock");
    let LoginState::Prompt { username, style, message, input, notices } = &s else {
        panic!("expected prompt");
    };
    assert_eq!(username, "steven");
    assert_eq!(*style, AuthMessageStyle::Secret);
    assert_eq!(message, "Password: ");
    assert_eq!(input, "");
    let shown: Vec<(AuthMessageStyle, &str)> =
        notices.iter().map(|(style, text)| (*style, text.as_str())).collect();
    assert_eq!(
        shown,
        [
            (AuthMessageStyle::Info, "expires soon"),
            (AuthMessageStyle::Error, "last try"),
            (AuthMessageStyle::Info, "caps lock"),
        ]
    );
    s.on_ui_event(UiEvent::SubmitPrompt);
    say(&mut s, AuthMessageStyle::Visible, "Code: ");
    let LoginState::Prompt { notices, .. } = &s else {
        panic!("expected prompt");
    };
    assert!(notices.is_empty());
}

#[test]
fn a_prompt_that_replaces_another_starts_anew() {
    let mut s = LoginState::Prompt {
        username: "ada".into(),
        style: AuthMessageStyle::Secret,
        message: "Password: ".into(),
        input: "hun".into(),
        notices: vec![(AuthMessageStyle::Info, "hello".into())],
    };
    say(&mut s, AuthMessageStyle::Visible, "Code: ");
    let LoginState::Prompt { username, style, message, input, notices } = &s else {
        panic!("expected prompt");
    };
    assert_eq!((username.as_str(), message.as_str(), input.as_str()), ("ada", "Code: ", ""));
    assert_eq!(*style, AuthMessageStyle::Visible);
    assert!(notices.is_empty());
}

#[test]
fn wiping_leaves_the_rest_of_a_prompt() {
    let mut s = LoginState::Prompt {
        username: "ada".into(),
        style: AuthMessageStyle::Secret,
        message: "Password: ".into(),
        input: "hunter2".into(),
        notices: vec![(AuthMessageStyle::Info, "hello".into())],
    };
    s.wipe();
    let LoginState::Prompt { username, message, input, notices, .. } = &s else {
        panic!("expected prompt");
    };
    assert_eq!((username.as_str(), message.as_str(), input.as_str()), ("ada", "Password: ", ""));
    assert_eq!(notices.len(), 1);
}
