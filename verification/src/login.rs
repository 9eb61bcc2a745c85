//! The login flow as a state machine. The interface feeds it [`UiEvent`]s, the
//! socket feeds it [`Response`]s, and it answers with [`Request`]s.

use crate::ipc_client::{
    request_views, AuthMessageStyle, Request, RequestView, Response, ResponseView,
};
use crate::secret::wipe_text;
use crate::text::{opt_view, trim, trimmed};
use vstd::prelude::*;

verus! {

#[derive(Debug)]
pub enum LoginState {
    /// The user name is being typed. `error` carries the previous failure.
    EnterUsername { username: String, error: Option<String> },
    /// A request is in flight; typing is ignored. `notices` holds what PAM has
    /// said since, for the prompt that follows.
    Waiting { username: String, notices: Vec<(AuthMessageStyle, String)> },
    /// PAM asked a question, usually for the password.
    Prompt {
        username: String,
        style: AuthMessageStyle,
        message: String,
        /// Wiped on submit, on cancel, when the prompt is replaced and by
        /// [`LoginState::wipe`].
        input: String,
        /// The information and error lines that PAM emitted before this prompt,
        /// such as a warning of an expired password, and those that came since.
        notices: Vec<(AuthMessageStyle, String)>,
    },
    /// The session has started; no more input.
    Done,
}

/// The value of a [`LoginState`].
pub ghost enum LoginView {
    EnterUsername { username: Seq<char>, error: Option<Seq<char>> },
    Waiting { username: Seq<char>, notices: Seq<(AuthMessageStyle, Seq<char>)> },
    Prompt {
        username: Seq<char>,
        style: AuthMessageStyle,
        message: Seq<char>,
        input: Seq<char>,
        notices: Seq<(AuthMessageStyle, Seq<char>)>,
    },
    Done,
}

/// The values of a list of notices.
pub open spec fn notice_views(list: Seq<(AuthMessageStyle, String)>) -> Seq<
    (AuthMessageStyle, Seq<char>),
> {
    Seq::new(list.len(), |i: int| (list[i].0, list[i].1@))
}

proof fn lemma_no_notices()
    ensures
        notice_views(Seq::<(AuthMessageStyle, String)>::empty()) == Seq::<
            (AuthMessageStyle, Seq<char>),
        >::empty(),
{
    assert(notice_views(Seq::<(AuthMessageStyle, String)>::empty()) =~= Seq::<
        (AuthMessageStyle, Seq<char>),
    >::empty());
}

impl View for LoginState {
    type V = LoginView;

    open spec fn view(&self) -> LoginView {
        match *self {
            LoginState::EnterUsername { username, error } => LoginView::EnterUsername {
                username: username@,
                error: opt_view(error),
            },
            LoginState::Waiting { username, notices } => LoginView::Waiting {
                username: username@,
                notices: notice_views(notices@),
            },
            LoginState::Prompt { username, style, message, input, notices } => LoginView::Prompt {
                username: username@,
                style,
                message: message@,
                input: input@,
                notices: notice_views(notices@),
            },
            LoginState::Done => LoginView::Done,
        }
    }
}

impl Default for LoginState {
    fn default() -> (r: LoginState)
        ensures
            r@ == (LoginView::EnterUsername { username: Seq::empty(), error: None }),
    {
        LoginState::EnterUsername { username: String::new(), error: None }
    }
}

/// What the interface reports.
#[derive(Debug, Clone, Copy, PartialEq, Eq, Structural)]
pub enum UiEvent {
    /// Enter was pressed on the user name.
    SubmitUsername,
    /// Enter was pressed on a prompt.
    SubmitPrompt,
    /// Escape was pressed.
    Cancel,
}

/// The state after an event of the interface, and what is sent to the daemon.
pub open spec fn after_ui_event(state: LoginView, ev: UiEvent) -> (LoginView, Seq<RequestView>) {
    match (state, ev) {
        (
            LoginView::EnterUsername { username, .. },
            UiEvent::SubmitUsername,
        ) if trimmed(username).len() > 0 => (
            LoginView::Waiting { username: trimmed(username), notices: Seq::empty() },
            seq![RequestView::CreateSession { username: trimmed(username) }],
        ),
        (LoginView::Prompt { username, input, .. }, UiEvent::SubmitPrompt) => (
            LoginView::Waiting { username, notices: Seq::empty() },
            seq![RequestView::PostAuthResponse { response: Some(input) }],
        ),
        (LoginView::Prompt { username, .. }, UiEvent::Cancel) => (
            LoginView::EnterUsername { username, error: None },
            seq![RequestView::CancelSession],
        ),
        (LoginView::Waiting { username, .. }, UiEvent::Cancel) => (
            LoginView::EnterUsername { username, error: None },
            seq![RequestView::CancelSession],
        ),
        (same, _) => (same, Seq::empty()),
    }
}

pub open spec fn is_question(style: AuthMessageStyle) -> bool {
    style == AuthMessageStyle::Secret || style == AuthMessageStyle::Visible
}

/// A prompt that nothing has been typed into.
pub open spec fn fresh_prompt(
    username: Seq<char>,
    style: AuthMessageStyle,
    message: Seq<char>,
    notices: Seq<(AuthMessageStyle, Seq<char>)>,
) -> LoginView {
    LoginView::Prompt { username, style, message, input: Seq::empty(), notices }
}

/// The state after a message of the daemon. A prompt that is replaced by
/// another one counts as answered: the new one starts without its notices.
pub open spec fn after_response(state: LoginView, resp: ResponseView) -> LoginView {
    match (state, resp) {
        (
            LoginView::Waiting { username, notices },
            ResponseView::AuthMessage { style, message },
        ) => {
            if is_question(style) {
                fresh_prompt(username, style, message, notices)
            } else {
                LoginView::Waiting { username, notices: notices.push((style, message)) }
            }
        },
        (
            LoginView::Prompt { username, style, message, input, notices },
            ResponseView::AuthMessage { style: new_style, message: new_message },
        ) => {
            if is_question(new_style) {
                fresh_prompt(username, new_style, new_message, Seq::empty())
            } else {
                LoginView::Prompt {
                    username,
                    style,
                    message,
                    input,
                    notices: notices.push((new_style, new_message)),
                }
            }
        },
        (LoginView::Waiting { username, .. }, ResponseView::AuthError { message }) => {
            LoginView::EnterUsername { username, error: Some(message) }
        },
        (LoginView::Prompt { username, .. }, ResponseView::AuthError { message }) => {
            LoginView::EnterUsername { username, error: Some(message) }
        },
        (_, ResponseView::SessionStarted) => LoginView::Done,
        (same, _) => same,
    }
}

/// The state without what was typed into a prompt.
pub open spec fn wiped(state: LoginView) -> LoginView {
    match state {
        LoginView::Prompt { username, style, message, notices, .. } => LoginView::Prompt {
            username,
            style,
            message,
            input: Seq::empty(),
            notices,
        },
        same => same,
    }
}

/// The state after several messages of the daemon.
pub open spec fn after_responses(state: LoginView, list: Seq<ResponseView>) -> LoginView
    decreases list.len(),
{
    if list.len() == 0 {
        state
    } else {
        after_response(after_responses(state, list.drop_last()), list.last())
    }
}

impl LoginState {
    /// Applies an event of the interface; returns what to send.
    pub fn on_ui_event(&mut self, ev: UiEvent) -> (r: Vec<Request>)
        ensures
            final(self)@ == after_ui_event(old(self)@, ev).0,
            request_views(r@) == after_ui_event(old(self)@, ev).1,
    {
        let mut out: Vec<Request> = Vec::new();
        let ghost sent = after_ui_event(self@, ev).1;
        let mut state = LoginState::Done;
        std::mem::swap(self, &mut state);
        *self = match (state, ev) {
            (LoginState::EnterUsername { username, error }, UiEvent::SubmitUsername) => {
                let name = trim(username.as_str());
                if name.as_str().is_empty() {
                    LoginState::EnterUsername { username, error }
                } else {
                    out.push(Request::CreateSession { username: name.clone() });
                    LoginState::Waiting { username: name, notices: Vec::new() }
                }
            },
            (LoginState::Prompt { username, mut input, .. }, UiEvent::SubmitPrompt) => {
                out.push(Request::PostAuthResponse { response: Some(input.clone()) });
                wipe_text(&mut input);
                LoginState::Waiting { username, notices: Vec::new() }
            },
            (LoginState::Prompt { username, mut input, .. }, UiEvent::Cancel) => {
                wipe_text(&mut input);
                out.push(Request::CancelSession);
                LoginState::EnterUsername { username, error: None }
            },
            (LoginState::Waiting { username, .. }, UiEvent::Cancel) => {
                out.push(Request::CancelSession);
                LoginState::EnterUsername { username, error: None }
            },
            (same, _) => same,
        };
        proof {
            lemma_no_notices();
        }
        assert(request_views(out@) =~= sent);
        out
    }

    /// Applies a message of the daemon.
    pub fn on_response(&mut self, resp: Response)
        ensures
            final(self)@ == after_response(old(self)@, resp@),
    {
        let mut state = LoginState::Done;
        std::mem::swap(self, &mut state);
        *self = match (state, resp) {
            (
                LoginState::Waiting { username, mut notices },
                Response::AuthMessage { style, message },
            ) => {
                match style {
                    AuthMessageStyle::Secret | AuthMessageStyle::Visible => LoginState::Prompt {
                        username,
                        style,
                        message,
                        input: String::new(),
                        notices,
                    },
                    AuthMessageStyle::Info | AuthMessageStyle::Error => {
                        let ghost before = notices@;
                        notices.push((style, message));
                        assert(notice_views(notices@) =~= notice_views(before).push(
                            (style, message@),
                        ));
                        LoginState::Waiting { username, notices }
                    },
                }
            },
            (
                LoginState::Prompt { username, style, message, mut input, mut notices },
                Response::AuthMessage { style: new_style, message: new_message },
            ) => {
                match new_style {
                    AuthMessageStyle::Secret | AuthMessageStyle::Visible => {
                        wipe_text(&mut input);
                        LoginState::Prompt {
                            username,
                            style: new_style,
                            message: new_message,
                            input: String::new(),
                            notices: Vec::new(),
                        }
                    },
                    AuthMessageStyle::Info | AuthMessageStyle::Error => {
                        let ghost before = notices@;
                        notices.push((new_style, new_message));
                        assert(notice_views(notices@) =~= notice_views(before).push(
                            (new_style, new_message@),
                        ));
                        LoginState::Prompt { username, style, message, input, notices }
                    },
                }
            },
            (LoginState::Waiting { username, .. }, Response::AuthError { message }) => {
                LoginState::EnterUsername { username, error: Some(message) }
            },
            (LoginState::Prompt { username, mut input, .. }, Response::AuthError { message }) => {
                wipe_text(&mut input);
                LoginState::EnterUsername { username, error: Some(message) }
            },
            (LoginState::Prompt { mut input, .. }, Response::SessionStarted) => {
                wipe_text(&mut input);
                LoginState::Done
            },
            (_, Response::SessionStarted) => LoginState::Done,
            (same, _) => same,
        };
        proof {
            lemma_no_notices();
        }
    }

    /// Wipes what was typed into a prompt. To be called before the state is
    /// dropped, as a prompt may still be up then.
    pub fn wipe(&mut self)
        ensures
            final(self)@ == wiped(old(self)@),
    {
        let mut state = LoginState::Done;
        std::mem::swap(self, &mut state);
        *self = match state {
            LoginState::Prompt { username, style, message, mut input, notices } => {
                wipe_text(&mut input);
                LoginState::Prompt { username, style, message, input, notices }
            },
            same => same,
        };
    }

    /// Whether the session has started.
    pub fn is_done(&self) -> (r: bool)
        ensures
            r == (self@ is Done),
    {
        match self {
            LoginState::Done => true,
            _ => false,
        }
    }
}

/// The user name that a state carries.
pub open spec fn user_of(state: LoginView) -> Option<Seq<char>> {
    match state {
        LoginView::EnterUsername { username, .. } => Some(username),
        LoginView::Waiting { username, .. } => Some(username),
        LoginView::Prompt { username, .. } => Some(username),
        LoginView::Done => None,
    }
}

/// Once the session has started nothing changes any more, and nothing is sent.
pub proof fn law_done_is_final(ev: UiEvent, resp: ResponseView)
    ensures
        after_ui_event(LoginView::Done, ev) == (LoginView::Done, Seq::<RequestView>::empty()),
        after_response(LoginView::Done, resp) == LoginView::Done,
{
}

/// A submitted or cancelled prompt leaves no input behind in the state, and a
/// submitted one is sent once, as it was typed.
pub proof fn law_secret_leaves_the_state(state: LoginView)
    requires
        state is Prompt,
    ensures
        after_ui_event(state, UiEvent::SubmitPrompt).0 is Waiting,
        after_ui_event(state, UiEvent::SubmitPrompt).1 == seq![
            RequestView::PostAuthResponse { response: Some(state->Prompt_input) },
        ],
        after_ui_event(state, UiEvent::Cancel).0 is EnterUsername,
        after_ui_event(state, UiEvent::Cancel).1 == seq![RequestView::CancelSession],
{
}

/// While a user name is being typed, a late message of a cancelled attempt is
/// ignored; only the start of the session is not.
pub proof fn law_late_messages_are_ignored(state: LoginView, resp: ResponseView)
    requires
        state is EnterUsername,
        !(resp is SessionStarted),
    ensures
        after_response(state, resp) == state,
{
}

/// The user name is only changed by trimming it when it is submitted, until
/// the session starts.
pub proof fn law_user_name_is_kept(state: LoginView, ev: UiEvent, resp: ResponseView)
    ensures
        ev != UiEvent::SubmitUsername ==> user_of(after_ui_event(state, ev).0) == user_of(state),
        user_of(after_response(state, resp)) == user_of(state) || after_response(
            state,
            resp,
        ) is Done,
{
}

/// An event of the interface sends at most one request: a session is asked for
/// only with a user name that is not blank, an answer is given only to a
/// prompt, and only what is under way is cancelled.
pub proof fn law_requests_fit_the_state(state: LoginView, ev: UiEvent)
    ensures
        ({
            let sent = after_ui_event(state, ev).1;
            &&& sent.len() <= 1
            &&& sent.len() == 1 ==> match sent[0] {
                RequestView::CreateSession { username } => state is EnterUsername && username
                    == trimmed(state->EnterUsername_username) && username.len() > 0,
                RequestView::PostAuthResponse { response } => state is Prompt && response == Some(
                    state->Prompt_input,
                ),
                RequestView::CancelSession => state is Prompt || state is Waiting,
                RequestView::Power { .. } => false,
            }
        }),
{
}

/// Lines that only say something, as messages of the daemon.
pub open spec fn as_messages(lines: Seq<(AuthMessageStyle, Seq<char>)>) -> Seq<ResponseView> {
    Seq::new(
        lines.len(),
        |i: int| ResponseView::AuthMessage { style: lines[i].0, message: lines[i].1 },
    )
}

/// No line among these asks something.
pub open spec fn only_say(lines: Seq<(AuthMessageStyle, Seq<char>)>) -> bool {
    forall|i: int| 0 <= i < lines.len() ==> !is_question((#[trigger] lines[i]).0)
}

proof fn lemma_messages_drop(lines: Seq<(AuthMessageStyle, Seq<char>)>)
    requires
        lines.len() > 0,
        only_say(lines),
    ensures
        as_messages(lines).drop_last() == as_messages(lines.drop_last()),
        as_messages(lines).last() == (ResponseView::AuthMessage {
            style: lines.last().0,
            message: lines.last().1,
        }),
        !is_question(lines.last().0),
        only_say(lines.drop_last()),
        lines.drop_last().push(lines.last()) == lines,
{
    assert(as_messages(lines).drop_last() =~= as_messages(lines.drop_last()));
    assert(lines.drop_last().push(lines.last()) =~= lines);
    assert(!is_question(lines[lines.len() - 1].0));
    assert forall|i: int| 0 <= i < lines.drop_last().len() implies !is_question(
        (#[trigger] lines.drop_last()[i]).0,
    ) by {
        assert(!is_question(lines[i].0));
    }
}

proof fn lemma_collected(
    username: Seq<char>,
    start: Seq<(AuthMessageStyle, Seq<char>)>,
    lines: Seq<(AuthMessageStyle, Seq<char>)>,
)
    requires
        only_say(lines),
    ensures
        after_responses(LoginView::Waiting { username, notices: start }, as_messages(lines))
            == (LoginView::Waiting { username, notices: start + lines }),
    decreases lines.len(),
{
    if lines.len() == 0 {
        assert(start + lines =~= start);
    } else {
        lemma_messages_drop(lines);
        lemma_collected(username, start, lines.drop_last());
        assert((start + lines.drop_last()).push(lines.last()) =~= start + lines);
    }
}

proof fn lemma_pinned(
    username: Seq<char>,
    style: AuthMessageStyle,
    message: Seq<char>,
    start: Seq<(AuthMessageStyle, Seq<char>)>,
    lines: Seq<(AuthMessageStyle, Seq<char>)>,
)
    requires
        only_say(lines),
    ensures
        after_responses(fresh_prompt(username, style, message, start), as_messages(lines))
            == fresh_prompt(username, style, message, start + lines),
    decreases lines.len(),
{
    if lines.len() == 0 {
        assert(start + lines =~= start);
    } else {
        lemma_messages_drop(lines);
        lemma_pinned(username, style, message, start, lines.drop_last());
        assert((start + lines.drop_last()).push(lines.last()) =~= start + lines);
    }
}

proof fn lemma_responses_concat(state: LoginView, a: Seq<ResponseView>, b: Seq<ResponseView>)
    ensures
        after_responses(state, a + b) == after_responses(after_responses(state, a), b),
    decreases b.len(),
{
    if b.len() == 0 {
        assert(a + b =~= a);
    } else {
        assert((a + b).drop_last() =~= a + b.drop_last());
        assert((a + b).last() == b.last());
        lemma_responses_concat(state, a, b.drop_last());
    }
}

/// The notices of a prompt are all information and error lines since the last
/// submit, in order: those that came before it, and those that came while it
/// is up. After a submit there are none.
pub proof fn law_no_notice_is_lost(
    username: Seq<char>,
    before: Seq<(AuthMessageStyle, Seq<char>)>,
    style: AuthMessageStyle,
    message: Seq<char>,
    after: Seq<(AuthMessageStyle, Seq<char>)>,
    state: LoginView,
    ev: UiEvent,
)
    requires
        only_say(before),
        is_question(style),
        only_say(after),
    ensures
        after_responses(
            LoginView::Waiting { username, notices: Seq::empty() },
            as_messages(before).push(ResponseView::AuthMessage { style, message }) + as_messages(
                after,
            ),
        ) == fresh_prompt(username, style, message, before + after),
        after_ui_event(state, ev).0 is Waiting && after_ui_event(state, ev).1.len() > 0
            ==> after_ui_event(state, ev).0->Waiting_notices.len() == 0,
{
    let question = ResponseView::AuthMessage { style, message };
    let start = LoginView::Waiting { username, notices: Seq::empty() };
    let first = as_messages(before).push(question);
    lemma_collected(username, Seq::empty(), before);
    assert(Seq::<(AuthMessageStyle, Seq<char>)>::empty() + before =~= before);
    assert(first.drop_last() =~= as_messages(before));
    assert(after_responses(start, first) == fresh_prompt(username, style, message, before));
    lemma_pinned(username, style, message, before, after);
    lemma_responses_concat(start, first, as_messages(after));
}

/// What is wiped holds no input, and nothing else of it is lost.
pub proof fn law_wiped_holds_no_input(state: LoginView)
    ensures
        wiped(state) is Prompt ==> wiped(state)->Prompt_input.len() == 0,
        user_of(wiped(state)) == user_of(state),
        !(state is Prompt) ==> wiped(state) == state,
        wiped(wiped(state)) == wiped(state),
{
}

/// A login goes on: a user name with something in it is sent to the daemon, once
/// and without the white space around it; one without is not. What was typed at a
/// prompt is sent as it was typed, white space and all. Escape takes back what is
/// under way and leads to the user name, without the error of an earlier try.
pub proof fn law_login_goes_on(
    typed: Seq<char>,
    error: Option<Seq<char>>,
    prompt: LoginView,
    waiting: LoginView,
)
    requires
        prompt is Prompt,
        waiting is Waiting,
    ensures
        ({
            let state = LoginView::EnterUsername { username: typed, error };
            let (next, sent) = after_ui_event(state, UiEvent::SubmitUsername);
            &&& trimmed(typed).len() > 0 ==> next is Waiting && user_of(next) == Some(
                trimmed(typed),
            ) && sent.len() == 1 && sent[0] == (RequestView::CreateSession {
                username: trimmed(typed),
            })
            &&& trimmed(typed).len() == 0 ==> next == state && sent.len() == 0
            &&& after_ui_event(state, UiEvent::Cancel) == (state, Seq::<RequestView>::empty())
            &&& after_ui_event(state, UiEvent::SubmitPrompt) == (
                state,
                Seq::<RequestView>::empty(),
            )
        }),
        ({
            let (next, sent) = after_ui_event(prompt, UiEvent::SubmitPrompt);
            &&& next is Waiting && user_of(next) == user_of(prompt)
            &&& sent.len() == 1 && sent[0] == (RequestView::PostAuthResponse {
                response: Some(prompt->Prompt_input),
            })
        }),
        ({
            let (a, sent_a) = after_ui_event(prompt, UiEvent::Cancel);
            let (b, sent_b) = after_ui_event(waiting, UiEvent::Cancel);
            &&& a is EnterUsername && a->EnterUsername_error is None && user_of(a) == user_of(
                prompt,
            )
            &&& b is EnterUsername && b->EnterUsername_error is None && user_of(b) == user_of(
                waiting,
            )
            &&& sent_a.len() == 1 && sent_a[0] is CancelSession
            &&& sent_b.len() == 1 && sent_b[0] is CancelSession
        }),
        after_ui_event(waiting, UiEvent::SubmitUsername) == (waiting, Seq::<RequestView>::empty()),
        after_ui_event(waiting, UiEvent::SubmitPrompt) == (waiting, Seq::<RequestView>::empty()),
        after_ui_event(prompt, UiEvent::SubmitUsername) == (prompt, Seq::<RequestView>::empty()),
{
}

/// What the daemon says is shown: a question becomes the prompt, with nothing
/// typed into it yet; a failure leads back to the user name and says why; the
/// start of the session ends the login. What was typed outlives a remark.
pub proof fn law_daemon_is_heard(
    state: LoginView,
    style: AuthMessageStyle,
    message: Seq<char>,
)
    requires
        state is Waiting || state is Prompt,
    ensures
        ({
            let next = after_response(state, ResponseView::AuthMessage { style, message });
            let failed = after_response(state, ResponseView::AuthError { message });
            let asks = style == AuthMessageStyle::Secret || style == AuthMessageStyle::Visible;
            &&& asks ==> next is Prompt && next->Prompt_style == style && next->Prompt_message
                == message && next->Prompt_input.len() == 0
            &&& !asks && state is Prompt ==> next is Prompt && next->Prompt_style
                == state->Prompt_style && next->Prompt_message == state->Prompt_message
                && next->Prompt_input == state->Prompt_input && next->Prompt_notices.last() == (
                style,
                message,
            )
            &&& !asks && state is Waiting ==> next is Waiting && next->Waiting_notices.last() == (
                style,
                message,
            )
            &&& user_of(next) == user_of(state)
            &&& failed is EnterUsername && failed->EnterUsername_error == Some(message)
            &&& user_of(failed) == user_of(state)
        }),
        after_response(state, ResponseView::SessionStarted) is Done,
        after_response(
            LoginView::EnterUsername { username: message, error: None },
            ResponseView::SessionStarted,
        ) is Done,
{
}

} // verus!
