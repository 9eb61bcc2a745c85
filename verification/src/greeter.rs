//! The greeter as a state machine: keys, the pointer and messages of the
//! daemon go in, and what is to be done comes out.

use crate::ipc_client::{request_views, Request, RequestView, Response, ResponseView};
use crate::keymap::{
    console_of, is_modifier_key, keycode_to_char, modifiers_after, typed_char, vt_switch_target,
    Modifiers, KEY_BACKSPACE, KEY_ENTER, KEY_ESC,
};
use crate::login::{after_response, after_ui_event, LoginState, LoginView, UiEvent};
use crate::render::{in_i32, within, FrameHitTargets, PowerAction, Rect};
use crate::text::{trimmed, views};
use vstd::prelude::*;

verus! {

/// When the screen is to be drawn again.
#[derive(Debug, Clone, Copy, PartialEq, Eq, Structural)]
pub enum Redraw {
    No,
    /// Unless a page flip is still pending.
    WhenIdle,
    Now,
}

/// What is to be done after an event.
#[derive(Debug)]
pub struct Reaction {
    /// Requests to queue for the daemon.
    pub requests: Vec<Request>,
    /// Whether to push what is queued to the socket.
    pub flush: bool,
    /// The console to switch to.
    pub change_vt: Option<i32>,
    /// The power action to launch.
    pub launch: Option<PowerAction>,
    pub redraw: Redraw,
    /// Whether to leave the event loop.
    pub stop: bool,
}

/// The value of a [`Reaction`].
pub ghost struct ReactionView {
    pub requests: Seq<RequestView>,
    pub flush: bool,
    pub change_vt: Option<i32>,
    pub launch: Option<PowerAction>,
    pub redraw: Redraw,
    pub stop: bool,
}

impl View for Reaction {
    type V = ReactionView;

    open spec fn view(&self) -> ReactionView {
        ReactionView {
            requests: request_views(self.requests@),
            flush: self.flush,
            change_vt: self.change_vt,
            launch: self.launch,
            redraw: self.redraw,
            stop: self.stop,
        }
    }
}

/// Nothing but a redraw.
pub open spec fn only_redraw(redraw: Redraw) -> ReactionView {
    ReactionView {
        requests: Seq::empty(),
        flush: false,
        change_vt: None,
        launch: None,
        redraw,
        stop: false,
    }
}

fn just(redraw: Redraw) -> (r: Reaction)
    ensures
        r@ == only_redraw(redraw),
{
    let requests: Vec<Request> = Vec::new();
    assert(request_views(requests@) =~= Seq::<RequestView>::empty());
    Reaction { requests, flush: false, change_vt: None, launch: None, redraw, stop: false }
}

/// The state of the greeter.
pub struct Greeter {
    pub login: LoginState,
    pub mods: Modifiers,
    pub session_active: bool,
    pub power_menu_open: bool,
    pub pointer: Option<(i32, i32)>,
    pub frame: FrameHitTargets,
}

/// The value of a [`Greeter`].
pub ghost struct GreeterView {
    pub login: LoginView,
    pub mods: Modifiers,
    pub session_active: bool,
    pub power_menu_open: bool,
    pub pointer: Option<(i32, i32)>,
    pub power_button: Rect,
    pub field: Rect,
    pub items: Seq<(PowerAction, Rect)>,
}

impl View for Greeter {
    type V = GreeterView;

    open spec fn view(&self) -> GreeterView {
        GreeterView {
            login: self.login@,
            mods: self.mods,
            session_active: self.session_active,
            power_menu_open: self.power_menu_open,
            pointer: self.pointer,
            power_button: self.frame.power_button,
            field: self.frame.field,
            items: self.frame.power_menu_items@,
        }
    }
}

/// What Enter submits.
pub open spec fn submitted(login: LoginView) -> Option<UiEvent> {
    match login {
        LoginView::EnterUsername { .. } => Some(UiEvent::SubmitUsername),
        LoginView::Prompt { .. } => Some(UiEvent::SubmitPrompt),
        _ => None,
    }
}

/// The login with one more character in the text that is being typed.
pub open spec fn with_typed(login: LoginView, c: char) -> LoginView {
    match login {
        LoginView::EnterUsername { username, error } => LoginView::EnterUsername {
            username: username.push(c),
            error,
        },
        LoginView::Prompt { username, style, message, input, notices } => LoginView::Prompt {
            username,
            style,
            message,
            input: input.push(c),
            notices,
        },
        same => same,
    }
}

pub open spec fn shortened(s: Seq<char>) -> Seq<char> {
    if s.len() > 0 {
        s.drop_last()
    } else {
        s
    }
}

/// The login without the last character of the text that is being typed.
pub open spec fn with_erased(login: LoginView) -> LoginView {
    match login {
        LoginView::EnterUsername { username, error } => LoginView::EnterUsername {
            username: shortened(username),
            error,
        },
        LoginView::Prompt { username, style, message, input, notices } => LoginView::Prompt {
            username,
            style,
            message,
            input: shortened(input),
            notices,
        },
        same => same,
    }
}

/// The greeter after an event of the login, whose requests are sent.
pub open spec fn after_submit(g: GreeterView, ev: UiEvent) -> (GreeterView, ReactionView) {
    let (login, requests) = after_ui_event(g.login, ev);
    (
        GreeterView { login, ..g },
        ReactionView { requests, flush: true, ..only_redraw(Redraw::WhenIdle) },
    )
}

/// The greeter after a key went down or up.
pub open spec fn after_key(g: GreeterView, keycode: u32, pressed: bool) -> (
    GreeterView,
    ReactionView,
) {
    let mods = modifiers_after(g.mods, keycode, pressed);
    if is_modifier_key(keycode) {
        (GreeterView { mods, ..g }, only_redraw(Redraw::No))
    } else if !pressed {
        (g, only_redraw(Redraw::No))
    } else if g.power_menu_open && keycode == KEY_ESC {
        (GreeterView { power_menu_open: false, ..g }, only_redraw(Redraw::Now))
    } else if g.mods.ctrl && g.mods.alt && console_of(keycode) is Some {
        (g, ReactionView { change_vt: console_of(keycode), ..only_redraw(Redraw::No) })
    } else if keycode == KEY_ENTER {
        match submitted(g.login) {
            Some(ev) => after_submit(g, ev),
            None => (g, only_redraw(Redraw::WhenIdle)),
        }
    } else if keycode == KEY_BACKSPACE {
        (GreeterView { login: with_erased(g.login), ..g }, only_redraw(Redraw::WhenIdle))
    } else if keycode == KEY_ESC {
        after_submit(g, UiEvent::Cancel)
    } else {
        match typed_char(keycode, g.mods.shift, g.mods.caps) {
            Some(c) => (
                GreeterView { login: with_typed(g.login, c), ..g },
                only_redraw(Redraw::WhenIdle),
            ),
            None => (g, only_redraw(Redraw::WhenIdle)),
        }
    }
}

/// The first item under a point.
pub open spec fn item_at(items: Seq<(PowerAction, Rect)>, x: int, y: int) -> Option<PowerAction>
    decreases items.len(),
{
    if items.len() == 0 {
        None
    } else if within(items[0].1, x, y) {
        Some(items[0].0)
    } else {
        item_at(items.drop_first(), x, y)
    }
}

/// The greeter after a click: on an item of the open menu it launches the
/// action, elsewhere but on the button it closes the menu, and on the button it
/// opens a closed one.
pub open spec fn after_click(g: GreeterView) -> (GreeterView, Option<PowerAction>) {
    match g.pointer {
        None => (g, None),
        Some((x, y)) => {
            let on_button = within(g.power_button, x as int, y as int);
            if g.power_menu_open {
                match item_at(g.items, x as int, y as int) {
                    Some(action) => (GreeterView { power_menu_open: false, ..g }, Some(action)),
                    None => (GreeterView { power_menu_open: on_button, ..g }, None),
                }
            } else {
                (GreeterView { power_menu_open: on_button, ..g }, None)
            }
        },
    }
}

/// The button code of the left button of a mouse.
pub const BTN_LEFT: u32 = 0x110;

/// Where the pointer is after a motion; one that was nowhere starts in the corner.
pub open spec fn pointer_after(pointer: Option<(i32, i32)>, dx: int, dy: int) -> Option<
    (i32, i32),
> {
    match pointer {
        Some((x, y)) => Some(((x + dx) as i32, (y + dy) as i32)),
        None => Some((dx as i32, dy as i32)),
    }
}

/// The login after a list of messages.
pub open spec fn after_responses(login: LoginView, list: Seq<ResponseView>) -> LoginView
    decreases list.len(),
{
    if list.len() == 0 {
        login
    } else {
        after_response(after_responses(login, list.drop_last()), list.last())
    }
}

pub open spec fn response_views(list: Seq<Response>) -> Seq<ResponseView> {
    Seq::new(list.len(), |i: int| list[i]@)
}

/// Whether a frame may be drawn now.
pub fn should_render(session_active: bool, flip_pending: bool, redraw: Redraw) -> (r: bool)
    ensures
        r == (session_active && (redraw == Redraw::Now || (redraw == Redraw::WhenIdle
            && !flip_pending))),
{
    session_active && (redraw == Redraw::Now || (redraw == Redraw::WhenIdle && !flip_pending))
}

impl Greeter {
    /// A greeter whose pointer stands in the middle of a screen.
    pub fn new(width: u32, height: u32, session_active: bool) -> (r: Greeter)
        requires
            width <= i32::MAX,
            height <= i32::MAX,
        ensures
            r@ == (GreeterView {
                login: LoginView::EnterUsername { username: Seq::empty(), error: None },
                mods: Modifiers { ctrl: false, alt: false, shift: false, caps: false },
                session_active,
                power_menu_open: false,
                pointer: Some(((width / 2) as i32, (height / 2) as i32)),
                power_button: Rect { x: 0, y: 0, w: 0, h: 0 },
                field: Rect { x: 0, y: 0, w: 0, h: 0 },
                items: Seq::empty(),
            }),
    {
        Greeter {
            login: LoginState::default(),
            mods: Modifiers::default(),
            session_active,
            power_menu_open: false,
            pointer: Some(((width / 2) as i32, (height / 2) as i32)),
            frame: FrameHitTargets::default(),
        }
    }

    /// Closes the power menu.
    pub fn close_power_menu(&mut self)
        ensures
            final(self)@ == (GreeterView { power_menu_open: false, ..old(self)@ }),
    {
        self.power_menu_open = false;
    }

    /// Hands an event to the login; what it asks for is sent.
    pub fn submit_ui_event(&mut self, ev: UiEvent) -> (r: Reaction)
        ensures
            (final(self)@, r@) == after_submit(old(self)@, ev),
    {
        let requests = self.login.on_ui_event(ev);
        Reaction {
            requests,
            flush: true,
            change_vt: None,
            launch: None,
            redraw: Redraw::WhenIdle,
            stop: false,
        }
    }

    fn type_char(&mut self, c: char)
        ensures
            final(self)@ == (GreeterView { login: with_typed(old(self)@.login, c), ..old(self)@ }),
    {
        match &mut self.login {
            LoginState::EnterUsername { username, .. } => username.push(c),
            LoginState::Prompt { input, .. } => input.push(c),
            _ => {},
        }
    }

    fn erase_char(&mut self)
        ensures
            final(self)@ == (GreeterView { login: with_erased(old(self)@.login), ..old(self)@ }),
    {
        match &mut self.login {
            LoginState::EnterUsername { username, .. } => {
                username.pop();
            },
            LoginState::Prompt { input, .. } => {
                input.pop();
            },
            _ => {},
        }
    }

    /// A key went down or up.
    pub fn on_key(&mut self, keycode: u32, pressed: bool) -> (r: Reaction)
        ensures
            (final(self)@, r@) == after_key(old(self)@, keycode, pressed),
    {
        if self.mods.track(keycode, pressed) {
            return just(Redraw::No);
        }
        if !pressed {
            return just(Redraw::No);
        }
        if self.power_menu_open && keycode == KEY_ESC {
            self.close_power_menu();
            return just(Redraw::Now);
        }
        if self.mods.ctrl && self.mods.alt {
            if let Some(vt) = vt_switch_target(keycode) {
                let mut reaction = just(Redraw::No);
                reaction.change_vt = Some(vt);
                return reaction;
            }
        }
        if keycode == KEY_ENTER {
            let ev = match &self.login {
                LoginState::EnterUsername { .. } => Some(UiEvent::SubmitUsername),
                LoginState::Prompt { .. } => Some(UiEvent::SubmitPrompt),
                _ => None,
            };
            if let Some(ev) = ev {
                return self.submit_ui_event(ev);
            }
        } else if keycode == KEY_BACKSPACE {
            self.erase_char();
        } else if keycode == KEY_ESC {
            return self.submit_ui_event(UiEvent::Cancel);
        } else if let Some(c) = keycode_to_char(keycode, self.mods.shift, self.mods.caps) {
            self.type_char(c);
        }
        just(Redraw::WhenIdle)
    }

    /// The left button was pressed. Returns the power action to launch.
    pub fn handle_primary_click(&mut self) -> (r: Option<PowerAction>)
        ensures
            (final(self)@, r) == after_click(old(self)@),
    {
        if let Some((x, y)) = self.pointer {
            if self.power_menu_open {
                let ghost items = self.frame.power_menu_items@;
                let mut i: usize = 0;
                assert(items.skip(0) =~= items);
                while i < self.frame.power_menu_items.len()
                    invariant
                        i <= self.frame.power_menu_items.len(),
                        items == self.frame.power_menu_items@,
                        self@ == old(self)@,
                        self.pointer == Some((x, y)),
                        self.power_menu_open,
                        item_at(items, x as int, y as int) == item_at(
                            items.skip(i as int),
                            x as int,
                            y as int,
                        ),
                    decreases self.frame.power_menu_items.len() - i,
                {
                    let (action, rect) = self.frame.power_menu_items[i];
                    assert(items.skip(i as int)[0] == items[i as int]);
                    assert(items.skip(i as int).drop_first() =~= items.skip(i + 1));
                    if rect.contains(x, y) {
                        self.close_power_menu();
                        return Some(action);
                    }
                    i += 1;
                }
                if !self.frame.power_button.contains(x, y) {
                    self.close_power_menu();
                }
                return None;
            }
            if self.frame.power_button.contains(x, y) {
                self.power_menu_open = true;
            }
        }
        None
    }

    /// A button went down or up: the left one clicks when it goes down.
    pub fn on_button(&mut self, button: u32, pressed: bool) -> (r: Reaction)
        ensures
            if button == BTN_LEFT && pressed {
                &&& final(self)@ == after_click(old(self)@).0
                &&& r@ == (ReactionView {
                    launch: after_click(old(self)@).1,
                    ..only_redraw(Redraw::WhenIdle)
                })
            } else {
                final(self)@ == old(self)@ && r@ == only_redraw(Redraw::No)
            },
    {
        if button == BTN_LEFT && pressed {
            let launch = self.handle_primary_click();
            let mut reaction = just(Redraw::WhenIdle);
            reaction.launch = launch;
            reaction
        } else {
            just(Redraw::No)
        }
    }

    /// The pointer moved by a number of whole pixels.
    pub fn handle_pointer_motion(&mut self, dx: i32, dy: i32) -> (r: Reaction)
        requires
            match old(self).pointer {
                Some((x, y)) => in_i32(x + dx) && in_i32(y + dy),
                None => true,
            },
        ensures
            final(self)@.pointer == pointer_after(old(self)@.pointer, dx as int, dy as int),
            r@ == only_redraw(Redraw::WhenIdle),
            final(self)@ == (GreeterView {
                pointer: match old(self)@.pointer {
                    Some((x, y)) => Some(((x + dx) as i32, (y + dy) as i32)),
                    None => Some((dx, dy)),
                },
                ..old(self)@
            }),
    {
        let (x, y) = match self.pointer {
            Some((x, y)) => (x, y),
            None => (0, 0),
        };
        self.pointer = Some((x + dx, y + dy));
        just(Redraw::WhenIdle)
    }

    /// The pointer was put somewhere.
    pub fn handle_pointer_absolute(&mut self, x: i32, y: i32) -> (r: Reaction)
        ensures
            r@ == only_redraw(Redraw::WhenIdle),
            final(self)@ == (GreeterView { pointer: Some((x, y)), ..old(self)@ }),
    {
        self.pointer = Some((x, y));
        just(Redraw::WhenIdle)
    }

    /// The seat was taken away or given back. It is drawn to again at once.
    pub fn on_session(&mut self, active: bool) -> (r: Reaction)
        ensures
            final(self)@ == (GreeterView { session_active: active, ..old(self)@ }),
            r@ == only_redraw(
                if active {
                    Redraw::Now
                } else {
                    Redraw::No
                },
            ),
    {
        self.session_active = active;
        if active {
            just(Redraw::Now)
        } else {
            just(Redraw::No)
        }
    }

    /// Messages of the daemon arrived. The loop ends once the session started.
    pub fn on_responses(&mut self, list: Vec<Response>) -> (r: Reaction)
        ensures
            final(self)@ == (GreeterView {
                login: after_responses(old(self)@.login, response_views(list@)),
                ..old(self)@
            }),
            r@ == (ReactionView {
                stop: after_responses(old(self)@.login, response_views(list@)) is Done,
                ..only_redraw(Redraw::Now)
            }),
    {
        let ghost all = response_views(list@);
        let ghost before = self@;
        let mut rest = list;
        let ghost mut n: int = 0;
        assert(all.take(0) =~= Seq::<ResponseView>::empty());
        assert(response_views(rest@) =~= all.skip(0));
        while rest.len() > 0
            invariant
                0 <= n,
                n + rest.len() == all.len(),
                response_views(rest@) == all.skip(n),
                before == old(self)@,
                self@ == (GreeterView { login: after_responses(before.login, all.take(n)), ..before }),
            decreases rest.len(),
        {
            let ghost left = rest@;
            let resp = rest.remove(0);
            proof {
                assert(response_views(left)[0] == resp@);
                assert(all[n] == resp@);
                assert(all.take(n + 1).drop_last() =~= all.take(n));
                assert(response_views(rest@) =~= response_views(left).drop_first());
                assert(all.skip(n).drop_first() =~= all.skip(n + 1));
                n = n + 1;
            }
            self.login.on_response(resp);
        }
        assert(all.take(n) =~= all);
        let stop = self.login.is_done();
        let mut reaction = just(Redraw::Now);
        reaction.stop = stop;
        reaction
    }
}

pub open spec fn power_verb(action: PowerAction) -> Seq<char> {
    match action {
        PowerAction::Suspend => "suspend"@,
        PowerAction::Hibernate => "hibernate"@,
        PowerAction::Restart => "reboot"@,
        PowerAction::PowerOff => "poweroff"@,
    }
}

/// The arguments of `systemctl` that launch a power action.
pub fn launch_power_action(action: PowerAction) -> (r: Vec<String>)
    ensures
        views(r@) == seq!["--no-block"@, power_verb(action)],
{
    let verb = match action {
        PowerAction::Suspend => "suspend",
        PowerAction::Hibernate => "hibernate",
        PowerAction::Restart => "reboot",
        PowerAction::PowerOff => "poweroff",
    };
    let mut out: Vec<String> = Vec::new();
    out.push("--no-block".to_owned());
    out.push(verb.to_owned());
    assert(views(out@) =~= seq!["--no-block"@, power_verb(action)]);
    out
}

/// What is typed into a field comes back out of it: a typing key followed by
/// Backspace leaves the login as it was.
pub proof fn law_backspace_undoes_typing(g: GreeterView, keycode: u32)
    requires
        typed_char(keycode, g.mods.shift, g.mods.caps) is Some,
        !(g.mods.ctrl && g.mods.alt),
    ensures
        after_key(after_key(g, keycode, true).0, KEY_BACKSPACE, true).0 == g,
{
    crate::keymap::law_typing_keys_are_separate(keycode);
    let c = typed_char(keycode, g.mods.shift, g.mods.caps)->Some_0;
    match g.login {
        LoginView::EnterUsername { username, .. } => {
            assert(username.push(c).drop_last() =~= username);
        },
        LoginView::Prompt { input, .. } => {
            assert(input.push(c).drop_last() =~= input);
        },
        _ => {},
    }
    assert(with_erased(with_typed(g.login, c)) == g.login);
}

/// A click launches a power action only while the menu is open and the pointer
/// is on that action's item, and then the menu is closed.
pub proof fn law_click_launches_what_is_under_it(g: GreeterView)
    ensures
        after_click(g).1 is Some ==> g.power_menu_open && g.pointer is Some
            && !after_click(g).0.power_menu_open && exists|i: int|
            0 <= i < g.items.len() && (#[trigger] g.items[i]).0 == after_click(g).1->Some_0
                && within(g.items[i].1, g.pointer->Some_0.0 as int, g.pointer->Some_0.1 as int),
{
    if let Some((x, y)) = g.pointer {
        lemma_item_at(g.items, x as int, y as int);
    }
}

proof fn lemma_item_at(items: Seq<(PowerAction, Rect)>, x: int, y: int)
    ensures
        item_at(items, x, y) is Some ==> exists|i: int|
            0 <= i < items.len() && (#[trigger] items[i]).0 == item_at(items, x, y)->Some_0
                && within(items[i].1, x, y),
    decreases items.len(),
{
    if items.len() > 0 && !within(items[0].1, x, y) {
        let rest = items.drop_first();
        lemma_item_at(rest, x, y);
        if item_at(rest, x, y) is Some {
            let i = choose|i: int|
                0 <= i < rest.len() && (#[trigger] rest[i]).0 == item_at(rest, x, y)->Some_0
                    && within(rest[i].1, x, y);
            assert(items[i + 1] == rest[i]);
        }
    }
}

/// Nothing that is typed or clicked gets the greeter out of the state in which
/// the session has started.
pub proof fn law_done_ignores_keys(g: GreeterView, keycode: u32, pressed: bool)
    requires
        g.login is Done,
    ensures
        after_key(g, keycode, pressed).0.login is Done,
        after_key(g, keycode, pressed).1.requests.len() == 0,
{
}

/// The text of the field that is being filled in.
pub open spec fn text_in(login: LoginView) -> Option<Seq<char>> {
    match login {
        LoginView::EnterUsername { username, .. } => Some(username),
        LoginView::Prompt { input, .. } => Some(input),
        _ => None,
    }
}

/// A key that types a character puts it behind the text of the field; Backspace
/// takes the last one away; neither sends anything, and neither touches anything
/// else. What is released, other than a modifier, does nothing.
pub proof fn law_keys_edit_the_field(g: GreeterView, keycode: u32)
    requires
        !(g.mods.ctrl && g.mods.alt),
    ensures
        typed_char(keycode, g.mods.shift, g.mods.caps) is Some && text_in(g.login) is Some ==> {
            let (next, reaction) = after_key(g, keycode, true);
            let c = typed_char(keycode, g.mods.shift, g.mods.caps)->Some_0;
            &&& text_in(next.login) == Some(text_in(g.login)->Some_0.push(c))
            &&& reaction.requests.len() == 0 && reaction.change_vt is None
                && reaction.launch is None && !reaction.stop
            &&& next.mods == g.mods && next.power_menu_open == g.power_menu_open && next.pointer
                == g.pointer
        },
        text_in(g.login) is Some ==> {
            let (next, reaction) = after_key(g, KEY_BACKSPACE, true);
            let text = text_in(g.login)->Some_0;
            &&& text.len() > 0 ==> text_in(next.login) == Some(text.drop_last())
            &&& text.len() == 0 ==> text_in(next.login) == Some(text)
            &&& reaction.requests.len() == 0
        },
        !is_modifier_key(keycode) ==> after_key(g, keycode, false).0 == g && after_key(
            g,
            keycode,
            false,
        ).1.requests.len() == 0,
{
    crate::keymap::law_typing_keys_are_separate(keycode);
}

/// Enter sends what the field holds, and sends it at once; Escape takes a login
/// back, but where the power menu is open it only closes the menu.
pub proof fn law_enter_and_escape(g: GreeterView)
    ensures
        ({
            let (next, reaction) = after_key(g, KEY_ENTER, true);
            &&& g.login is EnterUsername && trimmed(g.login->EnterUsername_username).len() > 0
                ==> reaction.flush && reaction.requests.len() == 1 && reaction.requests[0] == (
            RequestView::CreateSession { username: trimmed(g.login->EnterUsername_username) })
                && next.login is Waiting
            &&& g.login is Prompt ==> reaction.flush && reaction.requests.len() == 1
                && reaction.requests[0] == (RequestView::PostAuthResponse {
                response: Some(g.login->Prompt_input),
            }) && next.login is Waiting
            &&& g.login is Waiting || g.login is Done ==> next == g && reaction.requests.len()
                == 0
        }),
        ({
            let (next, reaction) = after_key(g, KEY_ESC, true);
            &&& g.power_menu_open ==> !next.power_menu_open && next.login == g.login
                && reaction.requests.len() == 0
            &&& !g.power_menu_open && (g.login is Prompt || g.login is Waiting)
                ==> next.login is EnterUsername && reaction.flush && reaction.requests.len() == 1
                && reaction.requests[0] is CancelSession
        }),
{
}

/// The console is switched by Ctrl, Alt and a function key together, and by
/// nothing else; the login is left as it is then.
pub proof fn law_console_keys(g: GreeterView, keycode: u32)
    ensures
        ({
            let (next, reaction) = after_key(g, keycode, true);
            &&& reaction.change_vt is Some ==> g.mods.ctrl && g.mods.alt && reaction.change_vt
                == console_of(keycode) && next == g
            &&& g.mods.ctrl && g.mods.alt && console_of(keycode) is Some ==> reaction.change_vt
                == console_of(keycode)
        }),
        after_key(g, keycode, false).1.change_vt is None,
{
}

/// A click with the menu open launches the action whose item is under the
/// pointer, where only one is; a click on the button opens the menu, a click
/// beside everything closes it, and neither launches anything.
pub proof fn law_clicks(g: GreeterView, i: int)
    requires
        g.pointer is Some,
    ensures
        ({
            let (x, y) = (g.pointer->Some_0.0 as int, g.pointer->Some_0.1 as int);
            let (next, launched) = after_click(g);
            &&& g.power_menu_open && 0 <= i < g.items.len() && within(g.items[i].1, x, y) && (
            forall|j: int|
                0 <= j < g.items.len() && j != i ==> !within((#[trigger] g.items[j]).1, x, y))
                ==> launched == Some(g.items[i].0) && !next.power_menu_open
            &&& !g.power_menu_open ==> launched is None
            &&& within(g.power_button, x, y) && !g.power_menu_open ==> next.power_menu_open
            &&& !within(g.power_button, x, y) ==> !next.power_menu_open
            &&& (forall|j: int|
                0 <= j < g.items.len() ==> !within((#[trigger] g.items[j]).1, x, y))
                ==> launched is None
            &&& next.login == g.login && next.mods == g.mods && next.pointer == g.pointer
        }),
{
    let (x, y) = (g.pointer->Some_0.0 as int, g.pointer->Some_0.1 as int);
    lemma_item_at(g.items, x, y);
    if 0 <= i < g.items.len() && within(g.items[i].1, x, y) {
        lemma_item_there(g.items, x, y, i);
    }
}

proof fn lemma_item_there(items: Seq<(PowerAction, Rect)>, x: int, y: int, i: int)
    requires
        0 <= i < items.len(),
        within(items[i].1, x, y),
    ensures
        item_at(items, x, y) is Some,
    decreases items.len(),
{
    if !within(items[0].1, x, y) {
        let rest = items.drop_first();
        assert(rest[i - 1] == items[i]);
        lemma_item_there(rest, x, y, i - 1);
    }
}

/// Each power action is carried out by a command of its own: the machine that is
/// to sleep is not turned off.
pub proof fn law_power_verbs(a: PowerAction, b: PowerAction)
    ensures
        power_verb(a) == power_verb(b) ==> a == b,
        power_verb(PowerAction::PowerOff) == "poweroff"@,
        power_verb(PowerAction::Restart) == "reboot"@,
        power_verb(PowerAction::Suspend) == "suspend"@,
        power_verb(PowerAction::Hibernate) == "hibernate"@,
{
    reveal_strlit("poweroff");
    reveal_strlit("reboot");
    reveal_strlit("suspend");
    reveal_strlit("hibernate");
    assert("poweroff"@.len() == 8 && "reboot"@.len() == 6 && "suspend"@.len() == 7
        && "hibernate"@.len() == 9);
}

/// Two motions of the pointer are one of their sum, and it ends where it began
/// when it is moved back.
pub proof fn law_pointer_motion(x: i32, y: i32, dx: int, dy: int, ex: int, ey: int)
    requires
        in_i32(x + dx),
        in_i32(y + dy),
        in_i32(x + dx + ex),
        in_i32(y + dy + ey),
    ensures
        pointer_after(Some((x, y)), dx, dy)->Some_0.0 == x + dx,
        pointer_after(Some((x, y)), dx, dy)->Some_0.1 == y + dy,
        pointer_after(pointer_after(Some((x, y)), dx, dy), ex, ey) == pointer_after(
            Some((x, y)),
            dx + ex,
            dy + ey,
        ),
        pointer_after(pointer_after(Some((x, y)), dx, dy), -dx, -dy) == Some((x, y)),
        in_i32(dx) && in_i32(dy) ==> pointer_after(None, dx, dy) == Some((dx as i32, dy as i32)),
{
}

/// Messages are taken in the order in which they came, however they were
/// bundled, and once one of them says that the session started the login is
/// done.
pub proof fn law_messages_in_order(login: LoginView, a: Seq<ResponseView>, b: Seq<ResponseView>)
    ensures
        after_responses(login, a + b) == after_responses(after_responses(login, a), b),
        b.contains(ResponseView::SessionStarted) ==> after_responses(login, b) is Done,
    decreases b.len(),
{
    if b.len() == 0 {
        assert(a + b =~= a);
    } else {
        let front = b.drop_last();
        law_messages_in_order(login, a, front);
        assert((a + b).drop_last() =~= a + front);
        assert((a + b).last() == b.last());
        if b.contains(ResponseView::SessionStarted) && b.last() != ResponseView::SessionStarted {
            let k = choose|k: int| 0 <= k < b.len() && b[k] == ResponseView::SessionStarted;
            assert(front[k] == ResponseView::SessionStarted);
        }
    }
}

} // verus!
