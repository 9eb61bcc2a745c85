//! The supervision of the greeter: respawning it, driving one login through
//! it, and handing the console over to the session.

use crate::ipc::{AuthMessageStyle, Response, ResponseView};
use crate::ipc_client::PowerAction;
use crate::text::opt_view;
use vstd::prelude::*;

verus! {

// ---------------------------------------------------------------------------
// Respawning
// ---------------------------------------------------------------------------

/// The delay before each start of the greeter, so that one that crashes cannot
/// keep the processor busy.
#[derive(Debug, Clone, Copy, PartialEq, Eq, Structural)]
pub struct Backoff {
    /// When the greeter was started last, in nanoseconds.
    pub last_spawn: i128,
    /// In milliseconds.
    pub delay: u64,
}

/// The shortest and the longest delay, in milliseconds.
pub const MIN_DELAY: u64 = 200;

pub const MAX_DELAY: u64 = 10_000;

/// A greeter that lived longer than this is healthy, in nanoseconds.
pub const HEALTHY: i128 = 10_000_000_000;

/// The delay after a greeter that lived for so long.
pub open spec fn delay_after(delay: int, lived: int) -> int {
    if lived > HEALTHY {
        MIN_DELAY as int
    } else if delay * 2 < MAX_DELAY {
        delay * 2
    } else {
        MAX_DELAY as int
    }
}

impl Backoff {
    /// The delay is within its limits, and the last start is a time, or a
    /// minute before one.
    pub open spec fn wf(self) -> bool {
        &&& MIN_DELAY <= self.delay <= MAX_DELAY
        &&& i64::MIN - 60_000_000_000 <= self.last_spawn <= i64::MAX
    }

    /// No greeter was started within the last minute before `now`.
    pub fn new(now: i64) -> (r: Backoff)
        ensures
            r.wf(),
            r.last_spawn == now - 60_000_000_000,
            r.delay == MIN_DELAY,
    {
        Backoff { last_spawn: now as i128 - 60_000_000_000, delay: MIN_DELAY }
    }

    /// The delay before the next start, at the time `now`.
    pub fn next_delay(&mut self, now: i64) -> (r: u64)
        requires
            old(self).wf(),
        ensures
            final(self).wf(),
            r == delay_after(old(self).delay as int, now - old(self).last_spawn),
            final(self).delay == r,
            final(self).last_spawn == now,
    {
        let lived: i128 = now as i128 - self.last_spawn;
        if lived > HEALTHY {
            self.delay = MIN_DELAY;
        } else if self.delay * 2 < MAX_DELAY {
            self.delay = self.delay * 2;
        } else {
            self.delay = MAX_DELAY;
        }
        self.last_spawn = now as i128;
        self.delay
    }
}

/// `base` doubled `n` times, but at most the longest delay.
pub open spec fn doubled(base: int, n: int) -> int
    decreases n,
{
    if n <= 0 {
        base
    } else {
        delay_after(doubled(base, n - 1), 0)
    }
}

pub open spec fn power_of_two(n: int) -> int
    decreases n,
{
    if n <= 0 {
        1
    } else {
        2 * power_of_two(n - 1)
    }
}

/// Crash after crash the delay doubles up to its limit: after `n` crashes it is
/// 200 ms times 2 to the `n`, or 10 s.
pub proof fn law_backoff_doubles(n: int)
    requires
        0 <= n,
    ensures
        doubled(MIN_DELAY as int, n) == if MIN_DELAY * power_of_two(n) < MAX_DELAY {
            MIN_DELAY * power_of_two(n)
        } else {
            MAX_DELAY as int
        },
        power_of_two(n) >= 1,
    decreases n,
{
    if n > 0 {
        law_backoff_doubles(n - 1);
    }
}

/// The first greeter is started after the shortest delay, and so is each that
/// follows a healthy one; the delay is always within its limits.
pub proof fn law_backoff_bounds(delay: int, lived: int)
    requires
        MIN_DELAY <= delay <= MAX_DELAY,
    ensures
        MIN_DELAY <= delay_after(delay, lived) <= MAX_DELAY,
        delay_after(delay, 60_000_000_000) == MIN_DELAY,
        lived <= HEALTHY ==> delay_after(delay, lived) >= delay,
        lived > 10_000_000_000 ==> delay_after(delay, lived) == 200,
        lived <= 10_000_000_000 && delay <= 5_000 ==> delay_after(delay, lived) == 2 * delay,
        lived <= 10_000_000_000 && delay > 5_000 ==> delay_after(delay, lived) == 10_000,
{
}

// ---------------------------------------------------------------------------
// One login
// ---------------------------------------------------------------------------

/// What is under way while the greeter is on the screen.
#[derive(Debug, Clone, Copy, PartialEq, Eq, Structural)]
pub struct Drive {
    /// A PAM transaction runs.
    pub in_flight: bool,
    /// It waits for an answer.
    pub awaiting_reply: bool,
}

/// What can happen while the greeter is on the screen.
#[derive(Debug)]
pub enum DriveEvent {
    GreeterExited,
    CreateSession { username: String },
    PostAuthResponse { response: Option<String> },
    CancelSession,
    Power { action: PowerAction },
    /// PAM shows or asks something; only a prompt takes an answer.
    Prompt { style: AuthMessageStyle, message: String, takes_reply: bool },
    Succeeded,
    Failed { message: String },
}

/// What the daemon does about it.
#[derive(Debug)]
pub enum DriveAction {
    Nothing,
    /// Have the system carry out a power operation.
    Power { action: PowerAction },
    /// Start a PAM transaction.
    Start { username: String },
    Send { response: Response },
    /// Hand an answer to PAM.
    Reply { text: String },
    /// Tell PAM that there will be no answer.
    DropReply,
    /// Give the transaction up.
    DropTransaction,
    /// Send a failure and give the transaction up.
    SendAndDrop { response: Response },
    /// The greeter is gone.
    Crashed,
    /// Tell the greeter that the session starts, and go on to the handoff.
    Authenticated { response: Response },
}

/// The value of a [`DriveEvent`].
pub ghost enum DriveEventView {
    GreeterExited,
    CreateSession { username: Seq<char> },
    PostAuthResponse { response: Option<Seq<char>> },
    CancelSession,
    Power { action: PowerAction },
    Prompt { style: AuthMessageStyle, message: Seq<char>, takes_reply: bool },
    Succeeded,
    Failed { message: Seq<char> },
}

/// The value of a [`DriveAction`].
pub ghost enum DriveActionView {
    Nothing,
    Power { action: PowerAction },
    Start { username: Seq<char> },
    Send { response: ResponseView },
    Reply { text: Seq<char> },
    DropReply,
    DropTransaction,
    SendAndDrop { response: ResponseView },
    Crashed,
    Authenticated { response: ResponseView },
}

impl View for DriveEvent {
    type V = DriveEventView;

    open spec fn view(&self) -> DriveEventView {
        match *self {
            DriveEvent::GreeterExited => DriveEventView::GreeterExited,
            DriveEvent::CreateSession { username } => DriveEventView::CreateSession {
                username: username@,
            },
            DriveEvent::PostAuthResponse { response } => DriveEventView::PostAuthResponse {
                response: opt_view(response),
            },
            DriveEvent::CancelSession => DriveEventView::CancelSession,
            DriveEvent::Power { action } => DriveEventView::Power { action },
            DriveEvent::Prompt { style, message, takes_reply } => DriveEventView::Prompt {
                style,
                message: message@,
                takes_reply,
            },
            DriveEvent::Succeeded => DriveEventView::Succeeded,
            DriveEvent::Failed { message } => DriveEventView::Failed { message: message@ },
        }
    }
}

impl View for DriveAction {
    type V = DriveActionView;

    open spec fn view(&self) -> DriveActionView {
        match *self {
            DriveAction::Nothing => DriveActionView::Nothing,
            DriveAction::Power { action } => DriveActionView::Power { action },
            DriveAction::Start { username } => DriveActionView::Start { username: username@ },
            DriveAction::Send { response } => DriveActionView::Send { response: response@ },
            DriveAction::Reply { text } => DriveActionView::Reply { text: text@ },
            DriveAction::DropReply => DriveActionView::DropReply,
            DriveAction::DropTransaction => DriveActionView::DropTransaction,
            DriveAction::SendAndDrop { response } => DriveActionView::SendAndDrop {
                response: response@,
            },
            DriveAction::Crashed => DriveActionView::Crashed,
            DriveAction::Authenticated { response } => DriveActionView::Authenticated {
                response: response@,
            },
        }
    }
}

/// Nothing is under way.
pub open spec fn idle() -> Drive {
    Drive { in_flight: false, awaiting_reply: false }
}

/// What is under way after an event, and what is done about it.
pub open spec fn driven(d: Drive, ev: DriveEventView) -> (Drive, DriveActionView) {
    match ev {
        DriveEventView::GreeterExited => (d, DriveActionView::Crashed),
        DriveEventView::CreateSession { username } => if d.in_flight {
            (
                d,
                DriveActionView::Send {
                    response: ResponseView::AuthError {
                        message: "authentication already in progress"@,
                    },
                },
            )
        } else {
            (Drive { in_flight: true, ..d }, DriveActionView::Start { username })
        },
        DriveEventView::PostAuthResponse { response } => (
            Drive { awaiting_reply: false, ..d },
            if !d.awaiting_reply {
                DriveActionView::Nothing
            } else {
                match response {
                    Some(text) => DriveActionView::Reply { text },
                    None => DriveActionView::DropReply,
                }
            },
        ),
        DriveEventView::CancelSession => (idle(), DriveActionView::DropTransaction),
        DriveEventView::Power { action } => (d, DriveActionView::Power { action }),
        DriveEventView::Prompt { style, message, takes_reply } => (
            Drive { awaiting_reply: takes_reply, ..d },
            DriveActionView::Send { response: ResponseView::AuthMessage { style, message } },
        ),
        DriveEventView::Succeeded => (
            d,
            DriveActionView::Authenticated { response: ResponseView::SessionStarted },
        ),
        DriveEventView::Failed { message } => (
            idle(),
            DriveActionView::SendAndDrop { response: ResponseView::AuthError { message } },
        ),
    }
}

impl Drive {
    /// Nothing is under way.
    pub fn new() -> (r: Drive)
        ensures
            r == idle(),
    {
        Drive { in_flight: false, awaiting_reply: false }
    }

    /// Takes note of an event; returns what to do about it.
    pub fn on_event(&mut self, ev: DriveEvent) -> (r: DriveAction)
        ensures
            (*final(self), r@) == driven(*old(self), ev@),
    {
        match ev {
            DriveEvent::GreeterExited => DriveAction::Crashed,
            DriveEvent::CreateSession { username } => {
                if self.in_flight {
                    DriveAction::Send {
                        response: Response::AuthError {
                            message: "authentication already in progress".to_owned(),
                        },
                    }
                } else {
                    self.in_flight = true;
                    DriveAction::Start { username }
                }
            },
            DriveEvent::PostAuthResponse { response } => {
                let awaited = self.awaiting_reply;
                self.awaiting_reply = false;
                if !awaited {
                    DriveAction::Nothing
                } else {
                    match response {
                        Some(text) => DriveAction::Reply { text },
                        None => DriveAction::DropReply,
                    }
                }
            },
            DriveEvent::CancelSession => {
                *self = Drive::new();
                DriveAction::DropTransaction
            },
            DriveEvent::Power { action } => DriveAction::Power { action },
            DriveEvent::Prompt { style, message, takes_reply } => {
                self.awaiting_reply = takes_reply;
                DriveAction::Send { response: Response::AuthMessage { style, message } }
            },
            DriveEvent::Succeeded => DriveAction::Authenticated {
                response: Response::SessionStarted,
            },
            DriveEvent::Failed { message } => {
                *self = Drive::new();
                DriveAction::SendAndDrop { response: Response::AuthError { message } }
            },
        }
    }
}

/// Whether an event can happen: PAM only speaks while a transaction runs.
pub open spec fn possible(d: Drive, ev: DriveEventView) -> bool {
    (ev is Prompt || ev is Succeeded || ev is Failed) ==> d.in_flight
}

/// What is under way after a list of events.
pub open spec fn driven_by(events: Seq<DriveEventView>) -> Drive
    decreases events.len(),
{
    if events.len() == 0 {
        idle()
    } else {
        driven(driven_by(events.drop_last()), events.last()).0
    }
}

/// Each event of a list could happen when it did.
pub open spec fn plausible(events: Seq<DriveEventView>) -> bool
    decreases events.len(),
{
    events.len() == 0 || (plausible(events.drop_last()) && possible(
        driven_by(events.drop_last()),
        events.last(),
    ))
}

/// An answer is only awaited while a transaction runs.
pub proof fn law_reply_needs_transaction(events: Seq<DriveEventView>)
    requires
        plausible(events),
    ensures
        driven_by(events).awaiting_reply ==> driven_by(events).in_flight,
    decreases events.len(),
{
    if events.len() > 0 {
        law_reply_needs_transaction(events.drop_last());
    }
}

/// A transaction is started only while none runs, an answer reaches PAM only
/// where one is awaited, and at most once for each prompt.
pub proof fn law_one_transaction_at_a_time(d: Drive, ev: DriveEventView, next: DriveEventView)
    ensures
        driven(d, ev).1 is Start ==> !d.in_flight && driven(d, ev).0.in_flight,
        driven(d, ev).1 is Reply ==> d.awaiting_reply && !driven(d, ev).0.awaiting_reply,
        driven(d, ev).1 is Reply ==> !(driven(driven(d, ev).0, next).1 is Reply),
{
}

/// A request for a session while one is under way is answered with an error
/// and changes nothing.
pub proof fn law_second_request_is_refused(d: Drive, username: Seq<char>)
    requires
        d.in_flight,
    ensures
        driven(d, DriveEventView::CreateSession { username }) == (
            d,
            DriveActionView::Send {
                response: ResponseView::AuthError {
                    message: "authentication already in progress"@,
                },
            },
        ),
{
}

/// A power operation is carried out on its request alone, and leaves the login
/// as it is.
pub proof fn law_power_leaves_the_login_alone(d: Drive, ev: DriveEventView)
    ensures
        driven(d, ev).1 is Power <==> ev is Power,
        ev is Power ==> driven(d, ev) == (
            d,
            DriveActionView::Power { action: ev->Power_action },
        ),
{
}

/// The session is started only on the success of a transaction.
pub proof fn law_only_success_authenticates(d: Drive, ev: DriveEventView)
    requires
        possible(d, ev),
    ensures
        driven(d, ev).1 is Authenticated <==> ev is Succeeded,
        driven(d, ev).1 is Authenticated ==> d.in_flight,
{
}

/// What is done about the `i`-th of a list of events.
pub open spec fn answer_to(events: Seq<DriveEventView>, i: int) -> DriveActionView {
    driven(driven_by(events.take(i)), events[i]).1
}

/// Of the first `n` events, one asked for a session and none that followed it
/// gave the session up or said that it had failed.
pub open spec fn login_is_open(events: Seq<DriveEventView>, n: int) -> bool {
    exists|i: int|
        0 <= i < n && (#[trigger] events[i]) is CreateSession && forall|j: int|
            i < j < n ==> !((#[trigger] events[j]) is CancelSession) && !(events[j] is Failed)
}

/// Of the first `n` events, one was a prompt that takes an answer, and since
/// then nothing was answered, prompted, given up or failed.
pub open spec fn prompt_is_open(events: Seq<DriveEventView>, n: int) -> bool {
    exists|i: int|
        0 <= i < n && (#[trigger] events[i]) is Prompt && events[i]->Prompt_takes_reply && forall|
            j: int,
        |
            i < j < n ==> !((#[trigger] events[j]) is Prompt) && !(events[j] is PostAuthResponse)
                && !(events[j] is CancelSession) && !(events[j] is Failed)
}

proof fn lemma_login_is_open(events: Seq<DriveEventView>)
    ensures
        driven_by(events).in_flight <==> login_is_open(events, events.len() as int),
    decreases events.len(),
{
    if events.len() > 0 {
        let front = events.drop_last();
        let last = events.len() - 1;
        lemma_login_is_open(front);
        assert(events[last] == events.last());
        if login_is_open(front, last) && !(events.last() is CancelSession) && !(
        events.last() is Failed) {
            let i = choose|i: int|
                0 <= i < last && (#[trigger] front[i]) is CreateSession && forall|j: int|
                    i < j < last ==> !((#[trigger] front[j]) is CancelSession) && !(
                    front[j] is Failed);
            assert(events[i] == front[i]);
            assert forall|j: int| i < j < events.len() implies !(
            (#[trigger] events[j]) is CancelSession) && !(events[j] is Failed) by {
                if j < last {
                    assert(front[j] == events[j]);
                }
            }
        }
        if login_is_open(events, events.len() as int) && !(events.last() is CreateSession) {
            let i = choose|i: int|
                0 <= i < events.len() && (#[trigger] events[i]) is CreateSession && forall|j: int|
                    i < j < events.len() ==> !((#[trigger] events[j]) is CancelSession) && !(
                    events[j] is Failed);
            assert(i < last);
            assert(front[i] == events[i]);
            assert forall|j: int| i < j < last implies !((#[trigger] front[j]) is CancelSession)
                && !(front[j] is Failed) by {
                assert(front[j] == events[j]);
            }
        }
    }
}

proof fn lemma_prompt_is_open(events: Seq<DriveEventView>)
    ensures
        driven_by(events).awaiting_reply <==> prompt_is_open(events, events.len() as int),
    decreases events.len(),
{
    if events.len() > 0 {
        let front = events.drop_last();
        let last = events.len() - 1;
        lemma_prompt_is_open(front);
        assert(events[last] == events.last());
        let ev = events.last();
        let settles = ev is Prompt || ev is PostAuthResponse || ev is CancelSession
            || ev is Failed;
        if prompt_is_open(front, last) && !settles {
            let i = choose|i: int|
                0 <= i < last && (#[trigger] front[i]) is Prompt && front[i]->Prompt_takes_reply
                    && forall|j: int|
                    i < j < last ==> !((#[trigger] front[j]) is Prompt) && !(
                    front[j] is PostAuthResponse) && !(front[j] is CancelSession) && !(
                    front[j] is Failed);
            assert(events[i] == front[i]);
            assert forall|j: int| i < j < events.len() implies !(
            (#[trigger] events[j]) is Prompt) && !(events[j] is PostAuthResponse) && !(
            events[j] is CancelSession) && !(events[j] is Failed) by {
                if j < last {
                    assert(front[j] == events[j]);
                }
            }
        }
        if prompt_is_open(events, events.len() as int) && !(ev is Prompt) {
            let i = choose|i: int|
                0 <= i < events.len() && (#[trigger] events[i]) is Prompt
                    && events[i]->Prompt_takes_reply && forall|j: int|
                    i < j < events.len() ==> !((#[trigger] events[j]) is Prompt) && !(
                    events[j] is PostAuthResponse) && !(events[j] is CancelSession) && !(
                    events[j] is Failed);
            assert(i < last);
            assert(front[i] == events[i]);
            assert forall|j: int| i < j < last implies !((#[trigger] front[j]) is Prompt) && !(
            front[j] is PostAuthResponse) && !(front[j] is CancelSession) && !(
            front[j] is Failed) by {
                assert(front[j] == events[j]);
            }
        }
    }
}

/// A login that was given up or that failed is over: the next request for a
/// session starts one, for the user that it names. While a login is open, and
/// only then, such a request is refused.
pub proof fn law_login_can_be_tried_again(events: Seq<DriveEventView>, username: Seq<char>)
    ensures
        ({
            let answer = driven(
                driven_by(events),
                DriveEventView::CreateSession { username },
            ).1;
            &&& !login_is_open(events, events.len() as int) <==> answer == (
            DriveActionView::Start { username })
            &&& login_is_open(events, events.len() as int) <==> answer == (DriveActionView::Send {
                response: ResponseView::AuthError {
                    message: "authentication already in progress"@,
                },
            })
        }),
        events.len() > 0 && (events.last() is CancelSession || events.last() is Failed)
            ==> !login_is_open(events, events.len() as int),
        events.len() > 0 && events.last() is CreateSession ==> login_is_open(
            events,
            events.len() as int,
        ),
{
    lemma_login_is_open(events);
    if events.len() > 0 {
        assert(events[events.len() - 1] == events.last());
    }
}

/// A transaction is in flight exactly from the answer that starts it to the
/// first one that drops it: in between every request for a session is refused,
/// outside of it every request is answered with a start.
pub proof fn law_transaction_spans(
    events: Seq<DriveEventView>,
    i: int,
    n: int,
    username: Seq<char>,
)
    requires
        0 <= i < n <= events.len(),
        forall|j: int|
            i < j < n ==> !((#[trigger] answer_to(events, j)) is DropTransaction) && !(answer_to(
                events,
                j,
            ) is SendAndDrop),
    ensures
        answer_to(events, i) is Start ==> !(driven(
            driven_by(events.take(n)),
            DriveEventView::CreateSession { username },
        ).1 is Start),
        answer_to(events, i) is DropTransaction || answer_to(events, i) is SendAndDrop ==> driven(
            driven_by(events.take(i + 1)),
            DriveEventView::CreateSession { username },
        ).1 == (DriveActionView::Start { username }),
    decreases n,
{
    assert(events.take(i + 1).drop_last() =~= events.take(i));
    assert(events.take(i + 1).last() == events[i]);
    if i < n - 1 {
        assert forall|j: int| i < j < n - 1 implies !(
        (#[trigger] answer_to(events, j)) is DropTransaction) && !(answer_to(
            events,
            j,
        ) is SendAndDrop) by {
        }
        law_transaction_spans(events, i, n - 1, username);
        assert(events.take(n).drop_last() =~= events.take(n - 1));
        assert(events.take(n).last() == events[n - 1]);
        assert(!(answer_to(events, n - 1) is DropTransaction));
    }
}

/// What the user types reaches PAM, unchanged, where the last prompt still waits
/// for it, and nowhere else; an answer without text ends the wait.
pub proof fn law_answers_reach_the_prompt(
    events: Seq<DriveEventView>,
    response: Option<Seq<char>>,
)
    ensures
        ({
            let answer = driven(
                driven_by(events),
                DriveEventView::PostAuthResponse { response },
            ).1;
            let open = prompt_is_open(events, events.len() as int);
            &&& open && response is Some ==> answer == (DriveActionView::Reply {
                text: response->Some_0,
            })
            &&& open && response is None ==> answer is DropReply
            &&& !open ==> answer is Nothing
        }),
{
    lemma_prompt_is_open(events);
}

/// What PAM says and how it ends reaches the greeter unchanged, whatever went
/// before; a failure drops the transaction, a success does not, and nothing that
/// PAM does starts one.
pub proof fn law_pam_is_heard(
    d: Drive,
    style: AuthMessageStyle,
    message: Seq<char>,
    takes_reply: bool,
)
    ensures
        ({
            let said = driven(d, DriveEventView::Prompt { style, message, takes_reply }).1;
            let failed = driven(d, DriveEventView::Failed { message }).1;
            let succeeded = driven(d, DriveEventView::Succeeded).1;
            &&& said is Send && said->Send_response is AuthMessage
            &&& said->Send_response->AuthMessage_style == style
            &&& said->Send_response->AuthMessage_message == message
            &&& failed is SendAndDrop && failed->SendAndDrop_response is AuthError
            &&& failed->SendAndDrop_response->AuthError_message == message
            &&& succeeded is Authenticated && succeeded->Authenticated_response is SessionStarted
        }),
        driven(d, DriveEventView::CancelSession).1 is DropTransaction,
        driven(d, DriveEventView::GreeterExited).1 is Crashed,
{
}

// ---------------------------------------------------------------------------
// The handoff
// ---------------------------------------------------------------------------

/// What the supervisor is doing.
#[derive(Debug, Clone, Copy, PartialEq, Eq, Structural)]
pub enum Phase {
    /// Sleep for the delay of the backoff.
    Delay,
    /// Switch to the greeter's console.
    SwitchConsole,
    /// Open the greeter's session and start it.
    StartGreeter,
    /// Wait for its connection.
    Accept,
    /// Drive a login.
    DriveLogin,
    /// Wait until the session of a greeter that is gone is closed.
    AwaitGreeterClosed,
    /// Ask the greeter to end.
    SendTerm,
    /// Wait for its end for three seconds.
    AwaitTerm,
    /// Kill it.
    SendKill,
    /// Wait for its end.
    AwaitKill,
    /// Wait until the session of a greeter that was ended is closed.
    AwaitHandoff,
    /// Open the user's session.
    OpenSession,
    /// Wait for the end of the user's session.
    RunSession,
    /// Wait until the user's session is closed.
    AwaitSessionClosed,
    /// The daemon ends with an error.
    Failed,
}

/// How a phase ended.
#[derive(Debug, Clone, Copy, PartialEq, Eq, Structural)]
pub enum PhaseEnd {
    /// What the phase waited for or did came about.
    Done,
    /// It failed, or what it waited for did not come in time.
    NotDone,
    /// The greeter ended on its own.
    GreeterGone,
}

/// How long to wait for the greeter's end before it is killed, in seconds.
pub const TERM_TIMEOUT: u64 = 3;

/// The phase that follows.
pub open spec fn phase_after(p: Phase, end: PhaseEnd) -> Phase {
    match p {
        Phase::Delay => Phase::SwitchConsole,
        Phase::SwitchConsole => if end == PhaseEnd::Done {
            Phase::StartGreeter
        } else {
            Phase::Delay
        },
        Phase::StartGreeter => if end == PhaseEnd::Done {
            Phase::Accept
        } else {
            Phase::Failed
        },
        Phase::Accept => match end {
            PhaseEnd::Done => Phase::DriveLogin,
            PhaseEnd::GreeterGone => Phase::AwaitGreeterClosed,
            PhaseEnd::NotDone => Phase::Failed,
        },
        Phase::DriveLogin => match end {
            PhaseEnd::Done => Phase::SendTerm,
            PhaseEnd::GreeterGone => Phase::AwaitGreeterClosed,
            PhaseEnd::NotDone => Phase::Failed,
        },
        Phase::AwaitGreeterClosed => Phase::Delay,
        Phase::SendTerm => Phase::AwaitTerm,
        Phase::AwaitTerm => if end == PhaseEnd::Done {
            Phase::AwaitHandoff
        } else {
            Phase::SendKill
        },
        Phase::SendKill => Phase::AwaitKill,
        Phase::AwaitKill => Phase::AwaitHandoff,
        Phase::AwaitHandoff => Phase::OpenSession,
        Phase::OpenSession => if end == PhaseEnd::Done {
            Phase::RunSession
        } else {
            Phase::Delay
        },
        Phase::RunSession => Phase::AwaitSessionClosed,
        Phase::AwaitSessionClosed => Phase::Delay,
        Phase::Failed => Phase::Failed,
    }
}

/// The phase that follows.
pub fn next_phase(p: Phase, end: PhaseEnd) -> (r: Phase)
    ensures
        r == phase_after(p, end),
{
    match p {
        Phase::Delay => Phase::SwitchConsole,
        Phase::SwitchConsole => if end == PhaseEnd::Done {
            Phase::StartGreeter
        } else {
            Phase::Delay
        },
        Phase::StartGreeter => if end == PhaseEnd::Done {
            Phase::Accept
        } else {
            Phase::Failed
        },
        Phase::Accept => match end {
            PhaseEnd::Done => Phase::DriveLogin,
            PhaseEnd::GreeterGone => Phase::AwaitGreeterClosed,
            PhaseEnd::NotDone => Phase::Failed,
        },
        Phase::DriveLogin => match end {
            PhaseEnd::Done => Phase::SendTerm,
            PhaseEnd::GreeterGone => Phase::AwaitGreeterClosed,
            PhaseEnd::NotDone => Phase::Failed,
        },
        Phase::AwaitGreeterClosed => Phase::Delay,
        Phase::SendTerm => Phase::AwaitTerm,
        Phase::AwaitTerm => if end == PhaseEnd::Done {
            Phase::AwaitHandoff
        } else {
            Phase::SendKill
        },
        Phase::SendKill => Phase::AwaitKill,
        Phase::AwaitKill => Phase::AwaitHandoff,
        Phase::AwaitHandoff => Phase::OpenSession,
        Phase::OpenSession => if end == PhaseEnd::Done {
            Phase::RunSession
        } else {
            Phase::Delay
        },
        Phase::RunSession => Phase::AwaitSessionClosed,
        Phase::AwaitSessionClosed => Phase::Delay,
        Phase::Failed => Phase::Failed,
    }
}

/// The phase after a list of ends, from the start.
pub open spec fn phase_of(ends: Seq<PhaseEnd>) -> Phase
    decreases ends.len(),
{
    if ends.len() == 0 {
        Phase::Delay
    } else {
        phase_after(phase_of(ends.drop_last()), ends.last())
    }
}

/// In this phase the greeter or its session may still hold the console.
pub open spec fn greeter_holds_console(p: Phase) -> bool {
    match p {
        Phase::Accept => true,
        Phase::DriveLogin => true,
        Phase::AwaitGreeterClosed => true,
        Phase::SendTerm => true,
        Phase::AwaitTerm => true,
        Phase::SendKill => true,
        Phase::AwaitKill => true,
        Phase::AwaitHandoff => true,
        _ => false,
    }
}

/// In this phase the user's session may hold the console.
pub open spec fn session_holds_console(p: Phase) -> bool {
    match p {
        Phase::RunSession => true,
        Phase::AwaitSessionClosed => true,
        _ => false,
    }
}

/// The greeter and the session never hold the console together: from the one
/// to the other it goes only through the end of the first and the close of its
/// session.
pub proof fn law_console_is_handed_over(ends: Seq<PhaseEnd>)
    requires
        ends.len() > 0,
    ensures
        ({
            let before = phase_of(ends.drop_last());
            let now = phase_of(ends);
            &&& !(greeter_holds_console(now) && session_holds_console(now))
            &&& greeter_holds_console(before) ==> !session_holds_console(now)
            &&& session_holds_console(before) ==> !greeter_holds_console(now)
            &&& now == Phase::OpenSession ==> before == Phase::AwaitHandoff
            &&& now == Phase::RunSession ==> before == Phase::OpenSession && ends.last()
                == PhaseEnd::Done
            &&& now == Phase::StartGreeter ==> before == Phase::SwitchConsole
            &&& now == Phase::Delay ==> !greeter_holds_console(before) || before
                == Phase::AwaitGreeterClosed
        }),
{
}

/// The user's session is only reached through a login that succeeded: before
/// it lie the end of the greeter and, before that, a driven login that ended
/// well.
pub proof fn law_session_follows_login(ends: Seq<PhaseEnd>)
    requires
        phase_of(ends) is SendTerm,
    ensures
        ends.len() > 0,
        phase_of(ends.drop_last()) is DriveLogin,
        ends.last() == PhaseEnd::Done,
{
}

/// The greeter could not be started, or the daemon could not talk to it.
pub open spec fn greeter_trouble(p: Phase, end: PhaseEnd) -> bool {
    (p == Phase::StartGreeter && end != PhaseEnd::Done) || ((p == Phase::Accept || p
        == Phase::DriveLogin) && end == PhaseEnd::NotDone)
}

/// The daemon fails where the greeter could not be started, accepted or talked
/// to, and only there: no logout, no crash of the greeter, no console that cannot
/// be switched and no session that cannot be opened ends it.
pub proof fn law_only_greeter_trouble_fails(ends: Seq<PhaseEnd>)
    ensures
        phase_of(ends) == Phase::Failed <==> exists|i: int|
            0 <= i < ends.len() && greeter_trouble(phase_of(#[trigger] ends.take(i)), ends[i]),
    decreases ends.len(),
{
    if ends.len() > 0 {
        let front = ends.drop_last();
        let last = ends.len() - 1;
        law_only_greeter_trouble_fails(front);
        assert(ends.take(last) =~= front);
        assert forall|i: int| 0 <= i < last implies #[trigger] front.take(i) == ends.take(i) by {
            assert(front.take(i) =~= ends.take(i));
        }
        if phase_of(front) == Phase::Failed {
            let i = choose|i: int|
                0 <= i < last && greeter_trouble(phase_of(#[trigger] front.take(i)), front[i]);
            assert(front.take(i) == ends.take(i));
            assert(greeter_trouble(phase_of(ends.take(i)), ends[i]));
        } else if phase_of(ends) == Phase::Failed {
            assert(greeter_trouble(phase_of(ends.take(last)), ends[last]));
        } else {
            assert forall|i: int| 0 <= i < ends.len() implies !greeter_trouble(
                phase_of(#[trigger] ends.take(i)),
                ends[i],
            ) by {
                if i < last {
                    assert(front.take(i) == ends.take(i));
                    assert(front[i] == ends[i]);
                }
            }
        }
    }
}

/// The phase after a list of ends, from `p` on.
pub open spec fn phase_from(p: Phase, ends: Seq<PhaseEnd>) -> Phase
    decreases ends.len(),
{
    if ends.len() == 0 {
        p
    } else {
        phase_after(phase_from(p, ends.drop_last()), ends.last())
    }
}

/// After the user's session has ended, however it ended, and was closed, a fresh
/// greeter is on its way; the same holds after a greeter that ended on its own,
/// and after a session that could not be opened.
pub proof fn law_greeter_comes_back(p: Phase, first: PhaseEnd, second: PhaseEnd)
    ensures
        session_holds_console(p) ==> phase_after(p, first) == Phase::Delay || phase_after(
            phase_after(p, first),
            second,
        ) == Phase::Delay,
        p == Phase::RunSession ==> session_holds_console(phase_after(p, first)) && phase_after(
            phase_after(p, first),
            second,
        ) == Phase::Delay,
        (p == Phase::Accept || p == Phase::DriveLogin) && first == PhaseEnd::GreeterGone
            ==> greeter_holds_console(phase_after(p, first)) && phase_after(
            phase_after(p, first),
            second,
        ) == Phase::Delay,
        p == Phase::OpenSession && first != PhaseEnd::Done ==> phase_after(p, first)
            == Phase::Delay,
        p == Phase::SwitchConsole && first != PhaseEnd::Done ==> phase_after(p, first)
            == Phase::Delay,
{
}

/// Where everything succeeds, the daemon gets from a start of the greeter to the
/// user's session, and from there back to the next start.
pub proof fn law_rounds_go_on(p: Phase, ends: Seq<PhaseEnd>)
    requires
        p != Phase::Failed,
        ends.len() == 15,
        forall|i: int| 0 <= i < ends.len() ==> #[trigger] ends[i] == PhaseEnd::Done,
    ensures
        exists|n: int|
            0 <= n <= 15 && phase_from(p, #[trigger] ends.take(n)) == Phase::RunSession,
        exists|n: int|
            0 <= n <= 15 && phase_from(p, #[trigger] ends.take(n)) == Phase::StartGreeter,
        exists|n: int|
            0 <= n <= 15 && phase_from(p, #[trigger] ends.take(n)) == Phase::DriveLogin,
{
    lemma_walk(p, ends, 0);
    lemma_walk(p, ends, 1);
    lemma_walk(p, ends, 2);
    lemma_walk(p, ends, 3);
    lemma_walk(p, ends, 4);
    lemma_walk(p, ends, 5);
    lemma_walk(p, ends, 6);
    lemma_walk(p, ends, 7);
    lemma_walk(p, ends, 8);
    lemma_walk(p, ends, 9);
    lemma_walk(p, ends, 10);
    lemma_walk(p, ends, 11);
    lemma_walk(p, ends, 12);
    lemma_walk(p, ends, 13);
    lemma_walk(p, ends, 14);
    assert(ends.take(0) =~= Seq::<PhaseEnd>::empty());
}

proof fn lemma_walk(p: Phase, ends: Seq<PhaseEnd>, n: int)
    requires
        0 <= n < ends.len(),
    ensures
        phase_from(p, ends.take(n + 1)) == phase_after(phase_from(p, ends.take(n)), ends[n]),
{
    assert(ends.take(n + 1).drop_last() =~= ends.take(n));
}

/// The console goes to the user only after the greeter has ended: it ended in
/// time, or it was killed and its end was awaited. A greeter that ends in time is
/// not killed.
pub proof fn law_greeter_ends_before_the_handoff(ends: Seq<PhaseEnd>)
    requires
        ends.len() > 0,
    ensures
        ({
            let before = phase_of(ends.drop_last());
            let now = phase_of(ends);
            &&& now == Phase::AwaitHandoff ==> (before == Phase::AwaitTerm && ends.last()
                == PhaseEnd::Done) || before == Phase::AwaitKill
            &&& now == Phase::AwaitKill ==> before == Phase::SendKill
            &&& now == Phase::SendKill ==> before == Phase::AwaitTerm && ends.last()
                != PhaseEnd::Done
            &&& before == Phase::AwaitTerm && ends.last() != PhaseEnd::Done ==> now
                == Phase::SendKill
            &&& now == Phase::AwaitTerm ==> before == Phase::SendTerm
            &&& now == Phase::Accept ==> before == Phase::StartGreeter && ends.last()
                == PhaseEnd::Done
            &&& now == Phase::DriveLogin ==> before == Phase::Accept && ends.last()
                == PhaseEnd::Done
            &&& now == Phase::AwaitGreeterClosed ==> (before == Phase::Accept || before
                == Phase::DriveLogin) && ends.last() == PhaseEnd::GreeterGone
            &&& now == Phase::AwaitSessionClosed ==> before == Phase::RunSession
            &&& now == Phase::SwitchConsole ==> before == Phase::Delay
        }),
{
}

} // verus!
