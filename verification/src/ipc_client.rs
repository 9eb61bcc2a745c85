//! The greeter's end of the login protocol: its messages, and the bytes that
//! wait on either side of the socket.

use crate::frame::{
    byte_views, framed, length_prefix, prefix, take_frames, unframed, FrameError, MAX_FRAME,
};
use crate::secret::{wipe_and_drop_front, wipe_bytes};
use vstd::prelude::*;

verus! {

/// Greeter to daemon.
#[derive(Debug)]
pub enum Request {
    CreateSession { username: String },
    PostAuthResponse { response: Option<String> },
    CancelSession,
    Power { action: PowerAction },
}

#[derive(Debug, Clone, Copy, PartialEq, Eq, Structural)]
pub enum PowerAction {
    Suspend,
    Hibernate,
    Restart,
    PowerOff,
}

/// Daemon to greeter.
#[derive(Debug)]
pub enum Response {
    AuthMessage { style: AuthMessageStyle, message: String },
    SessionStarted,
    AuthError { message: String },
}

#[derive(Debug, Clone, Copy, PartialEq, Eq, Structural)]
pub enum AuthMessageStyle {
    /// A prompt whose answer is not shown.
    Secret,
    /// A prompt whose answer is shown.
    Visible,
    Info,
    Error,
}

/// The value of a [`Request`].
pub ghost enum RequestView {
    CreateSession { username: Seq<char> },
    PostAuthResponse { response: Option<Seq<char>> },
    CancelSession,
    Power { action: PowerAction },
}

impl View for Request {
    type V = RequestView;

    open spec fn view(&self) -> RequestView {
        match *self {
            Request::CreateSession { username } => RequestView::CreateSession {
                username: username@,
            },
            Request::PostAuthResponse { response } => RequestView::PostAuthResponse {
                response: crate::text::opt_view(response),
            },
            Request::CancelSession => RequestView::CancelSession,
            Request::Power { action } => RequestView::Power { action },
        }
    }
}

/// The value of a [`Response`].
pub ghost enum ResponseView {
    AuthMessage { style: AuthMessageStyle, message: Seq<char> },
    SessionStarted,
    AuthError { message: Seq<char> },
}

impl View for Response {
    type V = ResponseView;

    open spec fn view(&self) -> ResponseView {
        match *self {
            Response::AuthMessage { style, message } => ResponseView::AuthMessage {
                style,
                message: message@,
            },
            Response::SessionStarted => ResponseView::SessionStarted,
            Response::AuthError { message } => ResponseView::AuthError { message: message@ },
        }
    }
}

/// The values of a list of requests.
pub open spec fn request_views(list: Seq<Request>) -> Seq<RequestView> {
    Seq::new(list.len(), |i: int| list[i]@)
}

/// How a call to write to, or to read from, the socket ended.
#[derive(Debug, Clone, Copy, PartialEq, Eq, Structural)]
pub enum Transfer {
    /// So many bytes went through; none means that the other side is gone.
    Moved(usize),
    WouldBlock,
    Interrupted,
    Failed,
}

/// What to do after a call to the socket.
#[derive(Debug, Clone, Copy, PartialEq, Eq, Structural)]
pub enum Step {
    /// Call again.
    Again,
    /// Wait until the socket is ready.
    Stop,
    /// Give up: the daemon closed the socket.
    Closed,
    /// Give up: the call failed.
    Broken,
}

/// The bytes between the greeter and the daemon.
pub struct DaemonConnection {
    /// Bytes read but not yet framed.
    pub inbox: Vec<u8>,
    /// Bytes queued for writing. They carry the password, so they are wiped as
    /// they leave.
    pub outbox: Vec<u8>,
}

/// What is left to be written after a write, and what to do next.
pub open spec fn after_write(outbox: Seq<u8>, outcome: Transfer) -> (Seq<u8>, Step) {
    match outcome {
        Transfer::Moved(n) => if n == 0 {
            (outbox, Step::Closed)
        } else if n < outbox.len() {
            (outbox.skip(n as int), Step::Again)
        } else {
            (outbox.skip(n as int), Step::Stop)
        },
        Transfer::WouldBlock => (outbox, Step::Stop),
        Transfer::Interrupted => (outbox, Step::Again),
        Transfer::Failed => (outbox, Step::Broken),
    }
}

/// What is there after a read into `scratch`, and what to do next.
pub open spec fn after_read(inbox: Seq<u8>, outcome: Transfer, scratch: Seq<u8>) -> (
    Seq<u8>,
    Step,
) {
    match outcome {
        Transfer::Moved(n) => if n == 0 {
            (inbox, Step::Closed)
        } else {
            (inbox + scratch.take(n as int), Step::Again)
        },
        Transfer::WouldBlock => (inbox, Step::Stop),
        Transfer::Interrupted => (inbox, Step::Again),
        Transfer::Failed => (inbox, Step::Broken),
    }
}

impl DaemonConnection {
    /// A connection with nothing on either side.
    pub fn new() -> (r: DaemonConnection)
        ensures
            r.inbox@ == Seq::<u8>::empty(),
            r.outbox@ == Seq::<u8>::empty(),
    {
        DaemonConnection { inbox: Vec::new(), outbox: Vec::new() }
    }

    /// Whether bytes wait to be written.
    pub fn wants_write(&self) -> (r: bool)
        ensures
            r == (self.outbox@.len() > 0),
    {
        self.outbox.len() > 0
    }

    /// Queues a request whose encoding is `body`, and wipes `body`. The length
    /// is written, and held against the limit, in 32 bits.
    pub fn send(&mut self, body: Vec<u8>) -> (r: Result<(), FrameError>)
        ensures
            final(self).inbox@ == old(self).inbox@,
            ({
                let len = body@.len() as int % 0x1_0000_0000;
                if len > MAX_FRAME {
                    &&& r == Err::<(), FrameError>(FrameError::TooLarge(len as u32))
                    &&& final(self).outbox@ == old(self).outbox@
                } else {
                    &&& r == Ok::<(), FrameError>(())
                    &&& final(self).outbox@ == old(self).outbox@ + prefix(len) + body@
                }
            }),
            body@.len() <= MAX_FRAME ==> r is Ok && final(self).outbox@ == old(self).outbox@
                + framed(body@),
    {
        let mut body = body;
        let ghost whole = body@;
        let len: u32 = (body.len() as u64 % 0x1_0000_0000) as u32;
        if len > MAX_FRAME {
            wipe_bytes(&mut body);
            return Err(FrameError::TooLarge(len));
        }
        let mut head = length_prefix(len);
        let mut copy: Vec<u8> = Vec::new();
        let mut i: usize = 0;
        while i < body.len()
            invariant
                i <= body.len(),
                body@ == whole,
                copy@ == whole.take(i as int),
            decreases body.len() - i,
        {
            copy.push(body[i]);
            i += 1;
            assert(whole.take(i as int) =~= whole.take(i - 1).push(whole[i - 1]));
        }
        assert(copy@ =~= whole);
        self.outbox.append(&mut head);
        self.outbox.append(&mut copy);
        wipe_bytes(&mut body);
        proof {
            if whole.len() <= MAX_FRAME {
                assert(self.outbox@ =~= old(self).outbox@ + framed(whole));
            }
        }
        Ok(())
    }

    /// Takes note of one attempt to write the front of the outbox: what went
    /// out is wiped and removed. There is more to do while bytes remain.
    pub fn wrote(&mut self, outcome: Transfer) -> (r: Step)
        requires
            outcome is Moved ==> outcome->Moved_0 <= old(self).outbox.len(),
        ensures
            (final(self).outbox@, r) == after_write(old(self).outbox@, outcome),
            final(self).inbox@ == old(self).inbox@,
            match outcome {
                Transfer::Moved(n) => if n == 0 {
                    r == Step::Closed && final(self).outbox@ == old(self).outbox@
                } else {
                    &&& final(self).outbox@ == old(self).outbox@.skip(n as int)
                    &&& r == if n < old(self).outbox@.len() {
                        Step::Again
                    } else {
                        Step::Stop
                    }
                },
                Transfer::WouldBlock => r == Step::Stop && final(self).outbox@ == old(
                    self,
                ).outbox@,
                Transfer::Interrupted => r == Step::Again && final(self).outbox@ == old(
                    self,
                ).outbox@,
                Transfer::Failed => r == Step::Broken && final(self).outbox@ == old(self).outbox@,
            },
    {
        match outcome {
            Transfer::Moved(n) => {
                if n == 0 {
                    return Step::Closed;
                }
                wipe_and_drop_front(&mut self.outbox, n);
                if self.outbox.len() > 0 {
                    Step::Again
                } else {
                    Step::Stop
                }
            },
            Transfer::WouldBlock => Step::Stop,
            Transfer::Interrupted => Step::Again,
            Transfer::Failed => Step::Broken,
        }
    }

    /// Takes note of one attempt to read, whose bytes stand at the front of
    /// `scratch`.
    pub fn received(&mut self, outcome: Transfer, scratch: &Vec<u8>) -> (r: Step)
        requires
            outcome is Moved ==> outcome->Moved_0 <= scratch.len(),
        ensures
            (final(self).inbox@, r) == after_read(old(self).inbox@, outcome, scratch@),
            final(self).outbox@ == old(self).outbox@,
            match outcome {
                Transfer::Moved(n) => if n == 0 {
                    r == Step::Closed && final(self).inbox@ == old(self).inbox@
                } else {
                    &&& final(self).inbox@ == old(self).inbox@ + scratch@.take(n as int)
                    &&& r == Step::Again
                },
                Transfer::WouldBlock => r == Step::Stop && final(self).inbox@ == old(self).inbox@,
                Transfer::Interrupted => r == Step::Again && final(self).inbox@ == old(
                    self,
                ).inbox@,
                Transfer::Failed => r == Step::Broken && final(self).inbox@ == old(self).inbox@,
            },
    {
        match outcome {
            Transfer::Moved(n) => {
                if n == 0 {
                    return Step::Closed;
                }
                let ghost before = self.inbox@;
                let ghost out = self.outbox@;
                let mut i: usize = 0;
                assert(before + scratch@.take(0) =~= before);
                while i < n
                    invariant
                        i <= n <= scratch.len(),
                        self.inbox@ == before + scratch@.take(i as int),
                        self.outbox@ == out,
                    decreases n - i,
                {
                    self.inbox.push(scratch[i]);
                    i += 1;
                    assert(before + scratch@.take(i as int) =~= (before + scratch@.take(
                        i - 1,
                    )).push(scratch@[i - 1]));
                }
                Step::Again
            },
            Transfer::WouldBlock => Step::Stop,
            Transfer::Interrupted => Step::Again,
            Transfer::Failed => Step::Broken,
        }
    }

    /// The bodies of all complete frames that have arrived. None just means
    /// that no frame is complete yet.
    pub fn read_responses(&mut self) -> (r: Result<Vec<Vec<u8>>, FrameError>)
        ensures
            final(self).outbox@ == old(self).outbox@,
            final(self).inbox@ == unframed(old(self).inbox@).rest,
            match unframed(old(self).inbox@).too_large {
                Some(n) => r == Err::<Vec<Vec<u8>>, FrameError>(FrameError::TooLarge(n as u32)),
                None => r is Ok && byte_views(r->Ok_0@) == unframed(old(self).inbox@).bodies,
            },
    {
        take_frames(&mut self.inbox)
    }

    /// Wipes both sides.
    pub fn wipe(&mut self)
        ensures
            final(self).inbox@ == Seq::<u8>::empty(),
            final(self).outbox@ == Seq::<u8>::empty(),
    {
        wipe_bytes(&mut self.inbox);
        wipe_bytes(&mut self.outbox);
    }
}

/// No byte is lost and none is sent twice: what a write took is the front of
/// what was queued, and the rest stays, in its order. Writing goes on while
/// there is something left and the socket takes it.
pub proof fn law_written_bytes(outbox: Seq<u8>, outcome: Transfer, n: usize)
    requires
        0 < n <= outbox.len(),
    ensures
        ({
            let (left, step) = after_write(outbox, Transfer::Moved(n));
            &&& outbox == outbox.take(n as int) + left
            &&& left.len() == outbox.len() - n
            &&& step == Step::Again <==> left.len() > 0
            &&& step == Step::Stop <==> left.len() == 0
        }),
        !(outcome is Moved) || outcome == Transfer::Moved(0) ==> after_write(outbox, outcome).0
            == outbox,
        after_write(outbox, Transfer::Moved(0)).1 == Step::Closed,
        after_write(outbox, Transfer::WouldBlock).1 == Step::Stop,
        after_write(outbox, Transfer::Interrupted).1 == Step::Again,
        after_write(outbox, Transfer::Failed).1 == Step::Broken,
{
    assert(outbox =~= outbox.take(n as int) + outbox.skip(n as int));
}

/// What was read stands behind what was there, all of it and nothing else; and
/// reading goes on until the socket has nothing more.
pub proof fn law_read_bytes(inbox: Seq<u8>, outcome: Transfer, scratch: Seq<u8>, n: usize)
    requires
        0 < n <= scratch.len(),
    ensures
        ({
            let (all, step) = after_read(inbox, Transfer::Moved(n), scratch);
            &&& all.len() == inbox.len() + n
            &&& all.take(inbox.len() as int) == inbox
            &&& all.skip(inbox.len() as int) == scratch.take(n as int)
            &&& step == Step::Again
        }),
        !(outcome is Moved) || outcome == Transfer::Moved(0) ==> after_read(
            inbox,
            outcome,
            scratch,
        ).0 == inbox,
        after_read(inbox, Transfer::Moved(0), scratch).1 == Step::Closed,
        after_read(inbox, Transfer::WouldBlock, scratch).1 == Step::Stop,
        after_read(inbox, Transfer::Interrupted, scratch).1 == Step::Again,
        after_read(inbox, Transfer::Failed, scratch).1 == Step::Broken,
{
    let all = inbox + scratch.take(n as int);
    assert(all.take(inbox.len() as int) =~= inbox);
    assert(all.skip(inbox.len() as int) =~= scratch.take(n as int));
}

} // verus!
