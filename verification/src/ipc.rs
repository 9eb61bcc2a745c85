//! The daemon's end of the login protocol.

use crate::frame::{declared, declared_length, framed, length_prefix, prefix, FrameError, MAX_FRAME};
use crate::ipc_client::PowerAction;
use vstd::prelude::*;

verus! {

/// Greeter to daemon.
#[derive(Debug)]
pub enum Request {
    /// Begin a PAM transaction for a user.
    CreateSession { username: String },
    /// The answer to the most recent message that asked for one.
    PostAuthResponse { response: Option<String> },
    /// Abort the PAM transaction.
    CancelSession,
    /// A power operation from the panel of the greeter.
    Power { action: PowerAction },
}

/// Daemon to greeter.
#[derive(Debug)]
pub enum Response {
    /// PAM wants input or shows a message.
    AuthMessage { style: AuthMessageStyle, message: String },
    /// Authentication and account checks passed; the session is being launched.
    SessionStarted,
    /// The PAM transaction failed.
    AuthError { message: String },
}

#[derive(Debug, Clone, Copy, PartialEq, Eq, Structural)]
pub enum AuthMessageStyle {
    /// A prompt whose answer is not shown.
    Secret,
    /// A prompt whose answer is shown.
    Visible,
    Info,
    Error,
}

/// The value of a [`Response`].
pub ghost enum ResponseView {
    AuthMessage { style: AuthMessageStyle, message: Seq<char> },
    SessionStarted,
    AuthError { message: Seq<char> },
}

impl View for Response {
    type V = ResponseView;

    open spec fn view(&self) -> ResponseView {
        match *self {
            Response::AuthMessage { style, message } => ResponseView::AuthMessage {
                style,
                message: message@,
            },
            Response::SessionStarted => ResponseView::SessionStarted,
            Response::AuthError { message } => ResponseView::AuthError { message: message@ },
        }
    }
}

/// The length of the body behind a prefix of four bytes.
pub fn body_length(head: &Vec<u8>) -> (r: Result<u32, FrameError>)
    requires
        head.len() == 4,
    ensures
        r == if declared(head@) > MAX_FRAME {
            Err::<u32, FrameError>(FrameError::TooLarge(declared(head@) as u32))
        } else {
            Ok::<u32, FrameError>(declared(head@) as u32)
        },
{
    let len: u32 = declared_length(head);
    if len > MAX_FRAME {
        Err(FrameError::TooLarge(len))
    } else {
        Ok(len)
    }
}

/// A response whose encoding is `body`, as a frame. The length is written in
/// 32 bits.
pub fn frame_response(body: Vec<u8>) -> (r: Vec<u8>)
    ensures
        r@ == prefix(body@.len() as int % 0x1_0000_0000) + body@,
        body@.len() <= u32::MAX ==> r@ == framed(body@),
{
    let len: u32 = (body.len() as u64 % 0x1_0000_0000) as u32;
    let mut body = body;
    let mut out = length_prefix(len);
    out.append(&mut body);
    out
}

/// Whether a connection is the greeter's: only its user may talk to the
/// daemon.
pub fn accepts_peer(uid: u32, allowed_uid: u32) -> (r: bool)
    ensures
        r == (uid == allowed_uid),
{
    uid == allowed_uid
}

} // verus!
