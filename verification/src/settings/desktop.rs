//! What the desktop replies to a request of the settings.

use vstd::prelude::*;

verus! {

/// What a request is about.
#[derive(Debug, Clone, Copy, PartialEq, Eq, Structural)]
pub enum DesktopRequest {
    Displays,
    HdrAppearance,
    HdrCalibration,
}

/// What came of a request.
#[derive(Debug)]
pub enum DesktopReply {
    Done,
    Rejected { message: String },
    /// Something else, as it is written out.
    Unexpected { text: String },
    /// There was no reply.
    Unavailable { error: String },
}

pub open spec fn unit_result(r: Result<(), String>) -> Result<(), Seq<char>> {
    match r {
        Ok(_) => Ok(()),
        Err(e) => Err(e@),
    }
}

/// Whether a request was carried out, and why it was not.
pub open spec fn outcome_of(request: DesktopRequest, reply: DesktopReply) -> Result<(), Seq<char>> {
    match reply {
        DesktopReply::Done => Ok(()),
        DesktopReply::Rejected { message } => Err(message@),
        DesktopReply::Unexpected { text } => Err(
            (match request {
                DesktopRequest::Displays => "unexpected desktop display response: "@,
                DesktopRequest::HdrAppearance => "unexpected HDR appearance response: "@,
                DesktopRequest::HdrCalibration => "unexpected HDR calibration response: "@,
            }) + text@,
        ),
        DesktopReply::Unavailable { error } => Err(error@),
    }
}

/// Whether a request was carried out, and why it was not.
pub fn desktop_outcome(request: DesktopRequest, reply: DesktopReply) -> (r: Result<(), String>)
    ensures
        unit_result(r) == outcome_of(request, reply),
{
    match reply {
        DesktopReply::Done => Ok(()),
        DesktopReply::Rejected { message } => Err(message),
        DesktopReply::Unexpected { text } => {
            let mut out = match request {
                DesktopRequest::Displays => "unexpected desktop display response: ".to_owned(),
                DesktopRequest::HdrAppearance => "unexpected HDR appearance response: ".to_owned(),
                DesktopRequest::HdrCalibration => {
                    "unexpected HDR calibration response: ".to_owned()
                },
            };
            out.append(text.as_str());
            Err(out)
        },
        DesktopReply::Unavailable { error } => Err(error),
    }
}

/// A request has succeeded exactly where the desktop says so; what it says
/// otherwise, or why it says nothing, is passed on.
pub proof fn law_desktop_outcome(request: DesktopRequest, reply: DesktopReply)
    ensures
        outcome_of(request, reply) is Ok <==> reply is Done,
        reply is Rejected ==> outcome_of(request, reply)->Err_0 == reply->message@,
        reply is Unavailable ==> outcome_of(request, reply)->Err_0 == reply->error@,
        reply is Unexpected ==> outcome_of(request, reply)->Err_0.len() >= reply->text@.len()
            && outcome_of(request, reply)->Err_0.skip(
            outcome_of(request, reply)->Err_0.len() - reply->text@.len(),
        ) == reply->text@,
{
    if reply is Unexpected {
        let all = outcome_of(request, reply)->Err_0;
        assert(all.skip(all.len() - reply->text@.len()) =~= reply->text@);
    }
}

} // verus!
