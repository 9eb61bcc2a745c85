//! The preview of a theme in the compositor.

use crate::settings::theme::{
    equal_documents, same_document, DocumentView, ThemeDocument, ThemePaint,
};
use crate::text::{dec, decimal};
use vstd::prelude::*;

verus! {

/// What the compositor says of its theme.
#[derive(Debug, Clone, Copy, PartialEq, Eq, Structural)]
pub struct ThemeEditorRuntimeStatus {
    pub preview_active: bool,
    pub applied_revision: u64,
    pub gradient_rendering: bool,
    pub semantic_rendering: bool,
    pub wallpaper_processing: bool,
    pub layout_metrics: bool,
    pub typography_metrics: bool,
    pub contrast_issue_count: u64,
}

/// What the row says of a compositor that answered.
pub open spec fn runtime_text(s: ThemeEditorRuntimeStatus, gradient: bool) -> Seq<char> {
    if !s.semantic_rendering {
        "Connected · compositor lacks semantic theme rendering"@
    } else if !s.wallpaper_processing || !s.layout_metrics || !s.typography_metrics {
        "Connected · compositor has partial semantic renderer support"@
    } else if gradient && !s.gradient_rendering {
        "Connected · gradients preview at their midpoint"@
    } else if s.preview_active {
        "Connected · preview active · "@ + dec(s.contrast_issue_count as nat) + (
        if s.contrast_issue_count == 1 {
            " contrast issue"@
        } else {
            " contrast issues"@
        })
    } else {
        "Connected · applied revision "@ + dec(s.applied_revision as nat)
    }
}

/// What the row says of a compositor that answered; `gradient` says whether the
/// theme is a gradient.
pub fn theme_editor_runtime_label(s: ThemeEditorRuntimeStatus, gradient: bool) -> (r: String)
    ensures
        r@ == runtime_text(s, gradient),
{
    if !s.semantic_rendering {
        "Connected · compositor lacks semantic theme rendering".to_owned()
    } else if !s.wallpaper_processing || !s.layout_metrics || !s.typography_metrics {
        "Connected · compositor has partial semantic renderer support".to_owned()
    } else if gradient && !s.gradient_rendering {
        "Connected · gradients preview at their midpoint".to_owned()
    } else if s.preview_active {
        let mut out = "Connected · preview active · ".to_owned();
        out.append(decimal(s.contrast_issue_count).as_str());
        if s.contrast_issue_count == 1 {
            out.append(" contrast issue");
        } else {
            out.append(" contrast issues");
        }
        out
    } else {
        let mut out = "Connected · applied revision ".to_owned();
        out.append(decimal(s.applied_revision).as_str());
        out
    }
}

/// What the compositor is asked.
#[derive(Debug)]
pub enum ThemeEditorIpcJob {
    Probe,
    Preview(ThemeDocument),
    Apply(ThemeDocument),
    Revert,
}

/// The value of a [`ThemeEditorIpcJob`].
pub ghost enum JobView {
    Probe,
    Preview(DocumentView),
    Apply(DocumentView),
    Revert,
}

impl View for ThemeEditorIpcJob {
    type V = JobView;

    open spec fn view(&self) -> JobView {
        match self {
            ThemeEditorIpcJob::Probe => JobView::Probe,
            ThemeEditorIpcJob::Preview(d) => JobView::Preview(d@),
            ThemeEditorIpcJob::Apply(d) => JobView::Apply(d@),
            ThemeEditorIpcJob::Revert => JobView::Revert,
        }
    }
}

pub open spec fn job_view(job: Option<ThemeEditorIpcJob>) -> Option<JobView> {
    match job {
        Some(j) => Some(j@),
        None => None,
    }
}

#[derive(Debug, Clone, Copy, PartialEq, Eq, Structural)]
pub enum ThemeEditorIpcAction {
    Probe,
    Preview,
    Apply,
    Revert,
}

/// What a job does, and whether its theme is a gradient.
pub open spec fn job_label(job: JobView) -> (ThemeEditorIpcAction, bool) {
    match job {
        JobView::Probe => (ThemeEditorIpcAction::Probe, false),
        JobView::Preview(d) => (ThemeEditorIpcAction::Preview, !(d.intent.paint is Solid)),
        JobView::Apply(d) => (ThemeEditorIpcAction::Apply, !(d.intent.paint is Solid)),
        JobView::Revert => (ThemeEditorIpcAction::Revert, false),
    }
}

fn is_gradient(document: &ThemeDocument) -> (r: bool)
    ensures
        r == !(document@.intent.paint is Solid),
{
    match document.intent.paint {
        ThemePaint::Solid { .. } => false,
        _ => true,
    }
}

/// What a job does, and whether its theme is a gradient.
pub fn job_action(job: &ThemeEditorIpcJob) -> (r: (ThemeEditorIpcAction, bool))
    ensures
        r == job_label(job@),
{
    match job {
        ThemeEditorIpcJob::Probe => (ThemeEditorIpcAction::Probe, false),
        ThemeEditorIpcJob::Preview(d) => (ThemeEditorIpcAction::Preview, is_gradient(d)),
        ThemeEditorIpcJob::Apply(d) => (ThemeEditorIpcAction::Apply, is_gradient(d)),
        ThemeEditorIpcJob::Revert => (ThemeEditorIpcAction::Revert, false),
    }
}

/// What the compositor replied.
#[derive(Debug)]
pub enum ThemeEditorReply {
    Status { protocol_version: u32, status: ThemeEditorRuntimeStatus },
    Error { message: String },
    /// Something else, as it is written out.
    Other { text: String },
}

pub open spec fn status_result(r: Result<ThemeEditorRuntimeStatus, String>) -> Result<
    ThemeEditorRuntimeStatus,
    Seq<char>,
> {
    match r {
        Ok(s) => Ok(s),
        Err(e) => Err(e@),
    }
}

/// The status that a reply holds, where it is of the protocol that the editor
/// speaks.
pub open spec fn status_in(reply: ThemeEditorReply, version: u32) -> Result<
    ThemeEditorRuntimeStatus,
    Seq<char>,
> {
    match reply {
        ThemeEditorReply::Status { protocol_version, status } => if protocol_version == version {
            Ok(status)
        } else {
            Err(
                "unsupported compositor theme protocol "@ + dec(protocol_version as nat)
                    + "; editor requires "@ + dec(version as nat),
            )
        },
        ThemeEditorReply::Error { message } => Err(message@),
        ThemeEditorReply::Other { text } => Err("unexpected compositor response: "@ + text@),
    }
}

/// The status that a reply holds; `version` is the protocol's version that the
/// editor speaks.
pub fn theme_editor_reply(reply: ThemeEditorReply, version: u32) -> (r: Result<
    ThemeEditorRuntimeStatus,
    String,
>)
    ensures
        status_result(r) == status_in(reply, version),
{
    match reply {
        ThemeEditorReply::Status { protocol_version, status } => {
            if protocol_version == version {
                Ok(status)
            } else {
                let mut out = "unsupported compositor theme protocol ".to_owned();
                out.append(decimal(protocol_version as u64).as_str());
                out.append("; editor requires ");
                out.append(decimal(version as u64).as_str());
                Err(out)
            }
        },
        ThemeEditorReply::Error { message } => Err(message),
        ThemeEditorReply::Other { text } => {
            let mut out = "unexpected compositor response: ".to_owned();
            out.append(text.as_str());
            Err(out)
        },
    }
}

/// The state of the preview.
#[derive(Debug)]
pub struct LivePreview {
    /// The document that the compositor was last given.
    pub last: Option<ThemeDocument>,
    pub connected: bool,
    pub page_active: bool,
    pub in_flight: bool,
    pub enabled: bool,
    pub apply_sensitive: bool,
    pub revert_sensitive: bool,
}

/// The value of a [`LivePreview`].
pub ghost struct LiveView {
    pub last: Option<DocumentView>,
    pub connected: bool,
    pub page_active: bool,
    pub in_flight: bool,
    pub enabled: bool,
    pub apply_sensitive: bool,
    pub revert_sensitive: bool,
}

impl View for LivePreview {
    type V = LiveView;

    open spec fn view(&self) -> LiveView {
        LiveView {
            last: match self.last {
                Some(d) => Some(d@),
                None => None,
            },
            connected: self.connected,
            page_active: self.page_active,
            in_flight: self.in_flight,
            enabled: self.enabled,
            apply_sensitive: self.apply_sensitive,
            revert_sensitive: self.revert_sensitive,
        }
    }
}

/// The preview after a moment passed, and what the compositor is asked: a
/// preview of the draft, where one is wanted, none is under way, and the
/// compositor was not given the same before.
pub open spec fn after_tick(s: LiveView, document: DocumentView) -> (LiveView, Option<JobView>) {
    if !s.page_active || !s.enabled || s.in_flight {
        (s, None)
    } else if s.last is Some && equal_documents(s.last->Some_0, document) {
        (s, None)
    } else {
        (
            LiveView { last: Some(document), in_flight: true, ..s },
            Some(JobView::Preview(document)),
        )
    }
}

/// The preview after the compositor answered a job.
pub open spec fn after_answer(
    s: LiveView,
    action: ThemeEditorIpcAction,
    result: Result<ThemeEditorRuntimeStatus, Seq<char>>,
) -> LiveView {
    let ok = result is Ok;
    LiveView {
        in_flight: s.in_flight && action != ThemeEditorIpcAction::Preview,
        connected: ok,
        apply_sensitive: ok,
        revert_sensitive: ok && result->Ok_0.preview_active,
        ..s
    }
}

/// What the row says after the compositor answered a job.
pub open spec fn answer_text(
    action: ThemeEditorIpcAction,
    gradient: bool,
    result: Result<ThemeEditorRuntimeStatus, Seq<char>>,
) -> Seq<char> {
    match result {
        Ok(status) => runtime_text(status, gradient),
        Err(e) => (match action {
            ThemeEditorIpcAction::Apply => "Apply failed · "@,
            ThemeEditorIpcAction::Revert => "Revert failed · "@,
            ThemeEditorIpcAction::Probe => "Disconnected · "@,
            ThemeEditorIpcAction::Preview => "Disconnected · "@,
        }) + e,
    }
}

/// What happens to the live preview.
pub ghost enum LiveEvent {
    Apply { document: DocumentView },
    Revert { document: DocumentView },
    Toggle { active: bool, document: DocumentView },
    Tick { document: DocumentView },
    SendFailed,
    Answer {
        action: ThemeEditorIpcAction,
        result: Result<ThemeEditorRuntimeStatus, Seq<char>>,
    },
    Shown,
    Hidden,
}

/// The live preview after it, and what is sent to the compositor.
pub open spec fn live_after(s: LiveView, e: LiveEvent) -> (LiveView, Option<JobView>) {
    match e {
        LiveEvent::Apply { document } => (
            LiveView { last: Some(document), ..s },
            Some(JobView::Apply(document)),
        ),
        LiveEvent::Revert { document } => (
            LiveView { last: Some(document), ..s },
            Some(JobView::Revert),
        ),
        LiveEvent::Toggle { active, document } => if active {
            (LiveView { enabled: true, last: None, ..s }, None)
        } else {
            (LiveView { enabled: false, last: Some(document), ..s }, Some(JobView::Revert))
        },
        LiveEvent::Tick { document } => after_tick(s, document),
        LiveEvent::SendFailed => (LiveView { in_flight: false, ..s }, None),
        LiveEvent::Answer { action, result } => (after_answer(s, action, result), None),
        LiveEvent::Shown => (LiveView { page_active: true, last: None, ..s }, Some(JobView::Probe)),
        LiveEvent::Hidden => (LiveView { page_active: false, ..s }, Some(JobView::Revert)),
    }
}

impl LivePreview {
    /// The preview before the page was ever shown. The compositor is probed
    /// first.
    pub fn new() -> (r: (LivePreview, ThemeEditorIpcJob))
        ensures
            r.0@ == (LiveView {
                last: None,
                connected: false,
                page_active: false,
                in_flight: false,
                enabled: true,
                apply_sensitive: false,
                revert_sensitive: false,
            }),
            r.1@ == JobView::Probe,
    {
        (
            LivePreview {
                last: None,
                connected: false,
                page_active: false,
                in_flight: false,
                enabled: true,
                apply_sensitive: false,
                revert_sensitive: false,
            },
            ThemeEditorIpcJob::Probe,
        )
    }

    /// The theme is to be applied. Returns what the compositor is asked, and
    /// what the row says.
    pub fn on_apply(&mut self, document: ThemeDocument) -> (r: (ThemeEditorIpcJob, &'static str))
        ensures
            (final(self)@, Some(r.0@)) == live_after(
                old(self)@,
                (LiveEvent::Apply { document: document@ }),
            ),
            final(self)@ == (LiveView { last: Some(document@), ..old(self)@ }),
            r.0@ == JobView::Apply(document@),
            r.1@ == "Applying runtime theme…"@,
    {
        self.last = Some(document.copy());
        (ThemeEditorIpcJob::Apply(document), "Applying runtime theme…")
    }

    /// The preview is to be taken back. Returns what the compositor is asked,
    /// and what the row says.
    pub fn on_revert(&mut self, document: ThemeDocument) -> (r: (ThemeEditorIpcJob, &'static str))
        ensures
            (final(self)@, Some(r.0@)) == live_after(
                old(self)@,
                (LiveEvent::Revert { document: document@ }),
            ),
            final(self)@ == (LiveView { last: Some(document@), ..old(self)@ }),
            r.0@ == JobView::Revert,
            r.1@ == "Reverting preview…"@,
    {
        self.last = Some(document);
        (ThemeEditorIpcJob::Revert, "Reverting preview…")
    }

    /// The preview was turned on or off. Returns what the compositor is asked,
    /// and what the row says.
    pub fn on_toggle(&mut self, active: bool, document: ThemeDocument) -> (r: (
        Option<ThemeEditorIpcJob>,
        &'static str,
    ))
        ensures
            (final(self)@, job_view(r.0)) == live_after(
                old(self)@,
                (LiveEvent::Toggle { active, document: document@ }),
            ),
            final(self)@ == (LiveView {
                enabled: active,
                last: if active {
                    None
                } else {
                    Some(document@)
                },
                ..old(self)@
            }),
            job_view(r.0) == if active {
                None
            } else {
                Some(JobView::Revert)
            },
            r.1@ == if active {
                "Live preview enabled · waiting for changes"@
            } else {
                "Disabling preview…"@
            },
    {
        self.enabled = active;
        if active {
            self.last = None;
            return (None, "Live preview enabled · waiting for changes");
        }
        self.last = Some(document);
        (Some(ThemeEditorIpcJob::Revert), "Disabling preview…")
    }

    /// A moment passed. Returns what the compositor is asked.
    pub fn on_tick(&mut self, document: ThemeDocument) -> (r: Option<ThemeEditorIpcJob>)
        ensures
            (final(self)@, job_view(r)) == live_after(
                old(self)@,
                (LiveEvent::Tick { document: document@ }),
            ),
            (final(self)@, job_view(r)) == after_tick(old(self)@, document@),
    {
        if !self.page_active || !self.enabled || self.in_flight {
            return None;
        }
        if let Some(last) = &self.last {
            if same_document(last, &document) {
                return None;
            }
        }
        self.last = Some(document.copy());
        self.in_flight = true;
        Some(ThemeEditorIpcJob::Preview(document))
    }

    /// The compositor could not be asked for a preview.
    pub fn on_send_failed(&mut self)
        ensures
            (final(self)@, None::<JobView>) == live_after(old(self)@, LiveEvent::SendFailed),
            final(self)@ == (LiveView { in_flight: false, ..old(self)@ }),
    {
        self.in_flight = false;
    }

    /// The compositor answered a job. Returns what the row says.
    pub fn on_answer(
        &mut self,
        action: ThemeEditorIpcAction,
        gradient: bool,
        result: Result<ThemeEditorRuntimeStatus, String>,
    ) -> (r: String)
        ensures
            final(self)@ == after_answer(old(self)@, action, status_result(result)),
            r@ == answer_text(action, gradient, status_result(result)),
    {
        if action == ThemeEditorIpcAction::Preview {
            self.in_flight = false;
        }
        match result {
            Ok(status) => {
                self.connected = true;
                self.apply_sensitive = true;
                self.revert_sensitive = status.preview_active;
                theme_editor_runtime_label(status, gradient)
            },
            Err(e) => {
                self.connected = false;
                self.apply_sensitive = false;
                self.revert_sensitive = false;
                let mut out = match action {
                    ThemeEditorIpcAction::Apply => "Apply failed · ".to_owned(),
                    ThemeEditorIpcAction::Revert => "Revert failed · ".to_owned(),
                    ThemeEditorIpcAction::Probe => "Disconnected · ".to_owned(),
                    ThemeEditorIpcAction::Preview => "Disconnected · ".to_owned(),
                };
                out.append(e.as_str());
                out
            },
        }
    }

    /// The page is shown. Returns what the compositor is asked.
    pub fn on_map(&mut self) -> (r: ThemeEditorIpcJob)
        ensures
            (final(self)@, Some(r@)) == live_after(old(self)@, LiveEvent::Shown),
            final(self)@ == (LiveView { page_active: true, last: None, ..old(self)@ }),
            r@ == JobView::Probe,
    {
        self.page_active = true;
        self.last = None;
        ThemeEditorIpcJob::Probe
    }

    /// The page is left. Returns what the compositor is asked: the theme that
    /// was last applied comes back.
    pub fn on_unmap(&mut self) -> (r: ThemeEditorIpcJob)
        ensures
            (final(self)@, Some(r@)) == live_after(old(self)@, LiveEvent::Hidden),
            final(self)@ == (LiveView { page_active: false, ..old(self)@ }),
            r@ == JobView::Revert,
    {
        self.page_active = false;
        ThemeEditorIpcJob::Revert
    }
}

/// Previews do not flood the compositor: while one is under way no other is
/// asked for, whatever the draft becomes, until that one is answered.
pub proof fn law_one_preview_at_a_time(
    s: LiveView,
    document: DocumentView,
    later: DocumentView,
    action: ThemeEditorIpcAction,
    result: Result<ThemeEditorRuntimeStatus, Seq<char>>,
)
    requires
        after_tick(s, document).1 is Some,
        action != ThemeEditorIpcAction::Preview,
    ensures
        ({
            let asked = after_tick(s, document).0;
            &&& after_tick(asked, later).1 is None
            &&& after_tick(after_answer(asked, action, result), later).1 is None
        }),
{
}

/// A draft that did not change is not previewed again.
pub proof fn law_no_preview_without_change(
    s: LiveView,
    document: DocumentView,
    result: Result<ThemeEditorRuntimeStatus, Seq<char>>,
)
    requires
        equal_documents(document, document),
        after_tick(s, document).1 is Some,
    ensures
        after_tick(
            after_answer(after_tick(s, document).0, ThemeEditorIpcAction::Preview, result),
            document,
        ).1 is None,
{
}

/// Nothing is previewed while the page is not shown, or the preview is off.
pub proof fn law_no_preview_unasked(s: LiveView, document: DocumentView)
    requires
        !s.page_active || !s.enabled,
    ensures
        after_tick(s, document) == (s, None::<JobView>),
{
}

/// A preview is in flight from the tick that sends it until its answer comes or
/// sending it fails, and at no other time.
pub proof fn law_preview_in_flight(s: LiveView, e: LiveEvent)
    ensures
        ({
            let (after, job) = live_after(s, e);
            &&& !s.in_flight && after.in_flight ==> e is Tick && job is Some && job->Some_0
                is Preview
            &&& s.in_flight && !after.in_flight ==> e is SendFailed || (e is Answer && e->action
                == ThemeEditorIpcAction::Preview)
            &&& e is SendFailed || (e is Answer && e->action == ThemeEditorIpcAction::Preview)
                ==> !after.in_flight
            &&& job is Some && job->Some_0 is Preview ==> e is Tick && after.in_flight
                && !s.in_flight
        }),
{
}

/// While the page is shown and the preview is on, the compositor follows the
/// draft: as soon as no preview is in flight, a document that is not the one it
/// was last given is sent to it, as it is.
pub proof fn law_preview_follows_the_draft(s: LiveView, document: DocumentView)
    requires
        s.page_active,
        s.enabled,
        !s.in_flight,
        s.last is None || !equal_documents(s.last->Some_0, document),
    ensures
        live_after(s, LiveEvent::Tick { document }).1 == Some(JobView::Preview(document)),
        live_after(s, LiveEvent::Tick { document }).0.last == Some(document),
{
}

/// Showing the page, or turning the preview on, has the draft sent again
/// whatever it was; hiding the page, or turning the preview off, takes the
/// preview back, and what is applied is the document.
pub proof fn law_preview_switches(s: LiveView, document: DocumentView)
    ensures
        live_after(s, LiveEvent::Shown).0.page_active,
        live_after(s, LiveEvent::Shown).0.last is None,
        live_after(s, LiveEvent::Shown).1 == Some(JobView::Probe),
        !live_after(s, LiveEvent::Hidden).0.page_active,
        live_after(s, LiveEvent::Hidden).1 == Some(JobView::Revert),
        live_after(s, LiveEvent::Toggle { active: true, document }).0.enabled,
        live_after(s, LiveEvent::Toggle { active: true, document }).0.last is None,
        !live_after(s, LiveEvent::Toggle { active: false, document }).0.enabled,
        live_after(s, LiveEvent::Toggle { active: false, document }).1 == Some(JobView::Revert),
        live_after(s, LiveEvent::Apply { document }).1 == Some(JobView::Apply(document)),
        live_after(s, LiveEvent::Revert { document }).1 == Some(JobView::Revert),
{
}

/// The buttons follow the compositor: a theme can be applied while it answers,
/// and a preview reverted while it says that one is shown.
pub proof fn law_preview_buttons(
    s: LiveView,
    action: ThemeEditorIpcAction,
    status: ThemeEditorRuntimeStatus,
    error: Seq<char>,
)
    ensures
        ({
            let heard = after_answer(s, action, Ok(status));
            let lost = after_answer(s, action, Err(error));
            &&& heard.connected && heard.apply_sensitive
            &&& heard.revert_sensitive <==> status.preview_active
            &&& !lost.connected && !lost.apply_sensitive && !lost.revert_sensitive
            &&& heard.enabled == s.enabled && heard.page_active == s.page_active && heard.last
                == s.last
        }),
{
}

/// A status of the protocol that the editor speaks is taken as it is, and of no
/// other.
pub proof fn law_status_of_the_protocol(
    status: ThemeEditorRuntimeStatus,
    spoken: u32,
    version: u32,
)
    ensures
        status_in(
            ThemeEditorReply::Status { protocol_version: spoken, status },
            version,
        ) is Ok <==> spoken == version,
        status_in(ThemeEditorReply::Status { protocol_version: version, status }, version) == Ok::<
            ThemeEditorRuntimeStatus,
            Seq<char>,
        >(status),
{
}

} // verus!
