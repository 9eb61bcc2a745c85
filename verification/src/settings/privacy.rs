//! The privacy panel: saved permissions in words.

use crate::settings::location_permissions::{AccuracyView, LocationPermissionRecord};
use vstd::prelude::*;

verus! {

#[derive(Debug, Clone, Copy, PartialEq, Eq, Structural)]
pub enum PermissionDecision {
    Allow,
    Deny,
    Ask,
}

#[derive(Debug, Clone, Copy, PartialEq, Eq, Structural)]
pub enum PermissionScope {
    Once,
    Session,
    Persistent,
}

#[derive(Debug)]
pub enum PermissionTarget {
    Global,
    Named(String),
}

#[derive(Debug, Clone, Copy, PartialEq, Eq, Structural)]
pub enum PermissionResource {
    Screenshot,
    Screencast,
    ScreenShareWindow,
    ScreenShareOutput,
    AiChat,
    Microphone,
    Camera,
    ClipboardRead,
    ClipboardWrite,
    RemoteInput,
    Notifications,
    FileOpen,
    FileSave,
}

/// A saved decision.
#[derive(Debug)]
pub struct AiPermissionRecord {
    pub app_identity: String,
    pub resource: PermissionResource,
    pub target: PermissionTarget,
    pub scope: PermissionScope,
    pub decision: PermissionDecision,
}

pub open spec fn decision_label(decision: PermissionDecision) -> Seq<char> {
    match decision {
        PermissionDecision::Allow => "Allowed"@,
        PermissionDecision::Deny => "Denied"@,
        PermissionDecision::Ask => "Ask"@,
    }
}

pub fn permission_decision_label(decision: PermissionDecision) -> (r: &'static str)
    ensures
        r@ == decision_label(decision),
{
    match decision {
        PermissionDecision::Allow => "Allowed",
        PermissionDecision::Deny => "Denied",
        PermissionDecision::Ask => "Ask",
    }
}

pub open spec fn scope_label(scope: PermissionScope) -> Seq<char> {
    match scope {
        PermissionScope::Once => "Once"@,
        PermissionScope::Session => "Session"@,
        PermissionScope::Persistent => "Persistent"@,
    }
}

pub fn permission_scope_label(scope: PermissionScope) -> (r: &'static str)
    ensures
        r@ == scope_label(scope),
{
    match scope {
        PermissionScope::Once => "Once",
        PermissionScope::Session => "Session",
        PermissionScope::Persistent => "Persistent",
    }
}

pub open spec fn target_label(target: PermissionTarget) -> Seq<char> {
    match target {
        PermissionTarget::Global => "Global"@,
        PermissionTarget::Named(name) => name@,
    }
}

pub fn permission_target_label(target: &PermissionTarget) -> (r: String)
    ensures
        r@ == target_label(*target),
{
    match target {
        PermissionTarget::Global => "Global".to_owned(),
        PermissionTarget::Named(name) => name.clone(),
    }
}

pub open spec fn resource_label(resource: PermissionResource) -> Seq<char> {
    match resource {
        PermissionResource::Screenshot => "Screenshot"@,
        PermissionResource::Screencast => "Screencast"@,
        PermissionResource::ScreenShareWindow => "Window share"@,
        PermissionResource::ScreenShareOutput => "Output share"@,
        PermissionResource::AiChat => "AI chat"@,
        PermissionResource::Microphone => "Microphone"@,
        PermissionResource::Camera => "Camera"@,
        PermissionResource::ClipboardRead => "Clipboard read"@,
        PermissionResource::ClipboardWrite => "Clipboard write"@,
        PermissionResource::RemoteInput => "Remote input"@,
        PermissionResource::Notifications => "Notifications"@,
        PermissionResource::FileOpen => "File open"@,
        PermissionResource::FileSave => "File save"@,
    }
}

pub fn permission_resource_label(resource: PermissionResource) -> (r: &'static str)
    ensures
        r@ == resource_label(resource),
{
    match resource {
        PermissionResource::Screenshot => "Screenshot",
        PermissionResource::Screencast => "Screencast",
        PermissionResource::ScreenShareWindow => "Window share",
        PermissionResource::ScreenShareOutput => "Output share",
        PermissionResource::AiChat => "AI chat",
        PermissionResource::Microphone => "Microphone",
        PermissionResource::Camera => "Camera",
        PermissionResource::ClipboardRead => "Clipboard read",
        PermissionResource::ClipboardWrite => "Clipboard write",
        PermissionResource::RemoteInput => "Remote input",
        PermissionResource::Notifications => "Notifications",
        PermissionResource::FileOpen => "File open",
        PermissionResource::FileSave => "File save",
    }
}

/// A saved decision: what it is about, and what it is.
pub fn saved_permission_title(record: &AiPermissionRecord) -> (r: String)
    ensures
        r@ == resource_label(record.resource) + " \u{2014} "@ + decision_label(record.decision),
{
    permission_resource_label(record.resource).to_owned().concat(" \u{2014} ").concat(
        permission_decision_label(record.decision),
    )
}

/// A saved decision: who it is for, and how far it goes.
pub fn saved_permission_subtitle(record: &AiPermissionRecord) -> (r: String)
    ensures
        r@ == record.app_identity@ + " \u{2022} "@ + target_label(record.target) + " \u{2022} "@
            + scope_label(record.scope),
{
    record.app_identity.clone().concat(" \u{2022} ").concat(
        permission_target_label(&record.target).as_str(),
    ).concat(" \u{2022} ").concat(permission_scope_label(record.scope))
}

/// A row of the list of saved permissions.
#[derive(Debug)]
pub struct SavedRow {
    pub title: String,
    pub subtitle: String,
    /// It can be revoked; else it only says something, with this word behind.
    pub revocable: bool,
    pub suffix: &'static str,
}

/// The value of a [`SavedRow`].
pub ghost struct SavedView {
    pub title: Seq<char>,
    pub subtitle: Seq<char>,
    pub revocable: bool,
    pub suffix: Seq<char>,
}

impl View for SavedRow {
    type V = SavedView;

    open spec fn view(&self) -> SavedView {
        SavedView {
            title: self.title@,
            subtitle: self.subtitle@,
            revocable: self.revocable,
            suffix: self.suffix@,
        }
    }
}

pub open spec fn saved_views(list: Seq<SavedRow>) -> Seq<SavedView> {
    Seq::new(list.len(), |i: int| list[i]@)
}

/// The row of a saved decision.
pub open spec fn ai_row(r: AiPermissionRecord) -> SavedView {
    SavedView {
        title: resource_label(r.resource) + " \u{2014} "@ + decision_label(r.decision),
        subtitle: r.app_identity@ + " \u{2022} "@ + target_label(r.target) + " \u{2022} "@
            + scope_label(r.scope),
        revocable: true,
        suffix: ""@,
    }
}

pub open spec fn location_decision(a: AccuracyView) -> Seq<char> {
    match a {
        AccuracyView::NoAccess => "Denied"@,
        AccuracyView::Unknown(_) => "Unknown"@,
        _ => "Allowed"@,
    }
}

pub open spec fn location_accuracy(a: AccuracyView) -> Seq<char> {
    match a {
        AccuracyView::NoAccess => "No location access"@,
        AccuracyView::Country => "Country-level accuracy"@,
        AccuracyView::City => "City-level accuracy"@,
        AccuracyView::Neighborhood => "Neighborhood-level accuracy"@,
        AccuracyView::Street => "Street-level accuracy"@,
        AccuracyView::Exact => "Exact location"@,
        AccuracyView::Unknown(value) => "Unknown accuracy ("@ + value + ")"@,
    }
}

/// The row of a saved decision on the location.
pub open spec fn location_row(r: LocationPermissionRecord) -> SavedView {
    SavedView {
        title: "Location \u{2014} "@ + location_decision(r@.accuracy),
        subtitle: r@.app_id + " \u{2022} "@ + location_accuracy(r@.accuracy)
            + " \u{2022} XDG portal"@,
        revocable: true,
        suffix: ""@,
    }
}

pub open spec fn notice_row(title: Seq<char>, subtitle: Seq<char>, suffix: Seq<char>) -> SavedView {
    SavedView { title, subtitle, revocable: false, suffix }
}

/// The rows of the saved permissions: those of both lists, an error in place
/// of a list that could not be loaded, and a word where there is nothing.
pub open spec fn saved_rows(
    ai: Option<Seq<AiPermissionRecord>>,
    location: Option<Seq<LocationPermissionRecord>>,
) -> Seq<SavedView> {
    let first = match ai {
        Some(list) => Seq::new(list.len(), |i: int| ai_row(list[i])),
        None => seq![
            notice_row(
                "AI permissions could not be loaded"@,
                "Check the FocalDesk log for details"@,
                "Error"@,
            ),
        ],
    };
    let second = match location {
        Some(list) => Seq::new(list.len(), |i: int| location_row(list[i])),
        None => seq![
            notice_row(
                "Location permissions could not be loaded"@,
                "The XDG permission store is unavailable"@,
                "Error"@,
            ),
        ],
    };
    let both = first + second;
    if both.len() == 0 {
        seq![
            notice_row(
                "No saved permissions"@,
                "Apps will appear after you save a permission decision"@,
                ""@,
            ),
        ]
    } else {
        both
    }
}

fn notice(title: &str, subtitle: &str, suffix: &'static str) -> (r: SavedRow)
    ensures
        r@ == notice_row(title@, subtitle@, suffix@),
{
    SavedRow { title: title.to_owned(), subtitle: subtitle.to_owned(), revocable: false, suffix }
}

fn location_record_row(record: &LocationPermissionRecord) -> (r: SavedRow)
    ensures
        r@ == location_row(*record),
{
    SavedRow {
        title: "Location \u{2014} ".to_owned().concat(record.decision_label()),
        subtitle: record.app_id.clone().concat(" \u{2022} ").concat(
            record.accuracy_label().as_str(),
        ).concat(" \u{2022} XDG portal"),
        revocable: true,
        suffix: "",
    }
}

pub open spec fn ok_seq<T>(list: Option<Vec<T>>) -> Option<Seq<T>> {
    match list {
        Some(items) => Some(items@),
        None => None,
    }
}

/// The rows of the saved permissions; None stands for a list that could not be
/// loaded.
pub fn populate_saved_permissions(
    ai: &Option<Vec<AiPermissionRecord>>,
    location: &Option<Vec<LocationPermissionRecord>>,
) -> (r: Vec<SavedRow>)
    ensures
        saved_views(r@) == saved_rows(ok_seq(*ai), ok_seq(*location)),
{
    let mut out: Vec<SavedRow> = Vec::new();
    match ai {
        Some(records) => {
            let ghost rows = Seq::new(records@.len(), |i: int| ai_row(records@[i]));
            let mut i: usize = 0;
            while i < records.len()
                invariant
                    i <= records.len(),
                    rows == Seq::new(records@.len(), |i: int| ai_row(records@[i])),
                    saved_views(out@) == rows.take(i as int),
                decreases records.len() - i,
            {
                let row = SavedRow {
                    title: saved_permission_title(&records[i]),
                    subtitle: saved_permission_subtitle(&records[i]),
                    revocable: true,
                    suffix: "",
                };
                let ghost before = out@;
                assert(row@ == rows[i as int]);
                out.push(row);
                i += 1;
                assert(saved_views(out@) =~= saved_views(before).push(rows[i - 1]));
                assert(saved_views(out@) =~= rows.take(i as int));
            }
            assert(saved_views(out@) =~= rows);
        },
        None => {
            out.push(
                notice(
                    "AI permissions could not be loaded",
                    "Check the FocalDesk log for details",
                    "Error",
                ),
            );
            assert(saved_views(out@) =~= seq![out@[0]@]);
        },
    }
    let ghost first = saved_views(out@);
    match location {
        Some(records) => {
            let ghost rows = Seq::new(records@.len(), |i: int| location_row(records@[i]));
            let mut i: usize = 0;
            assert(saved_views(out@) =~= first + rows.take(0));
            while i < records.len()
                invariant
                    i <= records.len(),
                    rows == Seq::new(records@.len(), |i: int| location_row(records@[i])),
                    saved_views(out@) == first + rows.take(i as int),
                decreases records.len() - i,
            {
                let ghost before = out@;
                out.push(location_record_row(&records[i]));
                i += 1;
                assert(saved_views(out@) =~= saved_views(before).push(rows[i - 1]));
                assert(saved_views(out@) =~= first + rows.take(i as int));
            }
            assert(rows.take(i as int) =~= rows);
        },
        None => {
            let ghost before = out@;
            out.push(
                notice(
                    "Location permissions could not be loaded",
                    "The XDG permission store is unavailable",
                    "Error",
                ),
            );
            assert(saved_views(out@) =~= saved_views(before) + seq![out@.last()@]);
        },
    }
    assert(saved_views(out@).len() == out.len());
    if out.len() == 0 {
        out.push(
            notice(
                "No saved permissions",
                "Apps will appear after you save a permission decision",
                "",
            ),
        );
        assert(saved_views(out@) =~= seq![out@[0]@]);
    }
    out
}

/// What a row says after its permission was revoked, or could not be: the word
/// on its button, and the line below its title.
pub fn revoke_message(location: bool, revoked: bool) -> (r: (&'static str, &'static str))
    ensures
        r.0@ == if revoked {
            "Revoked"@
        } else {
            "Retry"@
        },
        r.1@ == if !revoked {
            "Could not revoke this permission; check the FocalDesk log"@
        } else if location {
            "This app will be asked again on its next location request"@
        } else {
            "This saved decision has been removed"@
        },
{
    if !revoked {
        ("Retry", "Could not revoke this permission; check the FocalDesk log")
    } else if location {
        ("Revoked", "This app will be asked again on its next location request")
    } else {
        ("Revoked", "This saved decision has been removed")
    }
}

/// Every saved decision has a row that can be revoked: those of the assistant
/// first, then those of the location, each in its order; no other row can.
pub proof fn law_saved_rows(
    ai: Seq<AiPermissionRecord>,
    location: Seq<LocationPermissionRecord>,
    i: int,
)
    requires
        ai.len() + location.len() > 0,
        0 <= i < ai.len() + location.len(),
    ensures
        ({
            let rows = saved_rows(Some(ai), Some(location));
            &&& rows.len() == ai.len() + location.len()
            &&& rows[i].revocable
            &&& i < ai.len() ==> rows[i] == ai_row(ai[i])
            &&& i >= ai.len() ==> rows[i] == location_row(location[i - ai.len()])
        }),
{
}

/// Where one kind cannot be loaded the other still shows, and a row says so that
/// cannot be revoked; the list is never empty.
pub proof fn law_rows_without_a_store(
    ai: Option<Seq<AiPermissionRecord>>,
    location: Option<Seq<LocationPermissionRecord>>,
    i: int,
)
    ensures
        saved_rows(ai, location).len() > 0,
        ai is None ==> !saved_rows(ai, location)[0].revocable && saved_rows(ai, location)[0].suffix
            == "Error"@,
        location is None ==> !saved_rows(ai, location).last().revocable && saved_rows(
            ai,
            location,
        ).last().suffix == "Error"@,
        ai is None && location is Some && 0 <= i < location->Some_0.len() ==> saved_rows(
            ai,
            location,
        )[i + 1] == location_row(location->Some_0[i]),
        location is None && ai is Some && 0 <= i < ai->Some_0.len() ==> saved_rows(
            ai,
            location,
        )[i] == ai_row(ai->Some_0[i]),
        !saved_rows(
            Some(Seq::<AiPermissionRecord>::empty()),
            Some(Seq::<LocationPermissionRecord>::empty()),
        )[0].revocable,
{
}

/// A row says whose decision it is: its second line starts with the name of the
/// application, whatever was decided.
pub proof fn law_rows_name_the_application(
    r: AiPermissionRecord,
    l: LocationPermissionRecord,
)
    ensures
        ai_row(r).subtitle.len() > r.app_identity@.len(),
        ai_row(r).subtitle.take(r.app_identity@.len() as int) == r.app_identity@,
        location_row(l).subtitle.take(l@.app_id.len() as int) == l@.app_id,
        l@.accuracy == AccuracyView::NoAccess <==> location_decision(l@.accuracy) == "Denied"@,
        l@.accuracy is Unknown <==> location_decision(l@.accuracy) == "Unknown"@,
{
    reveal_strlit(" \u{2022} ");
    reveal_strlit(" \u{2022} XDG portal");
    reveal_strlit("Denied");
    reveal_strlit("Unknown");
    reveal_strlit("Allowed");
    assert("Denied"@.len() == 6 && "Unknown"@.len() == 7 && "Allowed"@.len() == 7);
    assert("Unknown"@[0] != "Allowed"@[0]);
    let a = ai_row(r).subtitle;
    assert(a.take(r.app_identity@.len() as int) =~= r.app_identity@);
    let b = location_row(l).subtitle;
    assert(b.take(l@.app_id.len() as int) =~= l@.app_id);
}

/// A decision is told apart by its word.
pub proof fn law_decision_words(
    a: PermissionDecision,
    b: PermissionDecision,
    s: PermissionScope,
    t: PermissionScope,
)
    ensures
        decision_label(a) == decision_label(b) ==> a == b,
        scope_label(s) == scope_label(t) ==> s == t,
        decision_label(PermissionDecision::Allow) == "Allowed"@,
        decision_label(PermissionDecision::Deny) == "Denied"@,
        scope_label(PermissionScope::Once) == "Once"@,
        scope_label(PermissionScope::Session) == "Session"@,
{
    reveal_strlit("Allowed");
    reveal_strlit("Denied");
    reveal_strlit("Ask");
    reveal_strlit("Once");
    reveal_strlit("Session");
    reveal_strlit("Persistent");
    assert("Allowed"@.len() == 7 && "Denied"@.len() == 6 && "Ask"@.len() == 3);
    assert("Once"@.len() == 4 && "Session"@.len() == 7 && "Persistent"@.len() == 10);
}

} // verus!
