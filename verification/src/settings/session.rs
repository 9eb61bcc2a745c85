//! What the panels say about the session: its type, its files, and a report.

use crate::paths::{join_path, joined_path};
use crate::text::{opt_view, views};
use vstd::prelude::*;

verus! {

/// A variable that is set to something.
pub open spec fn is_set(value: Option<Seq<char>>) -> bool {
    value is Some && value->Some_0.len() > 0
}

fn filled(value: &Option<String>) -> (r: bool)
    ensures
        r == is_set(opt_view(*value)),
{
    match value {
        Some(text) => !text.as_str().is_empty(),
        None => false,
    }
}

/// The type of a session: as it names itself, or by the display it has.
pub open spec fn session_type_of(
    xdg_session_type: Option<Seq<char>>,
    wayland_display: Option<Seq<char>>,
    display: Option<Seq<char>>,
) -> Seq<char> {
    if is_set(xdg_session_type) {
        xdg_session_type->Some_0
    } else if is_set(wayland_display) {
        "wayland"@
    } else if is_set(display) {
        "x11"@
    } else {
        "unknown"@
    }
}

/// The type of a session; the arguments are the variables `XDG_SESSION_TYPE`,
/// `WAYLAND_DISPLAY` and `DISPLAY`.
pub fn session_type_label(
    xdg_session_type: &Option<String>,
    wayland_display: &Option<String>,
    display: &Option<String>,
) -> (r: String)
    ensures
        r@ == session_type_of(
            opt_view(*xdg_session_type),
            opt_view(*wayland_display),
            opt_view(*display),
        ),
{
    if let Some(text) = xdg_session_type {
        if !text.as_str().is_empty() {
            return text.clone();
        }
    }
    if filled(wayland_display) {
        "wayland".to_owned()
    } else if filled(display) {
        "x11".to_owned()
    } else {
        "unknown".to_owned()
    }
}

/// The directory of the configuration below a base directory, or below the
/// present one.
pub open spec fn config_dir_of(base: Option<Seq<char>>) -> Seq<char> {
    joined_path(
        match base {
            Some(dir) => dir,
            None => "."@,
        },
        "focaldesk"@,
    )
}

/// The directory of the configuration.
pub fn focaldesk_config_dir(base: &Option<String>) -> (r: String)
    ensures
        r@ == config_dir_of(opt_view(*base)),
{
    match base {
        Some(dir) => join_path(dir.as_str(), "focaldesk"),
        None => join_path(".", "focaldesk"),
    }
}

/// The file of the configuration.
pub fn focaldesk_config_path(base: &Option<String>) -> (r: String)
    ensures
        r@ == joined_path(config_dir_of(opt_view(*base)), "config.toml"@),
{
    join_path(focaldesk_config_dir(base).as_str(), "config.toml")
}

/// The file of the displays: below `XDG_CONFIG_HOME`, or else below `.config`
/// in the home directory.
pub fn displays_path(xdg_config_home: &Option<String>, home: &str) -> (r: String)
    ensures
        r@ == joined_path(
            joined_path(
                match opt_view(*xdg_config_home) {
                    Some(dir) => dir,
                    None => joined_path(home@, ".config"@),
                },
                "focaldesk"@,
            ),
            "displays.json"@,
        ),
{
    let base = match xdg_config_home {
        Some(dir) => dir.clone(),
        None => join_path(home, ".config"),
    };
    join_path(join_path(base.as_str(), "focaldesk").as_str(), "displays.json")
}

pub open spec fn log_below(dir: Seq<char>) -> Seq<char> {
    joined_path(joined_path(dir, "focaldesk"@), "focaldesk.log"@)
}

pub open spec fn one_of(value: Option<Seq<char>>) -> Seq<Seq<char>> {
    match value {
        Some(text) => seq![text],
        None => Seq::empty(),
    }
}

/// Where the log may be, in the order in which it is looked for.
pub open spec fn log_candidates(
    named: Option<Seq<char>>,
    state_dir: Option<Seq<char>>,
    cache_dir: Option<Seq<char>>,
) -> Seq<Seq<char>> {
    one_of(named) + one_of(
        match state_dir {
            Some(dir) => Some(log_below(dir)),
            None => None,
        },
    ) + one_of(
        match cache_dir {
            Some(dir) => Some(log_below(dir)),
            None => None,
        },
    ) + seq!["/tmp/focaldesk.log"@]
}

/// Where the log may be: where `FOCALDESK_LOG_FILE` says, below the state and
/// the cache directory, and in `/tmp`.
pub fn focaldesk_log_candidates(
    named: &Option<String>,
    state_dir: &Option<String>,
    cache_dir: &Option<String>,
) -> (r: Vec<String>)
    ensures
        views(r@) == log_candidates(opt_view(*named), opt_view(*state_dir), opt_view(*cache_dir)),
{
    let mut out: Vec<String> = Vec::new();
    if let Some(path) = named {
        out.push(path.clone());
    }
    assert(views(out@) =~= one_of(opt_view(*named)));
    let ghost a = views(out@);
    if let Some(dir) = state_dir {
        let below = join_path(dir.as_str(), "focaldesk");
        let ghost before = out@;
        out.push(join_path(below.as_str(), "focaldesk.log"));
        assert(views(out@) =~= views(before) + seq![log_below(dir@)]);
    } else {
        assert(views(out@) =~= a + Seq::<Seq<char>>::empty());
    }
    let ghost b = views(out@);
    if let Some(dir) = cache_dir {
        let below = join_path(dir.as_str(), "focaldesk");
        let ghost before = out@;
        out.push(join_path(below.as_str(), "focaldesk.log"));
        assert(views(out@) =~= views(before) + seq![log_below(dir@)]);
    } else {
        assert(views(out@) =~= b + Seq::<Seq<char>>::empty());
    }
    let ghost before = out@;
    out.push("/tmp/focaldesk.log".to_owned());
    assert(views(out@) =~= views(before) + seq!["/tmp/focaldesk.log"@]);
    out
}

/// The first of the places at which there is a log: `found[i]` says that there
/// is one at the `i`-th place.
pub open spec fn first_found(paths: Seq<Seq<char>>, found: Seq<bool>, from: int) -> Option<
    Seq<char>,
>
    decreases paths.len() - from,
{
    if from < 0 || from >= paths.len() {
        None
    } else if found[from] {
        Some(paths[from])
    } else {
        first_found(paths, found, from + 1)
    }
}

/// The first of the places at which there is a log.
pub fn existing_focaldesk_log_path(paths: &Vec<String>, found: &Vec<bool>) -> (r: Option<String>)
    requires
        paths.len() == found.len(),
    ensures
        opt_view(r) == first_found(views(paths@), found@, 0),
{
    let ghost all = views(paths@);
    let mut i: usize = 0;
    while i < paths.len()
        invariant
            i <= paths.len(),
            paths.len() == found.len(),
            all == views(paths@),
            first_found(all, found@, 0) == first_found(all, found@, i as int),
        decreases paths.len() - i,
    {
        if found[i] {
            assert(all[i as int] == paths@[i as int]@);
            return Some(paths[i].clone());
        }
        i += 1;
    }
    None
}

/// What a report on the session is made of.
#[derive(Debug)]
pub struct Diagnostics {
    pub version: String,
    pub build_hash: String,
    pub debug_build: bool,
    pub os: String,
    pub arch: String,
    pub session_type: String,
    pub current_exe: Option<String>,
    pub config_path: String,
    pub settings_path: String,
    pub log_path: Option<String>,
    pub wayland_display: Option<String>,
    pub display: Option<String>,
    pub current_desktop: Option<String>,
}

pub open spec fn or_else(value: Option<String>, other: Seq<char>) -> Seq<char> {
    match value {
        Some(text) => text@,
        None => other,
    }
}

/// A report on the session.
pub open spec fn report_of(d: Diagnostics) -> Seq<char> {
    "FocalDesk diagnostics\nVersion: "@ + d.version@ + "\nBuild hash: "@ + d.build_hash@
        + "\nBuild profile: "@ + (if d.debug_build {
        "debug"@
    } else {
        "release"@
    }) + "\nOS/arch: "@ + d.os@ + "/"@ + d.arch@ + "\nSession type: "@ + d.session_type@
        + "\nCurrent executable: "@ + or_else(d.current_exe, "unknown"@) + "\nConfig path: "@
        + d.config_path@ + "\nSettings path: "@ + d.settings_path@ + "\nLog path: "@ + or_else(
        d.log_path,
        "not found"@,
    ) + "\nWAYLAND_DISPLAY: "@ + or_else(d.wayland_display, "unset"@) + "\nDISPLAY: "@ + or_else(
        d.display,
        "unset"@,
    ) + "\nXDG_CURRENT_DESKTOP: "@ + or_else(d.current_desktop, "unset"@)
}

fn append_or(out: &mut String, value: &Option<String>, other: &str)
    ensures
        final(out)@ == old(out)@ + or_else(*value, other@),
{
    match value {
        Some(text) => out.append(text.as_str()),
        None => out.append(other),
    }
}

/// A report on the session.
pub fn diagnostics_text(d: &Diagnostics) -> (r: String)
    ensures
        r@ == report_of(*d),
{
    let mut out = "FocalDesk diagnostics\nVersion: ".to_owned();
    out.append(d.version.as_str());
    out.append("\nBuild hash: ");
    out.append(d.build_hash.as_str());
    out.append("\nBuild profile: ");
    out.append(
        if d.debug_build {
            "debug"
        } else {
            "release"
        },
    );
    out.append("\nOS/arch: ");
    out.append(d.os.as_str());
    out.append("/");
    out.append(d.arch.as_str());
    out.append("\nSession type: ");
    out.append(d.session_type.as_str());
    out.append("\nCurrent executable: ");
    append_or(&mut out, &d.current_exe, "unknown");
    out.append("\nConfig path: ");
    out.append(d.config_path.as_str());
    out.append("\nSettings path: ");
    out.append(d.settings_path.as_str());
    out.append("\nLog path: ");
    append_or(&mut out, &d.log_path, "not found");
    out.append("\nWAYLAND_DISPLAY: ");
    append_or(&mut out, &d.wayland_display, "unset");
    out.append("\nDISPLAY: ");
    append_or(&mut out, &d.display, "unset");
    out.append("\nXDG_CURRENT_DESKTOP: ");
    append_or(&mut out, &d.current_desktop, "unset");
    out
}

/// What is said after the log was to be opened: `opened` is what came of
/// opening it, where there is one.
pub fn open_log_message(opened: &Option<bool>) -> (r: &'static str)
    ensures
        r@ == match *opened {
            Some(true) => "Opened log file"@,
            Some(false) => "Unable to open log file"@,
            None => "No FocalDesk log file was found"@,
        },
{
    match opened {
        Some(done) => if *done {
            "Opened log file"
        } else {
            "Unable to open log file"
        },
        None => "No FocalDesk log file was found",
    }
}

/// What is said after the report was to be copied.
pub fn copy_message(clipboard: bool) -> (r: &'static str)
    ensures
        r@ == if clipboard {
            "Diagnostics copied to clipboard"@
        } else {
            "Clipboard is unavailable"@
        },
{
    if clipboard {
        "Diagnostics copied to clipboard"
    } else {
        "Clipboard is unavailable"
    }
}

/// The log that is opened is the first of the places that there is one at, and
/// where there is one anywhere it is found.
pub proof fn law_first_found(paths: Seq<Seq<char>>, found: Seq<bool>, k: int)
    requires
        paths.len() == found.len(),
        0 <= k < paths.len(),
        found[k],
        forall|j: int| 0 <= j < k ==> !found[j],
    ensures
        first_found(paths, found, 0) == Some(paths[k]),
{
    lemma_first_found(paths, found, 0, k);
}

proof fn lemma_first_found(paths: Seq<Seq<char>>, found: Seq<bool>, from: int, k: int)
    requires
        paths.len() == found.len(),
        0 <= from <= k < paths.len(),
        found[k],
        forall|j: int| from <= j < k ==> !found[j],
    ensures
        first_found(paths, found, from) == Some(paths[k]),
    decreases k - from,
{
    if from < k {
        lemma_first_found(paths, found, from + 1, k);
    }
}

/// Where no place has a log, none is opened.
pub proof fn law_none_found(paths: Seq<Seq<char>>, found: Seq<bool>, from: int)
    requires
        paths.len() == found.len(),
        0 <= from,
        forall|j: int| from <= j < found.len() ==> !found[j],
    ensures
        first_found(paths, found, from) is None,
    decreases paths.len() - from,
{
    if from < paths.len() {
        law_none_found(paths, found, from + 1);
    }
}

/// The log is looked for where it was named first, then below the directory for
/// state, then below the one for caches, and at last below `/tmp`.
pub proof fn law_log_candidates(
    named: Option<Seq<char>>,
    state_dir: Option<Seq<char>>,
    cache_dir: Option<Seq<char>>,
)
    ensures
        ({
            let all = log_candidates(named, state_dir, cache_dir);
            let n = if named is Some {
                1int
            } else {
                0
            };
            let m = if state_dir is Some {
                1int
            } else {
                0
            };
            &&& all.last() == "/tmp/focaldesk.log"@
            &&& named is Some ==> all[0] == named->Some_0
            &&& state_dir is Some ==> all[n] == joined_path(
                joined_path(state_dir->Some_0, "focaldesk"@),
                "focaldesk.log"@,
            )
            &&& cache_dir is Some ==> all[n + m] == joined_path(
                joined_path(cache_dir->Some_0, "focaldesk"@),
                "focaldesk.log"@,
            )
            &&& all.len() == n + m + (if cache_dir is Some {
                1int
            } else {
                0
            }) + 1
        }),
{
}

/// The session is what it says it is; one that says nothing is told by the
/// displays it has, Wayland before X11, and an empty name is no name.
pub proof fn law_session_type(
    named: Option<Seq<char>>,
    wayland: Option<Seq<char>>,
    x11: Option<Seq<char>>,
)
    ensures
        named is Some && named->Some_0.len() > 0 ==> session_type_of(named, wayland, x11)
            == named->Some_0,
        session_type_of(Some(Seq::empty()), wayland, x11) == session_type_of(None, wayland, x11),
        wayland is Some && wayland->Some_0.len() > 0 ==> session_type_of(None, wayland, x11)
            == "wayland"@,
        x11 is Some && x11->Some_0.len() > 0 ==> session_type_of(None, None, x11) == "x11"@,
        session_type_of(None, None, None) == "unknown"@,
{
}

} // verus!
