//! The panels of the settings window, and which one is shown first.

use crate::text::{
    after_prefix, eq_ignore_ascii_case, lemma_after_prefix, lowered, opt_view, same,
    strip_prefix, to_ascii_lowercase, views,
};
use vstd::prelude::*;

verus! {

/// The panel that the arguments ask for: behind `--panel`, or after an equals
/// sign.
pub open spec fn panel_from(args: Seq<Seq<char>>, i: int) -> Option<Seq<char>>
    decreases args.len() - i,
{
    if i < 0 || i >= args.len() {
        None
    } else if args[i] == "--panel"@ {
        if i + 1 < args.len() {
            Some(lowered(args[i + 1]))
        } else {
            None
        }
    } else {
        match after_prefix(args[i], "--panel="@) {
            Some(panel) => Some(lowered(panel)),
            None => panel_from(args, i + 1),
        }
    }
}

/// The panel that the arguments ask for, in lower case.
pub fn requested_panel(args: &Vec<String>) -> (r: Option<String>)
    ensures
        opt_view(r) == panel_from(views(args@), 0),
{
    let ghost all = views(args@);
    let mut i: usize = 0;
    while i < args.len()
        invariant
            i <= args.len(),
            all == views(args@),
            panel_from(all, 0) == panel_from(all, i as int),
        decreases args.len() - i,
    {
        assert(all[i as int] == args@[i as int]@);
        if same(args[i].as_str(), "--panel") {
            if i + 1 < args.len() {
                assert(all[i + 1] == args@[i + 1]@);
                return Some(to_ascii_lowercase(args[i + 1].as_str()));
            }
            return None;
        }
        if let Some(panel) = strip_prefix(args[i].as_str(), "--panel=") {
            return Some(to_ascii_lowercase(panel.as_str()));
        }
        i += 1;
    }
    None
}

/// The panels, in the order of the side bar.
pub open spec fn panels() -> Seq<Seq<char>> {
    seq![
        "Appearance"@,
        "Theme Editor"@,
        "Network"@,
        "Bluetooth"@,
        "Printers"@,
        "Displays"@,
        "Sound"@,
        "Applications"@,
        "Chrome"@,
        "Workspaces"@,
        "Keyboard"@,
        "Privacy"@,
        "Power"@,
        "Debug"@,
        "About"@,
    ]
}

fn add_panel(list: &mut Vec<String>, name: &str)
    ensures
        views(final(list)@) == views(old(list)@).push(name@),
{
    let text = name.to_owned();
    proof {
        crate::text::lemma_views_push(list@, text);
    }
    list.push(text);
}

/// The panels, in the order of the side bar.
pub fn panel_names() -> (r: Vec<String>)
    ensures
        views(r@) == panels(),
{
    let mut out: Vec<String> = Vec::new();
    add_panel(&mut out, "Appearance");
    add_panel(&mut out, "Theme Editor");
    add_panel(&mut out, "Network");
    add_panel(&mut out, "Bluetooth");
    add_panel(&mut out, "Printers");
    add_panel(&mut out, "Displays");
    add_panel(&mut out, "Sound");
    add_panel(&mut out, "Applications");
    add_panel(&mut out, "Chrome");
    add_panel(&mut out, "Workspaces");
    add_panel(&mut out, "Keyboard");
    add_panel(&mut out, "Privacy");
    add_panel(&mut out, "Power");
    add_panel(&mut out, "Debug");
    add_panel(&mut out, "About");
    assert(views(out@) =~= panels());
    out
}

/// The first panel of a name, whatever the case of its letters, or the first
/// panel.
pub open spec fn panel_place(list: Seq<Seq<char>>, wanted: Seq<char>, from: int) -> int
    decreases list.len() - from,
{
    if from < 0 || from >= list.len() {
        0
    } else if lowered(list[from]) == lowered(wanted) {
        from
    } else {
        panel_place(list, wanted, from + 1)
    }
}

/// The position of the panel that is shown first.
pub fn initial_panel(requested: &Option<String>) -> (r: usize)
    ensures
        r == match opt_view(*requested) {
            Some(wanted) => panel_place(panels(), wanted, 0),
            None => 0,
        },
{
    if let Some(wanted) = requested {
        let list = panel_names();
        let ghost all = views(list@);
        let mut i: usize = 0;
        while i < list.len()
            invariant
                i <= list.len(),
                all == views(list@),
                all == panels(),
                opt_view(*requested) == Some(wanted@),
                panel_place(all, wanted@, 0) == panel_place(all, wanted@, i as int),
            decreases list.len() - i,
        {
            assert(all[i as int] == list@[i as int]@);
            if eq_ignore_ascii_case(list[i].as_str(), wanted.as_str()) {
                return i;
            }
            i += 1;
        }
    }
    0
}

proof fn lemma_panel_place(list: Seq<Seq<char>>, wanted: Seq<char>, from: int)
    requires
        0 <= from <= list.len(),
    ensures
        0 <= panel_place(list, wanted, from),
        panel_place(list, wanted, from) < list.len() || list.len() == 0,
        (exists|k: int| from <= k < list.len() && lowered(#[trigger] list[k]) == lowered(wanted))
            ==> lowered(list[panel_place(list, wanted, from)]) == lowered(wanted),
    decreases list.len() - from,
{
    if from < list.len() && lowered(list[from]) != lowered(wanted) {
        lemma_panel_place(list, wanted, from + 1);
    }
}

/// There always is a first panel, and it is the one that was asked for where
/// there is such a panel, whatever the case of its letters.
pub proof fn law_initial_panel(wanted: Seq<char>, k: int)
    requires
        0 <= k < panels().len(),
        lowered(panels()[k]) == lowered(wanted),
    ensures
        0 <= panel_place(panels(), wanted, 0) < panels().len(),
        lowered(panels()[panel_place(panels(), wanted, 0)]) == lowered(wanted),
{
    lemma_panel_place(panels(), wanted, 0);
}

/// An argument that asks for no panel.
pub open spec fn asks_nothing(arg: Seq<char>) -> bool {
    arg != "--panel"@ && after_prefix(arg, "--panel="@) is None
}

/// The first argument that asks for a panel decides, with the panel behind it or
/// in it, in lower case; arguments that ask for none do not.
pub proof fn law_requested_panel(
    before: Seq<Seq<char>>,
    panel: Seq<char>,
    after: Seq<Seq<char>>,
)
    requires
        forall|i: int| 0 <= i < before.len() ==> asks_nothing(#[trigger] before[i]),
    ensures
        panel_from(before + seq!["--panel"@, panel] + after, 0) == Some(lowered(panel)),
        panel_from(before + seq!["--panel="@ + panel] + after, 0) == Some(lowered(panel)),
        panel_from(before, 0) is None,
        panel_from(before + seq!["--panel"@], 0) is None,
{
    let apart = before + seq!["--panel"@, panel] + after;
    let joint = before + seq!["--panel="@ + panel] + after;
    let bare = before + seq!["--panel"@];
    let n = before.len() as int;
    lemma_after_prefix("--panel="@, panel);
    reveal_strlit("--panel");
    reveal_strlit("--panel=");
    assert("--panel="@ + panel != "--panel"@) by {
        assert(("--panel="@ + panel).len() >= 8);
        assert("--panel"@.len() == 7);
    }
    assert(apart[n] == "--panel"@ && apart[n + 1] == panel);
    assert(joint[n] == "--panel="@ + panel);
    assert(bare[n] == "--panel"@);
    assert forall|i: int| 0 <= i < n implies asks_nothing(#[trigger] apart[i]) by {
        assert(apart[i] == before[i]);
    }
    assert forall|i: int| 0 <= i < n implies asks_nothing(#[trigger] joint[i]) by {
        assert(joint[i] == before[i]);
    }
    assert forall|i: int| 0 <= i < n implies asks_nothing(#[trigger] bare[i]) by {
        assert(bare[i] == before[i]);
    }
    lemma_passes_over(apart, 0, n);
    lemma_passes_over(joint, 0, n);
    lemma_passes_over(bare, 0, n);
    lemma_passes_over(before, 0, n);
}

proof fn lemma_passes_over(args: Seq<Seq<char>>, from: int, n: int)
    requires
        0 <= from <= n <= args.len(),
        forall|i: int| from <= i < n ==> asks_nothing(#[trigger] args[i]),
    ensures
        panel_from(args, from) == panel_from(args, n),
    decreases n - from,
{
    if from < n {
        assert(asks_nothing(args[from]));
        lemma_passes_over(args, from + 1, n);
    }
}

} // verus!
