//! Editable keyboard shortcuts.

use crate::assoc::{get, law_with_pair, lookup, pair_views, set_pair, with_pair};
use crate::text::{trim, trimmed};
use vstd::prelude::*;

verus! {

/// An action that has a shortcut: its name, what it is called, and the shortcut
/// that it has at first.
#[derive(Debug, Clone, Copy)]
pub struct Keybinding {
    pub action: &'static str,
    pub label: &'static str,
    pub default_shortcut: &'static str,
}

/// The value of a [`Keybinding`].
pub ghost struct KeybindingView {
    pub action: Seq<char>,
    pub label: Seq<char>,
    pub default_shortcut: Seq<char>,
}

impl View for Keybinding {
    type V = KeybindingView;

    open spec fn view(&self) -> KeybindingView {
        KeybindingView {
            action: self.action@,
            label: self.label@,
            default_shortcut: self.default_shortcut@,
        }
    }
}

pub open spec fn binding(action: Seq<char>, label: Seq<char>, shortcut: Seq<char>) -> KeybindingView {
    KeybindingView { action, label, default_shortcut: shortcut }
}

/// The actions whose shortcuts can be changed.
pub open spec fn bindings() -> Seq<KeybindingView> {
    seq![
        binding("launch_terminal"@, "Open terminal"@, "Super+Enter"@),
        binding("launch_browser"@, "Open browser"@, "Super+B"@),
        binding("toggle_launcher"@, "Open launcher"@, "Ctrl+Alt+D"@),
        binding("close_focused"@, "Close focused window"@, "Super+Q"@),
        binding("lock_screen"@, "Lock screen"@, "Super+L"@),
        binding("toggle_clipboard_history"@, "Clipboard history"@, "Super+V"@),
        binding("focus_previous"@, "Focus previous window"@, "Super+F7"@),
        binding("focus_next"@, "Focus next window"@, "Super+F8"@),
    ]
}

pub open spec fn binding_views(list: Seq<Keybinding>) -> Seq<KeybindingView> {
    Seq::new(list.len(), |i: int| list[i]@)
}

/// The actions whose shortcuts can be changed.
pub fn editable_keybindings() -> (r: Vec<Keybinding>)
    ensures
        binding_views(r@) == bindings(),
{
    let mut out: Vec<Keybinding> = Vec::new();
    out.push(
        Keybinding {
            action: "launch_terminal",
            label: "Open terminal",
            default_shortcut: "Super+Enter",
        },
    );
    out.push(
        Keybinding {
            action: "launch_browser",
            label: "Open browser",
            default_shortcut: "Super+B",
        },
    );
    out.push(
        Keybinding {
            action: "toggle_launcher",
            label: "Open launcher",
            default_shortcut: "Ctrl+Alt+D",
        },
    );
    out.push(
        Keybinding {
            action: "close_focused",
            label: "Close focused window",
            default_shortcut: "Super+Q",
        },
    );
    out.push(
        Keybinding {
            action: "lock_screen",
            label: "Lock screen",
            default_shortcut: "Super+L",
        },
    );
    out.push(
        Keybinding {
            action: "toggle_clipboard_history",
            label: "Clipboard history",
            default_shortcut: "Super+V",
        },
    );
    out.push(
        Keybinding {
            action: "focus_previous",
            label: "Focus previous window",
            default_shortcut: "Super+F7",
        },
    );
    out.push(
        Keybinding {
            action: "focus_next",
            label: "Focus next window",
            default_shortcut: "Super+F8",
        },
    );
    assert(binding_views(out@) =~= bindings());
    out
}

/// The shortcut of an action: the one that was set, or the default.
pub open spec fn shortcut_of(
    shortcuts: Seq<(Seq<char>, Seq<char>)>,
    action: Seq<char>,
    default_shortcut: Seq<char>,
) -> Seq<char> {
    match lookup(shortcuts, action) {
        Some(text) => text,
        None => default_shortcut,
    }
}

/// The shortcut of an action.
pub fn shortcut(shortcuts: &Vec<(String, String)>, b: &Keybinding) -> (r: String)
    ensures
        r@ == shortcut_of(pair_views(shortcuts@), b@.action, b@.default_shortcut),
{
    match get(shortcuts, &b.action.to_owned()) {
        Some(text) => text,
        None => b.default_shortcut.to_owned(),
    }
}

/// A shortcut was entered: it is kept without white space around it.
pub fn set_shortcut(shortcuts: &mut Vec<(String, String)>, b: &Keybinding, text: &str)
    ensures
        pair_views(final(shortcuts)@) == with_pair(
            pair_views(old(shortcuts)@),
            b@.action,
            trimmed(text@),
        ),
{
    set_pair(shortcuts, b.action.to_owned(), trim(text));
}

/// The first `n` actions with their default shortcuts, and nothing else.
pub open spec fn default_shortcuts(n: int) -> Seq<(Seq<char>, Seq<char>)>
    decreases n,
{
    if n <= 0 {
        Seq::empty()
    } else {
        with_pair(
            default_shortcuts(n - 1),
            bindings()[n - 1].action,
            bindings()[n - 1].default_shortcut,
        )
    }
}

/// All shortcuts become what they are at first.
pub fn reset_shortcuts(shortcuts: &mut Vec<(String, String)>)
    ensures
        pair_views(final(shortcuts)@) == default_shortcuts(8),
{
    let list = editable_keybindings();
    assert(binding_views(list@).len() == list.len());
    let mut out: Vec<(String, String)> = Vec::new();
    let mut i: usize = 0;
    assert(pair_views(out@) =~= default_shortcuts(0));
    while i < list.len()
        invariant
            i <= list.len(),
            list.len() == 8,
            binding_views(list@) == bindings(),
            pair_views(out@) == default_shortcuts(i as int),
        decreases list.len() - i,
    {
        assert(bindings()[i as int] == list@[i as int]@);
        set_pair(&mut out, list[i].action.to_owned(), list[i].default_shortcut.to_owned());
        i += 1;
    }
    *shortcuts = out;
}

proof fn lemma_actions_differ(i: int, j: int)
    requires
        0 <= i < j < 8,
    ensures
        bindings()[i].action != bindings()[j].action,
{
    reveal_strlit("launch_terminal");
    reveal_strlit("launch_browser");
    reveal_strlit("toggle_launcher");
    reveal_strlit("close_focused");
    reveal_strlit("lock_screen");
    reveal_strlit("toggle_clipboard_history");
    reveal_strlit("focus_previous");
    reveal_strlit("focus_next");
    let a = bindings()[i].action;
    let b = bindings()[j].action;
    if a == b {
        assert(a.len() == b.len());
        assert(a[0] == b[0]);
        assert(a[7] == b[7]);
    }
}

proof fn lemma_defaults(n: int, i: int)
    requires
        0 <= i < n <= 8,
    ensures
        lookup(default_shortcuts(n), bindings()[i].action) == Some(bindings()[i].default_shortcut),
    decreases n,
{
    let last = bindings()[n - 1];
    law_with_pair(
        default_shortcuts(n - 1),
        last.action,
        last.default_shortcut,
        bindings()[i].action,
    );
    if i < n - 1 {
        lemma_actions_differ(i, n - 1);
        lemma_defaults(n - 1, i);
    }
}

/// After a reset each action has its default shortcut; after one was entered it
/// has that, and the others keep theirs.
pub proof fn law_shortcuts(
    shortcuts: Seq<(Seq<char>, Seq<char>)>,
    i: int,
    j: int,
    text: Seq<char>,
)
    requires
        0 <= i < 8,
        0 <= j < 8,
    ensures
        ({
            let a = bindings()[i];
            let b = bindings()[j];
            let after = with_pair(shortcuts, a.action, trimmed(text));
            &&& shortcut_of(default_shortcuts(8), a.action, a.default_shortcut)
                == a.default_shortcut
            &&& lookup(default_shortcuts(8), a.action) == Some(a.default_shortcut)
            &&& shortcut_of(after, a.action, a.default_shortcut) == trimmed(text)
            &&& i != j ==> shortcut_of(after, b.action, b.default_shortcut) == shortcut_of(
                shortcuts,
                b.action,
                b.default_shortcut,
            )
        }),
{
    lemma_defaults(8, i);
    if i < j {
        lemma_actions_differ(i, j);
    } else if j < i {
        lemma_actions_differ(j, i);
    }
    law_with_pair(shortcuts, bindings()[i].action, trimmed(text), bindings()[j].action);
}

} // verus!
