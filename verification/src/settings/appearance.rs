//! The appearance panel: what is set here, and what is changed elsewhere.

use crate::settings::options::{
    dock_at, dock_place, dock_visibility_from_index, dock_visibility_index, DockVisibility,
};
use crate::text::same;
use vstd::prelude::*;

verus! {

/// What the panel shows of the configuration. Numbers are carried as the bits
/// of IEEE 754 doubles.
#[derive(Debug)]
pub struct Appearance {
    pub shader_chrome: bool,
    pub work_area_glass: bool,
    pub output_focus_glow: bool,
    pub theme: String,
    pub glow_strength: u64,
    pub font_scale: u64,
    pub dock: DockVisibility,
}

/// The value of an [`Appearance`].
pub ghost struct AppearanceView {
    pub shader_chrome: bool,
    pub work_area_glass: bool,
    pub output_focus_glow: bool,
    pub theme: Seq<char>,
    pub glow_strength: u64,
    pub font_scale: u64,
    pub dock: DockVisibility,
}

impl View for Appearance {
    type V = AppearanceView;

    open spec fn view(&self) -> AppearanceView {
        AppearanceView {
            shader_chrome: self.shader_chrome,
            work_area_glass: self.work_area_glass,
            output_focus_glow: self.output_focus_glow,
            theme: self.theme@,
            glow_strength: self.glow_strength,
            font_scale: self.font_scale,
            dock: self.dock,
        }
    }
}

/// The value of a setting that was changed, as far as the panel can use it.
#[derive(Debug)]
pub enum SettingValue {
    Truth(bool),
    Text(String),
    Number(u64),
    Dock(DockVisibility),
    Other,
}

/// What a control is set to after a setting was changed elsewhere.
#[derive(Debug, Clone, Copy, PartialEq, Eq, Structural)]
pub enum ControlUpdate {
    Shader(bool),
    Glass(bool),
    Focus(bool),
    /// The position in the menu of themes; none where the theme is not in it.
    Theme(Option<u32>),
    Glow(u64),
    Font(u64),
    Shelf(u32),
}

/// The themes of the menu.
pub open spec fn themes() -> Seq<Seq<char>> {
    seq!["Default"@, "Eagle"@, "Moonbase"@, "Classic"@]
}

/// The position of a theme in the menu.
pub open spec fn theme_place(theme: Seq<char>) -> Option<u32> {
    if theme == "Default"@ {
        Some(0u32)
    } else if theme == "Eagle"@ {
        Some(1u32)
    } else if theme == "Moonbase"@ {
        Some(2u32)
    } else if theme == "Classic"@ {
        Some(3u32)
    } else {
        None
    }
}

/// The position of a theme in the menu.
pub fn theme_index(theme: &str) -> (r: Option<u32>)
    ensures
        r == theme_place(theme@),
{
    if same(theme, "Default") {
        Some(0)
    } else if same(theme, "Eagle") {
        Some(1)
    } else if same(theme, "Moonbase") {
        Some(2)
    } else if same(theme, "Classic") {
        Some(3)
    } else {
        None
    }
}

/// The theme at a position of the menu.
pub fn theme_at(index: u32) -> (r: Option<&'static str>)
    ensures
        match r {
            Some(theme) => index < 4 && theme@ == themes()[index as int],
            None => index >= 4,
        },
{
    match index {
        0 => Some("Default"),
        1 => Some("Eagle"),
        2 => Some("Moonbase"),
        3 => Some("Classic"),
        _ => None,
    }
}

/// The theme that is chosen is the one that is shown as chosen.
pub proof fn law_theme_round_trip(index: u32)
    requires
        index < 4,
    ensures
        theme_place(themes()[index as int]) == Some(index),
{
    reveal_strlit("Default");
    reveal_strlit("Eagle");
    reveal_strlit("Moonbase");
    reveal_strlit("Classic");
    assert("Default"@[0] == 'D');
    assert("Classic"@[0] == 'C');
    assert("Eagle"@.len() == 5);
    assert("Moonbase"@.len() == 8);
}

/// The position that the menu of themes starts at.
pub fn initial_theme_index(theme: &str) -> (r: u32)
    ensures
        r == match theme_place(theme@) {
            Some(i) => i,
            None => 0,
        },
{
    match theme_index(theme) {
        Some(i) => i,
        None => 0,
    }
}

/// The configuration and the control to set after a setting was changed
/// elsewhere; a value that does not fit its key changes nothing.
pub open spec fn after_setting(a: AppearanceView, key: Seq<char>, value: SettingValue) -> (
    AppearanceView,
    Option<ControlUpdate>,
) {
    if key == "appearance.shader_chrome"@ && value is Truth {
        let on = value->Truth_0;
        (AppearanceView { shader_chrome: on, ..a }, Some(ControlUpdate::Shader(on)))
    } else if key == "appearance.work_area_glass"@ && value is Truth {
        let on = value->Truth_0;
        (AppearanceView { work_area_glass: on, ..a }, Some(ControlUpdate::Glass(on)))
    } else if key == "appearance.output_focus_glow"@ && value is Truth {
        let on = value->Truth_0;
        (AppearanceView { output_focus_glow: on, ..a }, Some(ControlUpdate::Focus(on)))
    } else if key == "appearance.theme"@ && value is Text {
        let theme = value->Text_0@;
        (AppearanceView { theme, ..a }, Some(ControlUpdate::Theme(theme_place(theme))))
    } else if key == "appearance.glow_strength"@ && value is Number {
        let n = value->Number_0;
        (AppearanceView { glow_strength: n, ..a }, Some(ControlUpdate::Glow(n)))
    } else if key == "appearance.font_scale"@ && value is Number {
        let n = value->Number_0;
        (AppearanceView { font_scale: n, ..a }, Some(ControlUpdate::Font(n)))
    } else if key == "dock.visibility"@ && value is Dock {
        let dock = value->Dock_0;
        (AppearanceView { dock, ..a }, Some(ControlUpdate::Shelf(dock_place(dock))))
    } else {
        (a, None)
    }
}

proof fn lemma_keys_differ()
    ensures
        "appearance.shader_chrome"@ != "appearance.work_area_glass"@,
        "appearance.shader_chrome"@ != "appearance.output_focus_glow"@,
        "appearance.work_area_glass"@ != "appearance.output_focus_glow"@,
        "appearance.glow_strength"@ != "appearance.font_scale"@,
{
    reveal_strlit("appearance.shader_chrome");
    reveal_strlit("appearance.work_area_glass");
    reveal_strlit("appearance.output_focus_glow");
    reveal_strlit("appearance.glow_strength");
    reveal_strlit("appearance.font_scale");
    assert("appearance.shader_chrome"@[11] == 's');
    assert("appearance.work_area_glass"@[11] == 'w');
    assert("appearance.output_focus_glow"@[11] == 'o');
    assert("appearance.glow_strength"@[11] == 'g');
    assert("appearance.font_scale"@[11] == 'f');
}

/// A change that is made with a switch or a scale of the panel.
#[derive(Debug, Clone, Copy, PartialEq, Eq, Structural)]
pub enum AppearanceChange {
    ShaderChrome(bool),
    WorkAreaGlass(bool),
    OutputFocusGlow(bool),
    GlowStrength(u64),
    FontScale(u64),
}

/// The key of the setting that a change is of.
pub open spec fn key_of(change: AppearanceChange) -> Seq<char> {
    match change {
        AppearanceChange::ShaderChrome(_) => "appearance.shader_chrome"@,
        AppearanceChange::WorkAreaGlass(_) => "appearance.work_area_glass"@,
        AppearanceChange::OutputFocusGlow(_) => "appearance.output_focus_glow"@,
        AppearanceChange::GlowStrength(_) => "appearance.glow_strength"@,
        AppearanceChange::FontScale(_) => "appearance.font_scale"@,
    }
}

/// The value that a change sets.
pub open spec fn value_of(change: AppearanceChange) -> SettingValue {
    match change {
        AppearanceChange::ShaderChrome(on) => SettingValue::Truth(on),
        AppearanceChange::WorkAreaGlass(on) => SettingValue::Truth(on),
        AppearanceChange::OutputFocusGlow(on) => SettingValue::Truth(on),
        AppearanceChange::GlowStrength(n) => SettingValue::Number(n),
        AppearanceChange::FontScale(n) => SettingValue::Number(n),
    }
}

/// The configuration after a change.
pub open spec fn after_change(a: AppearanceView, change: AppearanceChange) -> AppearanceView {
    match change {
        AppearanceChange::ShaderChrome(on) => AppearanceView { shader_chrome: on, ..a },
        AppearanceChange::WorkAreaGlass(on) => AppearanceView { work_area_glass: on, ..a },
        AppearanceChange::OutputFocusGlow(on) => AppearanceView { output_focus_glow: on, ..a },
        AppearanceChange::GlowStrength(n) => AppearanceView { glow_strength: n, ..a },
        AppearanceChange::FontScale(n) => AppearanceView { font_scale: n, ..a },
    }
}

/// What is set here comes back as it was set: the key and the value that are
/// saved change another panel as they changed this one, and this one not again.
pub proof fn law_changes_come_back(a: AppearanceView, change: AppearanceChange)
    ensures
        after_setting(a, key_of(change), value_of(change)).0 == after_change(a, change),
        after_setting(after_change(a, change), key_of(change), value_of(change)).0 == after_change(
            a,
            change,
        ),
{
    lemma_keys_differ();
}

impl Appearance {
    fn truth_changed(&mut self, key: &str, on: bool) -> (r: Option<ControlUpdate>)
        ensures
            (final(self)@, r) == after_setting(old(self)@, key@, SettingValue::Truth(on)),
    {
        proof {
            lemma_keys_differ();
        }
        if same(key, "appearance.shader_chrome") {
            self.shader_chrome = on;
            Some(ControlUpdate::Shader(on))
        } else if same(key, "appearance.work_area_glass") {
            self.work_area_glass = on;
            Some(ControlUpdate::Glass(on))
        } else if same(key, "appearance.output_focus_glow") {
            self.output_focus_glow = on;
            Some(ControlUpdate::Focus(on))
        } else {
            None
        }
    }

    fn number_changed(&mut self, key: &str, n: u64) -> (r: Option<ControlUpdate>)
        ensures
            (final(self)@, r) == after_setting(old(self)@, key@, SettingValue::Number(n)),
    {
        if same(key, "appearance.glow_strength") {
            self.glow_strength = n;
            Some(ControlUpdate::Glow(n))
        } else if same(key, "appearance.font_scale") {
            self.font_scale = n;
            Some(ControlUpdate::Font(n))
        } else {
            None
        }
    }

    /// A setting was changed elsewhere. Returns the control to set.
    pub fn on_setting(&mut self, key: &str, value: SettingValue) -> (r: Option<ControlUpdate>)
        ensures
            (final(self)@, r) == after_setting(old(self)@, key@, value),
    {
        match value {
            SettingValue::Truth(on) => self.truth_changed(key, on),
            SettingValue::Number(n) => self.number_changed(key, n),
            SettingValue::Text(theme) => if same(key, "appearance.theme") {
                let place = theme_index(theme.as_str());
                self.theme = theme;
                Some(ControlUpdate::Theme(place))
            } else {
                None
            },
            SettingValue::Dock(dock) => if same(key, "dock.visibility") {
                self.dock = dock;
                Some(ControlUpdate::Shelf(dock_visibility_index(dock)))
            } else {
                None
            },
            SettingValue::Other => None,
        }
    }

    /// A control of the panel was changed. Returns the key that is saved.
    pub fn on_change(&mut self, change: AppearanceChange) -> (r: &'static str)
        ensures
            r@ == key_of(change),
            final(self)@ == after_change(old(self)@, change),
    {
        match change {
            AppearanceChange::ShaderChrome(on) => {
                self.shader_chrome = on;
                "appearance.shader_chrome"
            },
            AppearanceChange::WorkAreaGlass(on) => {
                self.work_area_glass = on;
                "appearance.work_area_glass"
            },
            AppearanceChange::OutputFocusGlow(on) => {
                self.output_focus_glow = on;
                "appearance.output_focus_glow"
            },
            AppearanceChange::GlowStrength(n) => {
                self.glow_strength = n;
                "appearance.glow_strength"
            },
            AppearanceChange::FontScale(n) => {
                self.font_scale = n;
                "appearance.font_scale"
            },
        }
    }

    /// A theme was chosen from the menu. Returns whether it is to be saved.
    pub fn choose_theme(&mut self, index: u32) -> (r: bool)
        ensures
            r == (index < 4),
            final(self)@ == if index < 4 {
                AppearanceView { theme: themes()[index as int], ..old(self)@ }
            } else {
                old(self)@
            },
    {
        match theme_at(index) {
            Some(theme) => {
                self.theme = theme.to_owned();
                true
            },
            None => false,
        }
    }

    /// A visibility of the task shelf was chosen from the menu. Returns whether
    /// it is to be saved: not where it is the one that it was.
    pub fn choose_dock(&mut self, index: u32) -> (r: bool)
        ensures
            r == (old(self).dock != dock_at(index)),
            final(self)@ == (AppearanceView { dock: dock_at(index), ..old(self)@ }),
    {
        let dock = dock_visibility_from_index(index);
        if self.dock == dock {
            return false;
        }
        self.dock = dock;
        true
    }
}

/// A change elsewhere touches the setting of its key and no other.
pub proof fn law_setting_touches_its_key(a: AppearanceView, key: Seq<char>, value: SettingValue)
    ensures
        ({
            let b = after_setting(a, key, value).0;
            &&& key != "appearance.shader_chrome"@ ==> b.shader_chrome == a.shader_chrome
            &&& key != "appearance.work_area_glass"@ ==> b.work_area_glass == a.work_area_glass
            &&& key != "appearance.output_focus_glow"@ ==> b.output_focus_glow
                == a.output_focus_glow
            &&& key != "appearance.theme"@ ==> b.theme == a.theme
            &&& key != "appearance.glow_strength"@ ==> b.glow_strength == a.glow_strength
            &&& key != "appearance.font_scale"@ ==> b.font_scale == a.font_scale
            &&& key != "dock.visibility"@ ==> b.dock == a.dock
        }),
{
}

impl Appearance {
    /// Everything is reset to the defaults, which are then written down.
    pub fn reset_to_defaults(&mut self, defaults: Appearance)
        ensures
            final(self)@ == defaults@,
    {
        *self = defaults;
    }
}

/// What helps to see: the part of the settings that other programs follow too.
#[derive(Debug, Clone, Copy, PartialEq, Eq, Structural)]
pub struct Comfort {
    pub high_contrast: bool,
    pub animations: bool,
}

impl Comfort {
    /// The switch for high contrast was turned.
    pub fn set_high_contrast(&mut self, active: bool)
        ensures
            *final(self) == (Comfort { high_contrast: active, ..*old(self) }),
    {
        self.high_contrast = active;
    }

    /// What the switch for reduced motion shows.
    pub open spec fn spec_reduces_motion(self) -> bool {
        !self.animations
    }

    /// Whether the switch for reduced motion is on: where there are no
    /// animations.
    pub fn reduces_motion(&self) -> (r: bool)
        ensures
            r == self.spec_reduces_motion(),
    {
        !self.animations
    }

    /// The switch for reduced motion was turned.
    pub fn set_reduced_motion(&mut self, active: bool)
        ensures
            *final(self) == (Comfort { animations: !active, ..*old(self) }),
            final(self).spec_reduces_motion() == active,
    {
        self.animations = !active;
    }
}

/// A setting that changes elsewhere shows in its own control, with its value.
pub proof fn law_settings_show(
    a: AppearanceView,
    on: bool,
    n: u64,
    theme: String,
    dock: DockVisibility,
)
    ensures
        after_setting(a, "appearance.shader_chrome"@, SettingValue::Truth(on)) == (
            AppearanceView { shader_chrome: on, ..a },
            Some(ControlUpdate::Shader(on)),
        ),
        after_setting(a, "appearance.work_area_glass"@, SettingValue::Truth(on)) == (
            AppearanceView { work_area_glass: on, ..a },
            Some(ControlUpdate::Glass(on)),
        ),
        after_setting(a, "appearance.output_focus_glow"@, SettingValue::Truth(on)) == (
            AppearanceView { output_focus_glow: on, ..a },
            Some(ControlUpdate::Focus(on)),
        ),
        after_setting(a, "appearance.glow_strength"@, SettingValue::Number(n)) == (
            AppearanceView { glow_strength: n, ..a },
            Some(ControlUpdate::Glow(n)),
        ),
        after_setting(a, "appearance.font_scale"@, SettingValue::Number(n)) == (
            AppearanceView { font_scale: n, ..a },
            Some(ControlUpdate::Font(n)),
        ),
        after_setting(a, "appearance.theme"@, SettingValue::Text(theme)).0.theme == theme@,
        after_setting(a, "appearance.theme"@, SettingValue::Text(theme)).1 == Some(
            ControlUpdate::Theme(theme_place(theme@)),
        ),
        after_setting(a, "dock.visibility"@, SettingValue::Dock(dock)).0.dock == dock,
        after_setting(a, "dock.visibility"@, SettingValue::Dock(dock)).1 == Some(
            ControlUpdate::Shelf(dock_place(dock)),
        ),
{
    reveal_strlit("appearance.shader_chrome");
    reveal_strlit("appearance.work_area_glass");
    reveal_strlit("appearance.output_focus_glow");
    reveal_strlit("appearance.theme");
    reveal_strlit("appearance.glow_strength");
    reveal_strlit("appearance.font_scale");
    reveal_strlit("dock.visibility");
    assert("appearance.shader_chrome"@.len() == 24);
    assert("appearance.work_area_glass"@.len() == 26);
    assert("appearance.output_focus_glow"@.len() == 28);
    assert("appearance.theme"@.len() == 16);
    assert("appearance.glow_strength"@.len() == 24);
    assert("appearance.font_scale"@.len() == 21);
    assert("dock.visibility"@.len() == 15);
    assert("appearance.shader_chrome"@[11] != "appearance.glow_strength"@[11]);
}

} // verus!
