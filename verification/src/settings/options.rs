//! Menus: the values that stand at their positions.

use vstd::prelude::*;

verus! {

/// What the power button does.
#[derive(Debug, Clone, Copy, PartialEq, Eq, Structural)]
pub enum PowerButtonAction {
    ShowPowerMenu,
    Suspend,
    PowerOff,
    DoNothing,
}

pub open spec fn power_button_place(value: PowerButtonAction) -> u32 {
    match value {
        PowerButtonAction::ShowPowerMenu => 0,
        PowerButtonAction::Suspend => 1,
        PowerButtonAction::PowerOff => 2,
        PowerButtonAction::DoNothing => 3,
    }
}

pub open spec fn power_button_at(index: u32) -> PowerButtonAction {
    match index {
        1u32 => PowerButtonAction::Suspend,
        2u32 => PowerButtonAction::PowerOff,
        3u32 => PowerButtonAction::DoNothing,
        _ => PowerButtonAction::ShowPowerMenu,
    }
}

/// The position of a value in its menu.
pub fn power_button_action_index(value: PowerButtonAction) -> (r: u32)
    ensures
        r == power_button_place(value),
{
    match value {
        PowerButtonAction::ShowPowerMenu => 0,
        PowerButtonAction::Suspend => 1,
        PowerButtonAction::PowerOff => 2,
        PowerButtonAction::DoNothing => 3,
    }
}

/// The value at a position of its menu.
pub fn selected_power_button_action(index: u32) -> (r: PowerButtonAction)
    ensures
        r == power_button_at(index),
{
    match index {
        1 => PowerButtonAction::Suspend,
        2 => PowerButtonAction::PowerOff,
        3 => PowerButtonAction::DoNothing,
        _ => PowerButtonAction::ShowPowerMenu,
    }
}

/// Positions and values stand for each other.
pub proof fn law_power_button_place(value: PowerButtonAction, index: u32)
    ensures
        power_button_at(power_button_place(value)) == value,
        index < 4 ==> power_button_place(power_button_at(index)) == index,
{
}

/// What closing the lid does.
#[derive(Debug, Clone, Copy, PartialEq, Eq, Structural)]
pub enum LidCloseAction {
    Suspend,
    BlankScreen,
    LockScreen,
    DoNothing,
}

pub open spec fn lid_close_place(value: LidCloseAction) -> u32 {
    match value {
        LidCloseAction::Suspend => 0,
        LidCloseAction::BlankScreen => 1,
        LidCloseAction::LockScreen => 2,
        LidCloseAction::DoNothing => 3,
    }
}

pub open spec fn lid_close_at(index: u32) -> LidCloseAction {
    match index {
        1u32 => LidCloseAction::BlankScreen,
        2u32 => LidCloseAction::LockScreen,
        3u32 => LidCloseAction::DoNothing,
        _ => LidCloseAction::Suspend,
    }
}

/// The position of a value in its menu.
pub fn lid_close_action_index(value: LidCloseAction) -> (r: u32)
    ensures
        r == lid_close_place(value),
{
    match value {
        LidCloseAction::Suspend => 0,
        LidCloseAction::BlankScreen => 1,
        LidCloseAction::LockScreen => 2,
        LidCloseAction::DoNothing => 3,
    }
}

/// The value at a position of its menu.
pub fn selected_lid_close_action(index: u32) -> (r: LidCloseAction)
    ensures
        r == lid_close_at(index),
{
    match index {
        1 => LidCloseAction::BlankScreen,
        2 => LidCloseAction::LockScreen,
        3 => LidCloseAction::DoNothing,
        _ => LidCloseAction::Suspend,
    }
}

/// Positions and values stand for each other.
pub proof fn law_lid_close_place(value: LidCloseAction, index: u32)
    ensures
        lid_close_at(lid_close_place(value)) == value,
        index < 4 ==> lid_close_place(lid_close_at(index)) == index,
{
}

/// What a critically low battery does.
#[derive(Debug, Clone, Copy, PartialEq, Eq, Structural)]
pub enum LowBatteryAction {
    NotifyOnly,
    Suspend,
    Hibernate,
    PowerOff,
}

pub open spec fn low_battery_place(value: LowBatteryAction) -> u32 {
    match value {
        LowBatteryAction::NotifyOnly => 0,
        LowBatteryAction::Suspend => 1,
        LowBatteryAction::Hibernate => 2,
        LowBatteryAction::PowerOff => 3,
    }
}

pub open spec fn low_battery_at(index: u32) -> LowBatteryAction {
    match index {
        1u32 => LowBatteryAction::Suspend,
        2u32 => LowBatteryAction::Hibernate,
        3u32 => LowBatteryAction::PowerOff,
        _ => LowBatteryAction::NotifyOnly,
    }
}

/// The position of a value in its menu.
pub fn low_battery_action_index(value: LowBatteryAction) -> (r: u32)
    ensures
        r == low_battery_place(value),
{
    match value {
        LowBatteryAction::NotifyOnly => 0,
        LowBatteryAction::Suspend => 1,
        LowBatteryAction::Hibernate => 2,
        LowBatteryAction::PowerOff => 3,
    }
}

/// The value at a position of its menu.
pub fn selected_low_battery_action(index: u32) -> (r: LowBatteryAction)
    ensures
        r == low_battery_at(index),
{
    match index {
        1 => LowBatteryAction::Suspend,
        2 => LowBatteryAction::Hibernate,
        3 => LowBatteryAction::PowerOff,
        _ => LowBatteryAction::NotifyOnly,
    }
}

/// Positions and values stand for each other.
pub proof fn law_low_battery_place(value: LowBatteryAction, index: u32)
    ensures
        low_battery_at(low_battery_place(value)) == value,
        index < 4 ==> low_battery_place(low_battery_at(index)) == index,
{
}

/// How the machine trades speed for power.
#[derive(Debug, Clone, Copy, PartialEq, Eq, Structural)]
pub enum PerformanceMode {
    Balanced,
    Performance,
    PowerSaver,
}

pub open spec fn performance_place(value: PerformanceMode) -> u32 {
    match value {
        PerformanceMode::Balanced => 0,
        PerformanceMode::Performance => 1,
        PerformanceMode::PowerSaver => 2,
    }
}

pub open spec fn performance_at(index: u32) -> PerformanceMode {
    match index {
        1u32 => PerformanceMode::Performance,
        2u32 => PerformanceMode::PowerSaver,
        _ => PerformanceMode::Balanced,
    }
}

/// The position of a value in its menu.
pub fn performance_mode_index(value: PerformanceMode) -> (r: u32)
    ensures
        r == performance_place(value),
{
    match value {
        PerformanceMode::Balanced => 0,
        PerformanceMode::Performance => 1,
        PerformanceMode::PowerSaver => 2,
    }
}

/// The value at a position of its menu.
pub fn selected_performance_mode(index: u32) -> (r: PerformanceMode)
    ensures
        r == performance_at(index),
{
    match index {
        1 => PerformanceMode::Performance,
        2 => PerformanceMode::PowerSaver,
        _ => PerformanceMode::Balanced,
    }
}

/// Positions and values stand for each other.
pub proof fn law_performance_place(value: PerformanceMode, index: u32)
    ensures
        performance_at(performance_place(value)) == value,
        index < 3 ==> performance_place(performance_at(index)) == index,
{
}

/// How browsers are started.
#[derive(Debug, Clone, Copy, PartialEq, Eq, Structural)]
pub enum BrowserLaunchBackend {
    Auto,
    Wayland,
    Xwayland,
}

pub open spec fn browser_place(value: BrowserLaunchBackend) -> u32 {
    match value {
        BrowserLaunchBackend::Auto => 0,
        BrowserLaunchBackend::Wayland => 1,
        BrowserLaunchBackend::Xwayland => 2,
    }
}

pub open spec fn browser_at(index: u32) -> BrowserLaunchBackend {
    match index {
        1u32 => BrowserLaunchBackend::Wayland,
        2u32 => BrowserLaunchBackend::Xwayland,
        _ => BrowserLaunchBackend::Auto,
    }
}

/// The position of a value in its menu.
pub fn browser_launch_backend_index(value: BrowserLaunchBackend) -> (r: u32)
    ensures
        r == browser_place(value),
{
    match value {
        BrowserLaunchBackend::Auto => 0,
        BrowserLaunchBackend::Wayland => 1,
        BrowserLaunchBackend::Xwayland => 2,
    }
}

/// The value at a position of its menu.
pub fn selected_browser_launch_backend(index: u32) -> (r: BrowserLaunchBackend)
    ensures
        r == browser_at(index),
{
    match index {
        1 => BrowserLaunchBackend::Wayland,
        2 => BrowserLaunchBackend::Xwayland,
        _ => BrowserLaunchBackend::Auto,
    }
}

/// Positions and values stand for each other.
pub proof fn law_browser_place(value: BrowserLaunchBackend, index: u32)
    ensures
        browser_at(browser_place(value)) == value,
        index < 3 ==> browser_place(browser_at(index)) == index,
{
}

/// How much is logged.
#[derive(Debug, Clone, Copy, PartialEq, Eq, Structural)]
pub enum DebugLogLevel {
    Error,
    Warn,
    Info,
    Debug,
    Trace,
}

pub open spec fn log_level_place(value: DebugLogLevel) -> u32 {
    match value {
        DebugLogLevel::Error => 0,
        DebugLogLevel::Warn => 1,
        DebugLogLevel::Info => 2,
        DebugLogLevel::Debug => 3,
        DebugLogLevel::Trace => 4,
    }
}

pub open spec fn log_level_at(index: u32) -> DebugLogLevel {
    match index {
        0u32 => DebugLogLevel::Error,
        1u32 => DebugLogLevel::Warn,
        3u32 => DebugLogLevel::Debug,
        4u32 => DebugLogLevel::Trace,
        _ => DebugLogLevel::Info,
    }
}

/// The position of a value in its menu.
pub fn debug_log_level_index(value: DebugLogLevel) -> (r: u32)
    ensures
        r == log_level_place(value),
{
    match value {
        DebugLogLevel::Error => 0,
        DebugLogLevel::Warn => 1,
        DebugLogLevel::Info => 2,
        DebugLogLevel::Debug => 3,
        DebugLogLevel::Trace => 4,
    }
}

/// The value at a position of its menu.
pub fn selected_debug_log_level(index: u32) -> (r: DebugLogLevel)
    ensures
        r == log_level_at(index),
{
    match index {
        0 => DebugLogLevel::Error,
        1 => DebugLogLevel::Warn,
        3 => DebugLogLevel::Debug,
        4 => DebugLogLevel::Trace,
        _ => DebugLogLevel::Info,
    }
}

/// Positions and values stand for each other.
pub proof fn law_log_level_place(value: DebugLogLevel, index: u32)
    ensures
        log_level_at(log_level_place(value)) == value,
        index < 5 ==> log_level_place(log_level_at(index)) == index,
{
}

/// When the task shelf is shown.
#[derive(Debug, Clone, Copy, PartialEq, Eq, Structural)]
pub enum DockVisibility {
    IntelligentDodge,
    AlwaysVisible,
    Autohide,
}

pub open spec fn dock_place(value: DockVisibility) -> u32 {
    match value {
        DockVisibility::IntelligentDodge => 0,
        DockVisibility::AlwaysVisible => 1,
        DockVisibility::Autohide => 2,
    }
}

pub open spec fn dock_at(index: u32) -> DockVisibility {
    match index {
        1u32 => DockVisibility::AlwaysVisible,
        2u32 => DockVisibility::Autohide,
        _ => DockVisibility::IntelligentDodge,
    }
}

/// The position of a value in its menu.
pub fn dock_visibility_index(value: DockVisibility) -> (r: u32)
    ensures
        r == dock_place(value),
{
    match value {
        DockVisibility::IntelligentDodge => 0,
        DockVisibility::AlwaysVisible => 1,
        DockVisibility::Autohide => 2,
    }
}

/// The value at a position of its menu.
pub fn dock_visibility_from_index(index: u32) -> (r: DockVisibility)
    ensures
        r == dock_at(index),
{
    match index {
        1 => DockVisibility::AlwaysVisible,
        2 => DockVisibility::Autohide,
        _ => DockVisibility::IntelligentDodge,
    }
}

/// Positions and values stand for each other.
pub proof fn law_dock_place(value: DockVisibility, index: u32)
    ensures
        dock_at(dock_place(value)) == value,
        index < 3 ==> dock_place(dock_at(index)) == index,
{
}

/// The name of a performance profile.
pub fn performance_profile_name(mode: PerformanceMode) -> (r: &'static str)
    ensures
        r@ == match mode {
            PerformanceMode::Balanced => "balanced"@,
            PerformanceMode::Performance => "performance"@,
            PerformanceMode::PowerSaver => "power-saver"@,
        },
{
    match mode {
        PerformanceMode::Balanced => "balanced",
        PerformanceMode::Performance => "performance",
        PerformanceMode::PowerSaver => "power-saver",
    }
}

// ---------------------------------------------------------------------------
// Times
// ---------------------------------------------------------------------------

/// The position of a value among those of a menu, or 0.
pub open spec fn option_place(values: Seq<Option<u32>>, value: Option<u32>, from: int) -> u32
    decreases values.len() - from,
{
    if from < 0 || from >= values.len() {
        0
    } else if values[from] == value {
        from as u32
    } else {
        option_place(values, value, from + 1)
    }
}

/// The position of a value among those of a menu, or 0.
pub fn option_index(values: &Vec<Option<u32>>, value: Option<u32>) -> (r: u32)
    requires
        values.len() <= u32::MAX,
    ensures
        r == option_place(values@, value, 0),
{
    let mut i: usize = 0;
    while i < values.len()
        invariant
            i <= values.len() <= u32::MAX,
            option_place(values@, value, 0) == option_place(values@, value, i as int),
        decreases values.len() - i,
    {
        let equal = match (values[i], value) {
            (Some(a), Some(b)) => a == b,
            (None, None) => true,
            _ => false,
        };
        if equal {
            return i as u32;
        }
        i += 1;
    }
    0
}

/// The value at a position of a menu; behind its end it is none.
pub fn option_at(values: &Vec<Option<u32>>, index: u32) -> (r: Option<u32>)
    ensures
        r == if index < values.len() {
            values[index as int]
        } else {
            None
        },
{
    if (index as usize) < values.len() {
        values[index as usize]
    } else {
        None
    }
}

/// Minutes until the screen goes dark: never, 1, 5, 10 or 30.
pub open spec fn power_timeouts() -> Seq<Option<u32>> {
    seq![None, Some(1u32), Some(5u32), Some(10u32), Some(30u32)]
}

/// Minutes until the session is suspended: never, 15, 30 or 60.
pub open spec fn suspend_timeouts() -> Seq<Option<u32>> {
    seq![None, Some(15u32), Some(30u32), Some(60u32)]
}

/// Minutes until the screen goes dark.
pub fn power_timeout_values() -> (r: Vec<Option<u32>>)
    ensures
        r@ == power_timeouts(),
{
    let mut out: Vec<Option<u32>> = Vec::new();
    out.push(None);
    out.push(Some(1));
    out.push(Some(5));
    out.push(Some(10));
    out.push(Some(30));
    assert(out@ =~= power_timeouts());
    out
}

/// Minutes until the session is suspended.
pub fn suspend_timeout_values() -> (r: Vec<Option<u32>>)
    ensures
        r@ == suspend_timeouts(),
{
    let mut out: Vec<Option<u32>> = Vec::new();
    out.push(None);
    out.push(Some(15));
    out.push(Some(30));
    out.push(Some(60));
    assert(out@ =~= suspend_timeouts());
    out
}

/// The time that is chosen is the one that is shown as chosen; a time that the
/// menu does not have is shown as never.
pub proof fn law_timeouts_round_trip(index: int, minutes: u32)
    ensures
        0 <= index < 5 ==> option_place(power_timeouts(), power_timeouts()[index], 0) == index,
        0 <= index < 4 ==> option_place(suspend_timeouts(), suspend_timeouts()[index], 0) == index,
        !power_timeouts().contains(Some(minutes)) ==> option_place(
            power_timeouts(),
            Some(minutes),
            0,
        ) == 0,
{
    reveal_with_fuel(option_place, 6);
    let p = power_timeouts();
    assert(p.contains(p[1]) && p.contains(p[2]) && p.contains(p[3]) && p.contains(p[4]));
}

/// The position of a number of kept notifications.
pub open spec fn retention_place(limit: int) -> u32 {
    if limit <= 25 {
        0
    } else if limit <= 50 {
        1
    } else {
        2
    }
}

/// The position of a number of kept notifications in its menu.
pub fn retention_index(limit: u32) -> (r: u32)
    ensures
        r == retention_place(limit as int),
{
    if limit <= 25 {
        0
    } else if limit <= 50 {
        1
    } else {
        2
    }
}

/// How many entries a position of the menu keeps.
pub open spec fn retention_at(index: u32) -> u32 {
    match index {
        0u32 => 25u32,
        1u32 => 50u32,
        _ => 100u32,
    }
}

/// How many notifications are kept at a position of the menu.
pub fn retention_limit(index: u32) -> (r: u32)
    ensures
        r == retention_at(index),
        r == match index {
            0u32 => 25u32,
            1u32 => 50u32,
            _ => 100u32,
        },
{
    match index {
        0 => 25,
        1 => 50,
        _ => 100,
    }
}

/// The positions of the menus stand for these choices.
pub proof fn law_menu_positions()
    ensures
        power_button_at(0) == PowerButtonAction::ShowPowerMenu,
        power_button_at(1) == PowerButtonAction::Suspend,
        power_button_at(2) == PowerButtonAction::PowerOff,
        power_button_at(3) == PowerButtonAction::DoNothing,
        lid_close_at(0) == LidCloseAction::Suspend,
        lid_close_at(1) == LidCloseAction::BlankScreen,
        lid_close_at(2) == LidCloseAction::LockScreen,
        lid_close_at(3) == LidCloseAction::DoNothing,
        low_battery_at(0) == LowBatteryAction::NotifyOnly,
        low_battery_at(1) == LowBatteryAction::Suspend,
        low_battery_at(2) == LowBatteryAction::Hibernate,
        low_battery_at(3) == LowBatteryAction::PowerOff,
        performance_at(0) == PerformanceMode::Balanced,
        performance_at(1) == PerformanceMode::Performance,
        performance_at(2) == PerformanceMode::PowerSaver,
        browser_at(0) == BrowserLaunchBackend::Auto,
        browser_at(1) == BrowserLaunchBackend::Wayland,
        browser_at(2) == BrowserLaunchBackend::Xwayland,
        log_level_at(0) == DebugLogLevel::Error,
        log_level_at(1) == DebugLogLevel::Warn,
        log_level_at(2) == DebugLogLevel::Info,
        log_level_at(3) == DebugLogLevel::Debug,
        log_level_at(4) == DebugLogLevel::Trace,
        dock_at(0) == DockVisibility::IntelligentDodge,
        dock_at(1) == DockVisibility::AlwaysVisible,
        dock_at(2) == DockVisibility::Autohide,
{
}

/// A position that no menu has leaves the machine as careful as it was: the
/// power menu is shown, the lid suspends, and a low battery is only told.
pub proof fn law_positions_beyond_the_menu(index: u32)
    requires
        index > 4,
    ensures
        power_button_at(index) == PowerButtonAction::ShowPowerMenu,
        lid_close_at(index) == LidCloseAction::Suspend,
        low_battery_at(index) == LowBatteryAction::NotifyOnly,
        performance_at(index) == PerformanceMode::Balanced,
        browser_at(index) == BrowserLaunchBackend::Auto,
        log_level_at(index) == DebugLogLevel::Info,
        dock_at(index) == DockVisibility::IntelligentDodge,
{
}

/// The timeouts of both menus grow down the menu, and no timeout at all leads
/// it.
pub proof fn law_timeouts_grow(i: int, j: int)
    ensures
        power_timeouts()[0] is None && suspend_timeouts()[0] is None,
        0 < i < j < power_timeouts().len() ==> power_timeouts()[i] is Some && power_timeouts()[j]
            is Some && power_timeouts()[i]->Some_0 < power_timeouts()[j]->Some_0,
        0 < i < j < suspend_timeouts().len() ==> suspend_timeouts()[i] is Some
            && suspend_timeouts()[j] is Some && suspend_timeouts()[i]->Some_0
            < suspend_timeouts()[j]->Some_0,
{
}

/// What a menu shows for a value is a position of that value, the first one.
pub proof fn law_option_place(values: Seq<Option<u32>>, value: Option<u32>, k: int)
    requires
        values.len() <= u32::MAX,
        0 <= k < values.len(),
        values[k] == value,
    ensures
        option_place(values, value, 0) <= k,
        values[option_place(values, value, 0) as int] == value,
{
    lemma_option_place(values, value, 0, k);
}

proof fn lemma_option_place(values: Seq<Option<u32>>, value: Option<u32>, from: int, k: int)
    requires
        values.len() <= u32::MAX,
        0 <= from <= k < values.len(),
        values[k] == value,
    ensures
        from <= option_place(values, value, from) <= k,
        values[option_place(values, value, from) as int] == value,
    decreases values.len() - from,
{
    if values[from] != value {
        lemma_option_place(values, value, from + 1, k);
    }
}

/// The menu of how many entries are kept shows what was chosen from it, grows
/// down the menu, and shows for any number the smallest choice that keeps as
/// many, up to the largest.
pub proof fn law_retention(index: u32, limit: int)
    ensures
        index < 3 ==> retention_place(retention_at(index) as int) == index,
        retention_place(limit) < 3,
        limit <= 100 ==> retention_at(retention_place(limit)) >= limit,
        retention_place(limit) > 0 ==> retention_at((retention_place(limit) - 1) as u32) < limit,
        retention_at(0) == 25 && retention_at(1) == 50 && retention_at(2) == 100,
{
}

} // verus!
