//! The settings screen: a list of rows where left and right step a value
//! through a closed list of choices, with no dialogs and no on-screen
//! keyboard. Values with fractions (interface scale, stick dead zone) are
//! stepped by the program with the same rule.

use vstd::prelude::*;
use crate::config::{Config, GamePriority, Power, PowerPlan, Theme};
use crate::shell::{cycle, cycled, BrowserPurpose};
use crate::paths::joined_path;
use crate::text::{chars_of, decimal, decimal_string, owned, push_str, trim_ws, trimmed};

verus! {

#[derive(Debug, Clone, Copy, PartialEq, Eq, Structural)]
pub enum SettingRow {
    Fullscreen,
    ThemeMode,
    ActiveFps,
    IdleFps,
    BackgroundFps,
    MinimizeWhilePlaying,
    UiScale,
    Deadzone,
    RepeatDelay,
    GuideButton,
    Rumble,
    PowerPlan,
    StopServices,
    AutoThrottle,
    AutoThrottleMax,
    AutoThrottleMinMb,
    ProtectHandheld,
    EcoQos,
    TrimWorkingSets,
    GamePriority,
    KillExplorer,
    EngageOnStart,
    RestoreOnExit,
    CatalogDir,
    DownloadDir,
    CatalogBudget,
    CoverAutoFetch,
}

/// How many rows the settings screen has.
pub const SETTINGS_ROWS: usize = 27;

/// The rows, top to bottom.
pub open spec fn rows() -> Seq<SettingRow> {
    seq![
        SettingRow::Fullscreen, SettingRow::ThemeMode, SettingRow::ActiveFps, SettingRow::IdleFps,
        SettingRow::BackgroundFps, SettingRow::MinimizeWhilePlaying, SettingRow::UiScale,
        SettingRow::Deadzone, SettingRow::RepeatDelay, SettingRow::GuideButton, SettingRow::Rumble,
        SettingRow::PowerPlan, SettingRow::StopServices, SettingRow::AutoThrottle,
        SettingRow::AutoThrottleMax, SettingRow::AutoThrottleMinMb, SettingRow::ProtectHandheld,
        SettingRow::EcoQos, SettingRow::TrimWorkingSets, SettingRow::GamePriority,
        SettingRow::KillExplorer, SettingRow::EngageOnStart, SettingRow::RestoreOnExit,
        SettingRow::CatalogDir, SettingRow::DownloadDir, SettingRow::CatalogBudget,
        SettingRow::CoverAutoFetch,
    ]
}

/// The row at a position of the screen.
pub fn row_at(index: usize) -> (r: Option<SettingRow>)
    ensures
        index < rows().len() ==> r == Some(rows()[index as int]),
        index >= rows().len() ==> r is None,
{
    let all: Vec<SettingRow> = vec![
        SettingRow::Fullscreen, SettingRow::ThemeMode, SettingRow::ActiveFps, SettingRow::IdleFps,
        SettingRow::BackgroundFps, SettingRow::MinimizeWhilePlaying, SettingRow::UiScale,
        SettingRow::Deadzone, SettingRow::RepeatDelay, SettingRow::GuideButton, SettingRow::Rumble,
        SettingRow::PowerPlan, SettingRow::StopServices, SettingRow::AutoThrottle,
        SettingRow::AutoThrottleMax, SettingRow::AutoThrottleMinMb, SettingRow::ProtectHandheld,
        SettingRow::EcoQos, SettingRow::TrimWorkingSets, SettingRow::GamePriority,
        SettingRow::KillExplorer, SettingRow::EngageOnStart, SettingRow::RestoreOnExit,
        SettingRow::CatalogDir, SettingRow::DownloadDir, SettingRow::CatalogBudget,
        SettingRow::CoverAutoFetch,
    ];
    assert(all@ == rows());
    if index < all.len() {
        Some(all[index])
    } else {
        None
    }
}

/// The section heading a row is listed under.
pub open spec fn section_of(row: SettingRow) -> Seq<char> {
    match row {
        SettingRow::Fullscreen | SettingRow::ThemeMode | SettingRow::ActiveFps | SettingRow::IdleFps
        | SettingRow::BackgroundFps | SettingRow::MinimizeWhilePlaying | SettingRow::UiScale => "Interfaz"@,
        SettingRow::Deadzone | SettingRow::RepeatDelay | SettingRow::GuideButton | SettingRow::Rumble => "Mando"@,
        SettingRow::CatalogDir | SettingRow::DownloadDir | SettingRow::CatalogBudget => "Catalogo"@,
        SettingRow::CoverAutoFetch => "Caratulas"@,
        _ => "Rendimiento"@,
    }
}

pub fn row_section(row: SettingRow) -> (s: &'static str)
    ensures
        s@ == section_of(row),
{
    match row {
        SettingRow::Fullscreen | SettingRow::ThemeMode | SettingRow::ActiveFps | SettingRow::IdleFps
        | SettingRow::BackgroundFps | SettingRow::MinimizeWhilePlaying | SettingRow::UiScale => "Interfaz",
        SettingRow::Deadzone | SettingRow::RepeatDelay | SettingRow::GuideButton | SettingRow::Rumble => "Mando",
        SettingRow::CatalogDir | SettingRow::DownloadDir | SettingRow::CatalogBudget => "Catalogo",
        SettingRow::CoverAutoFetch => "Caratulas",
        _ => "Rendimiento",
    }
}

// ---------------------------------------------------------------------
// The choices of each row
// ---------------------------------------------------------------------

pub open spec fn active_fps_choices() -> Seq<u64> {
    seq![30, 45, 60, 90, 120, 144]
}

pub open spec fn idle_fps_choices() -> Seq<u64> {
    seq![2, 5, 10, 20, 30]
}

pub open spec fn background_fps_choices() -> Seq<u64> {
    seq![1, 2, 4, 8]
}

pub open spec fn repeat_delay_choices() -> Seq<u64> {
    seq![250, 380, 500, 700]
}

pub open spec fn budget_choices() -> Seq<u64> {
    seq![64, 128, 256, 512, 1024]
}

pub open spec fn throttle_max_choices() -> Seq<u64> {
    seq![4, 8, 12, 20, 30]
}

pub open spec fn throttle_min_mb_choices() -> Seq<u64> {
    seq![50, 80, 120, 200, 400]
}

pub fn active_fps_steps() -> (v: Vec<u64>)
    ensures
        v@ == active_fps_choices(),
{
    let v: Vec<u64> = vec![30, 45, 60, 90, 120, 144];
    assert(v@ == active_fps_choices());
    v
}

pub fn idle_fps_steps() -> (v: Vec<u64>)
    ensures
        v@ == idle_fps_choices(),
{
    let v: Vec<u64> = vec![2, 5, 10, 20, 30];
    assert(v@ == idle_fps_choices());
    v
}

pub fn background_fps_steps() -> (v: Vec<u64>)
    ensures
        v@ == background_fps_choices(),
{
    let v: Vec<u64> = vec![1, 2, 4, 8];
    assert(v@ == background_fps_choices());
    v
}

pub fn repeat_delay_steps() -> (v: Vec<u64>)
    ensures
        v@ == repeat_delay_choices(),
{
    let v: Vec<u64> = vec![250, 380, 500, 700];
    assert(v@ == repeat_delay_choices());
    v
}

pub fn budget_steps() -> (v: Vec<u64>)
    ensures
        v@ == budget_choices(),
{
    let v: Vec<u64> = vec![64, 128, 256, 512, 1024];
    assert(v@ == budget_choices());
    v
}

pub fn throttle_max_steps() -> (v: Vec<u64>)
    ensures
        v@ == throttle_max_choices(),
{
    let v: Vec<u64> = vec![4, 8, 12, 20, 30];
    assert(v@ == throttle_max_choices());
    v
}

pub fn throttle_min_mb_steps() -> (v: Vec<u64>)
    ensures
        v@ == throttle_min_mb_choices(),
{
    let v: Vec<u64> = vec![50, 80, 120, 200, 400];
    assert(v@ == throttle_min_mb_choices());
    v
}

/// A stepped value is one of the choices.
pub proof fn lemma_cycled_is_a_choice(s: Seq<u64>, x: u64, forward: bool)
    requires
        s.len() > 0,
    ensures
        s.contains(cycled(s, x, forward)),
{
    let k = crate::shell::start_index(s, x);
    assert(0 <= k < s.len()) by {
        if s.contains(x) {
            let c = choose|c: int| 0 <= c < s.len() && s[c] == x && forall|j: int| 0 <= j < c ==> s[j] != x;
            assert(0 <= c < s.len() && s[c] == x && forall|j: int| 0 <= j < c ==> s[j] != x) by {
                let w = choose|w: int| 0 <= w < s.len() && s[w] == x;
                lemma_first_occurrence(s, x, w);
            }
        }
    }
    if forward {
        let n = (k + 1) % (s.len() as int);
        assert(0 <= n < s.len());
        assert(s[n] == cycled(s, x, forward));
    } else if k == 0 {
        assert(s[s.len() - 1] == cycled(s, x, forward));
    } else {
        assert(s[k - 1] == cycled(s, x, forward));
    }
}

proof fn lemma_first_occurrence(s: Seq<u64>, x: u64, w: int)
    requires
        0 <= w < s.len(),
        s[w] == x,
    ensures
        exists|c: int| 0 <= c < s.len() && s[c] == x && forall|j: int| 0 <= j < c ==> s[j] != x,
    decreases w,
{
    if exists|j: int| 0 <= j < w && s[j] == x {
        let j = choose|j: int| 0 <= j < w && s[j] == x;
        lemma_first_occurrence(s, x, j);
    } else {
        assert(forall|j: int| 0 <= j < w ==> s[j] != x);
    }
}

pub open spec fn plan_after(p: PowerPlan, forward: bool) -> PowerPlan {
    match (p, forward) {
        (PowerPlan::Leave, true) => PowerPlan::Balanced,
        (PowerPlan::Balanced, true) => PowerPlan::HighPerformance,
        (PowerPlan::HighPerformance, true) => PowerPlan::Ultimate,
        (PowerPlan::Ultimate, true) => PowerPlan::Leave,
        (PowerPlan::Leave, false) => PowerPlan::Ultimate,
        (PowerPlan::Balanced, false) => PowerPlan::Leave,
        (PowerPlan::HighPerformance, false) => PowerPlan::Balanced,
        (PowerPlan::Ultimate, false) => PowerPlan::HighPerformance,
    }
}

pub open spec fn priority_after(p: GamePriority, forward: bool) -> GamePriority {
    match (p, forward) {
        (GamePriority::Normal, true) => GamePriority::AboveNormal,
        (GamePriority::AboveNormal, true) => GamePriority::High,
        (GamePriority::High, true) => GamePriority::Normal,
        (GamePriority::Normal, false) => GamePriority::High,
        (GamePriority::AboveNormal, false) => GamePriority::Normal,
        (GamePriority::High, false) => GamePriority::AboveNormal,
    }
}

pub open spec fn theme_after(t: Theme) -> Theme {
    match t {
        Theme::Dark => Theme::Light,
        Theme::Light => Theme::Dark,
    }
}

/// The next power plan in the list "leave, balanced, high, ultimate".
pub fn next_plan(p: PowerPlan, forward: bool) -> (r: PowerPlan)
    ensures
        r == plan_after(p, forward),
{
    match (p, forward) {
        (PowerPlan::Leave, true) => PowerPlan::Balanced,
        (PowerPlan::Balanced, true) => PowerPlan::HighPerformance,
        (PowerPlan::HighPerformance, true) => PowerPlan::Ultimate,
        (PowerPlan::Ultimate, true) => PowerPlan::Leave,
        (PowerPlan::Leave, false) => PowerPlan::Ultimate,
        (PowerPlan::Balanced, false) => PowerPlan::Leave,
        (PowerPlan::HighPerformance, false) => PowerPlan::Balanced,
        (PowerPlan::Ultimate, false) => PowerPlan::HighPerformance,
    }
}

/// The next game priority in the list "normal, above normal, high".
pub fn next_priority(p: GamePriority, forward: bool) -> (r: GamePriority)
    ensures
        r == priority_after(p, forward),
{
    match (p, forward) {
        (GamePriority::Normal, true) => GamePriority::AboveNormal,
        (GamePriority::AboveNormal, true) => GamePriority::High,
        (GamePriority::High, true) => GamePriority::Normal,
        (GamePriority::Normal, false) => GamePriority::High,
        (GamePriority::AboveNormal, false) => GamePriority::Normal,
        (GamePriority::High, false) => GamePriority::AboveNormal,
    }
}

/// The other theme (there are two, so both directions agree).
pub fn next_theme(t: Theme) -> (r: Theme)
    ensures
        r == theme_after(t),
{
    match t {
        Theme::Dark => Theme::Light,
        Theme::Light => Theme::Dark,
    }
}

// ---------------------------------------------------------------------
// Stepping a row
// ---------------------------------------------------------------------

/// The interface and pad settings that the rows change, the fractional
/// ones aside.
#[derive(Debug, Clone, Copy)]
pub struct Interface {
    pub fullscreen: bool,
    pub theme: Theme,
    pub active_fps: u64,
    pub idle_fps: u64,
    pub background_fps: u64,
    pub minimize_while_playing: bool,
    pub repeat_delay_ms: u64,
    pub capture_guide_button: bool,
    pub rumble_feedback: bool,
}

/// What the program does after a row was stepped.
#[derive(Debug, Clone, Copy, PartialEq, Eq, Structural)]
pub enum SettingChange {
    /// No row at that position.
    Nothing,
    /// A value changed: store the settings and apply them.
    Stored,
    /// The window mode changed: apply it and store the settings.
    Window,
    /// The theme changed: restyle and store the settings.
    Restyle,
    /// A fractional value (scale or dead zone) is to be stepped, forward
    /// or back, by the program.
    StepFraction(SettingRow, bool),
    /// A folder is to be picked with the browser.
    PickFolder(BrowserPurpose),
}

/// The interface settings after stepping a row.
pub open spec fn interface_after(i: Interface, row: SettingRow, forward: bool) -> Interface {
    match row {
        SettingRow::Fullscreen => Interface { fullscreen: !i.fullscreen, ..i },
        SettingRow::ThemeMode => Interface { theme: theme_after(i.theme), ..i },
        SettingRow::ActiveFps => Interface { active_fps: cycled(active_fps_choices(), i.active_fps, forward), ..i },
        SettingRow::IdleFps => Interface { idle_fps: cycled(idle_fps_choices(), i.idle_fps, forward), ..i },
        SettingRow::BackgroundFps => Interface {
            background_fps: cycled(background_fps_choices(), i.background_fps, forward),
            ..i
        },
        SettingRow::MinimizeWhilePlaying => Interface { minimize_while_playing: !i.minimize_while_playing, ..i },
        SettingRow::RepeatDelay => Interface {
            repeat_delay_ms: cycled(repeat_delay_choices(), i.repeat_delay_ms, forward),
            ..i
        },
        SettingRow::GuideButton => Interface { capture_guide_button: !i.capture_guide_button, ..i },
        SettingRow::Rumble => Interface { rumble_feedback: !i.rumble_feedback, ..i },
        _ => i,
    }
}

/// The game-mode settings after stepping a row.
pub open spec fn power_after(p: Power, row: SettingRow, forward: bool) -> Power {
    match row {
        SettingRow::PowerPlan => Power { power_plan: plan_after(p.power_plan, forward), ..p },
        SettingRow::StopServices => Power { stop_services: !p.stop_services, ..p },
        SettingRow::AutoThrottle => Power { auto_throttle: !p.auto_throttle, ..p },
        SettingRow::AutoThrottleMax => Power {
            auto_throttle_max: cycled(throttle_max_choices(), p.auto_throttle_max as u64, forward) as usize,
            ..p
        },
        SettingRow::AutoThrottleMinMb => Power {
            auto_throttle_min_mb: cycled(throttle_min_mb_choices(), p.auto_throttle_min_mb, forward),
            ..p
        },
        SettingRow::ProtectHandheld => Power { protect_handheld_helpers: !p.protect_handheld_helpers, ..p },
        SettingRow::EcoQos => Power { eco_qos_background: !p.eco_qos_background, ..p },
        SettingRow::TrimWorkingSets => Power { trim_working_sets: !p.trim_working_sets, ..p },
        SettingRow::GamePriority => Power { game_priority: priority_after(p.game_priority, forward), ..p },
        SettingRow::KillExplorer => Power { kill_explorer: !p.kill_explorer, ..p },
        SettingRow::EngageOnStart => Power { engage_on_start: !p.engage_on_start, ..p },
        SettingRow::RestoreOnExit => Power { restore_on_exit: !p.restore_on_exit, ..p },
        _ => p,
    }
}

/// What the program is told to do after stepping a row.
pub open spec fn change_for(row: SettingRow, forward: bool) -> SettingChange {
    match row {
        SettingRow::Fullscreen => SettingChange::Window,
        SettingRow::ThemeMode => SettingChange::Restyle,
        SettingRow::UiScale => SettingChange::StepFraction(row, forward),
        SettingRow::Deadzone => SettingChange::StepFraction(row, forward),
        SettingRow::CatalogDir => SettingChange::PickFolder(BrowserPurpose::PickCatalogDir),
        SettingRow::DownloadDir => SettingChange::PickFolder(BrowserPurpose::PickDownloadDir),
        _ => SettingChange::Stored,
    }
}

fn adjust_interface(iface: &mut Interface, row: SettingRow, forward: bool)
    ensures
        *final(iface) == interface_after(*old(iface), row, forward),
{
    match row {
        SettingRow::Fullscreen => iface.fullscreen = !iface.fullscreen,
        SettingRow::ThemeMode => iface.theme = next_theme(iface.theme),
        SettingRow::ActiveFps => {
            iface.active_fps = cycle(active_fps_steps().as_slice(), iface.active_fps, forward);
        },
        SettingRow::IdleFps => {
            iface.idle_fps = cycle(idle_fps_steps().as_slice(), iface.idle_fps, forward);
        },
        SettingRow::BackgroundFps => {
            iface.background_fps = cycle(background_fps_steps().as_slice(), iface.background_fps, forward);
        },
        SettingRow::MinimizeWhilePlaying => iface.minimize_while_playing = !iface.minimize_while_playing,
        SettingRow::RepeatDelay => {
            iface.repeat_delay_ms = cycle(repeat_delay_steps().as_slice(), iface.repeat_delay_ms, forward);
        },
        SettingRow::GuideButton => iface.capture_guide_button = !iface.capture_guide_button,
        SettingRow::Rumble => iface.rumble_feedback = !iface.rumble_feedback,
        _ => {},
    }
}

fn adjust_power(p: &mut Power, row: SettingRow, forward: bool)
    ensures
        *final(p) == power_after(*old(p), row, forward),
{
    match row {
        SettingRow::PowerPlan => p.power_plan = next_plan(p.power_plan, forward),
        SettingRow::StopServices => p.stop_services = !p.stop_services,
        SettingRow::AutoThrottle => p.auto_throttle = !p.auto_throttle,
        SettingRow::AutoThrottleMax => {
            let steps = throttle_max_steps();
            let v = cycle(steps.as_slice(), p.auto_throttle_max as u64, forward);
            proof {
                lemma_cycled_is_a_choice(throttle_max_choices(), p.auto_throttle_max as u64, forward);
            }
            p.auto_throttle_max = v as usize;
        },
        SettingRow::AutoThrottleMinMb => {
            p.auto_throttle_min_mb = cycle(throttle_min_mb_steps().as_slice(), p.auto_throttle_min_mb, forward);
        },
        SettingRow::ProtectHandheld => p.protect_handheld_helpers = !p.protect_handheld_helpers,
        SettingRow::EcoQos => p.eco_qos_background = !p.eco_qos_background,
        SettingRow::TrimWorkingSets => p.trim_working_sets = !p.trim_working_sets,
        SettingRow::GamePriority => p.game_priority = next_priority(p.game_priority, forward),
        SettingRow::KillExplorer => p.kill_explorer = !p.kill_explorer,
        SettingRow::EngageOnStart => p.engage_on_start = !p.engage_on_start,
        SettingRow::RestoreOnExit => p.restore_on_exit = !p.restore_on_exit,
        _ => {},
    }
}

fn change_of(row: SettingRow, forward: bool) -> (c: SettingChange)
    ensures
        c == change_for(row, forward),
{
    match row {
        SettingRow::Fullscreen => SettingChange::Window,
        SettingRow::ThemeMode => SettingChange::Restyle,
        SettingRow::UiScale => SettingChange::StepFraction(SettingRow::UiScale, forward),
        SettingRow::Deadzone => SettingChange::StepFraction(SettingRow::Deadzone, forward),
        SettingRow::CatalogDir => SettingChange::PickFolder(BrowserPurpose::PickCatalogDir),
        SettingRow::DownloadDir => SettingChange::PickFolder(BrowserPurpose::PickDownloadDir),
        _ => SettingChange::Stored,
    }
}

fn adjust_library_settings(config: &mut Config, row: SettingRow, forward: bool)
    ensures
        final(config).power == old(config).power,
        final(config).catalog.max_index_memory_mb == (if row == SettingRow::CatalogBudget {
            cycled(budget_choices(), old(config).catalog.max_index_memory_mb, forward)
        } else {
            old(config).catalog.max_index_memory_mb
        }),
        final(config).covers.auto_fetch == (if row == SettingRow::CoverAutoFetch {
            !old(config).covers.auto_fetch
        } else {
            old(config).covers.auto_fetch
        }),
        final(config).catalog.index_dir == old(config).catalog.index_dir,
        final(config).catalog.download_dir == old(config).catalog.download_dir,
        final(config).catalog.max_search_results == old(config).catalog.max_search_results,
        final(config).covers.steamgrid_api_key == old(config).covers.steamgrid_api_key,
        final(config).emulators == old(config).emulators,
{
    match row {
        SettingRow::CatalogBudget => {
            config.catalog.max_index_memory_mb = cycle(
                budget_steps().as_slice(),
                config.catalog.max_index_memory_mb,
                forward,
            );
        },
        SettingRow::CoverAutoFetch => {
            config.covers.auto_fetch = !config.covers.auto_fetch;
        },
        _ => {},
    }
}

/// Steps the row at `index` forward or back: switches flip, lists of
/// choices step with wrap-around, folders open the browser.
pub fn adjust_setting(config: &mut Config, iface: &mut Interface, index: usize, forward: bool) -> (c: SettingChange)
    ensures
        index >= rows().len() ==> c == SettingChange::Nothing,
        index >= rows().len() ==> *final(config) == *old(config),
        index >= rows().len() ==> *final(iface) == *old(iface),
        index < rows().len() ==> {
            let row = rows()[index as int];
            &&& c == change_for(row, forward)
            &&& *final(iface) == interface_after(*old(iface), row, forward)
            &&& final(config).power == power_after(old(config).power, row, forward)
            &&& final(config).catalog.max_index_memory_mb == (if row == SettingRow::CatalogBudget {
                cycled(budget_choices(), old(config).catalog.max_index_memory_mb, forward)
            } else {
                old(config).catalog.max_index_memory_mb
            })
            &&& final(config).covers.auto_fetch == (if row == SettingRow::CoverAutoFetch {
                !old(config).covers.auto_fetch
            } else {
                old(config).covers.auto_fetch
            })
        },
        final(config).catalog.index_dir == old(config).catalog.index_dir,
        final(config).catalog.download_dir == old(config).catalog.download_dir,
        final(config).catalog.max_search_results == old(config).catalog.max_search_results,
        final(config).covers.steamgrid_api_key == old(config).covers.steamgrid_api_key,
        final(config).emulators == old(config).emulators,
{
    let row = match row_at(index) {
        Some(r) => r,
        None => {
            return SettingChange::Nothing;
        },
    };
    adjust_interface(iface, row, forward);
    adjust_power(&mut config.power, row, forward);
    adjust_library_settings(config, row, forward);
    change_of(row, forward)
}

/// Stepping a list of choices forward and then back returns to the value,
/// when the value is one of the choices and the choices do not repeat.
pub proof fn lemma_step_back_undoes_forward(s: Seq<u64>, x: u64)
    requires
        s.len() > 0,
        s.contains(x),
        forall|i: int, j: int| 0 <= i < j < s.len() ==> s[i] != s[j],
    ensures
        cycled(s, cycled(s, x, true), false) == x,
{
    let k = crate::shell::start_index(s, x);
    let n = s.len() as int;
    lemma_start_index_of_member(s, x);
    let y = cycled(s, x, true);
    let m = (k + 1) % n;
    assert(0 <= m < n);
    assert(y == s[m]);
    lemma_start_index_of_member(s, y);
    assert(crate::shell::start_index(s, y) == m) by {
        let c = crate::shell::start_index(s, y);
        if c != m {
            assert(s[c] == s[m]);
        }
    }
    if k + 1 < n {
        assert(m == k + 1) by {
            vstd::arithmetic::div_mod::lemma_small_mod((k + 1) as nat, n as nat);
        }
    } else {
        assert(m == 0) by {
            vstd::arithmetic::div_mod::lemma_mod_self_0(n);
        }
    }
}

proof fn lemma_start_index_of_member(s: Seq<u64>, x: u64)
    requires
        s.contains(x),
    ensures
        0 <= crate::shell::start_index(s, x) < s.len(),
        s[crate::shell::start_index(s, x)] == x,
{
    let w = choose|w: int| 0 <= w < s.len() && s[w] == x;
    lemma_first_occurrence(s, x, w);
}

// ---------------------------------------------------------------------
// What each row shows
// ---------------------------------------------------------------------

/// The name of a row.
pub open spec fn label_of(row: SettingRow) -> Seq<char> {
    match row {
        SettingRow::Fullscreen => "Pantalla completa"@,
        SettingRow::ThemeMode => "Tema"@,
        SettingRow::ActiveFps => "Ritmo navegando"@,
        SettingRow::IdleFps => "Ritmo en reposo"@,
        SettingRow::BackgroundFps => "Ritmo con un juego en marcha"@,
        SettingRow::MinimizeWhilePlaying => "Minimizar al lanzar un juego"@,
        SettingRow::UiScale => "Escala de la interfaz"@,
        SettingRow::Deadzone => "Zona muerta del stick"@,
        SettingRow::RepeatDelay => "Retardo de repeticion"@,
        SettingRow::GuideButton => "Capturar el boton Guia"@,
        SettingRow::Rumble => "Vibracion"@,
        SettingRow::PowerPlan => "Plan de energia"@,
        SettingRow::StopServices => "Detener servicios de Windows"@,
        SettingRow::AutoThrottle => "Buscar solo lo que mas pesa"@,
        SettingRow::AutoThrottleMax => "Cuantos procesos degradar"@,
        SettingRow::AutoThrottleMinMb => "A partir de cuanta RAM"@,
        SettingRow::ProtectHandheld => "Proteger utilidades de portatil"@,
        SettingRow::EcoQos => "EcoQoS en procesos de fondo"@,
        SettingRow::TrimWorkingSets => "Liberar memoria de procesos de fondo"@,
        SettingRow::GamePriority => "Prioridad del juego"@,
        SettingRow::KillExplorer => "Cerrar explorer.exe (avanzado)"@,
        SettingRow::EngageOnStart => "Activar modo juego al arrancar"@,
        SettingRow::RestoreOnExit => "Restaurar el sistema al salir"@,
        SettingRow::CatalogDir => "Carpeta del catalogo"@,
        SettingRow::DownloadDir => "Carpeta de descargas"@,
        SettingRow::CatalogBudget => "Memoria maxima del catalogo"@,
        SettingRow::CoverAutoFetch => "Descargar caratulas automaticamente"@,
    }
}

pub fn row_label(row: SettingRow) -> (s: &'static str)
    ensures
        s@ == label_of(row),
{
    match row {
        SettingRow::Fullscreen => "Pantalla completa",
        SettingRow::ThemeMode => "Tema",
        SettingRow::ActiveFps => "Ritmo navegando",
        SettingRow::IdleFps => "Ritmo en reposo",
        SettingRow::BackgroundFps => "Ritmo con un juego en marcha",
        SettingRow::MinimizeWhilePlaying => "Minimizar al lanzar un juego",
        SettingRow::UiScale => "Escala de la interfaz",
        SettingRow::Deadzone => "Zona muerta del stick",
        SettingRow::RepeatDelay => "Retardo de repeticion",
        SettingRow::GuideButton => "Capturar el boton Guia",
        SettingRow::Rumble => "Vibracion",
        SettingRow::PowerPlan => "Plan de energia",
        SettingRow::StopServices => "Detener servicios de Windows",
        SettingRow::AutoThrottle => "Buscar solo lo que mas pesa",
        SettingRow::AutoThrottleMax => "Cuantos procesos degradar",
        SettingRow::AutoThrottleMinMb => "A partir de cuanta RAM",
        SettingRow::ProtectHandheld => "Proteger utilidades de portatil",
        SettingRow::EcoQos => "EcoQoS en procesos de fondo",
        SettingRow::TrimWorkingSets => "Liberar memoria de procesos de fondo",
        SettingRow::GamePriority => "Prioridad del juego",
        SettingRow::KillExplorer => "Cerrar explorer.exe (avanzado)",
        SettingRow::EngageOnStart => "Activar modo juego al arrancar",
        SettingRow::RestoreOnExit => "Restaurar el sistema al salir",
        SettingRow::CatalogDir => "Carpeta del catalogo",
        SettingRow::DownloadDir => "Carpeta de descargas",
        SettingRow::CatalogBudget => "Memoria maxima del catalogo",
        SettingRow::CoverAutoFetch => "Descargar caratulas automaticamente",
    }
}

/// The line of help under a row; most rows have none.
pub open spec fn hint_of(row: SettingRow) -> Seq<char> {
    match row {
        SettingRow::BackgroundFps => "A menos Hz, menos molesta el shell al juego (solo vigila el boton del mando)"@,
        SettingRow::StopServices => "Solo se ofrecen servicios que se pueden parar sin romper nada. Elige cuales en Recursos"@,
        SettingRow::AutoThrottle => "Mide el equipo y degrada los procesos de fondo mas pesados, sin listas de programas"@,
        SettingRow::ProtectHandheld => "Mando, ventiladores, TDP y superposiciones de Steam Deck y similares: nunca se tocan"@,
        SettingRow::EcoQos => "Manda los procesos de fondo a los nucleos eficientes; reversible"@,
        SettingRow::KillExplorer => "Libera RAM y quita la barra de tareas. Se relanza al salir"@,
        SettingRow::PowerPlan => "Se restaura el plan original al salir del modo juego"@,
        SettingRow::CatalogDir => "Carpeta con los .jsonl del repositorio Roms"@,
        SettingRow::Fullscreen => "Se aplica al momento; tambien con F11"@,
        SettingRow::ThemeMode => "Blanco y negro nada mas: sin acento de color de ningun lanzador"@,
        SettingRow::CoverAutoFetch => "Via SteamGridDB. Pon tu clave gratuita en covers.steamgrid_api_key dentro de config.toml"@,
        _ => ""@,
    }
}

pub fn row_hint(row: SettingRow) -> (s: &'static str)
    ensures
        s@ == hint_of(row),
{
    match row {
        SettingRow::BackgroundFps => "A menos Hz, menos molesta el shell al juego (solo vigila el boton del mando)",
        SettingRow::StopServices => "Solo se ofrecen servicios que se pueden parar sin romper nada. Elige cuales en Recursos",
        SettingRow::AutoThrottle => "Mide el equipo y degrada los procesos de fondo mas pesados, sin listas de programas",
        SettingRow::ProtectHandheld => "Mando, ventiladores, TDP y superposiciones de Steam Deck y similares: nunca se tocan",
        SettingRow::EcoQos => "Manda los procesos de fondo a los nucleos eficientes; reversible",
        SettingRow::KillExplorer => "Libera RAM y quita la barra de tareas. Se relanza al salir",
        SettingRow::PowerPlan => "Se restaura el plan original al salir del modo juego",
        SettingRow::CatalogDir => "Carpeta con los .jsonl del repositorio Roms",
        SettingRow::Fullscreen => "Se aplica al momento; tambien con F11",
        SettingRow::ThemeMode => "Blanco y negro nada mas: sin acento de color de ningun lanzador",
        SettingRow::CoverAutoFetch => "Via SteamGridDB. Pon tu clave gratuita en covers.steamgrid_api_key dentro de config.toml",
        _ => "",
    }
}

pub open spec fn on_off(b: bool) -> Seq<char> {
    if b {
        "activado"@
    } else {
        "desactivado"@
    }
}

fn on_off_text(b: bool) -> (s: String)
    ensures
        s@ == on_off(b),
{
    if b {
        owned("activado")
    } else {
        owned("desactivado")
    }
}

/// A number followed by its unit.
fn number_with(n: u64, unit: &str) -> (s: String)
    ensures
        s@ == decimal(n as nat) + unit@,
{
    let mut s = decimal_string(n);
    push_str(&mut s, unit);
    s
}

/// What a row shows as its value. The fractional ones (scale, dead zone)
/// are shown by the program: `None`.
pub open spec fn value_text(c: Config, i: Interface, row: SettingRow, data_dir: Seq<char>) -> Option<Seq<char>> {
    match row {
        SettingRow::Fullscreen => Some(on_off(i.fullscreen)),
        SettingRow::ThemeMode => Some(
            match i.theme {
                Theme::Dark => "oscuro"@,
                Theme::Light => "claro"@,
            },
        ),
        SettingRow::ActiveFps => Some(decimal(i.active_fps as nat) + " fps"@),
        SettingRow::IdleFps => Some(decimal(i.idle_fps as nat) + " fps"@),
        SettingRow::BackgroundFps => Some(decimal(i.background_fps as nat) + " Hz"@),
        SettingRow::MinimizeWhilePlaying => Some(on_off(i.minimize_while_playing)),
        SettingRow::UiScale => None,
        SettingRow::Deadzone => None,
        SettingRow::RepeatDelay => Some(decimal(i.repeat_delay_ms as nat) + " ms"@),
        SettingRow::GuideButton => Some(on_off(i.capture_guide_button)),
        SettingRow::Rumble => Some(on_off(i.rumble_feedback)),
        SettingRow::PowerPlan => Some(
            match c.power.power_plan {
                PowerPlan::Leave => "no tocar"@,
                PowerPlan::Balanced => "equilibrado"@,
                PowerPlan::HighPerformance => "alto rendimiento"@,
                PowerPlan::Ultimate => "maximo rendimiento"@,
            },
        ),
        SettingRow::StopServices => Some(
            if !c.power.stop_services {
                "desactivado"@
            } else if c.power.services@.len() == 0 {
                "seleccion recomendada"@
            } else {
                decimal(c.power.services@.len()) + " elegidos a mano"@
            },
        ),
        SettingRow::AutoThrottle => Some(on_off(c.power.auto_throttle)),
        SettingRow::AutoThrottleMax => Some(decimal(c.power.auto_throttle_max as nat) + " procesos"@),
        SettingRow::AutoThrottleMinMb => Some("desde "@ + decimal(c.power.auto_throttle_min_mb as nat) + " MB"@),
        SettingRow::ProtectHandheld => Some(on_off(c.power.protect_handheld_helpers)),
        SettingRow::EcoQos => Some(on_off(c.power.eco_qos_background)),
        SettingRow::TrimWorkingSets => Some(on_off(c.power.trim_working_sets)),
        SettingRow::GamePriority => Some(
            match c.power.game_priority {
                GamePriority::Normal => "normal"@,
                GamePriority::AboveNormal => "superior a normal"@,
                GamePriority::High => "alta"@,
            },
        ),
        SettingRow::KillExplorer => Some(on_off(c.power.kill_explorer)),
        SettingRow::EngageOnStart => Some(on_off(c.power.engage_on_start)),
        SettingRow::RestoreOnExit => Some(on_off(c.power.restore_on_exit)),
        SettingRow::CatalogDir => Some(
            match c.catalog.index_dir {
                Some(d) => d@,
                None => "sin configurar"@,
            },
        ),
        SettingRow::DownloadDir => Some(
            match c.catalog.download_dir {
                Some(d) => d@,
                None => joined_path(data_dir, "roms"@),
            },
        ),
        SettingRow::CatalogBudget => Some(decimal(c.catalog.max_index_memory_mb as nat) + " MB"@),
        SettingRow::CoverAutoFetch => Some(
            match c.covers.steamgrid_api_key {
                Some(k) => if trim_ws(k@).len() == 0 {
                    "sin clave configurada"@
                } else {
                    on_off(c.covers.auto_fetch)
                },
                None => "sin clave configurada"@,
            },
        ),
    }
}

/// The value a row shows, from the settings (`data_dir` is where the
/// default download folder lives).
pub fn row_value(config: &Config, iface: &Interface, row: SettingRow, data_dir: &str) -> (r: Option<String>)
    ensures
        match (r, value_text(*config, *iface, row, data_dir@)) {
            (Some(s), Some(t)) => s@ == t,
            (None, None) => true,
            _ => false,
        },
{
    match row {
        SettingRow::Fullscreen => Some(on_off_text(iface.fullscreen)),
        SettingRow::ThemeMode => Some(
            match iface.theme {
                Theme::Dark => owned("oscuro"),
                Theme::Light => owned("claro"),
            },
        ),
        SettingRow::ActiveFps => Some(number_with(iface.active_fps, " fps")),
        SettingRow::IdleFps => Some(number_with(iface.idle_fps, " fps")),
        SettingRow::BackgroundFps => Some(number_with(iface.background_fps, " Hz")),
        SettingRow::MinimizeWhilePlaying => Some(on_off_text(iface.minimize_while_playing)),
        SettingRow::UiScale => None,
        SettingRow::Deadzone => None,
        SettingRow::RepeatDelay => Some(number_with(iface.repeat_delay_ms, " ms")),
        SettingRow::GuideButton => Some(on_off_text(iface.capture_guide_button)),
        SettingRow::Rumble => Some(on_off_text(iface.rumble_feedback)),
        SettingRow::PowerPlan => Some(
            match config.power.power_plan {
                PowerPlan::Leave => owned("no tocar"),
                PowerPlan::Balanced => owned("equilibrado"),
                PowerPlan::HighPerformance => owned("alto rendimiento"),
                PowerPlan::Ultimate => owned("maximo rendimiento"),
            },
        ),
        SettingRow::StopServices => Some(
            if !config.power.stop_services {
                owned("desactivado")
            } else if config.power.services.len() == 0 {
                owned("seleccion recomendada")
            } else {
                number_with(config.power.services.len() as u64, " elegidos a mano")
            },
        ),
        SettingRow::AutoThrottle => Some(on_off_text(config.power.auto_throttle)),
        SettingRow::AutoThrottleMax => Some(number_with(config.power.auto_throttle_max as u64, " procesos")),
        SettingRow::AutoThrottleMinMb => {
            let mut s = owned("desde ");
            let n = number_with(config.power.auto_throttle_min_mb, " MB");
            push_str(&mut s, n.as_str());
            proof {
                assert(s@ == "desde "@ + (decimal(config.power.auto_throttle_min_mb as nat) + " MB"@));
            }
            Some(s)
        },
        SettingRow::ProtectHandheld => Some(on_off_text(config.power.protect_handheld_helpers)),
        SettingRow::EcoQos => Some(on_off_text(config.power.eco_qos_background)),
        SettingRow::TrimWorkingSets => Some(on_off_text(config.power.trim_working_sets)),
        SettingRow::GamePriority => Some(
            match config.power.game_priority {
                GamePriority::Normal => owned("normal"),
                GamePriority::AboveNormal => owned("superior a normal"),
                GamePriority::High => owned("alta"),
            },
        ),
        SettingRow::KillExplorer => Some(on_off_text(config.power.kill_explorer)),
        SettingRow::EngageOnStart => Some(on_off_text(config.power.engage_on_start)),
        SettingRow::RestoreOnExit => Some(on_off_text(config.power.restore_on_exit)),
        SettingRow::CatalogDir => Some(
            match &config.catalog.index_dir {
                Some(d) => d.clone(),
                None => owned("sin configurar"),
            },
        ),
        SettingRow::DownloadDir => Some(config.download_dir(data_dir)),
        SettingRow::CatalogBudget => Some(number_with(config.catalog.max_index_memory_mb, " MB")),
        SettingRow::CoverAutoFetch => Some(
            match &config.covers.steamgrid_api_key {
                Some(k) => {
                    let t = trimmed(k.as_str());
                    if chars_of(t.as_str()).len() == 0 {
                        owned("sin clave configurada")
                    } else {
                        on_off_text(config.covers.auto_fetch)
                    }
                },
                None => owned("sin clave configurada"),
            },
        ),
    }
}

} // verus!
