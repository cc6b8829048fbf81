//! Persistent settings (`config.toml`): the parts the library acts on.
//! Interface settings with fractional values (scale, dead zone) are kept
//! by the program itself.

use vstd::prelude::*;

use crate::library::copy_strings;
use crate::paths::{join_path, joined_path};
use crate::text::{chars_of, eq_ignore_ascii_case, owned, push_str, same_ignoring_ascii_case, same_text};

verus! {

#[derive(Debug, Clone, Copy, PartialEq, Eq)]
pub enum PowerPlan {
    /// Leave the user's power plan alone.
    Leave,
    Balanced,
    HighPerformance,
    /// "Ultimate Performance"; falls back to `HighPerformance` if missing.
    Ultimate,
}

#[derive(Debug, Clone, Copy, PartialEq, Eq)]
pub enum GamePriority {
    Normal,
    AboveNormal,
    High,
}

#[derive(Debug, Clone, Copy, PartialEq, Eq)]
pub enum Theme {
    Dark,
    Light,
}

#[derive(Debug, Clone)]
pub struct Power {
    /// Engage game mode as soon as the shell starts.
    pub engage_on_start: bool,
    pub power_plan: PowerPlan,
    /// Stop services from the safe catalog while game mode is on.
    pub stop_services: bool,
    /// Which ones; empty means the catalog's recommended selection.
    pub services: Vec<String>,
    /// Measure and demote the heaviest unprotected background processes.
    pub auto_throttle: bool,
    /// At most this many processes found by measuring.
    pub auto_throttle_max: usize,
    /// Only processes using at least this many MB take part.
    pub auto_throttle_min_mb: u64,
    /// Leave the handheld helper programs alone.
    pub protect_handheld_helpers: bool,
    /// More processes that are never touched.
    pub protected_processes: Vec<String>,
    /// Processes always demoted, however light.
    pub extra_throttle: Vec<String>,
    /// EcoQoS on demoted processes.
    pub eco_qos_background: bool,
    /// Empty the working set of demoted processes.
    pub trim_working_sets: bool,
    pub game_priority: GamePriority,
    /// Close explorer.exe while playing (restarted on the way out).
    pub kill_explorer: bool,
    /// Undo everything when the shell closes.
    pub restore_on_exit: bool,
}

impl Power {
    /// The documented defaults.
    pub fn defaults() -> (p: Power)
        ensures
            !p.engage_on_start,
            p.power_plan == PowerPlan::Ultimate,
            p.stop_services,
            p.services@.len() == 0,
            p.auto_throttle,
            p.auto_throttle_max == 12,
            p.auto_throttle_min_mb == 120,
            p.protect_handheld_helpers,
            p.protected_processes@.len() == 0,
            p.extra_throttle@.len() == 0,
            p.eco_qos_background,
            p.trim_working_sets,
            p.game_priority == GamePriority::High,
            !p.kill_explorer,
            p.restore_on_exit,
    {
        Power {
            engage_on_start: false,
            power_plan: PowerPlan::Ultimate,
            stop_services: true,
            services: Vec::new(),
            auto_throttle: true,
            auto_throttle_max: 12,
            auto_throttle_min_mb: 120,
            protect_handheld_helpers: true,
            protected_processes: Vec::new(),
            extra_throttle: Vec::new(),
            eco_qos_background: true,
            trim_working_sets: true,
            game_priority: GamePriority::High,
            kill_explorer: false,
            restore_on_exit: true,
        }
    }

    /// A copy of the settings.
    pub fn duplicate(&self) -> (p: Power)
        ensures
            p.engage_on_start == self.engage_on_start,
            p.power_plan == self.power_plan,
            p.stop_services == self.stop_services,
            p.services@ == self.services@,
            p.auto_throttle == self.auto_throttle,
            p.auto_throttle_max == self.auto_throttle_max,
            p.auto_throttle_min_mb == self.auto_throttle_min_mb,
            p.protect_handheld_helpers == self.protect_handheld_helpers,
            p.protected_processes@ == self.protected_processes@,
            p.extra_throttle@ == self.extra_throttle@,
            p.eco_qos_background == self.eco_qos_background,
            p.trim_working_sets == self.trim_working_sets,
            p.game_priority == self.game_priority,
            p.kill_explorer == self.kill_explorer,
            p.restore_on_exit == self.restore_on_exit,
    {
        Power {
            engage_on_start: self.engage_on_start,
            power_plan: self.power_plan,
            stop_services: self.stop_services,
            services: copy_strings(&self.services),
            auto_throttle: self.auto_throttle,
            auto_throttle_max: self.auto_throttle_max,
            auto_throttle_min_mb: self.auto_throttle_min_mb,
            protect_handheld_helpers: self.protect_handheld_helpers,
            protected_processes: copy_strings(&self.protected_processes),
            extra_throttle: copy_strings(&self.extra_throttle),
            eco_qos_background: self.eco_qos_background,
            trim_working_sets: self.trim_working_sets,
            game_priority: self.game_priority,
            kill_explorer: self.kill_explorer,
            restore_on_exit: self.restore_on_exit,
        }
    }
}

impl Default for Power {
    fn default() -> (p: Power)
        ensures
            p.power_plan == PowerPlan::Ultimate,
            p.stop_services,
            p.services@.len() == 0,
            p.auto_throttle,
            p.auto_throttle_max == 12,
            p.auto_throttle_min_mb == 120,
            p.protect_handheld_helpers,
            p.restore_on_exit,
    {
        Power::defaults()
    }
}

#[derive(Debug, Clone)]
pub struct Catalog {
    /// Folder with the `.jsonl` files of the ROM repository.
    pub index_dir: Option<String>,
    /// Where ROMs are downloaded.
    pub download_dir: Option<String>,
    /// Memory ceiling for the loaded platform indexes.
    pub max_index_memory_mb: u64,
    /// Entries kept in a search result.
    pub max_search_results: usize,
}

impl Default for Catalog {
    fn default() -> (c: Catalog)
        ensures
            c.index_dir is None,
            c.download_dir is None,
            c.max_index_memory_mb == 256,
            c.max_search_results == 500,
    {
        Catalog { index_dir: None, download_dir: None, max_index_memory_mb: 256, max_search_results: 500 }
    }
}

/// Cover art settings (SteamGridDB).
#[derive(Debug, Clone)]
pub struct Covers {
    pub steamgrid_api_key: Option<String>,
    pub auto_fetch: bool,
}

impl Default for Covers {
    fn default() -> (c: Covers)
        ensures
            c.steamgrid_api_key is None,
            c.auto_fetch,
    {
        Covers { steamgrid_api_key: None, auto_fetch: true }
    }
}

/// An external emulator a ROM is handed to.
#[derive(Debug, Clone)]
pub struct Emulator {
    pub id: String,
    pub name: String,
    pub exe: String,
    /// Arguments; `{rom}` is replaced by the ROM's path.
    pub args: Vec<String>,
    /// Platform ids it covers (`snes`, `psx`, ...).
    pub platforms: Vec<String>,
}

impl Default for Emulator {
    fn default() -> (e: Emulator)
        ensures
            e.id@.len() == 0,
            e.name@.len() == 0,
            e.exe@.len() == 0,
            e.args@.len() == 1,
            e.args@[0]@ == "{rom}"@,
            e.platforms@.len() == 0,
    {
        let mut args: Vec<String> = Vec::new();
        args.push(owned("{rom}"));
        Emulator { id: String::new(), name: String::new(), exe: String::new(), args, platforms: Vec::new() }
    }
}

#[derive(Debug, Clone)]
pub struct Config {
    pub power: Power,
    pub catalog: Catalog,
    pub covers: Covers,
    pub emulators: Vec<Emulator>,
}

/// The emulator covers the platform (ids compared ignoring ASCII case).
pub open spec fn covers_platform(e: Emulator, platform: Seq<char>) -> bool {
    exists|k: int| 0 <= k < e.platforms@.len() && same_ignoring_ascii_case(e.platforms@[k]@, platform)
}

fn emulator_covers(e: &Emulator, platform: &str) -> (r: bool)
    ensures
        r == covers_platform(*e, platform@),
{
    let mut k: usize = 0;
    while k < e.platforms.len()
        invariant
            k <= e.platforms.len(),
            forall|m: int| 0 <= m < k ==> !same_ignoring_ascii_case(e.platforms@[m]@, platform@),
        decreases e.platforms.len() - k,
    {
        if eq_ignore_ascii_case(e.platforms[k].as_str(), platform) {
            return true;
        }
        k += 1;
    }
    false
}

impl Default for Config {
    fn default() -> (c: Config)
        ensures
            c.emulators@.len() == 0,
            c.power.power_plan == PowerPlan::Ultimate,
            c.power.restore_on_exit,
    {
        Config {
            power: Power::defaults(),
            catalog: Catalog::default(),
            covers: Covers::default(),
            emulators: Vec::new(),
        }
    }
}

impl Config {
    /// The first emulator assigned to a catalog platform.
    pub fn emulator_for(&self, platform: &str) -> (r: Option<&Emulator>)
        ensures
            match r {
                Some(e) => exists|i: int|
                    0 <= i < self.emulators@.len() && *e == self.emulators@[i] && covers_platform(
                        *e,
                        platform@,
                    ) && forall|k: int|
                        0 <= k < i ==> !covers_platform(#[trigger] self.emulators@[k], platform@),
                None => forall|k: int|
                    0 <= k < self.emulators@.len() ==> !covers_platform(
                        #[trigger] self.emulators@[k],
                        platform@,
                    ),
            },
    {
        let mut i: usize = 0;
        while i < self.emulators.len()
            invariant
                i <= self.emulators.len(),
                forall|k: int| 0 <= k < i ==> !covers_platform(#[trigger] self.emulators@[k], platform@),
            decreases self.emulators.len() - i,
        {
            if emulator_covers(&self.emulators[i], platform) {
                return Some(&self.emulators[i]);
            }
            i += 1;
        }
        None
    }

    /// The first emulator with this id.
    pub fn emulator_by_id(&self, id: &str) -> (r: Option<&Emulator>)
        ensures
            match r {
                Some(e) => exists|i: int|
                    0 <= i < self.emulators@.len() && *e == self.emulators@[i] && e.id@ == id@
                        && forall|k: int| 0 <= k < i ==> (#[trigger] self.emulators@[k]).id@ != id@,
                None => forall|k: int|
                    0 <= k < self.emulators@.len() ==> (#[trigger] self.emulators@[k]).id@ != id@,
            },
    {
        let mut i: usize = 0;
        while i < self.emulators.len()
            invariant
                i <= self.emulators.len(),
                forall|k: int| 0 <= k < i ==> (#[trigger] self.emulators@[k]).id@ != id@,
            decreases self.emulators.len() - i,
        {
            if same_text(self.emulators[i].id.as_str(), id) {
                return Some(&self.emulators[i]);
            }
            i += 1;
        }
        None
    }

    /// Where ROMs are downloaded: the configured folder, or `roms` inside
    /// the data directory.
    pub fn download_dir(&self, data_dir: &str) -> (p: String)
        ensures
            match self.catalog.download_dir {
                Some(d) => p@ == d@,
                None => p@ == joined_path(data_dir@, "roms"@),
            },
    {
        match &self.catalog.download_dir {
            Some(d) => d.clone(),
            None => join_path(data_dir, "roms"),
        }
    }
}

/// The priority class (`SetPriorityClass`) a game is started with.
pub open spec fn class_of(p: GamePriority) -> u32 {
    match p {
        GamePriority::Normal => crate::sys::NORMAL_PRIORITY,
        GamePriority::AboveNormal => crate::sys::ABOVE_NORMAL_PRIORITY,
        GamePriority::High => crate::sys::HIGH_PRIORITY,
    }
}

pub fn priority_class_for(p: GamePriority) -> (c: u32)
    ensures
        c == class_of(p),
{
    match p {
        GamePriority::Normal => crate::sys::NORMAL_PRIORITY,
        GamePriority::AboveNormal => crate::sys::ABOVE_NORMAL_PRIORITY,
        GamePriority::High => crate::sys::HIGH_PRIORITY,
    }
}

/// The placeholder that stands for the ROM in an emulator's arguments.
pub open spec fn rom_mark() -> Seq<char> {
    seq!['{', 'r', 'o', 'm', '}']
}

/// A text with every `{rom}` (read left to right, without overlaps)
/// replaced by `rom`.
pub open spec fn with_rom(s: Seq<char>, rom: Seq<char>) -> Seq<char>
    decreases s.len(),
{
    if s.len() == 0 {
        seq![]
    } else if s.len() >= 5 && s.take(5) == rom_mark() {
        rom + with_rom(s.skip(5), rom)
    } else {
        seq![s[0]] + with_rom(s.skip(1), rom)
    }
}

fn fill_rom(arg: &str, rom: &str) -> (r: String)
    ensures
        r@ == with_rom(arg@, rom@),
{
    let cs = chars_of(arg);
    let n = cs.len();
    let mut out = String::new();
    let mut i: usize = 0;
    assert(cs@.skip(0) == cs@);
    assert(out@ + with_rom(cs@, rom@) == with_rom(cs@, rom@));
    while i < n
        invariant
            i <= n == cs@.len(),
            cs@ == arg@,
            out@ + with_rom(cs@.skip(i as int), rom@) == with_rom(arg@, rom@),
        decreases n - i,
    {
        let ghost rest = cs@.skip(i as int);
        let ghost before = out@;
        if n - i >= 5 && cs[i] == '{' && cs[i + 1] == 'r' && cs[i + 2] == 'o' && cs[i + 3] == 'm' && cs[i + 4]
            == '}' {
            assert(rest.take(5) == rom_mark());
            assert(rest.skip(5) == cs@.skip(i + 5));
            push_str(&mut out, rom);
            assert(with_rom(rest, rom@) == rom@ + with_rom(rest.skip(5), rom@));
            assert(out@ + with_rom(cs@.skip(i + 5), rom@) == before + with_rom(rest, rom@));
            i += 5;
        } else {
            assert(!(rest.len() >= 5 && rest.take(5) == rom_mark())) by {
                if rest.len() >= 5 && rest.take(5) == rom_mark() {
                    assert(rest.take(5)[0] == rest[0] && rest.take(5)[1] == rest[1] && rest.take(5)[2] == rest[2]);
                    assert(rest.take(5)[3] == rest[3] && rest.take(5)[4] == rest[4]);
                    assert(rest[0] == cs@[i as int] && rest[1] == cs@[i + 1] && rest[2] == cs@[i + 2]);
                    assert(rest[3] == cs@[i + 3] && rest[4] == cs@[i + 4]);
                }
            }
            assert(rest.skip(1) == cs@.skip(i + 1));
            crate::text::push_char(&mut out, cs[i]);
            assert(with_rom(rest, rom@) == seq![cs@[i as int]] + with_rom(rest.skip(1), rom@));
            assert(out@ + with_rom(cs@.skip(i + 1), rom@) == before + with_rom(rest, rom@));
            i += 1;
        }
    }
    assert(cs@.skip(n as int) == Seq::<char>::empty());
    assert(out@ + Seq::<char>::empty() == out@);
    out
}

/// The arguments an emulator is started with for a ROM: each `{rom}`
/// replaced by the ROM's path.
pub fn emulator_args(emulator: &Emulator, rom: &str) -> (r: Vec<String>)
    ensures
        r@.len() == emulator.args@.len(),
        forall|k: int| 0 <= k < r@.len() ==> (#[trigger] r@[k])@ == with_rom(emulator.args@[k]@, rom@),
{
    let mut r: Vec<String> = Vec::new();
    let mut k: usize = 0;
    while k < emulator.args.len()
        invariant
            k <= emulator.args@.len(),
            r@.len() == k,
            forall|j: int| 0 <= j < k ==> (#[trigger] r@[j])@ == with_rom(emulator.args@[j]@, rom@),
        decreases emulator.args.len() - k,
    {
        r.push(fill_rom(emulator.args[k].as_str(), rom));
        k += 1;
    }
    r
}

} // verus!
