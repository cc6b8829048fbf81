//! The processes that are never touched.
//!
//! Game mode demotes what gets in the way, but two families of processes are
//! left alone: the critical ones of Windows (without them there is no
//! session, no sound, no on-screen keyboard) and the helper programs of
//! handheld consoles, which drive the controller, the fans, the TDP and the
//! gyroscope. Demoting or closing one of those leaves the device without
//! controls or overheating.

use vstd::prelude::*;

use crate::text::{
    ascii_lower, chars_of, owned, push_str, same_ignoring_ascii_case, same_text, slice_chars,
    string_of, texts, to_ascii_lower, trim_bounds, trim_ws,
};

verus! {

/// What a helper program is for, as the report tells it.
#[derive(Debug, Clone, Copy, PartialEq, Eq, Structural)]
pub enum HelperRole {
    /// Without it there is no controller.
    Controller,
    /// Fans and temperatures.
    Cooling,
    /// TDP, power curve, brightness.
    Power,
    /// Overlays and frame limiters.
    Overlay,
    /// Driver or device service.
    Driver,
    /// The device maker's panel.
    Vendor,
}

pub open spec fn role_label(r: HelperRole) -> Seq<char> {
    match r {
        HelperRole::Controller => "mando"@,
        HelperRole::Cooling => "ventiladores"@,
        HelperRole::Power => "potencia/TDP"@,
        HelperRole::Overlay => "superposicion"@,
        HelperRole::Driver => "controlador"@,
        HelperRole::Vendor => "panel del fabricante"@,
    }
}

impl HelperRole {
    pub fn label(self) -> (s: &'static str)
        ensures
            s@ == role_label(self),
    {
        match self {
            HelperRole::Controller => "mando",
            HelperRole::Cooling => "ventiladores",
            HelperRole::Power => "potencia/TDP",
            HelperRole::Overlay => "superposicion",
            HelperRole::Driver => "controlador",
            HelperRole::Vendor => "panel del fabricante",
        }
    }
}

#[derive(Debug, Clone, Copy, PartialEq, Eq)]
pub struct Helper {
    /// Executable name without extension.
    pub process: &'static str,
    /// The program it belongs to.
    pub suite: &'static str,
    pub role: HelperRole,
}

pub struct HelperView {
    pub process: Seq<char>,
    pub suite: Seq<char>,
    pub role: HelperRole,
}

impl View for Helper {
    type V = HelperView;

    open spec fn view(&self) -> HelperView {
        HelperView { process: self.process@, suite: self.suite@, role: self.role }
    }
}

pub open spec fn helper_view(process: Seq<char>, suite: Seq<char>, role: HelperRole) -> HelperView {
    HelperView { process, suite, role }
}

/// Helper programs of handheld consoles running Windows. More can be added
/// in the settings (`protected_processes`); these come built in.
pub open spec fn helper_table() -> Seq<HelperView> {
    seq![
        helper_view("SteamController"@, "Steam Deck Tools"@, HelperRole::Controller),
        helper_view("SteamDeckTools.Helper"@, "Steam Deck Tools"@, HelperRole::Driver),
        helper_view("FanControl"@, "Steam Deck Tools"@, HelperRole::Cooling),
        helper_view("PowerControl"@, "Steam Deck Tools"@, HelperRole::Power),
        helper_view("PerformanceOverlay"@, "Steam Deck Tools"@, HelperRole::Overlay),
        helper_view("SWICD"@, "SWICD"@, HelperRole::Controller),
        helper_view("SWICDService"@, "SWICD"@, HelperRole::Driver),
        helper_view("HandheldCompanion"@, "Handheld Companion"@, HelperRole::Controller),
        helper_view("ControllerService"@, "Handheld Companion"@, HelperRole::Driver),
        helper_view("HidHideClient"@, "HidHide"@, HelperRole::Driver),
        helper_view("HidHideCLI"@, "HidHide"@, HelperRole::Driver),
        helper_view("ViGEmBus"@, "ViGEm"@, HelperRole::Driver),
        helper_view("GlosSITarget"@, "GlosSI"@, HelperRole::Controller),
        helper_view("GlosSIConfig"@, "GlosSI"@, HelperRole::Controller),
        helper_view("DS4Windows"@, "DS4Windows"@, HelperRole::Controller),
        helper_view("reWASD"@, "reWASD"@, HelperRole::Controller),
        helper_view("reWASDEngine"@, "reWASD"@, HelperRole::Controller),
        helper_view("XOutput"@, "XOutput"@, HelperRole::Controller),
        helper_view("x360ce"@, "x360ce"@, HelperRole::Controller),
        helper_view("RTSS"@, "RivaTuner Statistics Server"@, HelperRole::Overlay),
        helper_view("RTSSHooksLoader64"@, "RivaTuner Statistics Server"@, HelperRole::Overlay),
        helper_view("EncoderServer"@, "RivaTuner Statistics Server"@, HelperRole::Overlay),
        helper_view("MSIAfterburner"@, "MSI Afterburner"@, HelperRole::Overlay),
        helper_view("ArmouryCrate.UserSessionHelper"@, "Armoury Crate"@, HelperRole::Vendor),
        helper_view("ArmouryCrateControlInterface"@, "Armoury Crate"@, HelperRole::Vendor),
        helper_view("ArmourySwAgent"@, "Armoury Crate"@, HelperRole::Vendor),
        helper_view("AsusOSD"@, "Armoury Crate"@, HelperRole::Vendor),
        helper_view("LegionGoQuickSettings"@, "Legion Space"@, HelperRole::Vendor),
        helper_view("LegionSpace"@, "Legion Space"@, HelperRole::Vendor),
        helper_view("MSICenterM"@, "MSI Center M"@, HelperRole::Vendor),
        helper_view("AYASpace"@, "AYASpace"@, HelperRole::Vendor),
        helper_view("OneXConsole"@, "OneXConsole"@, HelperRole::Vendor),
        helper_view("WinControls"@, "GPD WinControls"@, HelperRole::Controller),
        helper_view("RadeonSoftware"@, "AMD Software"@, HelperRole::Driver),
        helper_view("AMDRSServ"@, "AMD Software"@, HelperRole::Driver),
        helper_view("AMDRSSrcExt"@, "AMD Software"@, HelperRole::Driver),
        helper_view("atieclxx"@, "AMD Software"@, HelperRole::Driver),
        helper_view("atiesrxx"@, "AMD Software"@, HelperRole::Driver),
        helper_view("nvcontainer"@, "NVIDIA"@, HelperRole::Driver),
        helper_view("NVDisplay.Container"@, "NVIDIA"@, HelperRole::Driver),
        helper_view("IGCC"@, "Intel Graphics"@, HelperRole::Driver),
        helper_view("ArcControl"@, "Intel Arc Control"@, HelperRole::Driver),
        helper_view("ArcControlAssist"@, "Intel Arc Control"@, HelperRole::Driver),
    ]
}

fn helper(process: &'static str, suite: &'static str, role: HelperRole) -> (h: Helper)
    ensures
        h@ == helper_view(process@, suite@, role),
{
    Helper { process, suite, role }
}

/// The built-in helper programs, in table order.
pub fn handheld_helpers() -> (v: Vec<Helper>)
    ensures
        v@.map_values(|h: Helper| h@) == helper_table(),
{
    let mut v: Vec<Helper> = Vec::new();
    v.push(helper("SteamController", "Steam Deck Tools", HelperRole::Controller));
    v.push(helper("SteamDeckTools.Helper", "Steam Deck Tools", HelperRole::Driver));
    v.push(helper("FanControl", "Steam Deck Tools", HelperRole::Cooling));
    v.push(helper("PowerControl", "Steam Deck Tools", HelperRole::Power));
    v.push(helper("PerformanceOverlay", "Steam Deck Tools", HelperRole::Overlay));
    v.push(helper("SWICD", "SWICD", HelperRole::Controller));
    v.push(helper("SWICDService", "SWICD", HelperRole::Driver));
    v.push(helper("HandheldCompanion", "Handheld Companion", HelperRole::Controller));
    v.push(helper("ControllerService", "Handheld Companion", HelperRole::Driver));
    v.push(helper("HidHideClient", "HidHide", HelperRole::Driver));
    v.push(helper("HidHideCLI", "HidHide", HelperRole::Driver));
    v.push(helper("ViGEmBus", "ViGEm", HelperRole::Driver));
    v.push(helper("GlosSITarget", "GlosSI", HelperRole::Controller));
    v.push(helper("GlosSIConfig", "GlosSI", HelperRole::Controller));
    v.push(helper("DS4Windows", "DS4Windows", HelperRole::Controller));
    v.push(helper("reWASD", "reWASD", HelperRole::Controller));
    v.push(helper("reWASDEngine", "reWASD", HelperRole::Controller));
    v.push(helper("XOutput", "XOutput", HelperRole::Controller));
    v.push(helper("x360ce", "x360ce", HelperRole::Controller));
    v.push(helper("RTSS", "RivaTuner Statistics Server", HelperRole::Overlay));
    v.push(helper("RTSSHooksLoader64", "RivaTuner Statistics Server", HelperRole::Overlay));
    v.push(helper("EncoderServer", "RivaTuner Statistics Server", HelperRole::Overlay));
    v.push(helper("MSIAfterburner", "MSI Afterburner", HelperRole::Overlay));
    v.push(helper("ArmouryCrate.UserSessionHelper", "Armoury Crate", HelperRole::Vendor));
    v.push(helper("ArmouryCrateControlInterface", "Armoury Crate", HelperRole::Vendor));
    v.push(helper("ArmourySwAgent", "Armoury Crate", HelperRole::Vendor));
    v.push(helper("AsusOSD", "Armoury Crate", HelperRole::Vendor));
    v.push(helper("LegionGoQuickSettings", "Legion Space", HelperRole::Vendor));
    v.push(helper("LegionSpace", "Legion Space", HelperRole::Vendor));
    v.push(helper("MSICenterM", "MSI Center M", HelperRole::Vendor));
    v.push(helper("AYASpace", "AYASpace", HelperRole::Vendor));
    v.push(helper("OneXConsole", "OneXConsole", HelperRole::Vendor));
    v.push(helper("WinControls", "GPD WinControls", HelperRole::Controller));
    v.push(helper("RadeonSoftware", "AMD Software", HelperRole::Driver));
    v.push(helper("AMDRSServ", "AMD Software", HelperRole::Driver));
    v.push(helper("AMDRSSrcExt", "AMD Software", HelperRole::Driver));
    v.push(helper("atieclxx", "AMD Software", HelperRole::Driver));
    v.push(helper("atiesrxx", "AMD Software", HelperRole::Driver));
    v.push(helper("nvcontainer", "NVIDIA", HelperRole::Driver));
    v.push(helper("NVDisplay.Container", "NVIDIA", HelperRole::Driver));
    v.push(helper("IGCC", "Intel Graphics", HelperRole::Driver));
    v.push(helper("ArcControl", "Intel Arc Control", HelperRole::Driver));
    v.push(helper("ArcControlAssist", "Intel Arc Control", HelperRole::Driver));
    assert(v@.map_values(|h: Helper| h@) =~= helper_table());
    v
}

/// Windows processes that are never touched. Demoting any of them ranges
/// from stutter to a lost session; the antivirus and the on-screen keyboard
/// are among them.
pub open spec fn critical_table() -> Seq<Seq<char>> {
    seq![
        "System"@,
        "Registry"@,
        "Idle"@,
        "smss"@,
        "csrss"@,
        "wininit"@,
        "winlogon"@,
        "services"@,
        "lsass"@,
        "lsm"@,
        "svchost"@,
        "fontdrvhost"@,
        "dwm"@,
        "audiodg"@,
        "sihost"@,
        "ctfmon"@,
        "conhost"@,
        "WUDFHost"@,
        "spoolsv"@,
        "MsMpEng"@,
        "NisSrv"@,
        "SecurityHealthService"@,
        "SecurityHealthSystray"@,
        "TextInputHost"@,
        "TabTip"@,
        "osk"@,
    ]
}

/// The critical processes, in table order.
pub fn critical_system() -> (v: Vec<&'static str>)
    ensures
        v@.map_values(|s: &'static str| s@) == critical_table(),
{
    let mut v: Vec<&'static str> = Vec::new();
    v.push("System");
    v.push("Registry");
    v.push("Idle");
    v.push("smss");
    v.push("csrss");
    v.push("wininit");
    v.push("winlogon");
    v.push("services");
    v.push("lsass");
    v.push("lsm");
    v.push("svchost");
    v.push("fontdrvhost");
    v.push("dwm");
    v.push("audiodg");
    v.push("sihost");
    v.push("ctfmon");
    v.push("conhost");
    v.push("WUDFHost");
    v.push("spoolsv");
    v.push("MsMpEng");
    v.push("NisSrv");
    v.push("SecurityHealthService");
    v.push("SecurityHealthSystray");
    v.push("TextInputHost");
    v.push("TabTip");
    v.push("osk");
    assert(v@.map_values(|s: &'static str| s@) =~= critical_table());
    v
}

/// Why a process is protected.
#[derive(Debug, Clone, PartialEq, Eq)]
pub enum Protection {
    System,
    Handheld(Helper),
    User,
    /// It is the shell itself, or the game that was just launched.
    Own(String),
}

pub enum ProtectionView {
    System,
    Handheld(HelperView),
    User,
    Own(Seq<char>),
}

impl View for Protection {
    type V = ProtectionView;

    open spec fn view(&self) -> ProtectionView {
        match self {
            Protection::System => ProtectionView::System,
            Protection::Handheld(h) => ProtectionView::Handheld(h@),
            Protection::User => ProtectionView::User,
            Protection::Own(what) => ProtectionView::Own(what@),
        }
    }
}

pub open spec fn reason_text(p: ProtectionView) -> Seq<char> {
    match p {
        ProtectionView::System => "proceso critico de Windows"@,
        ProtectionView::Handheld(h) => h.suite + " ("@ + role_label(h.role) + ")"@,
        ProtectionView::User => "protegido en la configuracion"@,
        ProtectionView::Own(what) => what,
    }
}

impl Protection {
    /// The reason, as the report shows it.
    pub fn reason(&self) -> (s: String)
        ensures
            s@ == reason_text(self@),
    {
        match self {
            Protection::System => owned("proceso critico de Windows"),
            Protection::Handheld(h) => {
                let mut s = owned(h.suite);
                push_str(&mut s, " (");
                push_str(&mut s, h.role.label());
                push_str(&mut s, ")");
                s
            },
            Protection::User => owned("protegido en la configuracion"),
            Protection::Own(what) => owned(what.as_str()),
        }
    }
}

/// The text ends in `.exe`, however it is written.
pub open spec fn has_exe_suffix(t: Seq<char>) -> bool {
    &&& t.len() >= 4
    &&& t[t.len() - 4] == '.'
    &&& ascii_lower(t[t.len() - 3]) == 'e'
    &&& ascii_lower(t[t.len() - 2]) == 'x'
    &&& ascii_lower(t[t.len() - 1]) == 'e'
}

/// A process name without the white space around it and without its
/// `.exe` extension, however written.
pub open spec fn stem_of(name: Seq<char>) -> Seq<char> {
    let t = trim_ws(name);
    if has_exe_suffix(t) {
        t.subrange(0, t.len() - 4)
    } else {
        t
    }
}

/// Two names denote the same program: same stem, ASCII case aside.
pub open spec fn same_program_name(a: Seq<char>, b: Seq<char>) -> bool {
    same_ignoring_ascii_case(stem_of(a), stem_of(b))
}

/// The name without the `.exe` extension, however written.
pub fn stem(name: &str) -> (r: String)
    ensures
        r@ == stem_of(name@),
{
    let cs = chars_of(name);
    let (lo, hi) = trim_bounds(&cs);
    let t = slice_chars(&cs, lo, hi);
    let n = t.len();
    if n >= 4 && t[n - 4] == '.' && to_ascii_lower(t[n - 3]) == 'e' && to_ascii_lower(t[n - 2])
        == 'x' && to_ascii_lower(t[n - 1]) == 'e' {
        string_of(&slice_chars(&t, 0, n - 4))
    } else {
        string_of(&t)
    }
}

fn same_program(candidate: &str, name: &str) -> (r: bool)
    ensures
        r == same_program_name(candidate@, name@),
{
    let a = stem(candidate);
    let b = stem(name);
    crate::text::eq_ignore_ascii_case(a.as_str(), b.as_str())
}

/// The first helper of `t` that is the program `name`.
pub open spec fn first_helper(t: Seq<HelperView>, name: Seq<char>) -> Option<HelperView>
    decreases t.len(),
{
    if t.len() == 0 {
        None
    } else if same_program_name(t[0].process, name) {
        Some(t[0])
    } else {
        first_helper(t.drop_first(), name)
    }
}

/// Why `name` is protected, if it is: a critical process of Windows, a
/// handheld helper (when those are protected), or one the user listed.
pub open spec fn protection_of(name: Seq<char>, extra: Seq<Seq<char>>, handheld: bool) -> Option<
    ProtectionView,
> {
    if exists|i: int|
        0 <= i < critical_table().len() && same_program_name(#[trigger] critical_table()[i], name) {
        Some(ProtectionView::System)
    } else if handheld && first_helper(helper_table(), name) is Some {
        Some(ProtectionView::Handheld(first_helper(helper_table(), name)->0))
    } else if exists|i: int| 0 <= i < extra.len() && same_program_name(#[trigger] extra[i], name) {
        Some(ProtectionView::User)
    } else {
        None
    }
}

pub open spec fn opt_protection(p: Option<Protection>) -> Option<ProtectionView> {
    match p {
        Some(x) => Some(x@),
        None => None,
    }
}

fn find_helper(helpers: &Vec<Helper>, name: &str) -> (r: Option<Helper>)
    requires
        helpers@.map_values(|h: Helper| h@) == helper_table(),
    ensures
        match r {
            Some(h) => first_helper(helper_table(), name@) == Some(h@),
            None => first_helper(helper_table(), name@) is None,
        },
{
    let ghost t = helper_table();
    let mut i: usize = 0;
    assert(t.subrange(0, t.len() as int) == t);
    while i < helpers.len()
        invariant
            i <= helpers.len(),
            helpers@.map_values(|h: Helper| h@) == t,
            t == helper_table(),
            first_helper(t, name@) == first_helper(t.subrange(i as int, t.len() as int), name@),
        decreases helpers.len() - i,
    {
        let h = helpers[i];
        assert(t[i as int] == h@);
        assert(t.subrange(i as int, t.len() as int)[0] == h@);
        if same_program(h.process, name) {
            return Some(h);
        }
        assert(t.subrange(i as int, t.len() as int).drop_first() == t.subrange(i + 1, t.len() as int));
        i += 1;
    }
    None
}

/// Is this process protected? Gives the reason, which ends up in the report.
pub fn protection_for(name: &str, extra: &[String], protect_handheld: bool) -> (r: Option<Protection>)
    ensures
        opt_protection(r) == protection_of(name@, texts(extra@), protect_handheld),
{
    let critical = critical_system();
    let ghost ct = critical_table();
    let mut i: usize = 0;
    while i < critical.len()
        invariant
            i <= critical.len(),
            critical@.map_values(|s: &'static str| s@) == ct,
            ct == critical_table(),
            forall|j: int| 0 <= j < i ==> !same_program_name(#[trigger] ct[j], name@),
        decreases critical.len() - i,
    {
        assert(ct[i as int] == critical@[i as int]@);
        if same_program(critical[i], name) {
            return Some(Protection::System);
        }
        i += 1;
    }
    if protect_handheld {
        let helpers = handheld_helpers();
        match find_helper(&helpers, name) {
            Some(h) => {
                return Some(Protection::Handheld(h));
            },
            None => {},
        }
    }
    let ghost ex = texts(extra@);
    let mut k: usize = 0;
    while k < extra.len()
        invariant
            k <= extra.len(),
            ex == texts(extra@),
            forall|j: int| 0 <= j < ct.len() ==> !same_program_name(#[trigger] ct[j], name@),
            ct == critical_table(),
            protect_handheld ==> first_helper(helper_table(), name@) is None,
            forall|j: int| 0 <= j < k ==> !same_program_name(#[trigger] ex[j], name@),
        decreases extra.len() - k,
    {
        assert(ex[k as int] == extra@[k as int]@);
        if same_program(extra[k].as_str(), name) {
            return Some(Protection::User);
        }
        k += 1;
    }
    None
}

/// The helper programs found among running processes, one per program
/// (suite), in the order they are first met.
pub open spec fn detected(names: Seq<Seq<char>>) -> Seq<HelperView>
    decreases names.len(),
{
    if names.len() == 0 {
        seq![]
    } else {
        let prev = detected(names.drop_last());
        match first_helper(helper_table(), names.last()) {
            Some(h) => if exists|k: int| 0 <= k < prev.len() && (#[trigger] prev[k]).suite == h.suite {
                prev
            } else {
                prev.push(h)
            },
            None => prev,
        }
    }
}

pub open spec fn str_texts(v: Seq<&str>) -> Seq<Seq<char>> {
    v.map_values(|s: &str| s@)
}

/// The handheld helpers among the running processes, without repeating a
/// program: used to tell the user that they are being respected.
pub fn detect_helpers(names: &[&str]) -> (r: Vec<Helper>)
    ensures
        r@.map_values(|h: Helper| h@) == detected(str_texts(names@)),
{
    let helpers = handheld_helpers();
    let ghost ns = str_texts(names@);
    let mut found: Vec<Helper> = Vec::new();
    let mut i: usize = 0;
    while i < names.len()
        invariant
            i <= names.len(),
            ns == str_texts(names@),
            helpers@.map_values(|h: Helper| h@) == helper_table(),
            found@.map_values(|h: Helper| h@) == detected(ns.take(i as int)),
        decreases names.len() - i,
    {
        let name = names[i];
        assert(ns.take(i + 1).drop_last() == ns.take(i as int));
        assert(ns.take(i + 1).last() == name@);
        let ghost prev = detected(ns.take(i as int));
        match find_helper(&helpers, name) {
            Some(h) => {
                let mut seen = false;
                let mut k: usize = 0;
                while k < found.len()
                    invariant
                        k <= found.len(),
                        found@.map_values(|h: Helper| h@) == prev,
                        seen <==> exists|j: int| 0 <= j < k && (#[trigger] prev[j]).suite == h.suite@,
                    decreases found.len() - k,
                {
                    assert(prev[k as int] == found@[k as int]@);
                    if same_text(found[k].suite, h.suite) {
                        seen = true;
                    }
                    k += 1;
                }
                if !seen {
                    found.push(h);
                    assert(found@.map_values(|h: Helper| h@) =~= prev.push(h@));
                }
            },
            None => {},
        }
        i += 1;
    }
    assert(ns.take(names.len() as int) == ns);
    found
}

/// No program is reported twice by the detection.
pub proof fn lemma_detected_programs_distinct(names: Seq<Seq<char>>)
    ensures
        forall|i: int, k: int|
            0 <= i < k < detected(names).len() ==> detected(names)[i].suite != detected(names)[k].suite,
    decreases names.len(),
{
    if names.len() > 0 {
        lemma_detected_programs_distinct(names.drop_last());
    }
}

proof fn lemma_listed_is_system(i: int, name: Seq<char>, extra: Seq<Seq<char>>, handheld: bool)
    requires
        0 <= i < critical_table().len(),
        critical_table()[i] == name,
    ensures
        protection_of(name, extra, handheld) == Some(ProtectionView::System),
{
    assert(same_program_name(critical_table()[i], name));
}

/// The Windows core is never demoted: the session and kernel processes,
/// the compositor (`dwm`), audio, input and console hosts, the spooler,
/// the antivirus and the on-screen keyboards are protected as system
/// processes, whatever the user's extra list and the handheld setting say.
pub proof fn lemma_windows_core_protected(extra: Seq<Seq<char>>, handheld: bool)
    ensures
        protection_of("System"@, extra, handheld) == Some(ProtectionView::System),
        protection_of("Registry"@, extra, handheld) == Some(ProtectionView::System),
        protection_of("Idle"@, extra, handheld) == Some(ProtectionView::System),
        protection_of("smss"@, extra, handheld) == Some(ProtectionView::System),
        protection_of("csrss"@, extra, handheld) == Some(ProtectionView::System),
        protection_of("wininit"@, extra, handheld) == Some(ProtectionView::System),
        protection_of("winlogon"@, extra, handheld) == Some(ProtectionView::System),
        protection_of("services"@, extra, handheld) == Some(ProtectionView::System),
        protection_of("lsass"@, extra, handheld) == Some(ProtectionView::System),
        protection_of("lsm"@, extra, handheld) == Some(ProtectionView::System),
        protection_of("svchost"@, extra, handheld) == Some(ProtectionView::System),
        protection_of("fontdrvhost"@, extra, handheld) == Some(ProtectionView::System),
        protection_of("dwm"@, extra, handheld) == Some(ProtectionView::System),
        protection_of("audiodg"@, extra, handheld) == Some(ProtectionView::System),
        protection_of("sihost"@, extra, handheld) == Some(ProtectionView::System),
        protection_of("ctfmon"@, extra, handheld) == Some(ProtectionView::System),
        protection_of("conhost"@, extra, handheld) == Some(ProtectionView::System),
        protection_of("WUDFHost"@, extra, handheld) == Some(ProtectionView::System),
        protection_of("spoolsv"@, extra, handheld) == Some(ProtectionView::System),
        protection_of("MsMpEng"@, extra, handheld) == Some(ProtectionView::System),
        protection_of("NisSrv"@, extra, handheld) == Some(ProtectionView::System),
        protection_of("SecurityHealthService"@, extra, handheld) == Some(ProtectionView::System),
        protection_of("SecurityHealthSystray"@, extra, handheld) == Some(ProtectionView::System),
        protection_of("TextInputHost"@, extra, handheld) == Some(ProtectionView::System),
        protection_of("TabTip"@, extra, handheld) == Some(ProtectionView::System),
        protection_of("osk"@, extra, handheld) == Some(ProtectionView::System),
{
    lemma_listed_is_system(0, "System"@, extra, handheld);
    lemma_listed_is_system(1, "Registry"@, extra, handheld);
    lemma_listed_is_system(2, "Idle"@, extra, handheld);
    lemma_listed_is_system(3, "smss"@, extra, handheld);
    lemma_listed_is_system(4, "csrss"@, extra, handheld);
    lemma_listed_is_system(5, "wininit"@, extra, handheld);
    lemma_listed_is_system(6, "winlogon"@, extra, handheld);
    lemma_listed_is_system(7, "services"@, extra, handheld);
    lemma_listed_is_system(8, "lsass"@, extra, handheld);
    lemma_listed_is_system(9, "lsm"@, extra, handheld);
    lemma_listed_is_system(10, "svchost"@, extra, handheld);
    lemma_listed_is_system(11, "fontdrvhost"@, extra, handheld);
    lemma_listed_is_system(12, "dwm"@, extra, handheld);
    lemma_listed_is_system(13, "audiodg"@, extra, handheld);
    lemma_listed_is_system(14, "sihost"@, extra, handheld);
    lemma_listed_is_system(15, "ctfmon"@, extra, handheld);
    lemma_listed_is_system(16, "conhost"@, extra, handheld);
    lemma_listed_is_system(17, "WUDFHost"@, extra, handheld);
    lemma_listed_is_system(18, "spoolsv"@, extra, handheld);
    lemma_listed_is_system(19, "MsMpEng"@, extra, handheld);
    lemma_listed_is_system(20, "NisSrv"@, extra, handheld);
    lemma_listed_is_system(21, "SecurityHealthService"@, extra, handheld);
    lemma_listed_is_system(22, "SecurityHealthSystray"@, extra, handheld);
    lemma_listed_is_system(23, "TextInputHost"@, extra, handheld);
    lemma_listed_is_system(24, "TabTip"@, extra, handheld);
    lemma_listed_is_system(25, "osk"@, extra, handheld);
}

proof fn lemma_first_helper_found(t: Seq<HelperView>, name: Seq<char>, i: int)
    requires
        0 <= i < t.len(),
        same_program_name(t[i].process, name),
    ensures
        first_helper(t, name) is Some,
    decreases i,
{
    if i > 0 && !same_program_name(t[0].process, name) {
        assert(t.drop_first()[i - 1] == t[i]);
        lemma_first_helper_found(t.drop_first(), name, i - 1);
    }
}

proof fn lemma_helper_protected(i: int, name: Seq<char>, extra: Seq<Seq<char>>)
    requires
        0 <= i < helper_table().len(),
        helper_table()[i].process == name,
    ensures
        protection_of(name, extra, true) is Some,
{
    lemma_first_helper_found(helper_table(), name, i);
}

/// With the protection of handheld helpers on, the helpers of the handheld
/// consoles and their tools are never demoted: Steam Deck Tools, SWICD,
/// Handheld Companion, HidHide, ViGEm, GlosSI, DS4Windows, reWASD,
/// XOutput, x360ce, RivaTuner, Afterburner, Armoury Crate, Legion Space,
/// MSI Center M, AYASpace, OneXConsole, GPD WinControls and the AMD,
/// NVIDIA and Intel graphics software.
pub proof fn lemma_handheld_helpers_protected(extra: Seq<Seq<char>>)
    ensures
        protection_of("SteamController"@, extra, true) is Some,
        protection_of("SteamDeckTools.Helper"@, extra, true) is Some,
        protection_of("FanControl"@, extra, true) is Some,
        protection_of("PowerControl"@, extra, true) is Some,
        protection_of("PerformanceOverlay"@, extra, true) is Some,
        protection_of("SWICD"@, extra, true) is Some,
        protection_of("SWICDService"@, extra, true) is Some,
        protection_of("HandheldCompanion"@, extra, true) is Some,
        protection_of("ControllerService"@, extra, true) is Some,
        protection_of("HidHideClient"@, extra, true) is Some,
        protection_of("HidHideCLI"@, extra, true) is Some,
        protection_of("ViGEmBus"@, extra, true) is Some,
        protection_of("GlosSITarget"@, extra, true) is Some,
        protection_of("GlosSIConfig"@, extra, true) is Some,
        protection_of("DS4Windows"@, extra, true) is Some,
        protection_of("reWASD"@, extra, true) is Some,
        protection_of("reWASDEngine"@, extra, true) is Some,
        protection_of("XOutput"@, extra, true) is Some,
        protection_of("x360ce"@, extra, true) is Some,
        protection_of("RTSS"@, extra, true) is Some,
        protection_of("RTSSHooksLoader64"@, extra, true) is Some,
        protection_of("EncoderServer"@, extra, true) is Some,
        protection_of("MSIAfterburner"@, extra, true) is Some,
        protection_of("ArmouryCrate.UserSessionHelper"@, extra, true) is Some,
        protection_of("ArmouryCrateControlInterface"@, extra, true) is Some,
        protection_of("ArmourySwAgent"@, extra, true) is Some,
        protection_of("AsusOSD"@, extra, true) is Some,
        protection_of("LegionGoQuickSettings"@, extra, true) is Some,
        protection_of("LegionSpace"@, extra, true) is Some,
        protection_of("MSICenterM"@, extra, true) is Some,
        protection_of("AYASpace"@, extra, true) is Some,
        protection_of("OneXConsole"@, extra, true) is Some,
        protection_of("WinControls"@, extra, true) is Some,
        protection_of("RadeonSoftware"@, extra, true) is Some,
        protection_of("AMDRSServ"@, extra, true) is Some,
        protection_of("AMDRSSrcExt"@, extra, true) is Some,
        protection_of("atieclxx"@, extra, true) is Some,
        protection_of("atiesrxx"@, extra, true) is Some,
        protection_of("nvcontainer"@, extra, true) is Some,
        protection_of("NVDisplay.Container"@, extra, true) is Some,
        protection_of("IGCC"@, extra, true) is Some,
        protection_of("ArcControl"@, extra, true) is Some,
        protection_of("ArcControlAssist"@, extra, true) is Some,
{
    lemma_helper_protected(0, "SteamController"@, extra);
    lemma_helper_protected(1, "SteamDeckTools.Helper"@, extra);
    lemma_helper_protected(2, "FanControl"@, extra);
    lemma_helper_protected(3, "PowerControl"@, extra);
    lemma_helper_protected(4, "PerformanceOverlay"@, extra);
    lemma_helper_protected(5, "SWICD"@, extra);
    lemma_helper_protected(6, "SWICDService"@, extra);
    lemma_helper_protected(7, "HandheldCompanion"@, extra);
    lemma_helper_protected(8, "ControllerService"@, extra);
    lemma_helper_protected(9, "HidHideClient"@, extra);
    lemma_helper_protected(10, "HidHideCLI"@, extra);
    lemma_helper_protected(11, "ViGEmBus"@, extra);
    lemma_helper_protected(12, "GlosSITarget"@, extra);
    lemma_helper_protected(13, "GlosSIConfig"@, extra);
    lemma_helper_protected(14, "DS4Windows"@, extra);
    lemma_helper_protected(15, "reWASD"@, extra);
    lemma_helper_protected(16, "reWASDEngine"@, extra);
    lemma_helper_protected(17, "XOutput"@, extra);
    lemma_helper_protected(18, "x360ce"@, extra);
    lemma_helper_protected(19, "RTSS"@, extra);
    lemma_helper_protected(20, "RTSSHooksLoader64"@, extra);
    lemma_helper_protected(21, "EncoderServer"@, extra);
    lemma_helper_protected(22, "MSIAfterburner"@, extra);
    lemma_helper_protected(23, "ArmouryCrate.UserSessionHelper"@, extra);
    lemma_helper_protected(24, "ArmouryCrateControlInterface"@, extra);
    lemma_helper_protected(25, "ArmourySwAgent"@, extra);
    lemma_helper_protected(26, "AsusOSD"@, extra);
    lemma_helper_protected(27, "LegionGoQuickSettings"@, extra);
    lemma_helper_protected(28, "LegionSpace"@, extra);
    lemma_helper_protected(29, "MSICenterM"@, extra);
    lemma_helper_protected(30, "AYASpace"@, extra);
    lemma_helper_protected(31, "OneXConsole"@, extra);
    lemma_helper_protected(32, "WinControls"@, extra);
    lemma_helper_protected(33, "RadeonSoftware"@, extra);
    lemma_helper_protected(34, "AMDRSServ"@, extra);
    lemma_helper_protected(35, "AMDRSSrcExt"@, extra);
    lemma_helper_protected(36, "atieclxx"@, extra);
    lemma_helper_protected(37, "atiesrxx"@, extra);
    lemma_helper_protected(38, "nvcontainer"@, extra);
    lemma_helper_protected(39, "NVDisplay.Container"@, extra);
    lemma_helper_protected(40, "IGCC"@, extra);
    lemma_helper_protected(41, "ArcControl"@, extra);
    lemma_helper_protected(42, "ArcControlAssist"@, extra);
}

} // verus!
