//! One input vocabulary for controllers and keyboard: both produce the same
//! navigation actions, so the interface never knows where a press came from.
//!
//! The hub here is the decision core. The program around it reads the pads
//! (only the connected ones every time; the empty slots only on a rescan,
//! since polling an empty XInput slot walks the USB bus) and hands over what
//! it read, with the fractional stick and trigger values already judged
//! against their thresholds.

use vstd::prelude::*;

verus! {

/// High-level navigation actions: the only vocabulary the interface knows.
#[derive(Debug, Clone, Copy, PartialEq, Eq, Hash, Structural)]
pub enum NavAction {
    Up,
    Down,
    Left,
    Right,
    /// A / Enter
    Accept,
    /// B / Escape
    Back,
    /// X / F2: actions on the focused item.
    Context,
    /// Y / F: mark as favorite.
    Favorite,
    /// Start / F1: main menu.
    Menu,
    /// Select / Tab: search.
    Search,
    /// LB / Shift+Tab
    TabPrev,
    /// RB / Tab
    TabNext,
    /// Left trigger / Page Up
    PageUp,
    /// Right trigger / Page Down
    PageDown,
    /// Guide button / F12: quick panel, also while playing.
    Guide,
}

pub open spec fn directional(a: NavAction) -> bool {
    a == NavAction::Up || a == NavAction::Down || a == NavAction::Left || a == NavAction::Right
}

impl NavAction {
    /// Directions are the only actions that repeat while held.
    pub fn is_directional(self) -> (r: bool)
        ensures
            r == directional(self),
    {
        match self {
            NavAction::Up | NavAction::Down | NavAction::Left | NavAction::Right => true,
            _ => false,
        }
    }
}

#[derive(Debug, Clone, Copy, PartialEq, Eq, Structural)]
pub enum Dir {
    Up,
    Down,
    Left,
    Right,
}

pub open spec fn dir_action(d: Dir) -> NavAction {
    match d {
        Dir::Up => NavAction::Up,
        Dir::Down => NavAction::Down,
        Dir::Left => NavAction::Left,
        Dir::Right => NavAction::Right,
    }
}

impl Dir {
    pub fn action(self) -> (a: NavAction)
        ensures
            a == dir_action(self),
    {
        match self {
            Dir::Up => NavAction::Up,
            Dir::Down => NavAction::Down,
            Dir::Left => NavAction::Left,
            Dir::Right => NavAction::Right,
        }
    }
}

/// The brand of the pad in use, for the glyphs shown on screen. Any maker
/// other than Sony is treated as Xbox, the scheme XInput normalises to.
#[derive(Debug, Clone, Copy, PartialEq, Eq, Structural)]
pub enum PadKind {
    Xbox,
    PlayStation,
}

/// Vendor id of Sony Interactive Entertainment (DualShock 4 and DualSense).
pub const VENDOR_SONY: u32 = 0x054C;

/// A HID input device as the system describes it: maker and HID usage.
#[derive(Debug, Clone, Copy)]
pub struct HidDevice {
    pub vendor: u32,
    pub usage_page: u16,
    pub usage: u16,
}

/// A game controller: Generic Desktop page, joystick or gamepad usage
/// (keyboards, mice and fingerprint readers are HID devices too).
pub open spec fn is_game_pad(d: HidDevice) -> bool {
    d.usage_page == 0x01 && (d.usage == 0x04 || d.usage == 0x05)
}

/// The brand among the connected devices: PlayStation when any pad is
/// Sony's (that is the one being played with), Xbox when there are only
/// other pads, none without pads.
pub open spec fn pad_kind_of(ds: Seq<HidDevice>) -> Option<PadKind> {
    if exists|i: int| 0 <= i < ds.len() && is_game_pad(#[trigger] ds[i]) && ds[i].vendor == VENDOR_SONY {
        Some(PadKind::PlayStation)
    } else if exists|i: int| 0 <= i < ds.len() && is_game_pad(#[trigger] ds[i]) {
        Some(PadKind::Xbox)
    } else {
        None
    }
}

/// Decides the brand of pad from the HID devices listed by the system.
pub fn pad_kind_among(devices: &[HidDevice]) -> (r: Option<PadKind>)
    ensures
        r == pad_kind_of(devices@),
{
    let mut found_any = false;
    let mut i: usize = 0;
    while i < devices.len()
        invariant
            i <= devices@.len(),
            found_any == exists|j: int| 0 <= j < i && is_game_pad(#[trigger] devices@[j]),
            forall|j: int| 0 <= j < i && is_game_pad(#[trigger] devices@[j]) ==> devices@[j].vendor != VENDOR_SONY,
        decreases devices.len() - i,
    {
        let d = devices[i];
        if d.usage_page == 0x01 && (d.usage == 0x04 || d.usage == 0x05) {
            if d.vendor == VENDOR_SONY {
                assert(is_game_pad(devices@[i as int]) && devices@[i as int].vendor == VENDOR_SONY);
                return Some(PadKind::PlayStation);
            }
            found_any = true;
        }
        i += 1;
    }
    if found_any {
        Some(PadKind::Xbox)
    } else {
        None
    }
}

/// Away from Windows no pad brand is detected.
pub fn detect_pad_kind() -> (r: Option<PadKind>)
    ensures
        r is None,
{
    None
}

/// XInput button masks.
pub const DPAD_UP: u16 = 0x0001;

pub const DPAD_DOWN: u16 = 0x0002;

pub const DPAD_LEFT: u16 = 0x0004;

pub const DPAD_RIGHT: u16 = 0x0008;

pub const START: u16 = 0x0010;

pub const BACK: u16 = 0x0020;

pub const LEFT_THUMB: u16 = 0x0040;

pub const RIGHT_THUMB: u16 = 0x0080;

pub const LEFT_SHOULDER: u16 = 0x0100;

pub const RIGHT_SHOULDER: u16 = 0x0200;

/// Only reported by `XInputGetStateEx` (ordinal 100).
pub const GUIDE: u16 = 0x0400;

pub const BUTTON_A: u16 = 0x1000;

pub const BUTTON_B: u16 = 0x2000;

pub const BUTTON_X: u16 = 0x4000;

pub const BUTTON_Y: u16 = 0x8000;

/// The result of one poll.
#[derive(Debug, Clone)]
pub struct InputFrame {
    pub actions: Vec<NavAction>,
    /// Any activity at all, even without an action: wakes the shell from
    /// its low-power pace.
    pub activity: bool,
    pub connected_pads: u8,
    /// A pad was connected in this poll: its brand is worth reading again.
    pub pad_connected: bool,
}

impl InputFrame {
    pub fn contains(&self, action: NavAction) -> (r: bool)
        ensures
            r == self.actions@.contains(action),
    {
        let mut i: usize = 0;
        while i < self.actions.len()
            invariant
                i <= self.actions.len(),
                forall|j: int| 0 <= j < i ==> self.actions@[j] != action,
            decreases self.actions.len() - i,
        {
            if self.actions[i] == action {
                return true;
            }
            i += 1;
        }
        false
    }
}

/// The pace of polling, by what the shell is doing.
#[derive(Debug, Clone, Copy, PartialEq, Eq, Structural)]
pub enum PollMode {
    /// The user is navigating.
    Active,
    /// Nobody touched anything for a while.
    Idle,
    /// A game is in the foreground: only the guide button matters.
    InGame,
}

/// What the program read from a pad, with the fractional values judged.
#[derive(Debug, Clone, Copy)]
pub struct PadReading {
    /// XInput packet counter: unchanged means nothing moved.
    pub packet: u32,
    pub buttons: u16,
    /// Nothing is out of its resting position (buttons, triggers, sticks).
    pub idle: bool,
    pub left_trigger_pulled: bool,
    pub right_trigger_pulled: bool,
    /// The direction of the left stick past its dead zone, dominant axis
    /// first (vertical on an exact diagonal).
    pub stick: Option<Dir>,
}

/// Timing settings of the hub.
#[derive(Debug, Clone, Copy)]
pub struct InputTiming {
    /// Delay before a held direction starts repeating.
    pub repeat_delay_ms: u64,
    /// Interval between repeats once repeating.
    pub repeat_interval_ms: u64,
    /// Polling rate while the shell has the focus.
    pub poll_hz: u32,
    /// How often empty slots are checked for a new pad.
    pub rescan_interval_ms: u64,
    /// Short rumble when a game is launched.
    pub rumble_feedback: bool,
}

impl Default for InputTiming {
    fn default() -> (t: InputTiming)
        ensures
            t.repeat_delay_ms == 380,
            t.repeat_interval_ms == 90,
            t.poll_hz == 125,
            t.rescan_interval_ms == 2000,
            t.rumble_feedback,
    {
        InputTiming {
            repeat_delay_ms: 380,
            repeat_interval_ms: 90,
            poll_hz: 125,
            rescan_interval_ms: 2000,
            rumble_feedback: true,
        }
    }
}

/// What the hub remembers of one slot.
#[derive(Debug, Clone, Copy, PartialEq, Eq, Structural)]
pub struct PadTracker {
    pub connected: bool,
    pub packet: u32,
    pub prev_buttons: u16,
    pub prev_left_trigger: bool,
    pub prev_right_trigger: bool,
    pub dir: Option<Dir>,
    /// When the held direction fires again (milliseconds).
    pub next_repeat: Option<u64>,
}

pub open spec fn fresh_tracker() -> PadTracker {
    PadTracker {
        connected: false,
        packet: 0,
        prev_buttons: 0,
        prev_left_trigger: false,
        prev_right_trigger: false,
        dir: None,
        next_repeat: None,
    }
}

pub open spec fn press(jp: u16, mask: u16, a: NavAction) -> Seq<NavAction> {
    if jp & mask != 0 {
        seq![a]
    } else {
        seq![]
    }
}

/// The actions of the buttons just pressed, in a fixed order.
pub open spec fn button_actions(jp: u16) -> Seq<NavAction> {
    press(jp, BUTTON_A, NavAction::Accept) + press(jp, BUTTON_B, NavAction::Back) + press(
        jp,
        BUTTON_X,
        NavAction::Context,
    ) + press(jp, BUTTON_Y, NavAction::Favorite) + press(jp, START, NavAction::Menu) + press(
        jp,
        BACK,
        NavAction::Search,
    ) + press(jp, LEFT_SHOULDER, NavAction::TabPrev) + press(jp, RIGHT_SHOULDER, NavAction::TabNext)
        + press(jp, GUIDE, NavAction::Guide)
}

/// The pad's cross decides the direction, up first.
pub open spec fn dpad_dir(buttons: u16) -> Option<Dir> {
    if buttons & DPAD_UP != 0 {
        Some(Dir::Up)
    } else if buttons & DPAD_DOWN != 0 {
        Some(Dir::Down)
    } else if buttons & DPAD_LEFT != 0 {
        Some(Dir::Left)
    } else if buttons & DPAD_RIGHT != 0 {
        Some(Dir::Right)
    } else {
        None
    }
}

/// One slot through one poll: the slot afterwards, its actions, whether
/// something moved, and whether a pad was just connected.
///
/// A pad just connected fires nothing (a button held while plugging it in
/// is no press). An unchanged packet means nothing moved. Buttons and
/// triggers fire on the edge; a direction fires at once when it changes,
/// then after the long delay, then at the short interval.
pub open spec fn pad_step(t: PadTracker, r: Option<PadReading>, now: u64, timing: InputTiming) -> (
    PadTracker,
    Seq<NavAction>,
    bool,
    bool,
) {
    match r {
        None => (fresh_tracker(), seq![], false, false),
        Some(s) => if !t.connected {
            (PadTracker { connected: true, packet: s.packet, prev_buttons: s.buttons, ..t }, seq![], false, true)
        } else if s.packet == t.packet {
            (t, seq![], false, false)
        } else {
            let jp = s.buttons & !t.prev_buttons;
            let triggers = (if s.left_trigger_pulled && !t.prev_left_trigger {
                seq![NavAction::PageUp]
            } else {
                seq![]
            }) + (if s.right_trigger_pulled && !t.prev_right_trigger {
                seq![NavAction::PageDown]
            } else {
                seq![]
            });
            let dir = match dpad_dir(s.buttons) {
                Some(d) => Some(d),
                None => s.stick,
            };
            let moved: (Option<Dir>, Option<u64>, Seq<NavAction>) = match dir {
                None => (None, None, seq![]),
                Some(d) => if t.dir != Some(d) {
                    (Some(d), Some((now + timing.repeat_delay_ms) as u64), seq![dir_action(d)])
                } else if t.next_repeat matches Some(deadline) && now >= deadline {
                    (Some(d), Some((now + timing.repeat_interval_ms) as u64), seq![dir_action(d)])
                } else {
                    (t.dir, t.next_repeat, seq![])
                },
            };
            (
                PadTracker {
                    connected: true,
                    packet: s.packet,
                    prev_buttons: s.buttons,
                    prev_left_trigger: s.left_trigger_pulled,
                    prev_right_trigger: s.right_trigger_pulled,
                    dir: moved.0,
                    next_repeat: moved.1,
                },
                button_actions(jp) + triggers + moved.2,
                !s.idle,
                false,
            )
        },
    }
}

fn push_if(v: &mut Vec<NavAction>, jp: u16, mask: u16, a: NavAction)
    ensures
        final(v)@ == old(v)@ + press(jp, mask, a),
{
    if jp & mask != 0 {
        v.push(a);
    } else {
        assert(old(v)@ + press(jp, mask, a) =~= old(v)@);
    }
}

fn fresh() -> (t: PadTracker)
    ensures
        t == fresh_tracker(),
{
    PadTracker {
        connected: false,
        packet: 0,
        prev_buttons: 0,
        prev_left_trigger: false,
        prev_right_trigger: false,
        dir: None,
        next_repeat: None,
    }
}

fn dpad(buttons: u16) -> (d: Option<Dir>)
    ensures
        d == dpad_dir(buttons),
{
    if buttons & DPAD_UP != 0 {
        Some(Dir::Up)
    } else if buttons & DPAD_DOWN != 0 {
        Some(Dir::Down)
    } else if buttons & DPAD_LEFT != 0 {
        Some(Dir::Left)
    } else if buttons & DPAD_RIGHT != 0 {
        Some(Dir::Right)
    } else {
        None
    }
}

/// One slot through one poll (see `pad_step`).
pub fn step_pad(t: PadTracker, r: Option<PadReading>, now: u64, timing: InputTiming) -> (out: (
    PadTracker,
    Vec<NavAction>,
    bool,
    bool,
))
    requires
        now + timing.repeat_delay_ms <= u64::MAX,
        now + timing.repeat_interval_ms <= u64::MAX,
    ensures
        (out.0, out.1@, out.2, out.3) == pad_step(t, r, now, timing),
{
    match r {
        None => (fresh(), Vec::new(), false, false),
        Some(s) => {
            if !t.connected {
                let mut n = t;
                n.connected = true;
                n.packet = s.packet;
                n.prev_buttons = s.buttons;
                return (n, Vec::new(), false, true);
            }
            if s.packet == t.packet {
                return (t, Vec::new(), false, false);
            }
            let jp = s.buttons & !t.prev_buttons;
            let mut actions: Vec<NavAction> = Vec::new();
            push_if(&mut actions, jp, BUTTON_A, NavAction::Accept);
            push_if(&mut actions, jp, BUTTON_B, NavAction::Back);
            push_if(&mut actions, jp, BUTTON_X, NavAction::Context);
            push_if(&mut actions, jp, BUTTON_Y, NavAction::Favorite);
            push_if(&mut actions, jp, START, NavAction::Menu);
            push_if(&mut actions, jp, BACK, NavAction::Search);
            push_if(&mut actions, jp, LEFT_SHOULDER, NavAction::TabPrev);
            push_if(&mut actions, jp, RIGHT_SHOULDER, NavAction::TabNext);
            push_if(&mut actions, jp, GUIDE, NavAction::Guide);
            assert(actions@ =~= button_actions(jp));
            let ghost after_buttons = actions@;
            if s.left_trigger_pulled && !t.prev_left_trigger {
                actions.push(NavAction::PageUp);
            }
            if s.right_trigger_pulled && !t.prev_right_trigger {
                actions.push(NavAction::PageDown);
            }
            let ghost after_triggers = actions@;
            let dir = match dpad(s.buttons) {
                Some(d) => Some(d),
                None => s.stick,
            };
            let mut n_dir = t.dir;
            let mut n_next = t.next_repeat;
            match dir {
                None => {
                    n_dir = None;
                    n_next = None;
                },
                Some(d) => {
                    if t.dir != Some(d) {
                        n_dir = Some(d);
                        n_next = Some(now + timing.repeat_delay_ms);
                        actions.push(d.action());
                    } else {
                        match t.next_repeat {
                            Some(deadline) => {
                                if now >= deadline {
                                    n_next = Some(now + timing.repeat_interval_ms);
                                    actions.push(d.action());
                                }
                            },
                            None => {},
                        }
                    }
                },
            }
            let n = PadTracker {
                connected: true,
                packet: s.packet,
                prev_buttons: s.buttons,
                prev_left_trigger: s.left_trigger_pulled,
                prev_right_trigger: s.right_trigger_pulled,
                dir: n_dir,
                next_repeat: n_next,
            };
            proof {
                let spec = pad_step(t, r, now, timing);
                assert(after_buttons == button_actions(jp));
                assert(actions@ =~= spec.1);
            }
            (n, actions, !s.idle, false)
        },
    }
}

/// Controller slots of XInput.
pub const MAX_PADS: usize = 4;

/// The slots after a poll, from the first up to `k`: their trackers, their
/// actions in slot order, whether something moved, whether a pad was just
/// connected.
pub open spec fn pads_upto(
    ts: Seq<PadTracker>,
    rs: Seq<Option<PadReading>>,
    k: nat,
    now: u64,
    timing: InputTiming,
) -> (Seq<PadTracker>, Seq<NavAction>, bool, bool)
    decreases k,
{
    if k == 0 {
        (ts, seq![], false, false)
    } else {
        let prev = pads_upto(ts, rs, (k - 1) as nat, now, timing);
        let step = pad_step(ts[k - 1], rs[k - 1], now, timing);
        (prev.0.update(k - 1, step.0), prev.1 + step.1, prev.2 || step.2, prev.3 || step.3)
    }
}

pub open spec fn count_connected(ts: Seq<PadTracker>) -> nat
    decreases ts.len(),
{
    if ts.len() == 0 {
        0
    } else {
        count_connected(ts.drop_last()) + if ts.last().connected {
            1nat
        } else {
            0nat
        }
    }
}

pub struct InputHubView {
    pub timing: InputTiming,
    pub pad_kind: Option<PadKind>,
    pub trackers: Seq<PadTracker>,
    pub last_rescan: Option<u64>,
    pub last_activity: Option<u64>,
    pub rumble_stop: Option<u64>,
}

/// The navigation core: from pad readings to actions.
pub struct InputHub {
    timing: InputTiming,
    /// Brand of the pad in use, read again only when a pad connects.
    pad_kind: Option<PadKind>,
    trackers: Vec<PadTracker>,
    last_rescan: Option<u64>,
    last_activity: Option<u64>,
    rumble_stop: Option<u64>,
}

impl View for InputHub {
    type V = InputHubView;

    closed spec fn view(&self) -> InputHubView {
        InputHubView {
            timing: self.timing,
            pad_kind: self.pad_kind,
            trackers: self.trackers@,
            last_rescan: self.last_rescan,
            last_activity: self.last_activity,
            rumble_stop: self.rumble_stop,
        }
    }
}

proof fn lemma_count_connected_bound(ts: Seq<PadTracker>)
    ensures
        count_connected(ts) <= ts.len(),
    decreases ts.len(),
{
    if ts.len() > 0 {
        lemma_count_connected_bound(ts.drop_last());
    }
}

impl InputHub {
    #[verifier::type_invariant]
    closed spec fn slots(&self) -> bool {
        self.trackers@.len() == MAX_PADS
    }

    /// A hub with every slot empty.
    pub fn headless(timing: InputTiming) -> (h: InputHub)
        ensures
            h@.timing == timing,
            h@.pad_kind is None,
            h@.trackers == Seq::new(MAX_PADS as nat, |i: int| fresh_tracker()),
            h@.last_rescan is None,
            h@.last_activity is None,
            h@.rumble_stop is None,
    {
        let mut trackers: Vec<PadTracker> = Vec::new();
        let mut i: usize = 0;
        while i < MAX_PADS
            invariant
                i <= MAX_PADS,
                trackers@ == Seq::new(i as nat, |j: int| fresh_tracker()),
            decreases MAX_PADS - i,
        {
            trackers.push(fresh());
            assert(trackers@ =~= Seq::new((i + 1) as nat, |j: int| fresh_tracker()));
            i += 1;
        }
        InputHub {
            timing,
            pad_kind: None,
            trackers,
            last_rescan: None,
            last_activity: None,
            rumble_stop: None,
        }
    }

    pub fn settings(&self) -> (t: InputTiming)
        ensures
            t == self@.timing,
    {
        self.timing
    }

    pub fn set_settings(&mut self, timing: InputTiming)
        ensures
            final(self)@ == (InputHubView { timing, ..old(self)@ }),
    {
        proof {
            use_type_invariant(&*self);
        }
        self.timing = timing;
    }

    /// Brand of the pad in use now; `None` without pads.
    pub fn pad_kind(&self) -> (k: Option<PadKind>)
        ensures
            k == self@.pad_kind,
    {
        self.pad_kind
    }

    /// The brand read for a pad just connected.
    pub fn set_pad_kind(&mut self, kind: Option<PadKind>)
        ensures
            final(self)@ == (InputHubView { pad_kind: kind, ..old(self)@ }),
    {
        proof {
            use_type_invariant(&*self);
        }
        self.pad_kind = kind;
    }

    pub fn last_activity(&self) -> (t: Option<u64>)
        ensures
            t == self@.last_activity,
    {
        self.last_activity
    }

    pub fn connected_pads(&self) -> (n: u8)
        ensures
            n == count_connected(self@.trackers),
    {
        proof {
            use_type_invariant(self);
        }
        let ghost ts = self.trackers@;
        let mut n: u8 = 0;
        let mut i: usize = 0;
        while i < self.trackers.len()
            invariant
                i <= self.trackers.len() == MAX_PADS,
                ts == self.trackers@,
                n == count_connected(ts.take(i as int)),
                n <= i,
            decreases self.trackers.len() - i,
        {
            assert(ts.take(i + 1).drop_last() == ts.take(i as int));
            if self.trackers[i].connected {
                n += 1;
            }
            i += 1;
        }
        assert(ts.take(MAX_PADS as int) == ts);
        n
    }

    /// Polls per second: the setting while navigating (at least one), 30
    /// when idle, 10 while a game runs (only the guide button matters
    /// then).
    pub fn poll_rate(&self, mode: PollMode) -> (hz: u32)
        ensures
            hz == (match mode {
                PollMode::Active => if self@.timing.poll_hz >= 1 {
                    self@.timing.poll_hz
                } else {
                    1
                },
                PollMode::Idle => 30,
                PollMode::InGame => 10,
            }),
    {
        match mode {
            PollMode::Active => if self.timing.poll_hz >= 1 {
                self.timing.poll_hz
            } else {
                1
            },
            PollMode::Idle => 30,
            PollMode::InGame => 10,
        }
    }

    /// Which slots to read now: the connected ones always, the empty ones
    /// only on a rescan (due when none was made yet or the interval has
    /// passed).
    pub fn slots_to_read(&mut self, now: u64) -> (read: [bool; MAX_PADS])
        ensures
            ({
                let due = match old(self)@.last_rescan {
                    None => true,
                    Some(last) => (if now >= last {
                        now - last
                    } else {
                        0
                    }) >= old(self)@.timing.rescan_interval_ms,
                };
                &&& final(self)@ == (InputHubView {
                    last_rescan: if due {
                        Some(now)
                    } else {
                        old(self)@.last_rescan
                    },
                    ..old(self)@
                })
                &&& forall|i: int| 0 <= i < MAX_PADS ==> read@[i] == (old(self)@.trackers[i].connected || due)
            }),
    {
        proof {
            use_type_invariant(&*self);
        }
        let due = match self.last_rescan {
            None => true,
            Some(last) => now.saturating_sub(last) >= self.timing.rescan_interval_ms,
        };
        if due {
            self.last_rescan = Some(now);
        }
        let read = [
            self.trackers[0].connected || due,
            self.trackers[1].connected || due,
            self.trackers[2].connected || due,
            self.trackers[3].connected || due,
        ];
        proof {
            assert forall|i: int| 0 <= i < MAX_PADS implies read@[i] == (old(self)@.trackers[i].connected
                || due) by {
                if i == 0 {
                } else if i == 1 {
                } else if i == 2 {
                } else {
                }
            }
        }
        read
    }

    /// From what was read to actions (`None` for a slot without a pad).
    pub fn process(&mut self, readings: [Option<PadReading>; MAX_PADS], now: u64) -> (frame: InputFrame)
        requires
            now + old(self)@.timing.repeat_delay_ms <= u64::MAX,
            now + old(self)@.timing.repeat_interval_ms <= u64::MAX,
        ensures
            ({
                let r = pads_upto(old(self)@.trackers, readings@, MAX_PADS as nat, now, old(self)@.timing);
                let count = count_connected(r.0);
                let activity = r.2 || r.1.len() > 0;
                &&& frame.actions@ == r.1
                &&& frame.connected_pads == count
                &&& frame.activity == activity
                &&& frame.pad_connected == r.3
                &&& final(self)@ == (InputHubView {
                    trackers: r.0,
                    pad_kind: if count == 0 {
                        None
                    } else {
                        old(self)@.pad_kind
                    },
                    last_activity: if activity {
                        Some(now)
                    } else {
                        old(self)@.last_activity
                    },
                    ..old(self)@
                })
            }),
    {
        proof {
            use_type_invariant(&*self);
        }
        let ghost ts0 = self.trackers@;
        let mut updated: Vec<PadTracker> = Vec::new();
        let mut actions: Vec<NavAction> = Vec::new();
        let mut activity = false;
        let mut connected_now = false;
        let mut k: usize = 0;
        while k < MAX_PADS
            invariant
                k <= MAX_PADS,
                self.trackers@ == ts0,
                ts0.len() == MAX_PADS,
                updated@.len() == k,
                now + self.timing.repeat_delay_ms <= u64::MAX,
                now + self.timing.repeat_interval_ms <= u64::MAX,
                self@ == old(self)@,
                ({
                    let r = pads_upto(ts0, readings@, k as nat, now, self.timing);
                    r.0 == updated@ + ts0.subrange(k as int, MAX_PADS as int) && r.1 == actions@ && r.2
                        == activity && r.3 == connected_now
                }),
            decreases MAX_PADS - k,
        {
            let t = self.trackers[k];
            let (n, acts, moved, newly) = step_pad(t, readings[k], now, self.timing);
            let ghost before = updated@;
            updated.push(n);
            let mut acts = acts;
            actions.append(&mut acts);
            activity = activity || moved;
            connected_now = connected_now || newly;
            proof {
                let prev = pads_upto(ts0, readings@, k as nat, now, self.timing);
                assert(prev.0[k as int] == ts0[k as int]);
                assert(prev.0.update(k as int, n) =~= updated@ + ts0.subrange(k + 1, MAX_PADS as int));
            }
            k += 1;
        }
        assert(updated@ + ts0.subrange(MAX_PADS as int, MAX_PADS as int) =~= updated@);
        self.trackers = updated;
        let count = self.connected_pads();
        if count == 0 {
            self.pad_kind = None;
        }
        if actions.len() > 0 {
            activity = true;
        }
        if activity {
            self.last_activity = Some(now);
        }
        InputFrame { actions, activity, connected_pads: count, pad_connected: connected_now }
    }

    /// A short rumble (when a game is launched). Gives whether the motors
    /// are to be started, on the connected pads.
    pub fn rumble(&mut self, duration_ms: u64, now: u64) -> (start: bool)
        requires
            now + duration_ms <= u64::MAX,
        ensures
            start == old(self)@.timing.rumble_feedback,
            final(self)@ == (if start {
                InputHubView { rumble_stop: Some((now + duration_ms) as u64), ..old(self)@ }
            } else {
                old(self)@
            }),
    {
        proof {
            use_type_invariant(&*self);
        }
        if !self.timing.rumble_feedback {
            return false;
        }
        self.rumble_stop = Some(now + duration_ms);
        true
    }

    /// Whether the rumble is over and the motors are to be stopped now.
    pub fn rumble_expired(&mut self, now: u64) -> (stop: bool)
        ensures
            stop == (old(self)@.rumble_stop matches Some(t) && now >= t),
            final(self)@ == (if stop {
                InputHubView { rumble_stop: None, ..old(self)@ }
            } else {
                old(self)@
            }),
    {
        proof {
            use_type_invariant(&*self);
        }
        match self.rumble_stop {
            Some(t) => {
                if now >= t {
                    self.rumble_stop = None;
                    true
                } else {
                    false
                }
            },
            None => false,
        }
    }

    /// Forgets the pending rumble (the motors are stopped on every slot when
    /// the shell closes).
    pub fn stop_rumble(&mut self)
        ensures
            final(self)@ == (InputHubView { rumble_stop: None, ..old(self)@ }),
    {
        proof {
            use_type_invariant(&*self);
        }
        self.rumble_stop = None;
    }

    /// The slots with a pad connected.
    pub fn connected_slots(&self) -> (c: [bool; MAX_PADS])
        ensures
            forall|i: int| 0 <= i < MAX_PADS ==> c@[i] == self@.trackers[i].connected,
    {
        proof {
            use_type_invariant(self);
        }
        let c = [
            self.trackers[0].connected,
            self.trackers[1].connected,
            self.trackers[2].connected,
            self.trackers[3].connected,
        ];
        proof {
            assert forall|i: int| 0 <= i < MAX_PADS implies c@[i] == self@.trackers[i].connected by {
                if i == 0 {
                } else if i == 1 {
                } else if i == 2 {
                } else {
                }
            }
        }
        c
    }
}

/// A pad just connected fires nothing, whatever it holds.
pub proof fn lemma_connecting_fires_nothing(t: PadTracker, r: PadReading, now: u64, timing: InputTiming)
    requires
        !t.connected,
    ensures
        pad_step(t, Some(r), now, timing).1.len() == 0,
        pad_step(t, Some(r), now, timing).3,
{
}

/// An unchanged packet changes nothing and fires nothing.
pub proof fn lemma_same_packet_ignored(t: PadTracker, r: PadReading, now: u64, timing: InputTiming)
    requires
        t.connected,
        r.packet == t.packet,
    ensures
        pad_step(t, Some(r), now, timing) == (t, Seq::<NavAction>::empty(), false, false),
{
}

/// A slot without a pad forgets everything.
pub proof fn lemma_disconnect_clears(t: PadTracker, now: u64, timing: InputTiming)
    ensures
        pad_step(t, None, now, timing).0 == fresh_tracker(),
        pad_step(t, None, now, timing).1.len() == 0,
{
}

/// A button held since the previous packet fires nothing: only presses
/// count, and only directions repeat.
pub proof fn lemma_held_buttons_do_not_fire(b: u16)
    ensures
        button_actions(b & !b).len() == 0,
{
    let jp = b & !b;
    assert(jp == 0) by (bit_vector)
        requires
            jp == b & !b,
    ;
    assert(0u16 & BUTTON_A == 0 && 0u16 & BUTTON_B == 0 && 0u16 & BUTTON_X == 0 && 0u16 & BUTTON_Y == 0
        && 0u16 & START == 0 && 0u16 & BACK == 0 && 0u16 & LEFT_SHOULDER == 0 && 0u16 & RIGHT_SHOULDER
        == 0 && 0u16 & GUIDE == 0) by (bit_vector);
}

/// A new direction fires at once, and the repeat waits for the long delay.
pub proof fn lemma_new_direction_fires_at_once(t: PadTracker, r: PadReading, now: u64, timing: InputTiming, d: Dir)
    requires
        t.connected,
        r.packet != t.packet,
        (match dpad_dir(r.buttons) {
            Some(x) => Some(x),
            None => r.stick,
        }) == Some(d),
        t.dir != Some(d),
    ensures
        pad_step(t, Some(r), now, timing).1.last() == dir_action(d),
        pad_step(t, Some(r), now, timing).0.next_repeat == Some((now + timing.repeat_delay_ms) as u64),
{
}

/// The pad backend where there is no pad library (outside Windows): no
/// pads, keyboard navigation only.
#[derive(Debug, Clone, Copy)]
pub struct StubBackend;

impl StubBackend {
    pub fn load(capture_guide: bool) -> (b: Option<StubBackend>)
        ensures
            b is Some,
    {
        Some(StubBackend)
    }

    /// The guide button cannot be read without a backend.
    pub fn guide_supported(&self) -> (r: bool)
        ensures
            !r,
    {
        false
    }

    /// The name shown in the diagnostics.
    pub fn describe(&self) -> (s: String)
        ensures
            s@ == "sin backend de mandos (no es Windows)"@,
    {
        String::from_str("sin backend de mandos (no es Windows)")
    }
}

proof fn lemma_actions_of_button_a()
    ensures
        button_actions(BUTTON_A) == seq![NavAction::Accept],
        dpad_dir(BUTTON_A) is None,
{
    assert(0x1000u16 & 0x1000u16 != 0 && 0x1000u16 & 0x2000u16 == 0 && 0x1000u16 & 0x4000u16 == 0 && 0x1000u16 & 0x8000u16 == 0 && 0x1000u16 & 0x0010u16 == 0 && 0x1000u16 & 0x0020u16 == 0 && 0x1000u16 & 0x0100u16 == 0 && 0x1000u16 & 0x0200u16 == 0 && 0x1000u16 & 0x0400u16 == 0) by (bit_vector);
    assert(0x1000u16 & 0x0001u16 == 0 && 0x1000u16 & 0x0002u16 == 0 && 0x1000u16 & 0x0004u16 == 0 && 0x1000u16 & 0x0008u16 == 0) by (bit_vector);
    assert(button_actions(BUTTON_A) =~= seq![NavAction::Accept]);
}

proof fn lemma_actions_of_button_b()
    ensures
        button_actions(BUTTON_B) == seq![NavAction::Back],
        dpad_dir(BUTTON_B) is None,
{
    assert(0x2000u16 & 0x1000u16 == 0 && 0x2000u16 & 0x2000u16 != 0 && 0x2000u16 & 0x4000u16 == 0 && 0x2000u16 & 0x8000u16 == 0 && 0x2000u16 & 0x0010u16 == 0 && 0x2000u16 & 0x0020u16 == 0 && 0x2000u16 & 0x0100u16 == 0 && 0x2000u16 & 0x0200u16 == 0 && 0x2000u16 & 0x0400u16 == 0) by (bit_vector);
    assert(0x2000u16 & 0x0001u16 == 0 && 0x2000u16 & 0x0002u16 == 0 && 0x2000u16 & 0x0004u16 == 0 && 0x2000u16 & 0x0008u16 == 0) by (bit_vector);
    assert(button_actions(BUTTON_B) =~= seq![NavAction::Back]);
}

proof fn lemma_actions_of_button_x()
    ensures
        button_actions(BUTTON_X) == seq![NavAction::Context],
        dpad_dir(BUTTON_X) is None,
{
    assert(0x4000u16 & 0x1000u16 == 0 && 0x4000u16 & 0x2000u16 == 0 && 0x4000u16 & 0x4000u16 != 0 && 0x4000u16 & 0x8000u16 == 0 && 0x4000u16 & 0x0010u16 == 0 && 0x4000u16 & 0x0020u16 == 0 && 0x4000u16 & 0x0100u16 == 0 && 0x4000u16 & 0x0200u16 == 0 && 0x4000u16 & 0x0400u16 == 0) by (bit_vector);
    assert(0x4000u16 & 0x0001u16 == 0 && 0x4000u16 & 0x0002u16 == 0 && 0x4000u16 & 0x0004u16 == 0 && 0x4000u16 & 0x0008u16 == 0) by (bit_vector);
    assert(button_actions(BUTTON_X) =~= seq![NavAction::Context]);
}

proof fn lemma_actions_of_button_y()
    ensures
        button_actions(BUTTON_Y) == seq![NavAction::Favorite],
        dpad_dir(BUTTON_Y) is None,
{
    assert(0x8000u16 & 0x1000u16 == 0 && 0x8000u16 & 0x2000u16 == 0 && 0x8000u16 & 0x4000u16 == 0 && 0x8000u16 & 0x8000u16 != 0 && 0x8000u16 & 0x0010u16 == 0 && 0x8000u16 & 0x0020u16 == 0 && 0x8000u16 & 0x0100u16 == 0 && 0x8000u16 & 0x0200u16 == 0 && 0x8000u16 & 0x0400u16 == 0) by (bit_vector);
    assert(0x8000u16 & 0x0001u16 == 0 && 0x8000u16 & 0x0002u16 == 0 && 0x8000u16 & 0x0004u16 == 0 && 0x8000u16 & 0x0008u16 == 0) by (bit_vector);
    assert(button_actions(BUTTON_Y) =~= seq![NavAction::Favorite]);
}

proof fn lemma_actions_of_start()
    ensures
        button_actions(START) == seq![NavAction::Menu],
        dpad_dir(START) is None,
{
    assert(0x0010u16 & 0x1000u16 == 0 && 0x0010u16 & 0x2000u16 == 0 && 0x0010u16 & 0x4000u16 == 0 && 0x0010u16 & 0x8000u16 == 0 && 0x0010u16 & 0x0010u16 != 0 && 0x0010u16 & 0x0020u16 == 0 && 0x0010u16 & 0x0100u16 == 0 && 0x0010u16 & 0x0200u16 == 0 && 0x0010u16 & 0x0400u16 == 0) by (bit_vector);
    assert(0x0010u16 & 0x0001u16 == 0 && 0x0010u16 & 0x0002u16 == 0 && 0x0010u16 & 0x0004u16 == 0 && 0x0010u16 & 0x0008u16 == 0) by (bit_vector);
    assert(button_actions(START) =~= seq![NavAction::Menu]);
}

proof fn lemma_actions_of_back()
    ensures
        button_actions(BACK) == seq![NavAction::Search],
        dpad_dir(BACK) is None,
{
    assert(0x0020u16 & 0x1000u16 == 0 && 0x0020u16 & 0x2000u16 == 0 && 0x0020u16 & 0x4000u16 == 0 && 0x0020u16 & 0x8000u16 == 0 && 0x0020u16 & 0x0010u16 == 0 && 0x0020u16 & 0x0020u16 != 0 && 0x0020u16 & 0x0100u16 == 0 && 0x0020u16 & 0x0200u16 == 0 && 0x0020u16 & 0x0400u16 == 0) by (bit_vector);
    assert(0x0020u16 & 0x0001u16 == 0 && 0x0020u16 & 0x0002u16 == 0 && 0x0020u16 & 0x0004u16 == 0 && 0x0020u16 & 0x0008u16 == 0) by (bit_vector);
    assert(button_actions(BACK) =~= seq![NavAction::Search]);
}

proof fn lemma_actions_of_left_shoulder()
    ensures
        button_actions(LEFT_SHOULDER) == seq![NavAction::TabPrev],
        dpad_dir(LEFT_SHOULDER) is None,
{
    assert(0x0100u16 & 0x1000u16 == 0 && 0x0100u16 & 0x2000u16 == 0 && 0x0100u16 & 0x4000u16 == 0 && 0x0100u16 & 0x8000u16 == 0 && 0x0100u16 & 0x0010u16 == 0 && 0x0100u16 & 0x0020u16 == 0 && 0x0100u16 & 0x0100u16 != 0 && 0x0100u16 & 0x0200u16 == 0 && 0x0100u16 & 0x0400u16 == 0) by (bit_vector);
    assert(0x0100u16 & 0x0001u16 == 0 && 0x0100u16 & 0x0002u16 == 0 && 0x0100u16 & 0x0004u16 == 0 && 0x0100u16 & 0x0008u16 == 0) by (bit_vector);
    assert(button_actions(LEFT_SHOULDER) =~= seq![NavAction::TabPrev]);
}

proof fn lemma_actions_of_right_shoulder()
    ensures
        button_actions(RIGHT_SHOULDER) == seq![NavAction::TabNext],
        dpad_dir(RIGHT_SHOULDER) is None,
{
    assert(0x0200u16 & 0x1000u16 == 0 && 0x0200u16 & 0x2000u16 == 0 && 0x0200u16 & 0x4000u16 == 0 && 0x0200u16 & 0x8000u16 == 0 && 0x0200u16 & 0x0010u16 == 0 && 0x0200u16 & 0x0020u16 == 0 && 0x0200u16 & 0x0100u16 == 0 && 0x0200u16 & 0x0200u16 != 0 && 0x0200u16 & 0x0400u16 == 0) by (bit_vector);
    assert(0x0200u16 & 0x0001u16 == 0 && 0x0200u16 & 0x0002u16 == 0 && 0x0200u16 & 0x0004u16 == 0 && 0x0200u16 & 0x0008u16 == 0) by (bit_vector);
    assert(button_actions(RIGHT_SHOULDER) =~= seq![NavAction::TabNext]);
}

proof fn lemma_actions_of_guide()
    ensures
        button_actions(GUIDE) == seq![NavAction::Guide],
        dpad_dir(GUIDE) is None,
{
    assert(0x0400u16 & 0x1000u16 == 0 && 0x0400u16 & 0x2000u16 == 0 && 0x0400u16 & 0x4000u16 == 0 && 0x0400u16 & 0x8000u16 == 0 && 0x0400u16 & 0x0010u16 == 0 && 0x0400u16 & 0x0020u16 == 0 && 0x0400u16 & 0x0100u16 == 0 && 0x0400u16 & 0x0200u16 == 0 && 0x0400u16 & 0x0400u16 != 0) by (bit_vector);
    assert(0x0400u16 & 0x0001u16 == 0 && 0x0400u16 & 0x0002u16 == 0 && 0x0400u16 & 0x0004u16 == 0 && 0x0400u16 & 0x0008u16 == 0) by (bit_vector);
    assert(button_actions(GUIDE) =~= seq![NavAction::Guide]);
}

/// A fresh press of one button alone fires exactly that button's action:
/// A accepts, B goes back, X opens the actions of the focused item, Y marks
/// it as a favourite, Start opens the menu, Back searches, the shoulders
/// change tab and the guide button calls the shell. (Alone: no direction on
/// the stick, no trigger newly pulled, the button not held before.)
pub proof fn lemma_single_press_fires_its_action(t: PadTracker, r: PadReading, now: u64, timing: InputTiming)
    requires
        t.connected,
        r.packet != t.packet,
        r.stick is None,
        !(r.left_trigger_pulled && !t.prev_left_trigger),
        !(r.right_trigger_pulled && !t.prev_right_trigger),
        r.buttons & t.prev_buttons == 0,
    ensures
        r.buttons == BUTTON_A ==> pad_step(t, Some(r), now, timing).1 == seq![NavAction::Accept],
        r.buttons == BUTTON_B ==> pad_step(t, Some(r), now, timing).1 == seq![NavAction::Back],
        r.buttons == BUTTON_X ==> pad_step(t, Some(r), now, timing).1 == seq![NavAction::Context],
        r.buttons == BUTTON_Y ==> pad_step(t, Some(r), now, timing).1 == seq![NavAction::Favorite],
        r.buttons == START ==> pad_step(t, Some(r), now, timing).1 == seq![NavAction::Menu],
        r.buttons == BACK ==> pad_step(t, Some(r), now, timing).1 == seq![NavAction::Search],
        r.buttons == LEFT_SHOULDER ==> pad_step(t, Some(r), now, timing).1 == seq![NavAction::TabPrev],
        r.buttons == RIGHT_SHOULDER ==> pad_step(t, Some(r), now, timing).1 == seq![NavAction::TabNext],
        r.buttons == GUIDE ==> pad_step(t, Some(r), now, timing).1 == seq![NavAction::Guide],
{
    let b = r.buttons;
    let p = t.prev_buttons;
    assert(b & !p == b) by (bit_vector)
        requires
            b & p == 0,
    ;
    lemma_actions_of_button_a();
    lemma_actions_of_button_b();
    lemma_actions_of_button_x();
    lemma_actions_of_button_y();
    lemma_actions_of_start();
    lemma_actions_of_back();
    lemma_actions_of_left_shoulder();
    lemma_actions_of_right_shoulder();
    lemma_actions_of_guide();
}

proof fn lemma_cross_dpad_up()
    ensures
        button_actions(DPAD_UP).len() == 0,
        dpad_dir(DPAD_UP) == Some(Dir::Up),
{
    assert(0x0001u16 & 0x1000u16 == 0 && 0x0001u16 & 0x2000u16 == 0 && 0x0001u16 & 0x4000u16 == 0 && 0x0001u16 & 0x8000u16 == 0 && 0x0001u16 & 0x0010u16 == 0 && 0x0001u16 & 0x0020u16 == 0 && 0x0001u16 & 0x0100u16 == 0 && 0x0001u16 & 0x0200u16 == 0 && 0x0001u16 & 0x0400u16 == 0) by (bit_vector);
    assert(0x0001u16 & 0x0001u16 != 0 && 0x0001u16 & 0x0002u16 == 0 && 0x0001u16 & 0x0004u16 == 0 && 0x0001u16 & 0x0008u16 == 0) by (bit_vector);
    assert(button_actions(DPAD_UP) =~= Seq::<NavAction>::empty());
}

proof fn lemma_cross_dpad_down()
    ensures
        button_actions(DPAD_DOWN).len() == 0,
        dpad_dir(DPAD_DOWN) == Some(Dir::Down),
{
    assert(0x0002u16 & 0x1000u16 == 0 && 0x0002u16 & 0x2000u16 == 0 && 0x0002u16 & 0x4000u16 == 0 && 0x0002u16 & 0x8000u16 == 0 && 0x0002u16 & 0x0010u16 == 0 && 0x0002u16 & 0x0020u16 == 0 && 0x0002u16 & 0x0100u16 == 0 && 0x0002u16 & 0x0200u16 == 0 && 0x0002u16 & 0x0400u16 == 0) by (bit_vector);
    assert(0x0002u16 & 0x0001u16 == 0 && 0x0002u16 & 0x0002u16 != 0 && 0x0002u16 & 0x0004u16 == 0 && 0x0002u16 & 0x0008u16 == 0) by (bit_vector);
    assert(button_actions(DPAD_DOWN) =~= Seq::<NavAction>::empty());
}

proof fn lemma_cross_dpad_left()
    ensures
        button_actions(DPAD_LEFT).len() == 0,
        dpad_dir(DPAD_LEFT) == Some(Dir::Left),
{
    assert(0x0004u16 & 0x1000u16 == 0 && 0x0004u16 & 0x2000u16 == 0 && 0x0004u16 & 0x4000u16 == 0 && 0x0004u16 & 0x8000u16 == 0 && 0x0004u16 & 0x0010u16 == 0 && 0x0004u16 & 0x0020u16 == 0 && 0x0004u16 & 0x0100u16 == 0 && 0x0004u16 & 0x0200u16 == 0 && 0x0004u16 & 0x0400u16 == 0) by (bit_vector);
    assert(0x0004u16 & 0x0001u16 == 0 && 0x0004u16 & 0x0002u16 == 0 && 0x0004u16 & 0x0004u16 != 0 && 0x0004u16 & 0x0008u16 == 0) by (bit_vector);
    assert(button_actions(DPAD_LEFT) =~= Seq::<NavAction>::empty());
}

proof fn lemma_cross_dpad_right()
    ensures
        button_actions(DPAD_RIGHT).len() == 0,
        dpad_dir(DPAD_RIGHT) == Some(Dir::Right),
{
    assert(0x0008u16 & 0x1000u16 == 0 && 0x0008u16 & 0x2000u16 == 0 && 0x0008u16 & 0x4000u16 == 0 && 0x0008u16 & 0x8000u16 == 0 && 0x0008u16 & 0x0010u16 == 0 && 0x0008u16 & 0x0020u16 == 0 && 0x0008u16 & 0x0100u16 == 0 && 0x0008u16 & 0x0200u16 == 0 && 0x0008u16 & 0x0400u16 == 0) by (bit_vector);
    assert(0x0008u16 & 0x0001u16 == 0 && 0x0008u16 & 0x0002u16 == 0 && 0x0008u16 & 0x0004u16 == 0 && 0x0008u16 & 0x0008u16 != 0) by (bit_vector);
    assert(button_actions(DPAD_RIGHT) =~= Seq::<NavAction>::empty());
}

/// Pressing one arrow of the cross alone moves the focus that way at once:
/// up goes up, down goes down, left goes left, right goes right, whatever
/// the stick says (the cross wins). (Alone: no trigger newly pulled, the
/// arrow not held before.)
pub proof fn lemma_cross_moves_its_way(t: PadTracker, r: PadReading, now: u64, timing: InputTiming)
    requires
        t.connected,
        r.packet != t.packet,
        !(r.left_trigger_pulled && !t.prev_left_trigger),
        !(r.right_trigger_pulled && !t.prev_right_trigger),
        r.buttons & t.prev_buttons == 0,
    ensures
        r.buttons == DPAD_UP && t.dir != Some(Dir::Up) ==> pad_step(t, Some(r), now, timing).1 == seq![NavAction::Up],
        r.buttons == DPAD_DOWN && t.dir != Some(Dir::Down) ==> pad_step(t, Some(r), now, timing).1 == seq![NavAction::Down],
        r.buttons == DPAD_LEFT && t.dir != Some(Dir::Left) ==> pad_step(t, Some(r), now, timing).1 == seq![NavAction::Left],
        r.buttons == DPAD_RIGHT && t.dir != Some(Dir::Right) ==> pad_step(t, Some(r), now, timing).1 == seq![NavAction::Right],
{
    let b = r.buttons;
    let p = t.prev_buttons;
    assert(b & !p == b) by (bit_vector)
        requires
            b & p == 0,
    ;
    lemma_cross_dpad_up();
    lemma_cross_dpad_down();
    lemma_cross_dpad_left();
    lemma_cross_dpad_right();
}

/// A trigger newly pulled alone pages: the left one up, the right one down.
pub proof fn lemma_triggers_page(t: PadTracker, r: PadReading, now: u64, timing: InputTiming)
    requires
        t.connected,
        r.packet != t.packet,
        r.buttons == 0,
        r.stick is None,
    ensures
        r.left_trigger_pulled && !t.prev_left_trigger && !(r.right_trigger_pulled && !t.prev_right_trigger)
            ==> pad_step(t, Some(r), now, timing).1 == seq![NavAction::PageUp],
        r.right_trigger_pulled && !t.prev_right_trigger && !(r.left_trigger_pulled && !t.prev_left_trigger)
            ==> pad_step(t, Some(r), now, timing).1 == seq![NavAction::PageDown],
{
    let p = t.prev_buttons;
    assert(0u16 & !p == 0) by (bit_vector);
    lemma_held_buttons_do_not_fire(0);
    assert(0u16 & !0u16 == 0) by (bit_vector);
    assert(0u16 & 0x0001u16 == 0 && 0u16 & 0x0002u16 == 0 && 0u16 & 0x0004u16 == 0 && 0u16 & 0x0008u16 == 0)
        by (bit_vector);
    assert(button_actions(0) =~= Seq::<NavAction>::empty());
}

} // verus!
