//! The decisions of the big-screen shell that do not need a window: how a
//! title is shortened or turned into initials, how a key is shown, which
//! screen comes back on "Back", which notices stay on screen, which programs
//! of an imported folder start ticked, and how a setting steps through its
//! values. Drawing all of it is the program's part.

use vstd::prelude::*;
use std::collections::VecDeque;
use vstd::string::StringSliceAdditionalSpecFns;
use crate::text::{
    char_alnum, char_is_alphanumeric, char_is_whitespace, char_to_uppercase, char_upper, char_ws,
    chars_of, contains_text, has_substring, owned, push_char, push_str, slice_chars, str_to_lowercase,
    string_of, text_lower, trim_ws, trimmed, decimal_string, decimal, same_text, seq_lt, text_lt,
    lemma_seq_lt_total, lemma_seq_lt_transitive,
};
use crate::input::PollMode;
use crate::config::Covers;
use crate::library::{
    first_with_id, game_id, ids_unique, path_file_stem, title_from_path_spec, file_stem, Game, Launch,
    LaunchView, Library, Sort,
};

verus! {

// ---------------------------------------------------------------------
// Shortening and initials
// ---------------------------------------------------------------------

/// The ellipsis that ends a shortened text.
pub open spec fn ellipsis() -> char {
    '\u{2026}'
}

/// A text cut to at most `max` characters: unchanged when it fits, else its
/// first `max - 1` characters (none when `max` is 0) and an ellipsis.
pub open spec fn ellipsized(t: Seq<char>, max: nat) -> Seq<char> {
    if t.len() <= max {
        t
    } else if max == 0 {
        seq![ellipsis()]
    } else {
        t.take(max - 1).push(ellipsis())
    }
}

/// Cuts a title so that it fits in `max_chars` characters (counted as
/// characters, never splitting one).
pub fn ellipsize(text: &str, max_chars: usize) -> (s: String)
    ensures
        s@ == ellipsized(text@, max_chars as nat),
{
    let cs = chars_of(text);
    if cs.len() <= max_chars {
        return owned(text);
    }
    let keep: usize = if max_chars == 0 { 0 } else { max_chars - 1 };
    let mut out = string_of(&slice_chars(&cs, 0, keep));
    push_char(&mut out, '\u{2026}');
    proof {
        assert(cs@.subrange(0, keep as int) == text@.take(keep as int));
    }
    out
}

/// A word begins at `i`: a character that is not white space, at the start
/// or after white space.
pub open spec fn word_starts_at(s: Seq<char>, i: int) -> bool {
    &&& 0 <= i < s.len()
    &&& !char_ws(s[i])
    &&& (i == 0 || char_ws(s[i - 1]))
}

/// The first characters of the words among the first `n` characters that
/// begin with a letter or a digit, in order.
pub open spec fn leading_chars(s: Seq<char>, n: int) -> Seq<char>
    decreases n,
{
    if n <= 0 {
        seq![]
    } else if word_starts_at(s, n - 1) && char_alnum(s[n - 1]) {
        leading_chars(s, n - 1).push(s[n - 1])
    } else {
        leading_chars(s, n - 1)
    }
}

/// Each character as one capital letter, one after the other (a letter
/// whose capital form is longer, such as "ß", gives its first character).
pub open spec fn upper_all(cs: Seq<char>) -> Seq<char>
    decreases cs.len(),
{
    if cs.len() == 0 {
        seq![]
    } else {
        upper_all(cs.drop_last()) + first_capital(cs.last())
    }
}

/// The first character of the capital form of `c` (none if it has none).
pub open spec fn first_capital(c: char) -> Seq<char> {
    if char_upper(c).len() > 0 {
        seq![char_upper(c)[0]]
    } else {
        seq![]
    }
}

pub open spec fn min_nat(a: nat, b: nat) -> nat {
    if a <= b {
        a
    } else {
        b
    }
}

/// The initials of a title, two letters at most: the first character, as
/// one capital letter, of its first two words that begin with a letter or a
/// digit.
pub open spec fn initials_of(s: Seq<char>) -> Seq<char> {
    let lead = leading_chars(s, s.len() as int);
    upper_all(lead.take(min_nat(2, lead.len()) as int))
}

proof fn lemma_leading_chars_len(s: Seq<char>, n: int)
    ensures
        leading_chars(s, n).len() <= (if n < 0 { 0 } else { n }),
    decreases n,
{
    if n > 0 {
        lemma_leading_chars_len(s, n - 1);
    }
}

/// The initials shown on a game without a cover ("Super Mario World" gives
/// "SM").
pub fn initials(title: &str) -> (s: String)
    ensures
        s@ == initials_of(title@),
        s@.len() == min_nat(2, leading_chars(title@, title@.len() as int).len()),
        s@.len() <= 2,
{
    let cs = chars_of(title);
    let mut out = String::new();
    let mut taken: usize = 0;
    let mut i: usize = 0;
    while i < cs.len()
        invariant
            i <= cs.len(),
            cs@ == title@,
            taken == min_nat(2, leading_chars(cs@, i as int).len()),
            out@ == upper_all(leading_chars(cs@, i as int).take(taken as int)),
            out@.len() == taken,
        decreases cs.len() - i,
    {
        let c = cs[i];
        let starts = !char_is_whitespace(c) && (i == 0 || char_is_whitespace(cs[i - 1]));
        let ghost before = leading_chars(cs@, i as int);
        let ghost after = leading_chars(cs@, i + 1);
        if starts && char_is_alphanumeric(c) {
            assert(after == before.push(c));
            if taken < 2 {
                let up = char_to_uppercase(c);
                let ghost base = out@;
                if up.len() > 0 {
                    push_char(&mut out, up[0]);
                }
                assert(out@ == base + first_capital(c));
                proof {
                    let t = before.take(taken as int);
                    assert(after.take(taken + 1) == t.push(c));
                    assert(t.push(c).drop_last() == t);
                }
                taken += 1;
            } else {
                assert(after.take(taken as int) == before.take(taken as int));
            }
        } else {
            assert(after == before);
        }
        i += 1;
    }
    proof {
        lemma_leading_chars_len(cs@, cs.len() as int);
    }
    out
}

// ---------------------------------------------------------------------
// Keys
// ---------------------------------------------------------------------

/// The mark that stands for one hidden character of a key.
pub open spec fn bullet() -> char {
    '\u{2022}'
}

pub open spec fn bullets(n: nat) -> Seq<char> {
    Seq::new(n, |i: int| bullet())
}

/// How a stored key is shown: a note when there is none, all bullets when
/// it has ten characters or fewer, else its first four and last four
/// characters around three middle dots.
pub open spec fn masked_key(k: Seq<char>) -> Seq<char> {
    if k.len() == 0 {
        "(sin configurar)"@
    } else if k.len() <= 10 {
        bullets(k.len())
    } else {
        k.take(4) + seq!['\u{b7}', '\u{b7}', '\u{b7}'] + k.skip(k.len() - 4)
    }
}

/// Shows just enough of a key to recognise it, never the whole of it.
pub fn mask_key(key: &str) -> (s: String)
    ensures
        s@ == masked_key(key@),
{
    let cs = chars_of(key);
    let n = cs.len();
    if n == 0 {
        return owned("(sin configurar)");
    }
    if n <= 10 {
        let mut out = String::new();
        let mut i: usize = 0;
        while i < n
            invariant
                i <= n,
                out@ == bullets(i as nat),
            decreases n - i,
        {
            push_char(&mut out, '\u{2022}');
            assert(bullets((i + 1) as nat) == bullets(i as nat).push(bullet()));
            i += 1;
        }
        return out;
    }
    let mut out = string_of(&slice_chars(&cs, 0, 4));
    push_char(&mut out, '\u{b7}');
    push_char(&mut out, '\u{b7}');
    push_char(&mut out, '\u{b7}');
    let tail = string_of(&slice_chars(&cs, n - 4, n));
    push_str(&mut out, tail.as_str());
    proof {
        assert(cs@.subrange(0, 4) == key@.take(4));
        assert(cs@.subrange(n - 4, n as int) == key@.skip(n - 4));
        assert(out@ == key@.take(4) + seq!['\u{b7}', '\u{b7}', '\u{b7}'] + key@.skip(n - 4));
    }
    out
}

// ---------------------------------------------------------------------
// Installers among imported programs
// ---------------------------------------------------------------------

/// Pieces of a file name that almost never belong to the game itself.
pub open spec fn installer_marks() -> Seq<Seq<char>> {
    seq![
        "unins"@, "setup"@, "install"@, "vcredist"@, "vc_redist"@, "dxsetup"@, "directx"@,
        "dotnetfx"@, "redist"@, "prereq"@, "crashpad_handler"@, "ueprereqsetup"@,
        "ue4prereqsetup"@,
    ]
}

/// A program name looks like an installer or a redistributable: once in
/// small letters it holds one of the marks.
pub open spec fn installer_like(stem: Seq<char>) -> bool {
    exists|k: int|
        0 <= k < installer_marks().len() && has_substring(text_lower(stem), #[trigger] installer_marks()[k])
}

/// Whether an executable found while importing a folder looks like an
/// installer (such programs are listed unticked).
pub fn looks_like_installer(stem: &str) -> (r: bool)
    ensures
        r == installer_like(stem@),
{
    let lower_text = str_to_lowercase(stem);
    let lower = chars_of(lower_text.as_str());
    let marks: Vec<&str> = vec![
        "unins", "setup", "install", "vcredist", "vc_redist", "dxsetup", "directx", "dotnetfx",
        "redist", "prereq", "crashpad_handler", "ueprereqsetup", "ue4prereqsetup",
    ];
    assert(marks@.len() == installer_marks().len());
    assert(forall|k: int| 0 <= k < marks@.len() ==> #[trigger] marks@[k]@ == installer_marks()[k]);
    let mut i: usize = 0;
    while i < marks.len()
        invariant
            i <= marks@.len() == installer_marks().len(),
            lower@ == text_lower(stem@),
            forall|k: int| 0 <= k < marks@.len() ==> #[trigger] marks@[k]@ == installer_marks()[k],
            forall|k: int| 0 <= k < i ==> !has_substring(lower@, #[trigger] installer_marks()[k]),
        decreases marks.len() - i,
    {
        let mark = chars_of(marks[i]);
        if contains_text(&lower, &mark) {
            assert(has_substring(text_lower(stem@), installer_marks()[i as int]));
            return true;
        }
        i += 1;
    }
    false
}

// ---------------------------------------------------------------------
// Stepping through the values of a setting
// ---------------------------------------------------------------------

/// Where a value stands in a list: its first place, or the first place
/// when the list does not hold it (a value edited by hand in the file).
pub open spec fn start_index(s: Seq<u64>, x: u64) -> int {
    if s.contains(x) {
        choose|k: int| 0 <= k < s.len() && s[k] == x && forall|j: int| 0 <= j < k ==> s[j] != x
    } else {
        0
    }
}

/// The next value after `x` going forward, or the one before it going
/// back, wrapping at both ends.
pub open spec fn cycled(s: Seq<u64>, x: u64, forward: bool) -> u64 {
    let k = start_index(s, x);
    if forward {
        s[(k + 1) % (s.len() as int)]
    } else if k == 0 {
        s[s.len() - 1]
    } else {
        s[k - 1]
    }
}

/// The value that follows `current` in a closed list of choices.
pub fn cycle(values: &[u64], current: u64, forward: bool) -> (r: u64)
    requires
        values@.len() > 0,
    ensures
        r == cycled(values@, current, forward),
{
    let n = values.len();
    let mut i: usize = 0;
    while i < n
        invariant
            i <= n == values@.len(),
            forall|j: int| 0 <= j < i ==> values@[j] != current,
        ensures
            i <= n,
            forall|j: int| 0 <= j < i ==> values@[j] != current,
            i < n ==> values@[i as int] == current,
        decreases n - i,
    {
        if values[i] == current {
            break;
        }
        i += 1;
    }
    let k: usize = if i < n { i } else { 0 };
    proof {
        let s = values@;
        if i < n {
            assert(s[i as int] == current);
            assert(s.contains(current));
            let c = choose|c: int| 0 <= c < s.len() && s[c] == current && forall|j: int| 0 <= j < c ==> s[j] != current;
            assert(0 <= c < s.len() && s[c] == current && forall|j: int| 0 <= j < c ==> s[j] != current);
            if c < i {
                assert(s[c] != current);
            }
            if c > i {
                assert(s[i as int] != current);
            }
            assert(start_index(s, current) == i);
        } else {
            assert(!s.contains(current));
        }
        if k + 1 < n {
            vstd::arithmetic::div_mod::lemma_small_mod((k + 1) as nat, n as nat);
        } else {
            vstd::arithmetic::div_mod::lemma_mod_self_0(n as int);
        }
    }
    if forward {
        if k + 1 == n {
            values[0]
        } else {
            values[k + 1]
        }
    } else if k == 0 {
        values[n - 1]
    } else {
        values[k - 1]
    }
}

/// The order of the library after "change order": last played, title,
/// time played, date added, and round again.
pub open spec fn sort_after(s: Sort) -> Sort {
    match s {
        Sort::LastPlayed => Sort::Title,
        Sort::Title => Sort::PlayTime,
        Sort::PlayTime => Sort::Added,
        Sort::Added => Sort::LastPlayed,
    }
}

pub fn next_sort(s: Sort) -> (r: Sort)
    ensures
        r == sort_after(s),
{
    match s {
        Sort::LastPlayed => Sort::Title,
        Sort::Title => Sort::PlayTime,
        Sort::PlayTime => Sort::Added,
        Sort::Added => Sort::LastPlayed,
    }
}

/// Changing the order four times comes back to where it started.
pub proof fn lemma_sort_cycle_returns(s: Sort)
    ensures
        sort_after(sort_after(sort_after(sort_after(s)))) == s,
        sort_after(s) != s,
{
}

// ---------------------------------------------------------------------
// Pace of the shell
// ---------------------------------------------------------------------

/// How fast the shell should work: slowly under a game (unless the quick
/// panel is open over it), at rest after `idle_after_secs` without input,
/// else at full pace.
pub open spec fn pace(in_game: bool, quick_open: bool, quiet_ms: u64, idle_after_secs: u64) -> PollMode {
    if in_game && !quick_open {
        PollMode::InGame
    } else if quiet_ms > idle_after_secs * 1000 {
        PollMode::Idle
    } else {
        PollMode::Active
    }
}

/// The pace for a moment of the shell: whether a game session runs, whether
/// the quick panel is the current screen, and how long nothing was touched.
pub fn poll_mode(in_game: bool, quick_open: bool, quiet_ms: u64, idle_after_secs: u64) -> (m: PollMode)
    ensures
        m == pace(in_game, quick_open, quiet_ms, idle_after_secs),
{
    if in_game && !quick_open {
        PollMode::InGame
    } else if (quiet_ms as u128) > (idle_after_secs as u128) * 1000 {
        PollMode::Idle
    } else {
        PollMode::Active
    }
}

// ---------------------------------------------------------------------
// Colour of a game without a cover
// ---------------------------------------------------------------------

/// FNV-1a over the bytes of a text.
pub open spec fn fnv1a(bytes: Seq<u8>) -> u32
    decreases bytes.len(),
{
    if bytes.len() == 0 {
        2166136261u32
    } else {
        let h = fnv1a(bytes.drop_last()) ^ (bytes.last() as u32);
        vstd::wrapping::u32_specs::wrapping_mul(h, 16777619u32)
    }
}

/// The hue, in degrees, that a title without a cover is drawn in: the same
/// title always gets the same hue.
pub fn title_hue(text: &str) -> (h: u32)
    ensures
        h == fnv1a(text.spec_bytes()) % 360,
        h < 360,
{
    let bytes = text.as_bytes();
    let mut hash: u32 = 2166136261;
    let mut i: usize = 0;
    while i < bytes.len()
        invariant
            i <= bytes@.len(),
            bytes@ == text.spec_bytes(),
            hash == fnv1a(bytes@.take(i as int)),
        decreases bytes.len() - i,
    {
        let b = bytes[i];
        hash = (hash ^ (b as u32)).wrapping_mul(16777619);
        assert(bytes@.take(i + 1).drop_last() == bytes@.take(i as int));
        i += 1;
    }
    assert(bytes@.take(bytes@.len() as int) == bytes@);
    hash % 360
}

// ---------------------------------------------------------------------
// Screens, notices and the review of an imported folder
// ---------------------------------------------------------------------

#[derive(Debug, Clone, Copy, PartialEq, Eq, Structural)]
pub enum Screen {
    Library,
    Favorites,
    GameDetail,
    /// What the machine is spending and what game mode will do about it.
    Resources,
    Settings,
    /// Entering the SteamGridDB key, with an explanation, paste and test.
    CoverSetup,
    /// The guide-button panel; it also works over a running game.
    Quick,
    Browser,
    /// Program by program review of what an imported folder will add.
    ImportReview,
}

/// What the file browser was opened for.
#[derive(Debug, Clone, Copy, PartialEq, Eq, Structural)]
pub enum BrowserPurpose {
    AddExecutable,
    /// Look through a whole folder (and its subfolders) for programs.
    ImportFolder,
    /// Choose the folder of the ROM repository's indexes.
    PickCatalogDir,
    /// Choose where ROMs are downloaded.
    PickDownloadDir,
}

#[derive(Debug, Clone, Copy, PartialEq, Eq, Structural)]
pub enum ToastKind {
    Info,
    Good,
    Bad,
}

/// How the test of the SteamGridDB key being edited is going.
#[derive(Debug, Clone)]
pub enum KeyTestState {
    Idle,
    Testing,
    Valid,
    Invalid(String),
}

/// How a line of status is coloured.
#[derive(Debug, Clone, Copy, PartialEq, Eq, Structural)]
pub enum Tone {
    Dim,
    Accent,
    Warn,
    Good,
    Bad,
}

/// The line under the key field: where the test stands, or, before any
/// test, whether a key is already stored.
pub open spec fn key_status_text(test: KeyTestState, key_stored: bool) -> (Seq<char>, Tone) {
    match test {
        KeyTestState::Idle => if key_stored {
            ("Clave guardada. Pulsa Y para volver a probarla si algo falla."@, Tone::Dim)
        } else {
            ("Sin guardar todavia. Pulsa Y para probarla antes de guardar."@, Tone::Dim)
        },
        KeyTestState::Testing => ("Probando contra SteamGridDB..."@, Tone::Warn),
        KeyTestState::Valid => ("\u{2714} La clave funciona."@, Tone::Good),
        KeyTestState::Invalid(e) => ("\u{2716} "@ + e@, Tone::Bad),
    }
}

pub fn key_status(test: &KeyTestState, key_stored: bool) -> (r: (String, Tone))
    ensures
        (r.0@, r.1) == key_status_text(*test, key_stored),
{
    match test {
        KeyTestState::Idle => if key_stored {
            (owned("Clave guardada. Pulsa Y para volver a probarla si algo falla."), Tone::Dim)
        } else {
            (owned("Sin guardar todavia. Pulsa Y para probarla antes de guardar."), Tone::Dim)
        },
        KeyTestState::Testing => (owned("Probando contra SteamGridDB..."), Tone::Warn),
        KeyTestState::Valid => (owned("\u{2714} La clave funciona."), Tone::Good),
        KeyTestState::Invalid(e) => {
            let mut s = owned("\u{2716} ");
            push_str(&mut s, e.as_str());
            (s, Tone::Bad)
        },
    }
}

/// A short notice in a corner of the screen, shown until `until_ms`.
#[derive(Debug, Clone)]
pub struct Toast {
    pub text: String,
    pub kind: ToastKind,
    pub until_ms: u64,
}

impl Toast {
    pub fn duplicate(&self) -> (t: Toast)
        ensures
            t == *self,
    {
        Toast { text: self.text.clone(), kind: self.kind, until_ms: self.until_ms }
    }
}

/// An executable found while importing a folder, waiting to be confirmed.
#[derive(Debug, Clone)]
pub struct ImportCandidate {
    pub path: String,
    pub title: String,
    /// Added to the library if confirmed while ticked.
    pub checked: bool,
    /// Looks like an installer or a redistributable: starts unticked.
    pub installer: bool,
}

/// How long a notice stays, in milliseconds.
pub const TOAST_MS: u64 = 5000;

/// How many notices are kept at once.
pub const MAX_TOASTS: usize = 4;

/// The name of a file without its extension, empty when it has none.
pub open spec fn stem_or_empty(path: Seq<char>) -> Seq<char> {
    match path_file_stem(path) {
        Some(st) => st,
        None => seq![],
    }
}

impl ImportCandidate {
    /// The candidate for an executable found in a folder: titled from its
    /// file name, ticked unless it looks like an installer.
    pub fn for_path(path: &str) -> (c: ImportCandidate)
        ensures
            c.path@ == path@,
            c.title@ == title_from_path_spec(path@),
            c.installer == installer_like(stem_or_empty(path@)),
            c.checked == !c.installer,
    {
        let installer = match file_stem(path) {
            Some(stem) => looks_like_installer(stem.as_str()),
            None => looks_like_installer(""),
        };
        proof {
            if path_file_stem(path@) is None {
                assert(""@ == Seq::<char>::empty()) by {
                    reveal_strlit("");
                }
            }
        }
        ImportCandidate {
            path: owned(path),
            title: Game::title_from_path(path),
            checked: !installer,
            installer,
        }
    }

    pub fn duplicate(&self) -> (c: ImportCandidate)
        ensures
            c == *self,
    {
        ImportCandidate {
            path: self.path.clone(),
            title: self.title.clone(),
            checked: self.checked,
            installer: self.installer,
        }
    }
}

/// The notices that remain after one more is added: the newest last, the
/// oldest dropped beyond the limit.
pub open spec fn toasts_after(old_toasts: Seq<Toast>, t: Toast) -> Seq<Toast> {
    let all = old_toasts.push(t);
    if all.len() > MAX_TOASTS {
        all.drop_first()
    } else {
        all
    }
}

/// The notices still on screen at `now`.
pub open spec fn unexpired(ts: Seq<Toast>, now: u64) -> Seq<Toast>
    decreases ts.len(),
{
    if ts.len() == 0 {
        seq![]
    } else if ts.last().until_ms > now {
        unexpired(ts.drop_last(), now).push(ts.last())
    } else {
        unexpired(ts.drop_last(), now)
    }
}

/// The ticked candidates, in order.
pub open spec fn ticked(cs: Seq<ImportCandidate>) -> Seq<ImportCandidate>
    decreases cs.len(),
{
    if cs.len() == 0 {
        seq![]
    } else if cs.last().checked {
        ticked(cs.drop_last()).push(cs.last())
    } else {
        ticked(cs.drop_last())
    }
}

pub open spec fn all_ticked(cs: Seq<ImportCandidate>) -> bool {
    forall|i: int| 0 <= i < cs.len() ==> (#[trigger] cs[i]).checked
}

/// The library entry that confirming a candidate creates.
pub open spec fn candidate_launch(c: ImportCandidate) -> LaunchView {
    LaunchView::Executable { path: c.path@, args: seq![], working_dir: None }
}

/// The identifier of the entry for a candidate.
pub open spec fn candidate_id(c: ImportCandidate) -> Seq<char> {
    game_id(c.path@, c.title@)
}

pub open spec fn library_has_id(games: Seq<Game>, id: Seq<char>) -> bool {
    exists|k: int| 0 <= k < games.len() && (#[trigger] games[k]).id@ == id
}

/// The key being edited, and its test, are the same in both states.
pub open spec fn same_key_setup(a: Shell, b: Shell) -> bool {
    &&& a.cover_key_draft@ == b.cover_key_draft@
    &&& a.cover_key_editing == b.cover_key_editing
    &&& a.cover_key_test == b.cover_key_test
}

/// The state of the shell's screens that does not depend on the window.
pub struct Shell {
    pub view: Screen,
    /// The screens to go back to, the last one first.
    pub stack: Vec<Screen>,
    pub renaming: bool,
    pub rename_draft: String,
    pub toasts: Vec<Toast>,
    pub import_candidates: Vec<ImportCandidate>,
    pub import_focus: usize,
    /// What is typed in the key field; not the stored key until saved.
    pub cover_key_draft: String,
    pub cover_key_editing: bool,
    pub cover_key_test: KeyTestState,
}

impl Shell {
    pub fn new() -> (s: Shell)
        ensures
            s.view == Screen::Library,
            s.stack@.len() == 0,
            !s.renaming,
            s.rename_draft@.len() == 0,
            s.toasts@.len() == 0,
            s.import_candidates@.len() == 0,
            s.import_focus == 0,
            s.cover_key_draft@.len() == 0,
            !s.cover_key_editing,
            s.cover_key_test is Idle,
    {
        Shell {
            view: Screen::Library,
            stack: Vec::new(),
            renaming: false,
            rename_draft: String::new(),
            toasts: Vec::new(),
            import_candidates: Vec::new(),
            import_focus: 0,
            cover_key_draft: String::new(),
            cover_key_editing: false,
            cover_key_test: KeyTestState::Idle,
        }
    }

    /// Drops a title being edited without touching the stored one.
    pub fn cancel_rename(&mut self)
        ensures
            !final(self).renaming,
            final(self).rename_draft@.len() == 0,
            final(self).view == old(self).view,
            final(self).stack@ == old(self).stack@,
            final(self).toasts@ == old(self).toasts@,
            final(self).import_candidates@ == old(self).import_candidates@,
            final(self).import_focus == old(self).import_focus,
            same_key_setup(*final(self), *old(self)),
    {
        self.renaming = false;
        self.rename_draft = String::new();
    }

    /// Starts editing a title, from the one it has now.
    pub fn begin_rename(&mut self, title: &str)
        ensures
            final(self).renaming,
            final(self).rename_draft@ == title@,
            final(self).view == old(self).view,
            final(self).stack@ == old(self).stack@,
            final(self).toasts@ == old(self).toasts@,
            final(self).import_candidates@ == old(self).import_candidates@,
            final(self).import_focus == old(self).import_focus,
            same_key_setup(*final(self), *old(self)),
    {
        self.rename_draft = owned(title);
        self.renaming = true;
    }

    /// The title that confirming the edit would store: the draft without
    /// surrounding spaces, `None` when nothing would be left.
    pub fn rename_title(&self) -> (r: Option<String>)
        ensures
            match r {
                Some(t) => t@ == trim_ws(self.rename_draft@) && t@.len() > 0,
                None => trim_ws(self.rename_draft@).len() == 0,
            },
    {
        let t = trimmed(self.rename_draft.as_str());
        if chars_of(t.as_str()).len() == 0 {
            None
        } else {
            Some(t)
        }
    }

    /// Opens a screen on top of the current one.
    pub fn push_view(&mut self, view: Screen)
        ensures
            (final(self).view, final(self).stack@) == screens_after_push(
                old(self).view,
                old(self).stack@,
                view,
            ),
            !final(self).renaming,
            final(self).rename_draft@.len() == 0,
            final(self).toasts@ == old(self).toasts@,
            final(self).import_candidates@ == old(self).import_candidates@,
            final(self).import_focus == old(self).import_focus,
            same_key_setup(*final(self), *old(self)),
    {
        self.stack.push(self.view);
        self.view = view;
        self.cancel_rename();
    }

    /// Goes back to the previous screen; with nothing to go back to, to
    /// the library.
    pub fn pop_view(&mut self)
        ensures
            (final(self).view, final(self).stack@) == screens_after_pop(old(self).view, old(self).stack@),
            !final(self).renaming,
            final(self).rename_draft@.len() == 0,
            final(self).toasts@ == old(self).toasts@,
            final(self).import_candidates@ == old(self).import_candidates@,
            final(self).import_focus == old(self).import_focus,
            same_key_setup(*final(self), *old(self)),
    {
        self.view = match self.stack.pop() {
            Some(v) => v,
            None => Screen::Library,
        };
        self.cancel_rename();
    }

    /// Changes the main screen, forgetting where the user came from.
    pub fn set_root_view(&mut self, view: Screen)
        ensures
            final(self).view == view,
            final(self).stack@.len() == 0,
            !final(self).renaming,
            final(self).rename_draft@.len() == 0,
            final(self).toasts@ == old(self).toasts@,
            final(self).import_candidates@ == old(self).import_candidates@,
            final(self).import_focus == old(self).import_focus,
            same_key_setup(*final(self), *old(self)),
    {
        self.stack.clear();
        self.view = view;
        self.cancel_rename();
    }

    /// Shows a notice for a few seconds; only the newest few are kept.
    pub fn toast(&mut self, kind: ToastKind, text: String, now_ms: u64)
        requires
            now_ms + TOAST_MS <= u64::MAX,
        ensures
            final(self).toasts@.len() <= MAX_TOASTS || final(self).toasts@.len()
                <= old(self).toasts@.len(),
            final(self).toasts@ == toasts_after(
                old(self).toasts@,
                Toast { text: text, kind: kind, until_ms: (now_ms + TOAST_MS) as u64 },
            ),
            final(self).view == old(self).view,
            final(self).stack@ == old(self).stack@,
            final(self).renaming == old(self).renaming,
            final(self).rename_draft@ == old(self).rename_draft@,
            final(self).import_candidates@ == old(self).import_candidates@,
            final(self).import_focus == old(self).import_focus,
            same_key_setup(*final(self), *old(self)),
    {
        let ghost t = Toast { text: text, kind: kind, until_ms: (now_ms + TOAST_MS) as u64 };
        self.toasts.push(Toast { text, kind, until_ms: now_ms + TOAST_MS });
        if self.toasts.len() > MAX_TOASTS {
            self.toasts.remove(0);
            assert(self.toasts@ == old(self).toasts@.push(t).drop_first());
        }
    }

    /// Drops the notices whose time is over.
    pub fn expire_toasts(&mut self, now_ms: u64)
        ensures
            final(self).toasts@ == unexpired(old(self).toasts@, now_ms),
            final(self).view == old(self).view,
            final(self).stack@ == old(self).stack@,
            final(self).renaming == old(self).renaming,
            final(self).rename_draft@ == old(self).rename_draft@,
            final(self).import_candidates@ == old(self).import_candidates@,
            final(self).import_focus == old(self).import_focus,
            same_key_setup(*final(self), *old(self)),
    {
        let mut kept: Vec<Toast> = Vec::new();
        let mut i: usize = 0;
        while i < self.toasts.len()
            invariant
                i <= self.toasts@.len(),
                self.toasts@ == old(self).toasts@,
                kept@ == unexpired(self.toasts@.take(i as int), now_ms),
            decreases self.toasts.len() - i,
        {
            assert(self.toasts@.take(i + 1).drop_last() == self.toasts@.take(i as int));
            if self.toasts[i].until_ms > now_ms {
                kept.push(self.toasts[i].duplicate());
            }
            i += 1;
        }
        assert(self.toasts@.take(self.toasts@.len() as int) == self.toasts@);
        self.toasts = kept;
    }

    /// Hands over the notices on screen, oldest first, and clears them (a
    /// text console shows each once).
    pub fn take_toasts(&mut self) -> (shown: Vec<Toast>)
        ensures
            shown@ == old(self).toasts@,
            final(self).toasts@.len() == 0,
            final(self).view == old(self).view,
            final(self).stack@ == old(self).stack@,
            final(self).renaming == old(self).renaming,
            final(self).rename_draft@ == old(self).rename_draft@,
            final(self).import_candidates@ == old(self).import_candidates@,
            final(self).import_focus == old(self).import_focus,
            same_key_setup(*final(self), *old(self)),
    {
        let mut shown: Vec<Toast> = Vec::new();
        std::mem::swap(&mut shown, &mut self.toasts);
        shown
    }
}


/// The candidates with the one at `i` ticked or unticked.
pub open spec fn flip_at(cs: Seq<ImportCandidate>, i: int) -> Seq<ImportCandidate> {
    if 0 <= i < cs.len() {
        cs.update(i, ImportCandidate { checked: !cs[i].checked, ..cs[i] })
    } else {
        cs
    }
}

/// The candidates all ticked (`on`) or all unticked.
pub open spec fn set_all(cs: Seq<ImportCandidate>, on: bool) -> Seq<ImportCandidate> {
    Seq::new(cs.len(), |k: int| ImportCandidate { checked: on, ..cs[k] })
}

/// The screen and the way back after opening `v`.
pub open spec fn screens_after_push(view: Screen, stack: Seq<Screen>, v: Screen) -> (Screen, Seq<Screen>) {
    (v, stack.push(view))
}

/// The screen and the way back after going back.
pub open spec fn screens_after_pop(view: Screen, stack: Seq<Screen>) -> (Screen, Seq<Screen>) {
    if stack.len() > 0 {
        (stack.last(), stack.drop_last())
    } else {
        (Screen::Library, stack)
    }
}

/// A library entry made from a candidate: its title, its program, the
/// collection "PC" and the identifier those give.
pub open spec fn entry_from(c: ImportCandidate, g: Game) -> bool {
    &&& g.title@ == c.title@
    &&& g.launch@ == candidate_launch(c)
    &&& g.collection@ == "PC"@
    &&& g.id@ == candidate_id(c)
}

/// Every entry from `from` on was made from one of the candidates.
pub open spec fn entries_from(from: int, games: Seq<Game>, cs: Seq<ImportCandidate>) -> bool {
    forall|k: int| from <= k < games.len() ==> made_from(#[trigger] games[k], cs)
}

/// An entry made from one of the candidates.
pub open spec fn made_from(g: Game, cs: Seq<ImportCandidate>) -> bool {
    exists|i: int| 0 <= i < cs.len() && entry_from(#[trigger] cs[i], g)
}

/// The notice after confirming an import.
pub open spec fn import_message(added: nat) -> Seq<char> {
    decimal(added) + " juego(s) anadidos a la biblioteca"@
}

impl Shell {
    /// Ticks or unticks the candidate under the focus.
    pub fn toggle_import_focused(&mut self)
        ensures
            final(self).import_candidates@ == flip_at(
                old(self).import_candidates@,
                old(self).import_focus as int,
            ),
            final(self).view == old(self).view,
            final(self).stack@ == old(self).stack@,
            final(self).toasts@ == old(self).toasts@,
            final(self).import_focus == old(self).import_focus,
    {
        let i = self.import_focus;
        if i < self.import_candidates.len() {
            let mut all = Vec::new();
            std::mem::swap(&mut all, &mut self.import_candidates);
            let ghost before = all@;
            let mut c = all.remove(i);
            c.checked = !c.checked;
            all.insert(i, c);
            assert(all@ == flip_at(before, i as int));
            self.import_candidates = all;
        }
    }

    /// Ticks every candidate, or unticks them all when all were ticked.
    pub fn toggle_import_all(&mut self)
        ensures
            final(self).import_candidates@ == set_all(
                old(self).import_candidates@,
                !all_ticked(old(self).import_candidates@),
            ),
            final(self).view == old(self).view,
            final(self).stack@ == old(self).stack@,
            final(self).toasts@ == old(self).toasts@,
            final(self).import_focus == old(self).import_focus,
    {
        let mut all_checked = true;
        let mut i: usize = 0;
        while i < self.import_candidates.len()
            invariant
                i <= self.import_candidates@.len(),
                all_checked == (forall|k: int| 0 <= k < i ==> (#[trigger] self.import_candidates@[k]).checked),
            decreases self.import_candidates.len() - i,
        {
            if !self.import_candidates[i].checked {
                all_checked = false;
            }
            i += 1;
        }
        let mut out: Vec<ImportCandidate> = Vec::new();
        let mut j: usize = 0;
        while j < self.import_candidates.len()
            invariant
                j <= self.import_candidates@.len(),
                self.import_candidates@ == old(self).import_candidates@,
                all_checked == all_ticked(old(self).import_candidates@),
                out@.len() == j,
                forall|k: int|
                    0 <= k < j ==> {
                        let (a, b) = (#[trigger] out@[k], self.import_candidates@[k]);
                        &&& a.path == b.path
                        &&& a.title == b.title
                        &&& a.installer == b.installer
                        &&& a.checked == !all_checked
                    },
                forall|k: int| 0 <= k < j ==> #[trigger] out@[k] == set_all(self.import_candidates@, !all_checked)[k],
            decreases self.import_candidates.len() - j,
        {
            let c = &self.import_candidates[j];
            out.push(
                ImportCandidate {
                    path: c.path.clone(),
                    title: c.title.clone(),
                    checked: !all_checked,
                    installer: c.installer,
                },
            );
            j += 1;
        }
        assert(out@ == set_all(self.import_candidates@, !all_checked));
        self.import_candidates = out;
    }

    /// Drops the pending import and goes back.
    pub fn cancel_import(&mut self)
        ensures
            final(self).import_candidates@.len() == 0,
            old(self).stack@.len() > 0 ==> final(self).view == old(self).stack@.last()
                && final(self).stack@ == old(self).stack@.drop_last(),
            old(self).stack@.len() == 0 ==> final(self).view == Screen::Library,
            final(self).toasts@ == old(self).toasts@,
    {
        self.import_candidates.clear();
        self.pop_view();
    }

    /// The programs found in a chosen folder: with none, a notice and back;
    /// else they are listed for review as the main screen.
    pub fn begin_import(&mut self, candidates: Vec<ImportCandidate>, now_ms: u64)
        requires
            now_ms + TOAST_MS <= u64::MAX,
        ensures
            candidates@.len() == 0 ==> {
                &&& final(self).import_candidates@ == old(self).import_candidates@
                &&& final(self).toasts@ == toasts_after(
                    old(self).toasts@,
                    Toast {
                        text: final(self).toasts@.last().text,
                        kind: ToastKind::Info,
                        until_ms: (now_ms + TOAST_MS) as u64,
                    },
                )
                &&& final(self).toasts@.last().text@ == "No se encontro ningun .exe nuevo en esa carpeta"@
                &&& old(self).stack@.len() > 0 ==> final(self).view == old(self).stack@.last()
                &&& old(self).stack@.len() == 0 ==> final(self).view == Screen::Library
            },
            candidates@.len() > 0 ==> {
                &&& final(self).import_candidates@ == candidates@
                &&& final(self).import_focus == 0
                &&& final(self).view == Screen::ImportReview
                &&& final(self).stack@.len() == 0
                &&& final(self).toasts@ == old(self).toasts@
            },
    {
        if candidates.len() == 0 {
            self.toast(ToastKind::Info, owned("No se encontro ningun .exe nuevo en esa carpeta"), now_ms);
            self.pop_view();
            return;
        }
        self.import_candidates = candidates;
        self.import_focus = 0;
        self.set_root_view(Screen::ImportReview);
    }

    /// Adds the ticked candidates to the library (those already there are
    /// left alone), tells how many were added and goes back. Returns how
    /// many entries are new; the caller stores the library.
    pub fn confirm_import(&mut self, library: &mut Library, now_ms: u64) -> (added: usize)
        requires
            now_ms + TOAST_MS <= u64::MAX,
        ensures
            final(self).import_candidates@.len() == 0,
            final(library).games@.len() == old(library).games@.len() + added,
            added <= ticked(old(self).import_candidates@).len(),
            forall|k: int|
                0 <= k < old(library).games@.len() ==> final(library).games@[k] == old(library).games@[k],
            forall|i: int|
                0 <= i < ticked(old(self).import_candidates@).len() ==> library_has_id(
                    final(library).games@,
                    candidate_id(#[trigger] ticked(old(self).import_candidates@)[i]),
                ),
            entries_from(
                old(library).games@.len() as int,
                final(library).games@,
                ticked(old(self).import_candidates@),
            ),
            ids_unique(old(library).games@) ==> ids_unique(final(library).games@),
            final(self).toasts@ == toasts_after(old(self).toasts@, final(self).toasts@.last()),
            final(self).toasts@.last().until_ms == now_ms + TOAST_MS,
            final(self).toasts@.last().kind == (if ticked(old(self).import_candidates@).len() == 0 {
                ToastKind::Info
            } else {
                ToastKind::Good
            }),
            ticked(old(self).import_candidates@).len() == 0 ==> final(self).toasts@.last().text@
                == "No se marco ningun .exe"@,
            ticked(old(self).import_candidates@).len() > 0 ==> final(self).toasts@.last().text@
                == import_message(added as nat),
            old(self).stack@.len() > 0 ==> final(self).view == old(self).stack@.last()
                && final(self).stack@ == old(self).stack@.drop_last(),
            old(self).stack@.len() == 0 ==> final(self).view == Screen::Library,
    {
        let mut all = Vec::new();
        std::mem::swap(&mut all, &mut self.import_candidates);
        let ghost cands = all@;
        let mut checked: Vec<ImportCandidate> = Vec::new();
        let mut i: usize = 0;
        while i < all.len()
            invariant
                i <= all@.len(),
                all@ == cands,
                checked@ == ticked(cands.take(i as int)),
            decreases all.len() - i,
        {
            assert(cands.take(i + 1).drop_last() == cands.take(i as int));
            if all[i].checked {
                let c = all[i].duplicate();
                assert(c == all@[i as int]);
                checked.push(c);
            }
            i += 1;
        }
        assert(cands.take(cands.len() as int) == cands);
        if checked.len() == 0 {
            self.toast(ToastKind::Info, owned("No se marco ningun .exe"), now_ms);
            self.pop_view();
            return 0;
        }
        let ghost before = library.games@;
        let mut added: usize = 0;
        let mut j: usize = 0;
        while j < checked.len()
            invariant
                j <= checked@.len(),
                checked@ == ticked(cands),
                added <= j,
                library.games@.len() == before.len() + added,
                forall|k: int| 0 <= k < before.len() ==> library.games@[k] == before[k],
                ids_unique(before) ==> ids_unique(library.games@),
                forall|q: int| 0 <= q < j ==> library_has_id(library.games@, candidate_id(#[trigger] checked@[q])),
                entries_from(before.len() as int, library.games@, checked@.take(j as int)),
            decreases checked.len() - j,
        {
            let c = &checked[j];
            let args: Vec<String> = Vec::new();
            assert(args@.map_values(|a: String| a@) == Seq::<Seq<char>>::empty());
            let launch = Launch::Executable { path: c.path.clone(), args, working_dir: None };
            assert(launch@ == candidate_launch(*c));
            let mut game = Game::new(c.title.as_str(), launch);
            game.collection = owned("PC");
            assert(entry_from(*c, game));
            let ghost prev = library.games@;
            let ghost g = game;
            let ok = library.add(game);
            if ok {
                added += 1;
                assert(library.games@[library.games@.len() - 1] == g);
                assert(library_has_id(library.games@, candidate_id(checked@[j as int])));
            } else {
                proof {
                    let w = choose|w: int| 0 <= w < prev.len() && prev[w].id@ == g.id@;
                    assert(library.games@[w].id@ == candidate_id(checked@[j as int]));
                }
            }
            assert forall|q: int| 0 <= q < j + 1 implies library_has_id(
                library.games@,
                candidate_id(#[trigger] checked@[q]),
            ) by {
                if q < j {
                    let w = choose|w: int| 0 <= w < prev.len() && (#[trigger] prev[w]).id@ == candidate_id(checked@[q]);
                    assert(library.games@[w] == prev[w]);
                }
            }
            assert forall|k: int| before.len() <= k < library.games@.len() implies made_from(
                #[trigger] library.games@[k],
                checked@.take(j + 1),
            ) by {
                if k < prev.len() {
                    assert(library.games@[k] == prev[k]);
                    assert(made_from(prev[k], checked@.take(j as int)));
                    let q = choose|q: int| 0 <= q < j && entry_from(#[trigger] checked@.take(j as int)[q], prev[k]);
                    assert(checked@.take(j + 1)[q] == checked@.take(j as int)[q]);
                } else {
                    assert(checked@.take(j + 1)[j as int] == checked@[j as int]);
                    assert(entry_from(checked@.take(j + 1)[j as int], library.games@[k]));
                }
            }
            j += 1;
        }
        let mut text = decimal_string(added as u64);
        push_str(&mut text, " juego(s) anadidos a la biblioteca");
        self.toast(ToastKind::Good, text, now_ms);
        self.pop_view();
        proof {
            let t = ticked(old(self).import_candidates@);
            assert(checked@ == t);
            assert(checked@.take(j as int) == t);
            assert(entries_from(before.len() as int, library.games@, t));
        }
        added
    }
}

// ---------------------------------------------------------------------
// Cover searches
// ---------------------------------------------------------------------

/// How many cover searches run at once at most.
pub const MAX_CONCURRENT_COVER_FETCHES: usize = 3;

/// A cover search waiting to start.
#[derive(Debug, Clone)]
pub struct CoverRequest {
    pub game_id: String,
    pub title: String,
    /// Asked for by the user: the result is told on screen.
    pub notify: bool,
}

/// What a finished cover search brought back.
#[derive(Debug, Clone)]
pub enum CoverOutcome {
    Found { game_id: String, title: String, path: String, notify: bool },
    NotFound { title: String, error: String, notify: bool },
}

pub open spec fn id_listed(ids: Seq<String>, id: Seq<char>) -> bool {
    exists|k: int| 0 <= k < ids.len() && (#[trigger] ids[k])@ == id
}

/// How many queued searches start now: as many as the free slots, no more
/// than are waiting.
pub open spec fn launch_count(active: nat, waiting: nat) -> nat {
    if active >= MAX_CONCURRENT_COVER_FETCHES {
        0
    } else if waiting < MAX_CONCURRENT_COVER_FETCHES - active {
        waiting
    } else {
        (MAX_CONCURRENT_COVER_FETCHES - active) as nat
    }
}

/// The queue of cover searches, how many run, and the games already tried
/// in this session (each is tried once, unless asked for again).
pub struct CoverQueue {
    pub queue: VecDeque<CoverRequest>,
    pub active: usize,
    pub attempted: Vec<String>,
}

impl CoverQueue {
    pub fn new() -> (q: CoverQueue)
        ensures
            q.queue@.len() == 0,
            q.active == 0,
            q.attempted@.len() == 0,
    {
        CoverQueue { queue: VecDeque::new(), active: 0, attempted: Vec::new() }
    }

    /// Whether a search was already tried for this game.
    pub fn was_attempted(&self, game_id: &str) -> (r: bool)
        ensures
            r == id_listed(self.attempted@, game_id@),
    {
        let mut k: usize = 0;
        while k < self.attempted.len()
            invariant
                k <= self.attempted@.len(),
                forall|j: int| 0 <= j < k ==> (#[trigger] self.attempted@[j])@ != game_id@,
            decreases self.attempted.len() - k,
        {
            if same_text(self.attempted[k].as_str(), game_id) {
                return true;
            }
            k += 1;
        }
        false
    }

    /// Notes that a search for this game was started.
    pub fn note_attempt(&mut self, game_id: &str)
        ensures
            id_listed(final(self).attempted@, game_id@),
            forall|id: Seq<char>|
                id_listed(final(self).attempted@, id) <==> (id_listed(old(self).attempted@, id) || id
                    == game_id@),
            final(self).queue@ == old(self).queue@,
            final(self).active == old(self).active,
    {
        if !self.was_attempted(game_id) {
            let ghost before = self.attempted@;
            self.attempted.push(owned(game_id));
            assert forall|id: Seq<char>|
                id_listed(self.attempted@, id) <==> (id_listed(before, id) || id == game_id@) by {
                if id_listed(self.attempted@, id) {
                    let k = choose|k: int| 0 <= k < self.attempted@.len() && (#[trigger] self.attempted@[k])@ == id;
                    if k < before.len() {
                        assert(before[k] == self.attempted@[k]);
                    }
                }
                if id_listed(before, id) {
                    let k = choose|k: int| 0 <= k < before.len() && (#[trigger] before[k])@ == id;
                    assert(self.attempted@[k] == before[k]);
                }
                if id == game_id@ {
                    assert(self.attempted@[before.len() as int]@ == id);
                }
            }
        }
    }

    /// Forgets that a game was tried: after a new title it may be looked
    /// for again.
    pub fn forget_attempt(&mut self, game_id: &str)
        ensures
            !id_listed(final(self).attempted@, game_id@),
            forall|id: Seq<char>|
                id != game_id@ ==> (id_listed(final(self).attempted@, id) <==> id_listed(
                    old(self).attempted@,
                    id,
                )),
            final(self).queue@ == old(self).queue@,
            final(self).active == old(self).active,
    {
        let mut kept: Vec<String> = Vec::new();
        let mut k: usize = 0;
        while k < self.attempted.len()
            invariant
                k <= self.attempted@.len(),
                self.attempted@ == old(self).attempted@,
                self.queue@ == old(self).queue@,
                self.active == old(self).active,
                !id_listed(kept@, game_id@),
                forall|id: Seq<char>|
                    id != game_id@ ==> (id_listed(kept@, id) <==> id_listed(
                        self.attempted@.take(k as int),
                        id,
                    )),
            decreases self.attempted.len() - k,
        {
            let ghost pk = kept@;
            let ghost t = self.attempted@.take(k as int);
            let ghost t1 = self.attempted@.take(k + 1);
            assert(t1 == t.push(self.attempted@[k as int]));
            let keep = !same_text(self.attempted[k].as_str(), game_id);
            if keep {
                kept.push(self.attempted[k].clone());
                assert(kept@ == pk.push(self.attempted@[k as int]));
            } else {
                assert(kept@ == pk);
                assert(self.attempted@[k as int]@ == game_id@);
            }
            assert forall|id: Seq<char>| id != game_id@ implies (id_listed(kept@, id) <==> id_listed(t1, id)) by {
                if id_listed(kept@, id) {
                    let q = choose|q: int| 0 <= q < kept@.len() && (#[trigger] kept@[q])@ == id;
                    if q < pk.len() {
                        assert(kept@[q] == pk[q]);
                        assert(id_listed(pk, id));
                        let w = choose|w: int| 0 <= w < t.len() && (#[trigger] t[w])@ == id;
                        assert(t1[w] == t[w]);
                    } else {
                        assert(t1[k as int]@ == id);
                    }
                }
                if id_listed(t1, id) {
                    let w = choose|w: int| 0 <= w < t1.len() && (#[trigger] t1[w])@ == id;
                    if w < k {
                        assert(t[w] == t1[w]);
                        assert(id_listed(t, id));
                        assert(id_listed(pk, id));
                        let q = choose|q: int| 0 <= q < pk.len() && (#[trigger] pk[q])@ == id;
                        assert(kept@[q] == pk[q]);
                    } else {
                        assert(kept@[kept@.len() - 1]@ == id);
                    }
                }
            }
            assert(!id_listed(kept@, game_id@)) by {
                if id_listed(kept@, game_id@) {
                    let q = choose|q: int| 0 <= q < kept@.len() && (#[trigger] kept@[q])@ == game_id@;
                    if q < pk.len() {
                        assert(kept@[q] == pk[q]);
                    }
                }
            }
            k += 1;
        }
        assert(self.attempted@.take(self.attempted@.len() as int) == self.attempted@);
        self.attempted = kept;
    }

    /// Queues a search; it starts when a slot is free.
    pub fn enqueue(&mut self, game_id: &str, title: &str, notify: bool)
        ensures
            final(self).queue@.len() == old(self).queue@.len() + 1,
            forall|k: int| 0 <= k < old(self).queue@.len() ==> final(self).queue@[k] == old(self).queue@[k],
            final(self).queue@.last().game_id@ == game_id@,
            final(self).queue@.last().title@ == title@,
            final(self).queue@.last().notify == notify,
            final(self).active == old(self).active,
            final(self).attempted@ == old(self).attempted@,
    {
        self.queue.push_back(CoverRequest { game_id: owned(game_id), title: owned(title), notify });
    }

    /// Starts queued searches while slots are free. Without a usable key
    /// the rest of the queue is dropped: there is nothing to search with.
    /// Returns the searches to start now, oldest first.
    pub fn launch_ready(&mut self, key_available: bool) -> (started: Vec<CoverRequest>)
        ensures
            ({
                let n = launch_count(old(self).active as nat, old(self).queue@.len());
                if !key_available && old(self).active < MAX_CONCURRENT_COVER_FETCHES {
                    &&& started@.len() == 0
                    &&& final(self).queue@.len() == 0
                    &&& final(self).active == old(self).active
                } else if !key_available {
                    &&& started@.len() == 0
                    &&& final(self).queue@ == old(self).queue@
                    &&& final(self).active == old(self).active
                } else {
                    &&& started@ == old(self).queue@.take(n as int)
                    &&& final(self).queue@ == old(self).queue@.skip(n as int)
                    &&& final(self).active == old(self).active + n
                }
            }),
            final(self).attempted@ == old(self).attempted@,
    {
        let mut started: Vec<CoverRequest> = Vec::new();
        if self.active >= MAX_CONCURRENT_COVER_FETCHES {
            assert(self.queue@.skip(0) == self.queue@);
            return started;
        }
        if !key_available {
            self.queue.clear();
            return started;
        }
        let free = MAX_CONCURRENT_COVER_FETCHES - self.active;
        let n: usize = if self.queue.len() < free { self.queue.len() } else { free };
        let mut k: usize = 0;
        while k < n
            invariant
                k <= n,
                n <= old(self).queue@.len(),
                n == launch_count(old(self).active as nat, old(self).queue@.len()),
                started@ == old(self).queue@.take(k as int),
                self.queue@ == old(self).queue@.skip(k as int),
                self.active == old(self).active,
                self.attempted@ == old(self).attempted@,
            decreases n - k,
        {
            let front = self.queue.pop_front();
            if let Some(r) = front {
                proof {
                    assert(r == old(self).queue@[k as int]);
                }
                started.push(r);
            }
            proof {
                assert(started@ =~= old(self).queue@.take(k + 1));
                assert(self.queue@ =~= old(self).queue@.skip(k + 1));
            }
            k += 1;
        }
        self.active = self.active + n;
        started
    }

    /// One search finished, found or not.
    pub fn finished(&mut self)
        ensures
            final(self).active == (if old(self).active > 0 { old(self).active - 1 } else { 0 }),
            final(self).queue@ == old(self).queue@,
            final(self).attempted@ == old(self).attempted@,
    {
        self.active = self.active.saturating_sub(1);
    }

    /// A game came into view: its cover is looked for, quietly, once per
    /// session, when automatic covers are on and a key is set. Returns
    /// whether a search was queued.
    pub fn maybe_fetch(&mut self, auto_fetch: bool, key_available: bool, game_id: &str, title: &str) -> (queued: bool)
        ensures
            queued == (auto_fetch && key_available && !id_listed(old(self).attempted@, game_id@)),
            queued ==> {
                &&& id_listed(final(self).attempted@, game_id@)
                &&& final(self).queue@.len() == old(self).queue@.len() + 1
                &&& final(self).queue@.last().game_id@ == game_id@
                &&& final(self).queue@.last().title@ == title@
                &&& !final(self).queue@.last().notify
            },
            !queued ==> final(self).queue@ == old(self).queue@ && final(self).attempted@ == old(
                self,
            ).attempted@,
            final(self).active == old(self).active,
    {
        if !auto_fetch || self.was_attempted(game_id) {
            return false;
        }
        if !key_available {
            return false;
        }
        self.note_attempt(game_id);
        self.enqueue(game_id, title, false);
        true
    }
}

/// A queue that never lets more searches run than the limit.
pub proof fn lemma_launch_respects_limit(active: nat, waiting: nat)
    ensures
        active <= MAX_CONCURRENT_COVER_FETCHES ==> active + launch_count(active, waiting)
            <= MAX_CONCURRENT_COVER_FETCHES,
        launch_count(active, waiting) <= waiting,
        active < MAX_CONCURRENT_COVER_FETCHES && waiting > 0 ==> launch_count(active, waiting) > 0,
{
}

/// The key that searches use: the stored one, unless it is only spaces.
pub fn usable_cover_key(key: &Option<String>) -> (r: Option<String>)
    ensures
        match key {
            Some(k) => if trim_ws(k@).len() > 0 {
                r matches Some(x) && x@ == k@
            } else {
                r is None
            },
            None => r is None,
        },
{
    match key {
        Some(k) => {
            let t = trimmed(k.as_str());
            if chars_of(t.as_str()).len() == 0 {
                None
            } else {
                Some(k.clone())
            }
        },
        None => None,
    }
}

/// The games of the library that have no cover yet, in order.
pub open spec fn without_cover(games: Seq<Game>) -> Seq<Game>
    decreases games.len(),
{
    if games.len() == 0 {
        seq![]
    } else if games.last().cover is None {
        without_cover(games.drop_last()).push(games.last())
    } else {
        without_cover(games.drop_last())
    }
}

/// The notice when a cover is asked for without a key.
pub open spec fn no_key_message() -> Seq<char> {
    "Antes configura una clave en Ajustes \u{2192} Caratulas automaticas"@
}

pub open spec fn quoted(before: Seq<char>, title: Seq<char>, after: Seq<char>) -> Seq<char> {
    before + title + after
}

impl Shell {
    /// The user asks for the cover of one game: it is searched even if it
    /// failed before, and the result is told.
    pub fn fetch_cover_now(&mut self, q: &mut CoverQueue, key_available: bool, game_id: &str, title: &str, now_ms: u64)
        requires
            now_ms + TOAST_MS <= u64::MAX,
        ensures
            final(self).toasts@.last().until_ms == now_ms + TOAST_MS,
            final(self).toasts@ == toasts_after(old(self).toasts@, final(self).toasts@.last()),
            !key_available ==> {
                &&& final(self).toasts@.last().kind == ToastKind::Bad
                &&& final(self).toasts@.last().text@ == no_key_message()
                &&& final(q).queue@ == old(q).queue@
                &&& final(q).attempted@ == old(q).attempted@
            },
            key_available ==> {
                &&& final(self).toasts@.last().kind == ToastKind::Info
                &&& final(self).toasts@.last().text@ == quoted("Buscando caratula de \""@, title@, "\"..."@)
                &&& id_listed(final(q).attempted@, game_id@)
                &&& final(q).queue@.len() == old(q).queue@.len() + 1
                &&& forall|k: int| 0 <= k < old(q).queue@.len() ==> final(q).queue@[k] == old(q).queue@[k]
                &&& final(q).queue@.last().game_id@ == game_id@
                &&& final(q).queue@.last().title@ == title@
                &&& final(q).queue@.last().notify
            },
            final(q).active == old(q).active,
            final(self).view == old(self).view,
            final(self).stack@ == old(self).stack@,
    {
        if !key_available {
            self.toast(ToastKind::Bad, owned("Antes configura una clave en Ajustes \u{2192} Caratulas automaticas"), now_ms);
            return;
        }
        let mut text = owned("Buscando caratula de \"");
        push_str(&mut text, title);
        push_str(&mut text, "\"...");
        self.toast(ToastKind::Info, text, now_ms);
        q.note_attempt(game_id);
        q.enqueue(game_id, title, true);
    }

    /// "Download the missing ones": queues a quiet search for every game of
    /// the library without a cover.
    pub fn fetch_all_missing_covers(&mut self, q: &mut CoverQueue, key_available: bool, library: &Library, now_ms: u64)
        requires
            now_ms + TOAST_MS <= u64::MAX,
        ensures
            final(self).toasts@.last().until_ms == now_ms + TOAST_MS,
            final(self).toasts@ == toasts_after(old(self).toasts@, final(self).toasts@.last()),
            ({
                let m = without_cover(library.games@);
                if !key_available {
                    &&& final(self).toasts@.last().kind == ToastKind::Bad
                    &&& final(self).toasts@.last().text@ == no_key_message()
                    &&& final(q).queue@ == old(q).queue@
                } else if m.len() == 0 {
                    &&& final(self).toasts@.last().kind == ToastKind::Info
                    &&& final(self).toasts@.last().text@
                        == "Todos los juegos de la biblioteca ya tienen caratula"@
                    &&& final(q).queue@ == old(q).queue@
                } else {
                    &&& final(self).toasts@.last().kind == ToastKind::Info
                    &&& final(self).toasts@.last().text@ == quoted(
                        "Buscando caratula para "@,
                        decimal(m.len()),
                        " juegos..."@,
                    )
                    &&& final(q).queue@.len() == old(q).queue@.len() + m.len()
                    &&& forall|k: int| 0 <= k < old(q).queue@.len() ==> final(q).queue@[k] == old(q).queue@[k]
                    &&& forall|k: int|
                        0 <= k < m.len() ==> {
                            let r = #[trigger] final(q).queue@[old(q).queue@.len() + k];
                            &&& r.game_id@ == m[k].id@
                            &&& r.title@ == m[k].title@
                            &&& !r.notify
                        }
                    &&& forall|k: int| 0 <= k < m.len() ==> id_listed(final(q).attempted@, (#[trigger] m[k]).id@)
                }
            }),
            final(q).active == old(q).active,
            final(self).view == old(self).view,
            final(self).stack@ == old(self).stack@,
    {
        if !key_available {
            self.toast(ToastKind::Bad, owned("Antes configura una clave en Ajustes \u{2192} Caratulas automaticas"), now_ms);
            return;
        }
        let ghost games = library.games@;
        let mut missing: Vec<usize> = Vec::new();
        let mut i: usize = 0;
        while i < library.games.len()
            invariant
                i <= games.len(),
                games == library.games@,
                missing@.len() == without_cover(games.take(i as int)).len(),
                forall|k: int|
                    0 <= k < missing@.len() ==> (#[trigger] missing@[k]) < games.len() && games[missing@[k] as int]
                        == without_cover(games.take(i as int))[k],
            decreases library.games.len() - i,
        {
            assert(games.take(i + 1).drop_last() == games.take(i as int));
            if library.games[i].cover.is_none() {
                missing.push(i);
            }
            i += 1;
        }
        assert(games.take(games.len() as int) == games);
        let ghost m = without_cover(games);
        if missing.len() == 0 {
            self.toast(ToastKind::Info, owned("Todos los juegos de la biblioteca ya tienen caratula"), now_ms);
            return;
        }
        let mut text = owned("Buscando caratula para ");
        let count = decimal_string(missing.len() as u64);
        push_str(&mut text, count.as_str());
        push_str(&mut text, " juegos...");
        self.toast(ToastKind::Info, text, now_ms);
        let ghost q0 = q.queue@;
        let mut j: usize = 0;
        while j < missing.len()
            invariant
                j <= missing@.len() == m.len(),
                games == library.games@,
                forall|k: int|
                    0 <= k < missing@.len() ==> (#[trigger] missing@[k]) < games.len() && games[missing@[k] as int]
                        == m[k],
                q.queue@.len() == q0.len() + j,
                q.active == old(q).active,
                q0 == old(q).queue@,
                forall|k: int| 0 <= k < q0.len() ==> q.queue@[k] == q0[k],
                forall|k: int|
                    0 <= k < j ==> {
                        let r = #[trigger] q.queue@[q0.len() + k];
                        &&& r.game_id@ == m[k].id@
                        &&& r.title@ == m[k].title@
                        &&& !r.notify
                    },
                forall|k: int| 0 <= k < j ==> id_listed(q.attempted@, (#[trigger] m[k]).id@),
            decreases missing.len() - j,
        {
            let g = &library.games[missing[j]];
            let ghost before_att = q.attempted@;
            q.note_attempt(g.id.as_str());
            assert forall|k: int| 0 <= k < j implies id_listed(q.attempted@, (#[trigger] m[k]).id@) by {
                assert(id_listed(before_att, m[k].id@));
            }
            let ghost before_q = q.queue@;
            q.enqueue(g.id.as_str(), g.title.as_str(), false);
            assert forall|k: int| 0 <= k < j implies {
                let r = #[trigger] q.queue@[q0.len() + k];
                &&& r.game_id@ == m[k].id@
                &&& r.title@ == m[k].title@
                &&& !r.notify
            } by {
                assert(q.queue@[q0.len() + k] == before_q[q0.len() + k]);
            }
            j += 1;
        }
    }

    /// A cover search finished: a found cover is attached to its game (if
    /// the game is still there) and, when the user asked, the result is
    /// told. Returns whether a cover arrived, so that the library is stored.
    pub fn cover_result(&mut self, q: &mut CoverQueue, library: &mut Library, outcome: CoverOutcome, now_ms: u64) -> (arrived: bool)
        requires
            now_ms + TOAST_MS <= u64::MAX,
        ensures
            final(q).active == (if old(q).active > 0 { old(q).active - 1 } else { 0 }),
            final(q).queue@ == old(q).queue@,
            match outcome {
                CoverOutcome::Found { game_id, title, path, notify } => {
                    let p = first_with_id(old(library).games@, game_id@);
                    &&& arrived == (p >= 0)
                    &&& p >= 0 ==> final(library).games@ == old(library).games@.update(
                        p,
                        Game { cover: Some(path), ..old(library).games@[p] },
                    )
                    &&& p < 0 ==> final(library).games@ == old(library).games@
                    &&& notify ==> final(self).toasts@.last().kind == ToastKind::Good
                        && final(self).toasts@.last().text@ == quoted(
                        "Caratula de \""@,
                        title@,
                        "\" descargada"@,
                    ) && final(self).toasts@ == toasts_after(old(self).toasts@, final(self).toasts@.last())
                    &&& !notify ==> final(self).toasts@ == old(self).toasts@
                },
                CoverOutcome::NotFound { title, error, notify } => {
                    &&& !arrived
                    &&& final(library).games@ == old(library).games@
                    &&& notify ==> final(self).toasts@.last().kind == ToastKind::Bad
                        && final(self).toasts@.last().text@ == quoted("Sin caratula para \""@, title@, "\": "@)
                        + error@ && final(self).toasts@ == toasts_after(
                        old(self).toasts@,
                        final(self).toasts@.last(),
                    )
                    &&& !notify ==> final(self).toasts@ == old(self).toasts@
                },
            },
            final(self).view == old(self).view,
            final(self).stack@ == old(self).stack@,
    {
        q.finished();
        match outcome {
            CoverOutcome::Found { game_id, title, path, notify } => {
                let mut arrived = false;
                match library.get_mut(game_id.as_str()) {
                    Some(g) => {
                        g.cover = Some(path);
                        arrived = true;
                    },
                    None => {},
                }
                if notify {
                    let mut text = owned("Caratula de \"");
                    push_str(&mut text, title.as_str());
                    push_str(&mut text, "\" descargada");
                    self.toast(ToastKind::Good, text, now_ms);
                }
                arrived
            },
            CoverOutcome::NotFound { title, error, notify } => {
                if notify {
                    let mut text = owned("Sin caratula para \"");
                    push_str(&mut text, title.as_str());
                    push_str(&mut text, "\": ");
                    push_str(&mut text, error.as_str());
                    self.toast(ToastKind::Bad, text, now_ms);
                }
                false
            },
        }
    }

    /// Opens the key screen, starting from the stored key.
    pub fn open_cover_setup(&mut self, covers: &Covers)
        ensures
            final(self).cover_key_draft@ == (match covers.steamgrid_api_key {
                Some(k) => k@,
                None => Seq::<char>::empty(),
            }),
            !final(self).cover_key_editing,
            final(self).cover_key_test is Idle,
            (final(self).view, final(self).stack@) == screens_after_push(
                old(self).view,
                old(self).stack@,
                Screen::CoverSetup,
            ),
            final(self).toasts@ == old(self).toasts@,
    {
        self.cover_key_draft = match &covers.steamgrid_api_key {
            Some(k) => k.clone(),
            None => String::new(),
        };
        self.cover_key_editing = false;
        self.cover_key_test = KeyTestState::Idle;
        self.push_view(Screen::CoverSetup);
    }

    pub fn cover_key_clear(&mut self)
        ensures
            final(self).cover_key_draft@.len() == 0,
            final(self).cover_key_test is Idle,
            final(self).view == old(self).view,
            final(self).stack@ == old(self).stack@,
            final(self).toasts@ == old(self).toasts@,
    {
        self.cover_key_draft = String::new();
        self.cover_key_test = KeyTestState::Idle;
    }

    /// A pasted key replaces the draft, without surrounding spaces.
    pub fn cover_key_pasted(&mut self, text: &str, now_ms: u64)
        requires
            now_ms + TOAST_MS <= u64::MAX,
        ensures
            final(self).cover_key_draft@ == trim_ws(text@),
            final(self).cover_key_test is Idle,
            final(self).toasts@.last().kind == ToastKind::Info,
            final(self).toasts@.last().text@ == "Pegado del portapapeles"@,
            final(self).toasts@ == toasts_after(old(self).toasts@, final(self).toasts@.last()),
            final(self).view == old(self).view,
            final(self).stack@ == old(self).stack@,
    {
        self.cover_key_draft = trimmed(text);
        self.cover_key_test = KeyTestState::Idle;
        self.toast(ToastKind::Info, owned("Pegado del portapapeles"), now_ms);
    }

    /// Starts testing the typed key: nothing to test when it is blank,
    /// nothing new while a test runs. Returns the key to test.
    pub fn begin_key_test(&mut self, busy: bool) -> (key: Option<String>)
        ensures
            trim_ws(old(self).cover_key_draft@).len() == 0 ==> key is None && (final(self).cover_key_test matches KeyTestState::Invalid(m) && m@ == "no hay nada escrito todavia"@),
            trim_ws(old(self).cover_key_draft@).len() > 0 && busy ==> key is None
                && final(self).cover_key_test == old(self).cover_key_test,
            trim_ws(old(self).cover_key_draft@).len() > 0 && !busy ==> (key matches Some(k) && k@ == trim_ws(
                old(self).cover_key_draft@,
            )) && final(self).cover_key_test is Testing,
            final(self).cover_key_draft@ == old(self).cover_key_draft@,
            final(self).view == old(self).view,
            final(self).stack@ == old(self).stack@,
            final(self).toasts@ == old(self).toasts@,
    {
        let key = trimmed(self.cover_key_draft.as_str());
        if chars_of(key.as_str()).len() == 0 {
            self.cover_key_test = KeyTestState::Invalid(owned("no hay nada escrito todavia"));
            return None;
        }
        if busy {
            return None;
        }
        self.cover_key_test = KeyTestState::Testing;
        Some(key)
    }

    /// The answer of a key test.
    pub fn key_test_finished(&mut self, result: Result<(), String>)
        ensures
            match result {
                Ok(()) => final(self).cover_key_test is Valid,
                Err(e) => final(self).cover_key_test == KeyTestState::Invalid(e),
            },
            final(self).cover_key_draft@ == old(self).cover_key_draft@,
            final(self).view == old(self).view,
            final(self).stack@ == old(self).stack@,
            final(self).toasts@ == old(self).toasts@,
    {
        self.cover_key_test = match result {
            Ok(()) => KeyTestState::Valid,
            Err(e) => KeyTestState::Invalid(e),
        };
    }

    /// Stores the draft as the key (a blank draft removes the key), tells
    /// what happened and goes back.
    pub fn save_cover_key(&mut self, covers: &mut Covers, now_ms: u64)
        requires
            now_ms + TOAST_MS <= u64::MAX,
        ensures
            ({
                let k = trim_ws(old(self).cover_key_draft@);
                &&& k.len() > 0 ==> (final(covers).steamgrid_api_key matches Some(x) && x@ == k)
                    && final(self).toasts@.last().kind == ToastKind::Good
                    && final(self).toasts@.last().text@ == "Clave de SteamGridDB guardada"@
                    && final(self).toasts@ == toasts_after(old(self).toasts@, final(self).toasts@.last())
                &&& k.len() == 0 ==> final(covers).steamgrid_api_key is None
                &&& k.len() == 0 && old(covers).steamgrid_api_key is Some ==> final(self).toasts@.last().kind
                    == ToastKind::Info && final(self).toasts@.last().text@ == "Clave de SteamGridDB borrada"@
                    && final(self).toasts@ == toasts_after(old(self).toasts@, final(self).toasts@.last())
                &&& k.len() == 0 && old(covers).steamgrid_api_key is None ==> final(self).toasts@
                    == old(self).toasts@
            }),
            final(covers).auto_fetch == old(covers).auto_fetch,
            !final(self).cover_key_editing,
            (final(self).view, final(self).stack@) == screens_after_pop(old(self).view, old(self).stack@),
    {
        let key = trimmed(self.cover_key_draft.as_str());
        let had_key = covers.steamgrid_api_key.is_some();
        if chars_of(key.as_str()).len() == 0 {
            covers.steamgrid_api_key = None;
            if had_key {
                self.toast(ToastKind::Info, owned("Clave de SteamGridDB borrada"), now_ms);
            }
        } else {
            covers.steamgrid_api_key = Some(key);
            self.toast(ToastKind::Good, owned("Clave de SteamGridDB guardada"), now_ms);
        }
        self.cover_key_editing = false;
        self.pop_view();
    }

    /// Leaves the key screen without storing anything.
    pub fn cancel_cover_setup(&mut self)
        ensures
            !final(self).cover_key_editing,
            final(self).cover_key_test is Idle,
            (final(self).view, final(self).stack@) == screens_after_pop(old(self).view, old(self).stack@),
            final(self).toasts@ == old(self).toasts@,
    {
        self.cover_key_editing = false;
        self.cover_key_test = KeyTestState::Idle;
        self.pop_view();
    }
}

// ---------------------------------------------------------------------
// The quick panel of the guide button
// ---------------------------------------------------------------------

#[derive(Debug, Clone, Copy, PartialEq, Eq, Structural)]
pub enum QuickOption {
    ResumeGame,
    EndSession,
    TogglePower,
    Library,
    Catalog,
    Downloads,
    Settings,
    Exit,
}

/// The options of the quick panel: going back to the game and ending it
/// only while a game runs, then the rest always.
pub open spec fn quick_list(in_session: bool) -> Seq<QuickOption> {
    let always = seq![
        QuickOption::TogglePower, QuickOption::Library, QuickOption::Catalog, QuickOption::Downloads,
        QuickOption::Settings, QuickOption::Exit,
    ];
    if in_session {
        seq![QuickOption::ResumeGame, QuickOption::EndSession] + always
    } else {
        always
    }
}

pub fn quick_options(in_session: bool) -> (v: Vec<QuickOption>)
    ensures
        v@ == quick_list(in_session),
{
    let mut v: Vec<QuickOption> = Vec::new();
    if in_session {
        v.push(QuickOption::ResumeGame);
        v.push(QuickOption::EndSession);
    }
    v.push(QuickOption::TogglePower);
    v.push(QuickOption::Library);
    v.push(QuickOption::Catalog);
    v.push(QuickOption::Downloads);
    v.push(QuickOption::Settings);
    v.push(QuickOption::Exit);
    v
}

pub open spec fn quick_label(o: QuickOption, power_engaged: bool) -> Seq<char> {
    match o {
        QuickOption::ResumeGame => "Volver al juego"@,
        QuickOption::EndSession => "Terminar la partida"@,
        QuickOption::TogglePower => if power_engaged {
            "Desactivar modo juego (restaurar sistema)"@
        } else {
            "Activar modo juego (optimizar recursos)"@
        },
        QuickOption::Library => "Biblioteca"@,
        QuickOption::Catalog => "Catalogo de ROMs"@,
        QuickOption::Downloads => "Descargas"@,
        QuickOption::Settings => "Ajustes"@,
        QuickOption::Exit => "Salir del modo juego"@,
    }
}

impl QuickOption {
    /// The text of the option; the game-mode one says what it will do.
    pub fn label(self, power_engaged: bool) -> (s: String)
        ensures
            s@ == quick_label(self, power_engaged),
    {
        match self {
            QuickOption::ResumeGame => owned("Volver al juego"),
            QuickOption::EndSession => owned("Terminar la partida"),
            QuickOption::TogglePower => if power_engaged {
                owned("Desactivar modo juego (restaurar sistema)")
            } else {
                owned("Activar modo juego (optimizar recursos)")
            },
            QuickOption::Library => owned("Biblioteca"),
            QuickOption::Catalog => owned("Catalogo de ROMs"),
            QuickOption::Downloads => owned("Descargas"),
            QuickOption::Settings => owned("Ajustes"),
            QuickOption::Exit => owned("Salir del modo juego"),
        }
    }
}

// ---------------------------------------------------------------------
// Order of the candidates of an import
// ---------------------------------------------------------------------

pub open spec fn low_title(c: ImportCandidate) -> Seq<char> {
    text_lower(c.title@)
}

/// Candidate `a` is listed before `b`: by title in small letters, then as
/// they were found.
pub open spec fn candidate_before(cs: Seq<ImportCandidate>, a: int, b: int) -> bool {
    ||| seq_lt(low_title(cs[a]), low_title(cs[b]))
    ||| low_title(cs[a]) == low_title(cs[b]) && a < b
}

/// `out` is `cs` in title order.
pub open spec fn is_title_order(cs: Seq<ImportCandidate>, out: Seq<ImportCandidate>) -> bool {
    exists|order: Seq<int>|
        #[trigger] is_candidate_order(cs, order) && out.len() == order.len() && forall|i: int|
            0 <= i < out.len() ==> #[trigger] out[i] == cs[order[i]]
}

pub open spec fn is_candidate_order(cs: Seq<ImportCandidate>, order: Seq<int>) -> bool {
    &&& order.len() == cs.len()
    &&& forall|i: int| 0 <= i < order.len() ==> 0 <= #[trigger] order[i] < cs.len()
    &&& forall|j: int| 0 <= j < cs.len() ==> order.contains(j)
    &&& forall|i: int, k: int|
        0 <= i < k < order.len() ==> candidate_before(cs, #[trigger] order[i], #[trigger] order[k])
}

proof fn lemma_candidate_total(cs: Seq<ImportCandidate>, a: int, b: int)
    requires
        a != b,
    ensures
        candidate_before(cs, a, b) || candidate_before(cs, b, a),
{
    lemma_seq_lt_total(low_title(cs[a]), low_title(cs[b]));
}

proof fn lemma_candidate_transitive(cs: Seq<ImportCandidate>, a: int, b: int, c: int)
    requires
        candidate_before(cs, a, b),
        candidate_before(cs, b, c),
    ensures
        candidate_before(cs, a, c),
{
    let (na, nb, nc) = (low_title(cs[a]), low_title(cs[b]), low_title(cs[c]));
    if seq_lt(na, nb) && seq_lt(nb, nc) {
        lemma_seq_lt_transitive(na, nb, nc);
    }
}

fn candidate_before_at(cs: &Vec<ImportCandidate>, a: usize, b: usize) -> (r: bool)
    requires
        a < cs.len(),
        b < cs.len(),
    ensures
        r == candidate_before(cs@, a as int, b as int),
{
    let la = str_to_lowercase(cs[a].title.as_str());
    let lb = str_to_lowercase(cs[b].title.as_str());
    if text_lt(la.as_str(), lb.as_str()) {
        return true;
    }
    same_text(la.as_str(), lb.as_str()) && a < b
}

fn insert_candidate(cs: &Vec<ImportCandidate>, r: &mut Vec<usize>, j: usize)
    requires
        j < cs.len(),
        forall|i: int| 0 <= i < old(r)@.len() ==> old(r)@[i] < j,
        forall|i: int, k: int|
            0 <= i < k < old(r)@.len() ==> candidate_before(cs@, old(r)@[i] as int, old(r)@[k] as int),
    ensures
        final(r)@.len() == old(r)@.len() + 1,
        forall|i: int| 0 <= i < final(r)@.len() ==> final(r)@[i] <= j,
        forall|x: usize| final(r)@.contains(x) <==> (old(r)@.contains(x) || x == j),
        forall|i: int, k: int|
            0 <= i < k < final(r)@.len() ==> candidate_before(cs@, final(r)@[i] as int, final(r)@[k] as int),
{
    let ghost old_r = r@;
    let mut p: usize = 0;
    while p < r.len() && !candidate_before_at(cs, j, r[p])
        invariant
            p <= r.len(),
            r@ == old_r,
            j < cs.len(),
            forall|i: int| 0 <= i < r@.len() ==> r@[i] < j,
            forall|i: int| 0 <= i < p ==> !candidate_before(cs@, j as int, r@[i] as int),
        decreases r.len() - p,
    {
        p += 1;
    }
    proof {
        assert forall|i: int| 0 <= i < p implies candidate_before(cs@, r@[i] as int, j as int) by {
            lemma_candidate_total(cs@, r@[i] as int, j as int);
        }
        assert forall|k: int| p <= k < r@.len() implies candidate_before(cs@, j as int, r@[k] as int) by {
            if k > p {
                lemma_candidate_transitive(cs@, j as int, r@[p as int] as int, r@[k] as int);
            }
        }
    }
    r.insert(p, j);
    proof {
        assert forall|i: int, k: int| 0 <= i < k < r@.len() implies candidate_before(
            cs@,
            r@[i] as int,
            r@[k] as int,
        ) by {
            if k < p {
                assert(r@[i] == old_r[i] && r@[k] == old_r[k]);
            } else if k == p {
                assert(r@[i] == old_r[i]);
            } else if i < p {
                assert(r@[i] == old_r[i] && r@[k] == old_r[k - 1]);
                lemma_candidate_transitive(cs@, r@[i] as int, j as int, r@[k] as int);
            } else if i == p {
                assert(r@[k] == old_r[k - 1]);
            } else {
                assert(r@[i] == old_r[i - 1] && r@[k] == old_r[k - 1]);
            }
        }
        assert forall|x: usize| r@.contains(x) <==> (old_r.contains(x) || x == j) by {
            if old_r.contains(x) {
                let i0 = choose|i: int| 0 <= i < old_r.len() && old_r[i] == x;
                if i0 < p {
                    assert(r@[i0] == x);
                } else {
                    assert(r@[i0 + 1] == x);
                }
            }
            if x == j {
                assert(r@[p as int] == j);
            }
            if r@.contains(x) {
                let i0 = choose|i: int| 0 <= i < r@.len() && r@[i] == x;
                if i0 < p {
                    assert(old_r[i0] == x);
                } else if i0 > p {
                    assert(old_r[i0 - 1] == x);
                }
            }
        }
        assert forall|i: int| 0 <= i < r@.len() implies r@[i] <= j by {
            if i < p {
                assert(r@[i] == old_r[i]);
            } else if i > p {
                assert(r@[i] == old_r[i - 1]);
            }
        }
    }
}

/// The programs found in a folder, in order of title (small letters),
/// those with the same title as they were found.
pub fn sort_candidates(cs: Vec<ImportCandidate>) -> (out: Vec<ImportCandidate>)
    ensures
        is_title_order(cs@, out@),
{
    let mut r: Vec<usize> = Vec::new();
    let mut j: usize = 0;
    while j < cs.len()
        invariant
            j <= cs.len(),
            r@.len() == j,
            forall|i: int| 0 <= i < r@.len() ==> r@[i] < j,
            forall|x: usize| r@.contains(x) <==> x < j,
            forall|i: int, k: int| 0 <= i < k < r@.len() ==> candidate_before(cs@, r@[i] as int, r@[k] as int),
        decreases cs.len() - j,
    {
        let ghost old_r = r@;
        insert_candidate(&cs, &mut r, j);
        assert forall|x: usize| r@.contains(x) <==> x < j + 1 by {
            if x < j {
                assert(old_r.contains(x));
            }
        }
        assert forall|i: int| 0 <= i < r@.len() implies r@[i] < j + 1 by {
            assert(r@[i] <= j);
        }
        j += 1;
    }
    let ghost order = r@.map_values(|x: usize| x as int);
    assert forall|q: int| 0 <= q < cs@.len() implies order.contains(q) by {
        assert(r@.contains(q as usize));
        let i0 = choose|i: int| 0 <= i < r@.len() && r@[i] == q as usize;
        assert(order[i0] == q);
    }
    let mut out: Vec<ImportCandidate> = Vec::new();
    let mut k: usize = 0;
    while k < r.len()
        invariant
            k <= r.len(),
            r@.len() == cs@.len(),
            order == r@.map_values(|x: usize| x as int),
            forall|i: int| 0 <= i < r@.len() ==> r@[i] < cs@.len(),
            out@.len() == k,
            forall|i: int| 0 <= i < k ==> #[trigger] out@[i] == cs@[order[i]],
        decreases r.len() - k,
    {
        out.push(cs[r[k]].duplicate());
        k += 1;
    }
    assert(is_candidate_order(cs@, order));
    out
}

// ---------------------------------------------------------------------
// Laws of the screens, the notices and the import review
// ---------------------------------------------------------------------

/// Going back right after opening a screen returns to the screen, and the
/// way back, that were there before.
pub proof fn lemma_back_undoes_open(view: Screen, stack: Seq<Screen>, v: Screen)
    ensures
        ({
            let (w, st) = screens_after_push(view, stack, v);
            screens_after_pop(w, st) == (view, stack)
        }),
{
    assert(stack.push(view).drop_last() =~= stack);
}

/// Never more notices than the limit: the newest is always shown, last,
/// and below the limit nothing is dropped.
pub proof fn lemma_toasts_bounded(ts: Seq<Toast>, t: Toast)
    requires
        ts.len() <= MAX_TOASTS,
    ensures
        toasts_after(ts, t).len() <= MAX_TOASTS,
        toasts_after(ts, t).last() == t,
        ts.len() < MAX_TOASTS ==> toasts_after(ts, t) == ts.push(t),
        ts.len() == MAX_TOASTS ==> toasts_after(ts, t) == ts.drop_first().push(t),
{
    if ts.len() == MAX_TOASTS {
        assert(ts.push(t).drop_first() =~= ts.drop_first().push(t));
    }
}

/// Ticking the same candidate twice leaves the list as it was.
pub proof fn lemma_flip_twice(cs: Seq<ImportCandidate>, i: int)
    ensures
        flip_at(flip_at(cs, i), i) == cs,
{
    if 0 <= i < cs.len() {
        assert(flip_at(flip_at(cs, i), i) =~= cs);
    }
}

/// "Tick all" on a list where something is unticked ticks everything; on a
/// list where everything is ticked, it leaves nothing ticked.
pub proof fn lemma_toggle_all_uniform(cs: Seq<ImportCandidate>)
    ensures
        !all_ticked(cs) ==> all_ticked(set_all(cs, true)),
        all_ticked(cs) ==> ticked(set_all(cs, false)).len() == 0,
{
    if all_ticked(cs) {
        lemma_none_ticked(set_all(cs, false));
    }
}

proof fn lemma_none_ticked(cs: Seq<ImportCandidate>)
    requires
        forall|k: int| 0 <= k < cs.len() ==> !(#[trigger] cs[k]).checked,
    ensures
        ticked(cs).len() == 0,
    decreases cs.len(),
{
    if cs.len() > 0 {
        lemma_none_ticked(cs.drop_last());
    }
}

} // verus!
