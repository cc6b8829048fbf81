//! The user's game library.
//!
//! The shell is a neutral front end: it knows three ways of starting
//! something (an executable, a ROM with its emulator, or a system
//! shortcut) and nothing about stores or accounts.

use vstd::prelude::*;

use crate::text::{
    chars_of, char_is_whitespace, char_to_uppercase, contains_text, has_substring,
    lemma_seq_lt_asymmetric, lemma_seq_lt_irreflexive, lemma_seq_lt_total, lemma_seq_lt_transitive,
    owned, push_char, same_text, seq_lt, split_on, split_by, text_lt, char_ws, char_upper, all_ascii,
    is_ascii_char, ascii_upper,
};
use crate::util::{normalize, normalized, stable_id, stable_id_spec};

verus! {

/// How a library entry is started.
#[derive(Debug, Clone)]
pub enum Launch {
    /// Any executable added by the user.
    Executable { path: String, args: Vec<String>, working_dir: Option<String> },
    /// A ROM opened with a configured emulator.
    Rom {
        path: String,
        /// Catalog platform id (`snes`, `psx`, ...).
        platform: String,
        /// A specific emulator; `None` means "the one for the platform".
        emulator_id: Option<String>,
    },
    /// A system shortcut: a `.lnk` or a protocol URI, resolved by the system.
    Shortcut { target: String },
}

pub open spec fn launch_target(launch: Launch) -> Seq<char> {
    match launch {
        Launch::Executable { path, .. } => path@,
        Launch::Rom { path, .. } => path@,
        Launch::Shortcut { target } => target@,
    }
}

/// Whether a path names something that exists on disk. Depends on the
/// disk, so nothing is stated of the answer.
#[verifier::external_body]
pub(crate) fn path_exists(path: &str) -> bool {
    std::path::Path::new(path).exists()
}

/// What `Path::file_stem` gives for a path: the last component without its
/// extension, `None` when there is no file name.
pub uninterp spec fn path_file_stem(path: Seq<char>) -> Option<Seq<char>>;

/// `Path::file_stem`, converted to text.
#[verifier::external_body]
pub(crate) fn file_stem(path: &str) -> (r: Option<String>)
    ensures
        match r {
            Some(s) => path_file_stem(path@) == Some(s@),
            None => path_file_stem(path@) is None,
        },
{
    std::path::Path::new(path).file_stem().map(|s| s.to_string_lossy().to_string())
}

/// Seconds since the Unix epoch, 0 if the clock is before it. Depends on
/// the clock, so nothing is stated of the answer.
#[verifier::external_body]
pub fn now_secs() -> u64 {
    std::time::SystemTime::now().duration_since(std::time::UNIX_EPOCH).map(|d| d.as_secs()).unwrap_or(0)
}

impl Launch {
    /// The path or target that is shown for the entry.
    pub fn target_display(&self) -> (s: String)
        ensures
            s@ == launch_target(*self),
    {
        match self {
            Launch::Executable { path, .. } => path.clone(),
            Launch::Rom { path, .. } => path.clone(),
            Launch::Shortcut { target } => target.clone(),
        }
    }

    /// Does the entry still point at something that exists? A shortcut is
    /// resolved by the system when opened, so it always counts as available.
    pub fn is_available(&self) -> (r: bool)
        ensures
            self is Shortcut ==> r,
    {
        match self {
            Launch::Executable { path, .. } => path_exists(path.as_str()),
            Launch::Rom { path, .. } => path_exists(path.as_str()),
            Launch::Shortcut { .. } => true,
        }
    }
}

#[derive(Debug, Clone)]
pub struct Game {
    pub id: String,
    pub title: String,
    pub launch: Launch,
    /// Free grouping label: "PC", "SNES", "Emuladores"...
    pub collection: String,
    pub cover: Option<String>,
    pub favorite: bool,
    pub added_at: u64,
    pub last_played: Option<u64>,
    pub play_seconds: u64,
    /// Precomputed search key (not stored on disk).
    pub search_key: String,
}

/// A launch description as plain values.
pub enum LaunchView {
    Executable { path: Seq<char>, args: Seq<Seq<char>>, working_dir: Option<Seq<char>> },
    Rom { path: Seq<char>, platform: Seq<char>, emulator_id: Option<Seq<char>> },
    Shortcut { target: Seq<char> },
}

pub open spec fn opt_text(o: Option<String>) -> Option<Seq<char>> {
    match o {
        Some(s) => Some(s@),
        None => None,
    }
}

impl View for Launch {
    type V = LaunchView;

    open spec fn view(&self) -> LaunchView {
        match self {
            Launch::Executable { path, args, working_dir } => LaunchView::Executable {
                path: path@,
                args: args@.map_values(|a: String| a@),
                working_dir: opt_text(*working_dir),
            },
            Launch::Rom { path, platform, emulator_id } => LaunchView::Rom {
                path: path@,
                platform: platform@,
                emulator_id: opt_text(*emulator_id),
            },
            Launch::Shortcut { target } => LaunchView::Shortcut { target: target@ },
        }
    }
}

/// A library entry as plain values.
pub struct GameView {
    pub id: Seq<char>,
    pub title: Seq<char>,
    pub launch: LaunchView,
    pub collection: Seq<char>,
    pub cover: Option<Seq<char>>,
    pub favorite: bool,
    pub added_at: u64,
    pub last_played: Option<u64>,
    pub play_seconds: u64,
    pub search_key: Seq<char>,
}

impl View for Game {
    type V = GameView;

    open spec fn view(&self) -> GameView {
        GameView {
            id: self.id@,
            title: self.title@,
            launch: self.launch@,
            collection: self.collection@,
            cover: opt_text(self.cover),
            favorite: self.favorite,
            added_at: self.added_at,
            last_played: self.last_played,
            play_seconds: self.play_seconds,
            search_key: self.search_key@,
        }
    }
}

/// The identifier of an entry: a stable hash of its target and title.
pub open spec fn game_id(target: Seq<char>, title: Seq<char>) -> Seq<char> {
    stable_id_spec(seq![target, title])
}

// ---------------------------------------------------------------------
// Titles from file names
// ---------------------------------------------------------------------

pub open spec fn separator_to_space(c: char) -> char {
    if c == '_' || c == '.' || c == '-' {
        ' '
    } else {
        c
    }
}

/// One character of the title building: the title so far, whether a word
/// is open, and how many words were started.
pub open spec fn title_step(state: (Seq<char>, bool, nat), c: char) -> (Seq<char>, bool, nat) {
    let c = separator_to_space(c);
    if char_ws(c) {
        (state.0, false, state.2)
    } else if state.1 {
        (state.0.push(c), true, state.2)
    } else {
        let sep = if state.2 > 0 {
            seq![' ']
        } else {
            Seq::empty()
        };
        (state.0 + sep + char_upper(c), true, state.2 + 1)
    }
}

pub open spec fn title_state(s: Seq<char>) -> (Seq<char>, bool, nat)
    decreases s.len(),
{
    if s.len() == 0 {
        (Seq::empty(), false, 0)
    } else {
        title_step(title_state(s.drop_last()), s.last())
    }
}

/// The words of the stem (underscores, dots and dashes count as spaces),
/// each with its first letter capitalised, joined by single spaces; the
/// bare stem if that leaves nothing.
pub open spec fn title_from_stem(stem: Seq<char>) -> Seq<char> {
    let out = title_state(stem).0;
    if out.len() == 0 {
        stem
    } else {
        out
    }
}

/// A character that separates words in a file name: a dash, an
/// underscore, a dot or white space.
pub open spec fn name_separator(c: char) -> bool {
    c == '-' || c == '_' || c == '.' || char_ws(c)
}

/// No dash, underscore or dot.
pub open spec fn free_of_separators(t: Seq<char>) -> bool {
    forall|j: int| 0 <= j < t.len() ==> #[trigger] t[j] != '-' && t[j] != '_' && t[j] != '.'
}

proof fn lemma_title_state_clean(s: Seq<char>)
    requires
        all_ascii(s),
    ensures
        free_of_separators(title_state(s).0),
        (exists|i: int| 0 <= i < s.len() && !name_separator(#[trigger] s[i])) ==> title_state(s).0.len() > 0,
    decreases s.len(),
{
    if s.len() > 0 {
        let p = s.drop_last();
        let c = s.last();
        assert(all_ascii(p)) by {
            assert forall|i: int| 0 <= i < p.len() implies is_ascii_char(#[trigger] p[i]) by {
                assert(p[i] == s[i]);
            }
        }
        lemma_title_state_clean(p);
        assert(is_ascii_char(s[s.len() - 1]));
        let st = title_state(p);
        let m = separator_to_space(c);
        assert(is_ascii_char(m));
        if !char_ws(m) {
            assert(m != '-' && m != '_' && m != '.');
            if !st.1 {
                assert(char_upper(m) == seq![ascii_upper(m)]);
                assert(ascii_upper(m) != '-' && ascii_upper(m) != '_' && ascii_upper(m) != '.');
                let sep = if st.2 > 0 {
                    seq![' ']
                } else {
                    Seq::empty()
                };
                let out = st.0 + sep + char_upper(m);
                assert forall|j: int| 0 <= j < out.len() implies #[trigger] out[j] != '-' && out[j] != '_' && out[j]
                    != '.' by {
                    if j < st.0.len() {
                        assert(out[j] == st.0[j]);
                    }
                }
            } else {
                let out = st.0.push(m);
                assert forall|j: int| 0 <= j < out.len() implies #[trigger] out[j] != '-' && out[j] != '_' && out[j]
                    != '.' by {
                    if j < st.0.len() {
                        assert(out[j] == st.0[j]);
                    }
                }
            }
        }
        if exists|i: int| 0 <= i < s.len() && !name_separator(#[trigger] s[i]) {
            let i = choose|i: int| 0 <= i < s.len() && !name_separator(#[trigger] s[i]);
            if i < p.len() {
                assert(p[i] == s[i]);
            } else {
                assert(!char_ws(m));
            }
        }
    }
}

/// In a title made from an ASCII file name, dashes, underscores and dots
/// have become the spaces between words ("street-fighter" gives "Street
/// Fighter"): none of them is left, unless the name holds nothing but
/// separators, in which case the name itself is the title.
pub proof fn lemma_title_has_no_separators(stem: Seq<char>)
    requires
        all_ascii(stem),
    ensures
        (exists|i: int| 0 <= i < stem.len() && !name_separator(#[trigger] stem[i])) ==> free_of_separators(
            title_from_stem(stem),
        ),
        !(exists|i: int| 0 <= i < stem.len() && !name_separator(#[trigger] stem[i])) ==> title_from_stem(stem)
            == stem,
{
    lemma_title_state_clean(stem);
    if !(exists|i: int| 0 <= i < stem.len() && !name_separator(#[trigger] stem[i])) {
        lemma_title_state_blank(stem);
    }
}

proof fn lemma_title_state_blank(s: Seq<char>)
    requires
        all_ascii(s),
        forall|i: int| 0 <= i < s.len() ==> name_separator(#[trigger] s[i]),
    ensures
        title_state(s).0.len() == 0,
    decreases s.len(),
{
    if s.len() > 0 {
        let p = s.drop_last();
        assert forall|i: int| 0 <= i < p.len() implies name_separator(#[trigger] p[i]) by {
            assert(p[i] == s[i]);
        }
        assert(all_ascii(p)) by {
            assert forall|i: int| 0 <= i < p.len() implies is_ascii_char(#[trigger] p[i]) by {
                assert(p[i] == s[i]);
            }
        }
        lemma_title_state_blank(p);
        assert(name_separator(s[s.len() - 1]));
        assert(is_ascii_char(s[s.len() - 1]));
        assert(char_ws(separator_to_space(s.last())));
    }
}

pub open spec fn title_from_path_spec(path: Seq<char>) -> Seq<char> {
    match path_file_stem(path) {
        Some(stem) => title_from_stem(stem),
        None => title_from_stem("Sin titulo"@),
    }
}

fn title_of_stem(stem: &str) -> (out: String)
    ensures
        out@ == title_from_stem(stem@),
{
    let cs = chars_of(stem);
    let mut out = String::new();
    let mut in_word = false;
    let ghost mut words: nat = 0;
    let mut any_word = false;
    let mut i: usize = 0;
    while i < cs.len()
        invariant
            i <= cs.len(),
            cs@ == stem@,
            (out@, in_word, words) == title_state(stem@.take(i as int)),
            any_word == (words > 0),
        decreases cs.len() - i,
    {
        assert(stem@.take(i + 1).drop_last() == stem@.take(i as int));
        let raw = cs[i];
        let c = if raw == '_' || raw == '.' || raw == '-' {
            ' '
        } else {
            raw
        };
        if char_is_whitespace(c) {
            in_word = false;
        } else if in_word {
            push_char(&mut out, c);
        } else {
            if any_word {
                push_char(&mut out, ' ');
            }
            let upper = char_to_uppercase(c);
            let ghost base = out@;
            let mut j: usize = 0;
            while j < upper.len()
                invariant
                    j <= upper.len(),
                    out@ == base + upper@.take(j as int),
                decreases upper.len() - j,
            {
                push_char(&mut out, upper[j]);
                assert(upper@.take(j + 1) == upper@.take(j as int).push(upper@[j as int]));
                j += 1;
            }
            assert(upper@.take(upper.len() as int) == upper@);
            proof {
                let sep = if words > 0 {
                    seq![' ']
                } else {
                    Seq::<char>::empty()
                };
                assert(out@ == title_state(stem@.take(i as int)).0 + sep + upper@);
                words = words + 1;
            }
            in_word = true;
            any_word = true;
        }
        i += 1;
    }
    assert(stem@.take(cs.len() as int) == stem@);
    if out.as_str().is_empty() {
        owned(stem)
    } else {
        out
    }
}

/// A copy of a list of texts.
pub fn copy_strings(v: &Vec<String>) -> (r: Vec<String>)
    ensures
        r@ == v@,
{
    let mut r: Vec<String> = Vec::new();
    let mut i: usize = 0;
    while i < v.len()
        invariant
            i <= v.len(),
            r@ == v@.take(i as int),
        decreases v.len() - i,
    {
        r.push(v[i].clone());
        assert(v@.take(i + 1) == v@.take(i as int).push(v@[i as int]));
        i += 1;
    }
    assert(v@.take(v.len() as int) == v@);
    r
}

pub fn copy_opt_string(v: &Option<String>) -> (r: Option<String>)
    ensures
        r == *v,
{
    match v {
        Some(s) => Some(s.clone()),
        None => None,
    }
}

impl Launch {
    /// A copy of the launch description.
    pub fn duplicate(&self) -> (r: Launch)
        ensures
            r@ == self@,
    {
        match self {
            Launch::Executable { path, args, working_dir } => {
                let copied = copy_strings(args);
                assert(copied@.map_values(|a: String| a@) == args@.map_values(|a: String| a@));
                Launch::Executable {
                    path: path.clone(),
                    args: copied,
                    working_dir: copy_opt_string(working_dir),
                }
            },
            Launch::Rom { path, platform, emulator_id } => Launch::Rom {
                path: path.clone(),
                platform: platform.clone(),
                emulator_id: copy_opt_string(emulator_id),
            },
            Launch::Shortcut { target } => Launch::Shortcut { target: target.clone() },
        }
    }
}

impl Game {
    /// A copy of the entry.
    pub fn duplicate(&self) -> (r: Game)
        ensures
            r@ == self@,
    {
        Game {
            id: self.id.clone(),
            title: self.title.clone(),
            launch: self.launch.duplicate(),
            collection: self.collection.clone(),
            cover: copy_opt_string(&self.cover),
            favorite: self.favorite,
            added_at: self.added_at,
            last_played: self.last_played,
            play_seconds: self.play_seconds,
            search_key: self.search_key.clone(),
        }
    }
}

impl Game {
    /// A new entry: identifier from target and title, search key from the
    /// title, added at `now` (seconds since the Unix epoch).
    pub fn new_at(title: &str, launch: Launch, now: u64) -> (g: Game)
        ensures
            g.title@ == title@,
            g.launch@ == launch@,
            g.id@ == game_id(launch_target(launch), title@),
            g.search_key@ == normalized(title@),
            g.collection@.len() == 0,
            g.cover is None,
            !g.favorite,
            g.last_played is None,
            g.play_seconds == 0,
            g.added_at == now,
    {
        let target = launch.target_display();
        let launch = launch;
        let parts: [&str; 2] = [target.as_str(), title];
        let id = stable_id(parts.as_slice());
        assert(crate::util::texts_of(parts@) =~= seq![target@, title@]);
        let search_key = normalize(title);
        Game {
            id,
            title: owned(title),
            launch,
            collection: String::new(),
            cover: None,
            favorite: false,
            added_at: now,
            last_played: None,
            play_seconds: 0,
            search_key,
        }
    }

    /// A new entry, added now by the clock.
    pub fn new(title: &str, launch: Launch) -> (g: Game)
        ensures
            g.title@ == title@,
            g.launch@ == launch@,
            g.id@ == game_id(launch_target(launch), title@),
            g.search_key@ == normalized(title@),
            g.collection@.len() == 0,
            g.cover is None,
            !g.favorite,
            g.last_played is None,
            g.play_seconds == 0,
    {
        Game::new_at(title, launch, now_secs())
    }

    /// A readable title from a file name: no extension, separators turned
    /// into spaces, each word capitalised.
    pub fn title_from_path(path: &str) -> (t: String)
        ensures
            t@ == title_from_path_spec(path@),
    {
        match file_stem(path) {
            Some(stem) => title_of_stem(stem.as_str()),
            None => title_of_stem("Sin titulo"),
        }
    }
}

// ---------------------------------------------------------------------
// The library
// ---------------------------------------------------------------------

#[derive(Debug, Clone, Copy, PartialEq, Eq)]
pub enum Sort {
    Title,
    LastPlayed,
    PlayTime,
    Added,
}

#[derive(Debug, Clone)]
pub struct Library {
    pub games: Vec<Game>,
}

/// Counters shown in the shell's header.
#[derive(Debug, Clone, Copy, PartialEq, Eq)]
pub struct LibraryStats {
    pub total: u64,
    pub favoritos: u64,
    pub horas: u64,
}

/// The entry starts exactly this executable.
pub open spec fn starts_executable(g: Game, path: Seq<char>) -> bool {
    g.launch@ matches LaunchView::Executable { path: p, .. } && p == path
}

/// Position of the first entry with this identifier, -1 if none.
pub open spec fn first_with_id(games: Seq<Game>, id: Seq<char>) -> int
    decreases games.len(),
{
    if games.len() == 0 {
        -1
    } else {
        let rest = first_with_id(games.drop_last(), id);
        if rest >= 0 {
            rest
        } else if games.last().id@ == id {
            games.len() - 1
        } else {
            -1
        }
    }
}

pub proof fn lemma_first_with_id(games: Seq<Game>, id: Seq<char>)
    ensures
        -1 <= first_with_id(games, id) < games.len(),
        first_with_id(games, id) >= 0 ==> games[first_with_id(games, id)].id@ == id,
        forall|j: int|
            0 <= j < games.len() && (first_with_id(games, id) < 0 || j < first_with_id(games, id))
                ==> games[j].id@ != id,
    decreases games.len(),
{
    if games.len() > 0 {
        let rest = games.drop_last();
        lemma_first_with_id(rest, id);
        assert forall|j: int| 0 <= j < rest.len() implies games[j] == rest[j] by {}
    }
}

/// Two entries agree on everything but the search key.
pub open spec fn same_except_key(a: GameView, b: GameView) -> bool {
    a == GameView { search_key: a.search_key, ..b }
}

pub open spec fn ids_unique(games: Seq<Game>) -> bool {
    forall|i: int, j: int| 0 <= i < j < games.len() ==> games[i].id@ != games[j].id@
}

/// Every entry's search key is the normalisation of its current title.
pub open spec fn keys_in_sync(games: Seq<Game>) -> bool {
    forall|i: int| 0 <= i < games.len() ==> (#[trigger] games[i]).search_key@ == normalized(
        games[i].title@,
    )
}

pub open spec fn count_favorites(games: Seq<Game>) -> nat
    decreases games.len(),
{
    if games.len() == 0 {
        0
    } else {
        count_favorites(games.drop_last()) + if games.last().favorite {
            1nat
        } else {
            0nat
        }
    }
}

pub open spec fn total_play_seconds(games: Seq<Game>) -> nat
    decreases games.len(),
{
    if games.len() == 0 {
        0
    } else {
        total_play_seconds(games.drop_last()) + (games.last().play_seconds as nat)
    }
}

/// The query matches when it is empty or every space-separated piece of
/// it occurs in the entry's search key.
pub open spec fn query_matches(key: Seq<char>, needle: Seq<char>) -> bool {
    needle.len() == 0 || forall|k: int|
        0 <= k < split_by(needle, ' ').len() ==> has_substring(key, #[trigger] split_by(needle, ' ')[k])
}

pub open spec fn in_view(
    g: Game,
    needle: Seq<char>,
    collection: Option<Seq<char>>,
    favorites_only: bool,
) -> bool {
    &&& !favorites_only || g.favorite
    &&& match collection {
        None => true,
        Some(c) => g.collection@ == c,
    }
    &&& query_matches(g.search_key@, needle)
}

/// Primary sort value (smaller first): most recent, longest or newest
/// first; an entry never played goes after every played one.
pub open spec fn sort_rank(g: Game, sort: Sort) -> int {
    match sort {
        Sort::Title => 0,
        Sort::LastPlayed => match g.last_played {
            None => 1,
            Some(t) => -(t as int),
        },
        Sort::PlayTime => -(g.play_seconds as int),
        Sort::Added => -(g.added_at as int),
    }
}

/// Entry `a` is listed before entry `b`: by the sort's primary value, then
/// by search key, then (the sort is stable) by position in the library.
pub open spec fn listed_before(games: Seq<Game>, sort: Sort, a: int, b: int) -> bool {
    let ra = sort_rank(games[a], sort);
    let rb = sort_rank(games[b], sort);
    ||| ra < rb
    ||| ra == rb && seq_lt(games[a].search_key@, games[b].search_key@)
    ||| ra == rb && games[a].search_key@ == games[b].search_key@ && a < b
}

/// Game `a` may stand before game `b` in a view sorted by `sort`: by title,
/// search keys in alphabetical order; by last played, `b` was played no
/// later than `a` (a game never played after every played one); by play
/// time, `a` was played at least as long as `b`; by date added, `a` was
/// added no earlier than `b`.
pub open spec fn sorted_pair(a: Game, b: Game, sort: Sort) -> bool {
    match sort {
        Sort::Title => !seq_lt(b.search_key@, a.search_key@),
        Sort::LastPlayed => match b.last_played {
            Some(tb) => a.last_played matches Some(ta) && ta >= tb,
            None => true,
        },
        Sort::PlayTime => a.play_seconds >= b.play_seconds,
        Sort::Added => a.added_at >= b.added_at,
    }
}

/// What each sort means: most recently played first, never played last;
/// most played first; newest first; by title in alphabetical order.
pub proof fn lemma_listed_before_sorted(games: Seq<Game>, sort: Sort, a: int, b: int)
    requires
        listed_before(games, sort, a, b),
    ensures
        sorted_pair(games[a], games[b], sort),
{
    if sort == Sort::Title {
        let (ka, kb) = (games[a].search_key@, games[b].search_key@);
        if seq_lt(ka, kb) {
            lemma_seq_lt_asymmetric(ka, kb);
        } else if ka == kb {
            lemma_seq_lt_irreflexive(ka);
        }
    }
}

pub proof fn lemma_listed_before_total(games: Seq<Game>, sort: Sort, a: int, b: int)
    requires
        a != b,
    ensures
        listed_before(games, sort, a, b) || listed_before(games, sort, b, a),
{
    lemma_seq_lt_total(games[a].search_key@, games[b].search_key@);
}

pub proof fn lemma_listed_before_transitive(games: Seq<Game>, sort: Sort, a: int, b: int, c: int)
    requires
        listed_before(games, sort, a, b),
        listed_before(games, sort, b, c),
    ensures
        listed_before(games, sort, a, c),
{
    let (ka, kb, kc) = (games[a].search_key@, games[b].search_key@, games[c].search_key@);
    if seq_lt(ka, kb) && seq_lt(kb, kc) {
        lemma_seq_lt_transitive(ka, kb, kc);
    }
}

pub proof fn lemma_listed_before_asymmetric(games: Seq<Game>, sort: Sort, a: int, b: int)
    requires
        listed_before(games, sort, a, b),
    ensures
        !listed_before(games, sort, b, a),
{
    let (ka, kb) = (games[a].search_key@, games[b].search_key@);
    if seq_lt(ka, kb) {
        lemma_seq_lt_asymmetric(ka, kb);
    }
    if ka == kb {
        lemma_seq_lt_irreflexive(ka);
    }
}

fn rank_lt(a: &Game, b: &Game, sort: Sort) -> (r: bool)
    ensures
        r == (sort_rank(*a, sort) < sort_rank(*b, sort)),
{
    match sort {
        Sort::Title => false,
        Sort::LastPlayed => match (a.last_played, b.last_played) {
            (Some(x), Some(y)) => x > y,
            (Some(_), None) => true,
            _ => false,
        },
        Sort::PlayTime => a.play_seconds > b.play_seconds,
        Sort::Added => a.added_at > b.added_at,
    }
}

fn rank_eq(a: &Game, b: &Game, sort: Sort) -> (r: bool)
    ensures
        r == (sort_rank(*a, sort) == sort_rank(*b, sort)),
{
    match sort {
        Sort::Title => true,
        Sort::LastPlayed => match (a.last_played, b.last_played) {
            (Some(x), Some(y)) => x == y,
            (None, None) => true,
            _ => false,
        },
        Sort::PlayTime => a.play_seconds == b.play_seconds,
        Sort::Added => a.added_at == b.added_at,
    }
}

fn before(games: &Vec<Game>, sort: Sort, a: usize, b: usize) -> (r: bool)
    requires
        a < games.len(),
        b < games.len(),
    ensures
        r == listed_before(games@, sort, a as int, b as int),
{
    let ga = &games[a];
    let gb = &games[b];
    if rank_lt(ga, gb, sort) {
        return true;
    }
    if !rank_eq(ga, gb, sort) {
        return false;
    }
    if text_lt(ga.search_key.as_str(), gb.search_key.as_str()) {
        return true;
    }
    same_text(ga.search_key.as_str(), gb.search_key.as_str()) && a < b
}

fn matches_query(key: &Vec<char>, tokens: &Vec<Vec<char>>) -> (r: bool)
    ensures
        r == (forall|k: int| 0 <= k < tokens.len() ==> has_substring(key@, #[trigger] tokens@[k]@)),
{
    let mut k: usize = 0;
    while k < tokens.len()
        invariant
            k <= tokens.len(),
            forall|m: int| 0 <= m < k ==> has_substring(key@, #[trigger] tokens@[m]@),
        decreases tokens.len() - k,
    {
        if !contains_text(key, &tokens[k]) {
            return false;
        }
        k += 1;
    }
    true
}

impl Library {
    pub fn new() -> (lib: Library)
        ensures
            lib.games@.len() == 0,
    {
        Library { games: Vec::new() }
    }

    /// A library read back from disk: the search keys, which are not
    /// stored, are computed from the titles.
    pub fn from_loaded(games: Vec<Game>) -> (lib: Library)
        ensures
            lib.games@.len() == games@.len(),
            keys_in_sync(lib.games@),
            forall|i: int|
                0 <= i < games@.len() ==> {
                    same_except_key((#[trigger] lib.games@[i])@, games@[i]@)
                },
    {
        let mut out: Vec<Game> = Vec::new();
        let mut i: usize = 0;
        while i < games.len()
            invariant
                i <= games.len(),
                out@.len() == i,
                keys_in_sync(out@),
                forall|k: int|
                    0 <= k < i ==> {
                        same_except_key((#[trigger] out@[k])@, games@[k]@)
                    },
            decreases games.len() - i,
        {
            let mut g = games[i].duplicate();
            g.search_key = normalize(g.title.as_str());
            out.push(g);
            i += 1;
        }
        Library { games: out }
    }

    /// Adds an entry; if one with the same identifier is already there,
    /// nothing changes and `false` is returned.
    pub fn add(&mut self, game: Game) -> (added: bool)
        ensures
            added == (forall|j: int|
                0 <= j < old(self).games@.len() ==> old(self).games@[j].id@ != game.id@),
            added ==> final(self).games@ == old(self).games@.push(game),
            !added ==> final(self).games@ == old(self).games@,
            ids_unique(old(self).games@) ==> ids_unique(final(self).games@),
            keys_in_sync(old(self).games@) && game.search_key@ == normalized(game.title@)
                ==> keys_in_sync(final(self).games@),
    {
        let mut j: usize = 0;
        while j < self.games.len()
            invariant
                j <= self.games.len(),
                self.games@ == old(self).games@,
                forall|k: int| 0 <= k < j ==> self.games@[k].id@ != game.id@,
            decreases self.games.len() - j,
        {
            if same_text(self.games[j].id.as_str(), game.id.as_str()) {
                return false;
            }
            j += 1;
        }
        self.games.push(game);
        true
    }

    fn position(&self, id: &str) -> (p: Option<usize>)
        ensures
            match p {
                Some(i) => i < self.games@.len() && i as int == first_with_id(self.games@, id@)
                    && self.games@[i as int].id@ == id@,
                None => first_with_id(self.games@, id@) == -1,
            },
    {
        proof {
            lemma_first_with_id(self.games@, id@);
        }
        let mut j: usize = 0;
        while j < self.games.len()
            invariant
                j <= self.games.len(),
                forall|k: int| 0 <= k < j ==> self.games@[k].id@ != id@,
                -1 <= first_with_id(self.games@, id@) < self.games@.len(),
                first_with_id(self.games@, id@) >= 0 ==> self.games@[first_with_id(
                    self.games@,
                    id@,
                )].id@ == id@,
                forall|k: int|
                    0 <= k < self.games@.len() && (first_with_id(self.games@, id@) < 0 || k
                        < first_with_id(self.games@, id@)) ==> self.games@[k].id@ != id@,
            decreases self.games.len() - j,
        {
            if same_text(self.games[j].id.as_str(), id) {
                return Some(j);
            }
            j += 1;
        }
        None
    }

    /// Removes the entry with this identifier and returns it.
    pub fn remove(&mut self, id: &str) -> (r: Option<Game>)
        ensures
            ({
                let p = first_with_id(old(self).games@, id@);
                match r {
                    Some(g) => p >= 0 && g == old(self).games@[p] && final(self).games@ == old(
                        self,
                    ).games@.remove(p),
                    None => p == -1 && final(self).games@ == old(self).games@,
                }
            }),
            keys_in_sync(old(self).games@) ==> keys_in_sync(final(self).games@),
    {
        match self.position(id) {
            Some(i) => {
                let ghost before = self.games@;
                let g = self.games.remove(i);
                proof {
                    assert forall|k: int| 0 <= k < self.games@.len() implies self.games@[k] == (if k
                        < i {
                        before[k]
                    } else {
                        before[k + 1]
                    }) by {}
                }
                Some(g)
            },
            None => None,
        }
    }

    /// The entry with this identifier.
    pub fn get(&self, id: &str) -> (r: Option<&Game>)
        ensures
            ({
                let p = first_with_id(self.games@, id@);
                match r {
                    Some(g) => p >= 0 && *g == self.games@[p],
                    None => p == -1,
                }
            }),
    {
        match self.position(id) {
            Some(i) => Some(&self.games[i]),
            None => None,
        }
    }

    /// Some entry starts exactly this executable.
    pub fn has_executable(&self, path: &str) -> (r: bool)
        ensures
            r == exists|k: int| 0 <= k < self.games@.len() && starts_executable(#[trigger] self.games@[k], path@),
    {
        let mut k: usize = 0;
        while k < self.games.len()
            invariant
                k <= self.games@.len(),
                forall|j: int| 0 <= j < k ==> !starts_executable(#[trigger] self.games@[j], path@),
            decreases self.games.len() - k,
        {
            match &self.games[k].launch {
                Launch::Executable { path: p, .. } => {
                    if same_text(p.as_str(), path) {
                        return true;
                    }
                },
                _ => {},
            }
            k += 1;
        }
        false
    }

    /// The entry with this identifier, to change in place.
    pub fn get_mut(&mut self, id: &str) -> (r: Option<&mut Game>)
        ensures
            ({
                let p = first_with_id(old(self).games@, id@);
                match r {
                    Some(g) => p >= 0 && *g == old(self).games@[p] && final(self).games@ == old(
                        self,
                    ).games@.update(p, *final(g)),
                    None => p == -1 && final(self).games@ == old(self).games@,
                }
            }),
    {
        match self.position(id) {
            Some(i) => Some(&mut self.games[i]),
            None => None,
        }
    }

    /// Records the end of a session at `now` (seconds since the Unix
    /// epoch): adds the seconds played and stamps the time of the last
    /// session.
    pub fn record_session_at(&mut self, id: &str, seconds: u64, now: u64)
        requires
            ({
                let p = first_with_id(old(self).games@, id@);
                p >= 0 ==> old(self).games@[p].play_seconds + seconds <= u64::MAX
            }),
        ensures
            ({
                let p = first_with_id(old(self).games@, id@);
                if p >= 0 {
                    let (a, b) = (final(self).games@[p]@, old(self).games@[p]@);
                    &&& final(self).games@.len() == old(self).games@.len()
                    &&& forall|k: int|
                        0 <= k < old(self).games@.len() && k != p ==> final(self).games@[k]
                            == old(self).games@[k]
                    &&& a.play_seconds == b.play_seconds + seconds
                    &&& a.last_played == Some(now)
                    &&& a == GameView { play_seconds: a.play_seconds, last_played: a.last_played, ..b }
                } else {
                    final(self).games@ == old(self).games@
                }
            }),
    {
        if let Some(i) = self.position(id) {
            let mut g = self.games[i].duplicate();
            g.play_seconds = g.play_seconds + seconds;
            g.last_played = Some(now);
            self.games.set(i, g);
        }
    }

    /// Records the end of a session: adds the seconds played and stamps the
    /// time of the last session.
    pub fn record_session(&mut self, id: &str, seconds: u64)
        requires
            ({
                let p = first_with_id(old(self).games@, id@);
                p >= 0 ==> old(self).games@[p].play_seconds + seconds <= u64::MAX
            }),
        ensures
            ({
                let p = first_with_id(old(self).games@, id@);
                if p >= 0 {
                    let (a, b) = (final(self).games@[p]@, old(self).games@[p]@);
                    &&& final(self).games@.len() == old(self).games@.len()
                    &&& forall|k: int|
                        0 <= k < old(self).games@.len() && k != p ==> final(self).games@[k]
                            == old(self).games@[k]
                    &&& a.play_seconds == b.play_seconds + seconds
                    &&& a.last_played is Some
                    &&& a == GameView { play_seconds: a.play_seconds, last_played: a.last_played, ..b }
                } else {
                    final(self).games@ == old(self).games@
                }
            }),
    {
        self.record_session_at(id, seconds, now_secs());
    }

    /// Renames an entry and recomputes its search key at the same time, so
    /// that the two never drift apart.
    pub fn rename(&mut self, id: &str, title: &str) -> (done: bool)
        ensures
            ({
                let p = first_with_id(old(self).games@, id@);
                &&& done == (p >= 0)
                &&& final(self).games@.len() == old(self).games@.len()
                &&& forall|k: int|
                    0 <= k < old(self).games@.len() && k != p ==> final(self).games@[k] == old(
                        self,
                    ).games@[k]
                &&& p >= 0 ==> {
                    let (a, b) = (final(self).games@[p]@, old(self).games@[p]@);
                    &&& a.title == title@
                    &&& a.search_key == normalized(title@)
                    &&& a == GameView { title: a.title, search_key: a.search_key, ..b }
                }
            }),
            keys_in_sync(old(self).games@) ==> keys_in_sync(final(self).games@),
    {
        match self.position(id) {
            Some(i) => {
                let mut g = self.games[i].duplicate();
                g.title = owned(title);
                g.search_key = normalize(title);
                self.games.set(i, g);
                true
            },
            None => false,
        }
    }

    /// The collections in use, without repeats, in ascending order.
    pub fn collections(&self) -> (r: Vec<String>)
        ensures
            forall|i: int, k: int| 0 <= i < k < r@.len() ==> seq_lt(r@[i]@, r@[k]@),
            forall|i: int|
                0 <= i < r@.len() ==> (#[trigger] r@[i])@.len() > 0 && exists|j: int|
                    0 <= j < self.games@.len() && self.games@[j].collection@ == r@[i]@,
            forall|j: int|
                0 <= j < self.games@.len() && (#[trigger] self.games@[j]).collection@.len() > 0
                    ==> exists|i: int| 0 <= i < r@.len() && r@[i]@ == self.games@[j].collection@,
    {
        let mut seen: Vec<String> = Vec::new();
        let mut j: usize = 0;
        while j < self.games.len()
            invariant
                j <= self.games.len(),
                forall|i: int, k: int| 0 <= i < k < seen@.len() ==> seq_lt(seen@[i]@, seen@[k]@),
                forall|i: int|
                    0 <= i < seen@.len() ==> (#[trigger] seen@[i])@.len() > 0 && exists|m: int|
                        0 <= m < self.games@.len() && self.games@[m].collection@ == seen@[i]@,
                forall|m: int|
                    0 <= m < j && (#[trigger] self.games@[m]).collection@.len() > 0 ==> exists|
                        i: int,
                    | 0 <= i < seen@.len() && seen@[i]@ == self.games@[m].collection@,
            decreases self.games.len() - j,
        {
            let c = &self.games[j].collection;
            if !c.as_str().is_empty() {
                // First position whose text is not below `c`.
                let mut p: usize = 0;
                while p < seen.len() && text_lt(seen[p].as_str(), c.as_str())
                    invariant
                        p <= seen.len(),
                        forall|i: int| 0 <= i < p ==> seq_lt(seen@[i]@, c@),
                    decreases seen.len() - p,
                {
                    p += 1;
                }
                if p < seen.len() && same_text(seen[p].as_str(), c.as_str()) {
                    // already listed
                } else {
                    proof {
                        if p < seen.len() {
                            lemma_seq_lt_total(seen@[p as int]@, c@);
                        }
                        assert forall|k: int| p <= k < seen@.len() implies seq_lt(
                            c@,
                            seen@[k]@,
                        ) by {
                            if k > p {
                                lemma_seq_lt_transitive(c@, seen@[p as int]@, seen@[k]@);
                            }
                        }
                    }
                    let ghost old_seen = seen@;
                    seen.insert(p, c.clone());
                    proof {
                        assert forall|i: int, k: int|
                            0 <= i < k < seen@.len() implies seq_lt(seen@[i]@, seen@[k]@) by {
                            if k < p {
                            } else if k == p {
                            } else if i < p {
                                lemma_seq_lt_transitive(seen@[i]@, c@, seen@[k]@);
                            } else if i == p {
                            } else {
                                assert(seen@[i] == old_seen[i - 1]);
                                assert(seen@[k] == old_seen[k - 1]);
                            }
                        }
                        assert forall|i: int| 0 <= i < seen@.len() implies (#[trigger] seen@[i])@.len()
                            > 0 && exists|m: int|
                            0 <= m < self.games@.len() && self.games@[m].collection@
                                == seen@[i]@ by {
                            if i == p {
                                assert(self.games@[j as int].collection@ == seen@[i]@);
                            } else if i > p {
                                assert(seen@[i] == old_seen[i - 1]);
                            } else {
                                assert(seen@[i] == old_seen[i]);
                            }
                        }
                        assert forall|m: int|
                            0 <= m < j + 1 && (#[trigger] self.games@[m]).collection@.len()
                                > 0 implies exists|i: int|
                            0 <= i < seen@.len() && seen@[i]@ == self.games@[m].collection@ by {
                            if m == j {
                                assert(seen@[p as int]@ == self.games@[m].collection@);
                            } else {
                                let i0 = choose|i: int|
                                    0 <= i < old_seen.len() && old_seen[i]@
                                        == self.games@[m].collection@;
                                if i0 < p {
                                    assert(seen@[i0] == old_seen[i0]);
                                } else {
                                    assert(seen@[i0 + 1] == old_seen[i0]);
                                }
                            }
                        }
                    }
                }
            }
            j += 1;
        }
        seen
    }

    /// Filtered and sorted view, as positions into `games` (the interface
    /// redraws every frame and must not clone the entries).
    pub fn view(&self, query: &str, collection: Option<&str>, sort: Sort, favorites_only: bool) -> (r:
        Vec<usize>)
        ensures
            forall|i: int| 0 <= i < r@.len() ==> r@[i] < self.games@.len(),
            forall|j: int|
                0 <= j < self.games@.len() ==> (r@.contains(j as usize) <==> in_view(
                    #[trigger] self.games@[j],
                    normalized(query@),
                    match collection {
                        Some(c) => Some(c@),
                        None => None,
                    },
                    favorites_only,
                )),
            forall|i: int, k: int|
                0 <= i < k < r@.len() ==> listed_before(
                    self.games@,
                    sort,
                    r@[i] as int,
                    r@[k] as int,
                ),
            forall|i: int, k: int|
                0 <= i < k < r@.len() ==> sorted_pair(
                    self.games@[r@[i] as int],
                    self.games@[r@[k] as int],
                    sort,
                ),
    {
        let needle = normalize(query);
        let needle_chars = chars_of(needle.as_str());
        let tokens = split_on(&needle_chars, ' ');
        let ghost coll = match collection {
            Some(c) => Some(c@),
            None => None::<Seq<char>>,
        };
        let mut r: Vec<usize> = Vec::new();
        let mut j: usize = 0;
        while j < self.games.len()
            invariant
                j <= self.games.len(),
                needle@ == normalized(query@),
                needle_chars@ == needle@,
                tokens@.map_values(|p: Vec<char>| p@) == split_by(needle@, ' '),
                coll == match collection {
                    Some(c) => Some(c@),
                    None => None,
                },
                forall|i: int| 0 <= i < r@.len() ==> r@[i] < j,
                forall|m: int|
                    0 <= m < j ==> (r@.contains(m as usize) <==> in_view(
                        #[trigger] self.games@[m],
                        needle@,
                        coll,
                        favorites_only,
                    )),
                forall|i: int, k: int|
                    0 <= i < k < r@.len() ==> listed_before(
                        self.games@,
                        sort,
                        r@[i] as int,
                        r@[k] as int,
                    ),
            decreases self.games.len() - j,
        {
            let g = &self.games[j];
            let fav_ok = !favorites_only || g.favorite;
            let coll_ok = match collection {
                None => true,
                Some(c) => same_text(g.collection.as_str(), c),
            };
            let query_ok = if needle_chars.len() == 0 {
                assert(needle@.len() == 0);
                true
            } else {
                let key = chars_of(g.search_key.as_str());
                let ok = matches_query(&key, &tokens);
                proof {
                    assert(tokens@.len() == split_by(needle@, ' ').len());
                    assert forall|k: int| 0 <= k < tokens@.len() implies tokens@[k]@ == split_by(
                        needle@,
                        ' ',
                    )[k] by {
                        assert(tokens@.map_values(|p: Vec<char>| p@)[k] == tokens@[k]@);
                    }
                    assert(key@ == g.search_key@);
                    if ok {
                        assert forall|k: int| 0 <= k < split_by(needle@, ' ').len() implies has_substring(
                            g.search_key@,
                            #[trigger] split_by(needle@, ' ')[k],
                        ) by {
                            assert(tokens@[k]@ == split_by(needle@, ' ')[k]);
                        }
                    } else {
                        let k0 = choose|k: int|
                            0 <= k < tokens.len() && !has_substring(key@, #[trigger] tokens@[k]@);
                        assert(tokens@[k0]@ == split_by(needle@, ' ')[k0]);
                        assert(!has_substring(g.search_key@, split_by(needle@, ' ')[k0]));
                    }
                }
                ok
            };
            assert(query_ok == query_matches(g.search_key@, needle@));
            assert(fav_ok && coll_ok && query_ok <==> in_view(
                self.games@[j as int],
                needle@,
                coll,
                favorites_only,
            ));
            let ghost old_r = r@;
            if fav_ok && coll_ok && query_ok {
                let mut p: usize = 0;
                while p < r.len() && !before(&self.games, sort, j, r[p])
                    invariant
                        p <= r.len(),
                        j < self.games.len(),
                        forall|i: int| 0 <= i < r@.len() ==> r@[i] < j,
                        forall|i: int|
                            0 <= i < p ==> !listed_before(self.games@, sort, j as int, r@[i] as int),
                    decreases r.len() - p,
                {
                    p += 1;
                }
                proof {
                    assert forall|i: int| 0 <= i < p implies listed_before(
                        self.games@,
                        sort,
                        r@[i] as int,
                        j as int,
                    ) by {
                        lemma_listed_before_total(self.games@, sort, r@[i] as int, j as int);
                    }
                    assert forall|k: int| p <= k < r@.len() implies listed_before(
                        self.games@,
                        sort,
                        j as int,
                        r@[k] as int,
                    ) by {
                        if k > p {
                            lemma_listed_before_transitive(
                                self.games@,
                                sort,
                                j as int,
                                r@[p as int] as int,
                                r@[k] as int,
                            );
                        }
                    }
                }
                r.insert(p, j);
                proof {
                    assert forall|i: int, k: int| 0 <= i < k < r@.len() implies listed_before(
                        self.games@,
                        sort,
                        r@[i] as int,
                        r@[k] as int,
                    ) by {
                        if k < p {
                            assert(r@[i] == old_r[i] && r@[k] == old_r[k]);
                        } else if k == p {
                            assert(r@[i] == old_r[i]);
                        } else if i < p {
                            assert(r@[i] == old_r[i] && r@[k] == old_r[k - 1]);
                            lemma_listed_before_transitive(
                                self.games@,
                                sort,
                                r@[i] as int,
                                j as int,
                                r@[k] as int,
                            );
                        } else if i == p {
                            assert(r@[k] == old_r[k - 1]);
                        } else {
                            assert(r@[i] == old_r[i - 1] && r@[k] == old_r[k - 1]);
                        }
                    }
                    assert forall|m: int| 0 <= m < j + 1 implies (r@.contains(m as usize)
                        <==> in_view(#[trigger] self.games@[m], needle@, coll, favorites_only)) by {
                        if m < j {
                            if old_r.contains(m as usize) {
                                let i0 = choose|i: int| 0 <= i < old_r.len() && old_r[i] == m as usize;
                                if i0 < p {
                                    assert(r@[i0] == m as usize);
                                } else {
                                    assert(r@[i0 + 1] == m as usize);
                                }
                            }
                            if r@.contains(m as usize) {
                                let i0 = choose|i: int| 0 <= i < r@.len() && r@[i] == m as usize;
                                if i0 < p {
                                    assert(old_r[i0] == m as usize);
                                } else if i0 > p {
                                    assert(old_r[i0 - 1] == m as usize);
                                }
                            }
                        } else {
                            assert(r@[p as int] == j);
                        }
                    }
                    assert forall|i: int| 0 <= i < r@.len() implies r@[i] < j + 1 by {
                        if i < p {
                            assert(r@[i] == old_r[i]);
                        } else if i > p {
                            assert(r@[i] == old_r[i - 1]);
                        }
                    }
                }
            } else {
                proof {
                    assert(!r@.contains(j)) by {
                        if r@.contains(j) {
                            let i0 = choose|i: int| 0 <= i < r@.len() && r@[i] == j;
                        }
                    }
                }
            }
            j += 1;
        }
        proof {
            assert forall|i: int, k: int| 0 <= i < k < r@.len() implies sorted_pair(
                self.games@[r@[i] as int],
                self.games@[r@[k] as int],
                sort,
            ) by {
                lemma_listed_before_sorted(self.games@, sort, r@[i] as int, r@[k] as int);
            }
        }
        r
    }

    /// Counters for the header: entries, favourites and whole hours played.
    pub fn stats(&self) -> (s: LibraryStats)
        requires
            total_play_seconds(self.games@) <= u64::MAX,
        ensures
            s.total == self.games@.len(),
            s.favoritos == count_favorites(self.games@),
            s.horas == total_play_seconds(self.games@) / 3600,
    {
        let mut favorites: u64 = 0;
        let mut seconds: u64 = 0;
        let mut j: usize = 0;
        while j < self.games.len()
            invariant
                j <= self.games.len(),
                favorites == count_favorites(self.games@.take(j as int)),
                seconds == total_play_seconds(self.games@.take(j as int)),
                favorites <= j,
                total_play_seconds(self.games@) <= u64::MAX,
            decreases self.games.len() - j,
        {
            assert(self.games@.take(j + 1).drop_last() == self.games@.take(j as int));
            proof {
                lemma_total_prefix(self.games@, j + 1);
                assert(self.games@.take(j + 1).last() == self.games@[j as int]);
            }
            if self.games[j].favorite {
                favorites = favorites + 1;
            }
            seconds = seconds + self.games[j].play_seconds;
            j += 1;
        }
        assert(self.games@.take(self.games.len() as int) == self.games@);
        LibraryStats { total: self.games.len() as u64, favoritos: favorites, horas: seconds / 3600 }
    }
}

proof fn lemma_total_prefix(games: Seq<Game>, n: int)
    requires
        0 <= n <= games.len(),
    ensures
        total_play_seconds(games.take(n)) <= total_play_seconds(games),
    decreases games.len(),
{
    if n < games.len() {
        assert(games.drop_last().take(n) == games.take(n));
        lemma_total_prefix(games.drop_last(), n);
    } else {
        assert(games.take(n) == games);
    }
}

} // verus!
