//! What the library screen does to the game under the focus: show its
//! card, mark it as a favorite, take it out of the library, or give it a
//! new title. The program saves the library afterwards; the notices are
//! queued here.

use vstd::prelude::*;
use crate::text::{eq_ignore_ascii_case, owned, push_str, same_text, same_ignoring_ascii_case, trim_ws, trimmed};
use crate::browser::{extension_of, path_extension};
use crate::util::{format_playtime, normalized, playtime_text};
use crate::library::{
    first_with_id, game_id, launch_target, lemma_first_with_id, in_view, starts_executable, title_from_path_spec,
    Launch, LaunchView, listed_before, Game, GameView, Library, Sort,
};
use crate::shell::{
    installer_like, is_title_order, sort_candidates, stem_or_empty, ImportCandidate, screens_after_pop,
    toasts_after, id_listed, CoverQueue, Screen, Shell, Toast, ToastKind, TOAST_MS,
};

verus! {

/// The position in `games` of the entry under the focus, if the focus
/// points at one.
pub open spec fn focused_entry(view: Seq<usize>, focus: int, n: nat) -> Option<int> {
    if 0 <= focus < view.len() && view[focus] < n {
        Some(view[focus] as int)
    } else {
        None
    }
}

/// The game under the focus, if the focus points at one.
pub fn focused_game<'a>(library: &'a Library, view: &Vec<usize>, focus: usize) -> (r: Option<&'a Game>)
    ensures
        match focused_entry(view@, focus as int, library.games@.len()) {
            Some(i) => r == Some(&library.games@[i]),
            None => r is None,
        },
{
    if focus < view.len() && view[focus] < library.games.len() {
        Some(&library.games[view[focus]])
    } else {
        None
    }
}

/// What kind of entry a game is, as its card says.
pub open spec fn kind_text(l: Launch) -> Seq<char> {
    match l {
        Launch::Executable { .. } => "Ejecutable"@,
        Launch::Rom { .. } => "ROM"@,
        Launch::Shortcut { .. } => "Atajo del sistema"@,
    }
}

pub fn launch_kind(l: &Launch) -> (s: &'static str)
    ensures
        s@ == kind_text(*l),
{
    match l {
        Launch::Executable { .. } => "Ejecutable",
        Launch::Rom { .. } => "ROM",
        Launch::Shortcut { .. } => "Atajo del sistema",
    }
}

/// The rows of a game's card: time played, whether a session was ever
/// recorded, whether it is a favourite, and what it starts.
pub open spec fn detail_rows_of(g: Game) -> Seq<(Seq<char>, Seq<char>)> {
    seq![
        ("Tiempo jugado"@, playtime_text(g.play_seconds as nat)),
        ("Ultima partida"@, if g.last_played is Some { "registrada"@ } else { "nunca"@ }),
        ("Favorito"@, if g.favorite { "si"@ } else { "no"@ }),
        ("Destino"@, launch_target(g.launch)),
    ]
}

pub fn detail_rows(g: &Game) -> (rows: Vec<(&'static str, String)>)
    ensures
        rows@.len() == 4,
        forall|i: int|
            0 <= i < 4 ==> (#[trigger] rows@[i]).0@ == detail_rows_of(*g)[i].0 && rows@[i].1@ == detail_rows_of(
                *g,
            )[i].1,
{
    let mut rows: Vec<(&'static str, String)> = Vec::new();
    rows.push(("Tiempo jugado", format_playtime(g.play_seconds)));
    rows.push((
        "Ultima partida",
        match g.last_played {
            Some(_) => owned("registrada"),
            None => owned("nunca"),
        },
    ));
    rows.push((
        "Favorito",
        if g.favorite {
            owned("si")
        } else {
            owned("no")
        },
    ));
    rows.push(("Destino", g.launch.target_display()));
    rows
}

/// The label of the button that looks for a cover: again when the game
/// has one.
pub open spec fn cover_button_text(has_cover: bool) -> Seq<char> {
    if has_cover {
        "Volver a buscar"@
    } else {
        "Buscar caratula"@
    }
}

pub fn cover_button_label(has_cover: bool) -> (s: &'static str)
    ensures
        s@ == cover_button_text(has_cover),
{
    if has_cover {
        "Volver a buscar"
    } else {
        "Buscar caratula"
    }
}

/// The line under a game's tile: its collection, a star first when it is a
/// favourite, and before all a warning when its file is gone; without the
/// spaces around it.
pub open spec fn card_subtitle_text(collection: Seq<char>, favorite: bool, available: bool) -> Seq<char> {
    let a = if favorite {
        "\u{2605} "@ + collection
    } else {
        collection
    };
    let b = if available {
        a
    } else {
        "\u{26a0} no encontrado \u{b7} "@ + a
    };
    trim_ws(b)
}

pub fn card_subtitle(collection: &str, favorite: bool, available: bool) -> (s: String)
    ensures
        s@ == card_subtitle_text(collection@, favorite, available),
{
    let mut a = if favorite {
        owned("\u{2605} ")
    } else {
        String::new()
    };
    push_str(&mut a, collection);
    let b = if available {
        a
    } else {
        let mut b = owned("\u{26a0} no encontrado \u{b7} ");
        push_str(&mut b, a.as_str());
        b
    };
    proof {
        assert(Seq::<char>::empty() + collection@ == collection@);
    }
    trimmed(b.as_str())
}

/// The notice after marking or unmarking a favorite.
pub open spec fn favorite_message(now_favorite: bool) -> Seq<char> {
    if now_favorite {
        "Anadido a favoritos"@
    } else {
        "Quitado de favoritos"@
    }
}

/// `r` is what `Library::view` gives for these games and this search.
pub open spec fn is_view(games: Seq<Game>, query: Seq<char>, sort: Sort, favorites_only: bool, r: Seq<usize>) -> bool {
    &&& forall|i: int| 0 <= i < r.len() ==> r[i] < games.len()
    &&& forall|j: int|
        0 <= j < games.len() ==> (r.contains(j as usize) <==> in_view(
            #[trigger] games[j],
            normalized(query),
            None,
            favorites_only,
        ))
    &&& forall|i: int, k: int| 0 <= i < k < r.len() ==> listed_before(games, sort, r[i] as int, r[k] as int)
}

/// The first position in `view` of an entry with this identifier, -1 if
/// none.
pub open spec fn position_of_id(games: Seq<Game>, view: Seq<usize>, id: Seq<char>) -> int
    decreases view.len(),
{
    if view.len() == 0 {
        -1
    } else {
        let p = position_of_id(games, view.drop_last(), id);
        if p >= 0 {
            p
        } else if view.last() < games.len() && games[view.last() as int].id@ == id {
            view.len() - 1
        } else {
            -1
        }
    }
}

proof fn lemma_position_of_id(games: Seq<Game>, view: Seq<usize>, id: Seq<char>)
    ensures
        -1 <= position_of_id(games, view, id) < view.len(),
        position_of_id(games, view, id) >= 0 ==> ({
            let p = position_of_id(games, view, id);
            view[p] < games.len() && games[view[p] as int].id@ == id
        }),
        forall|k: int|
            0 <= k < view.len() && (position_of_id(games, view, id) < 0 || k < position_of_id(games, view, id))
                ==> !(view[k] < games.len() && games[view[k] as int].id@ == id),
    decreases view.len(),
{
    if view.len() > 0 {
        let rest = view.drop_last();
        lemma_position_of_id(games, rest, id);
        assert forall|k: int| 0 <= k < rest.len() implies view[k] == rest[k] by {}
    }
}

/// Where a game is in a view, by its identifier.
fn find_in_view(library: &Library, view: &Vec<usize>, id: &str) -> (r: Option<usize>)
    ensures
        match r {
            Some(p) => p as int == position_of_id(library.games@, view@, id@),
            None => position_of_id(library.games@, view@, id@) == -1,
        },
{
    proof {
        lemma_position_of_id(library.games@, view@, id@);
    }
    let mut k: usize = 0;
    while k < view.len()
        invariant
            k <= view@.len(),
            -1 <= position_of_id(library.games@, view@, id@) < view@.len(),
            position_of_id(library.games@, view@, id@) >= 0 ==> ({
                let p = position_of_id(library.games@, view@, id@);
                view@[p] < library.games@.len() && library.games@[view@[p] as int].id@ == id@
            }),
            forall|j: int|
                0 <= j < view@.len() && (position_of_id(library.games@, view@, id@) < 0 || j < position_of_id(
                    library.games@,
                    view@,
                    id@,
                )) ==> !(view@[j] < library.games@.len() && library.games@[view@[j] as int].id@ == id@),
            forall|j: int|
                0 <= j < k ==> !(view@[j] < library.games@.len() && library.games@[view@[j] as int].id@ == id@),
        decreases view.len() - k,
    {
        let i = view[k];
        if i < library.games.len() && same_text(library.games[i].id.as_str(), id) {
            return Some(k);
        }
        k += 1;
    }
    None
}

/// A program file: its extension is `exe`, in capitals or not.
pub open spec fn is_exe_path(path: Seq<char>) -> bool {
    match path_extension(path) {
        Some(e) => same_ignoring_ascii_case(e, "exe"@),
        None => false,
    }
}

/// A file found in a folder is offered for import when it is a program
/// that no entry of the library starts yet.
pub open spec fn offered_for_import(path: Seq<char>, games: Seq<Game>) -> bool {
    is_exe_path(path) && !(exists|k: int| 0 <= k < games.len() && starts_executable(#[trigger] games[k], path))
}

/// The files offered for import, in the order they were found.
pub open spec fn offered_files(files: Seq<String>, games: Seq<Game>) -> Seq<Seq<char>>
    decreases files.len(),
{
    if files.len() == 0 {
        seq![]
    } else if offered_for_import(files.last()@, games) {
        offered_files(files.drop_last(), games).push(files.last()@)
    } else {
        offered_files(files.drop_last(), games)
    }
}

/// The candidate that a program file becomes.
pub open spec fn candidate_of(c: ImportCandidate, path: Seq<char>) -> bool {
    &&& c.path@ == path
    &&& c.title@ == title_from_path_spec(path)
    &&& c.installer == installer_like(stem_or_empty(path))
    &&& c.checked == !c.installer
}

/// One candidate for each path, in the same order.
pub open spec fn candidates_for(cs: Seq<ImportCandidate>, paths: Seq<Seq<char>>) -> bool {
    cs.len() == paths.len() && forall|k: int| 0 <= k < cs.len() ==> candidate_of(#[trigger] cs[k], paths[k])
}

/// Whether a path names a program file.
fn is_exe(path: &str) -> (r: bool)
    ensures
        r == is_exe_path(path@),
{
    match extension_of(path) {
        Some(e) => {
            let r = eq_ignore_ascii_case(e.as_str(), "exe");
            proof {
                reveal_strlit("exe");
            }
            r
        },
        None => false,
    }
}

/// The programs found in a folder (the files the program walked through,
/// in the order found) that can be offered for import: each one a
/// candidate, ticked unless it looks like an installer, in title order.
pub fn scan_exe_candidates(files: &Vec<String>, library: &Library) -> (out: Vec<ImportCandidate>)
    ensures
        exists|cs: Seq<ImportCandidate>|
            candidates_for(cs, offered_files(files@, library.games@)) && #[trigger] is_title_order(cs, out@),
{
    let mut found: Vec<ImportCandidate> = Vec::new();
    let mut i: usize = 0;
    while i < files.len()
        invariant
            i <= files@.len(),
            candidates_for(found@, offered_files(files@.take(i as int), library.games@)),
        decreases files.len() - i,
    {
        let path = files[i].as_str();
        assert(files@.take(i + 1).drop_last() == files@.take(i as int));
        assert(files@.take(i + 1).last() == files@[i as int]);
        if is_exe(path) && !library.has_executable(path) {
            let c = ImportCandidate::for_path(path);
            found.push(c);
        }
        i += 1;
    }
    assert(files@.take(files@.len() as int) == files@);
    let ghost cs = found@;
    let out = sort_candidates(found);
    assert(candidates_for(cs, offered_files(files@, library.games@)) && is_title_order(cs, out@));
    out
}

impl Shell {
    /// Marks or unmarks the focused game as a favorite and says so. Returns
    /// whether a game was under the focus (and the library changed).
    pub fn toggle_favorite(&mut self, library: &mut Library, view: &Vec<usize>, focus: usize, now_ms: u64) -> (changed:
        bool)
        requires
            now_ms + TOAST_MS <= u64::MAX,
        ensures
            changed == focused_entry(view@, focus as int, old(library).games@.len()) is Some,
            match focused_entry(view@, focus as int, old(library).games@.len()) {
                Some(i) => {
                    let (a, b) = (final(library).games@[i]@, old(library).games@[i]@);
                    &&& final(library).games@.len() == old(library).games@.len()
                    &&& forall|k: int|
                        0 <= k < old(library).games@.len() && k != i ==> final(library).games@[k]
                            == old(library).games@[k]
                    &&& a == GameView { favorite: !b.favorite, ..b }
                    &&& final(self).toasts@.len() > 0
                    &&& final(self).toasts@ == toasts_after(
                        old(self).toasts@,
                        Toast {
                            text: final(self).toasts@.last().text,
                            kind: ToastKind::Info,
                            until_ms: (now_ms + TOAST_MS) as u64,
                        },
                    )
                    &&& final(self).toasts@.last().text@ == favorite_message(a.favorite)
                },
                None => final(library).games@ == old(library).games@ && final(self).toasts@ == old(
                    self,
                ).toasts@,
            },
            final(self).view == old(self).view,
            final(self).stack@ == old(self).stack@,
    {
        if focus >= view.len() || view[focus] >= library.games.len() {
            return false;
        }
        let i = view[focus];
        let mut g = library.games[i].duplicate();
        g.favorite = !g.favorite;
        let now_favorite = g.favorite;
        library.games.set(i, g);
        let text = if now_favorite {
            owned("Anadido a favoritos")
        } else {
            owned("Quitado de favoritos")
        };
        proof {
            reveal_strlit("Anadido a favoritos");
            reveal_strlit("Quitado de favoritos");
        }
        let ghost tv = text;
        self.toast(ToastKind::Info, text, now_ms);
        proof {
            let t = Toast { text: tv, kind: ToastKind::Info, until_ms: (now_ms + TOAST_MS) as u64 };
            assert(toasts_after(old(self).toasts@, t).last() == t);
        }
        true
    }

    /// Stores the title being edited on the focused game. An empty title is
    /// refused with a notice and the edit stays open. Otherwise the game is
    /// renamed, may be looked up on SteamGridDB again under its new name,
    /// and the view is rebuilt with the focus kept on the same game; if the
    /// new title takes it out of the view, the card closes. The edit ends.
    pub fn confirm_rename(
        &mut self,
        library: &mut Library,
        covers: &mut CoverQueue,
        view: &mut Vec<usize>,
        focus: &mut usize,
        query: &str,
        sort: Sort,
        now_ms: u64,
    ) -> (renamed: bool)
        requires
            now_ms + TOAST_MS <= u64::MAX,
        ensures
            renamed == (focused_entry(old(view)@, *old(focus) as int, old(library).games@.len()) is Some
                && trim_ws(old(self).rename_draft@).len() > 0),
            match focused_entry(old(view)@, *old(focus) as int, old(library).games@.len()) {
                None => {
                    &&& final(library).games@ == old(library).games@
                    &&& final(view)@ == old(view)@
                    &&& *final(focus) == *old(focus)
                    &&& final(covers).attempted@ == old(covers).attempted@
                    &&& final(self).toasts@ == old(self).toasts@
                    &&& final(self).view == old(self).view
                    &&& final(self).stack@ == old(self).stack@
                    &&& !final(self).renaming
                    &&& final(self).rename_draft@.len() == 0
                },
                Some(i) => if trim_ws(old(self).rename_draft@).len() == 0 {
                    &&& final(library).games@ == old(library).games@
                    &&& final(view)@ == old(view)@
                    &&& *final(focus) == *old(focus)
                    &&& final(covers).attempted@ == old(covers).attempted@
                    &&& final(self).toasts@.len() > 0
                    &&& final(self).toasts@ == toasts_after(
                        old(self).toasts@,
                        Toast {
                            text: final(self).toasts@.last().text,
                            kind: ToastKind::Bad,
                            until_ms: (now_ms + TOAST_MS) as u64,
                        },
                    )
                    &&& final(self).toasts@.last().text@ == "El titulo no puede quedar vacio"@
                    &&& final(self).view == old(self).view
                    &&& final(self).stack@ == old(self).stack@
                    &&& final(self).renaming == old(self).renaming
                    &&& final(self).rename_draft@ == old(self).rename_draft@
                } else {
                    let id = old(library).games@[i].id@;
                    let title = trim_ws(old(self).rename_draft@);
                    let p = first_with_id(old(library).games@, id);
                    let q = position_of_id(final(library).games@, final(view)@, id);
                    &&& 0 <= p <= i
                    &&& final(library).games@.len() == old(library).games@.len()
                    &&& forall|k: int|
                        0 <= k < old(library).games@.len() && k != p ==> final(library).games@[k]
                            == old(library).games@[k]
                    &&& final(library).games@[p]@ == GameView {
                        title: title,
                        search_key: normalized(title),
                        ..old(library).games@[p]@
                    }
                    &&& !id_listed(final(covers).attempted@, id)
                    &&& forall|x: Seq<char>|
                        x != id ==> (id_listed(final(covers).attempted@, x) <==> id_listed(
                            old(covers).attempted@,
                            x,
                        ))
                    &&& final(self).toasts@.len() > 0
                    &&& final(self).toasts@ == toasts_after(
                        old(self).toasts@,
                        Toast {
                            text: final(self).toasts@.last().text,
                            kind: ToastKind::Info,
                            until_ms: (now_ms + TOAST_MS) as u64,
                        },
                    )
                    &&& final(self).toasts@.last().text@ == "Renombrado a \""@ + title + "\""@
                    &&& is_view(
                        final(library).games@,
                        query@,
                        sort,
                        old(self).view == Screen::Favorites,
                        final(view)@,
                    )
                    &&& q >= 0 ==> {
                        &&& *final(focus) == q
                        &&& final(self).view == old(self).view
                        &&& final(self).stack@ == old(self).stack@
                    }
                    &&& q < 0 ==> {
                        &&& *final(focus) == *old(focus)
                        &&& (final(self).view, final(self).stack@) == screens_after_pop(
                            old(self).view,
                            old(self).stack@,
                        )
                    }
                    &&& !final(self).renaming
                    &&& final(self).rename_draft@.len() == 0
                },
            },
            final(covers).queue@ == old(covers).queue@,
            final(covers).active == old(covers).active,
    {
        if *focus >= view.len() || view[*focus] >= library.games.len() {
            self.cancel_rename();
            return false;
        }
        let i = view[*focus];
        let id = library.games[i].id.clone();
        let title = match self.rename_title() {
            Some(t) => t,
            None => {
                let text = owned("El titulo no puede quedar vacio");
                let ghost tv = text;
                self.toast(ToastKind::Bad, text, now_ms);
                proof {
                    let t = Toast { text: tv, kind: ToastKind::Bad, until_ms: (now_ms + TOAST_MS) as u64 };
                    assert(toasts_after(old(self).toasts@, t).last() == t);
                }
                return false;
            },
        };
        proof {
            lemma_first_with_id(library.games@, id@);
        }
        let done = library.rename(id.as_str(), title.as_str());
        if done {
            covers.forget_attempt(id.as_str());
            let mut text = owned("Renombrado a \"");
            push_str(&mut text, title.as_str());
            push_str(&mut text, "\"");
            let ghost tv = text;
            self.toast(ToastKind::Info, text, now_ms);
            proof {
                let t = Toast { text: tv, kind: ToastKind::Info, until_ms: (now_ms + TOAST_MS) as u64 };
                assert(toasts_after(old(self).toasts@, t).last() == t);
            }
            let favorites = self.view == Screen::Favorites;
            let fresh = library.view(query, None, sort, favorites);
            *view = fresh;
            match find_in_view(library, view, id.as_str()) {
                Some(position) => {
                    *focus = position;
                },
                None => {
                    self.pop_view();
                },
            }
        }
        self.cancel_rename();
        done
    }

    /// Adds the program chosen in the browser as a game of the "PC"
    /// collection, titled from its file name, says whether it was new, and
    /// goes back. Returns whether it was added.
    pub fn add_executable(&mut self, library: &mut Library, path: &str, now_ms: u64) -> (added: bool)
        requires
            now_ms + TOAST_MS <= u64::MAX,
        ensures
            ({
                let title = title_from_path_spec(path@);
                let id = game_id(path@, title);
                &&& added == (forall|j: int|
                    0 <= j < old(library).games@.len() ==> old(library).games@[j].id@ != id)
                &&& added ==> {
                    let g = final(library).games@.last();
                    &&& final(library).games@.len() == old(library).games@.len() + 1
                    &&& final(library).games@.drop_last() == old(library).games@
                    &&& g.title@ == title
                    &&& g.launch@ == (LaunchView::Executable { path: path@, args: seq![], working_dir: None })
                    &&& g.collection@ == "PC"@
                    &&& g.id@ == id
                    &&& !g.favorite
                    &&& g.play_seconds == 0
                }
                &&& !added ==> final(library).games@ == old(library).games@
                &&& final(self).toasts@.len() > 0
                &&& final(self).toasts@ == toasts_after(
                    old(self).toasts@,
                    Toast {
                        text: final(self).toasts@.last().text,
                        kind: if added { ToastKind::Good } else { ToastKind::Info },
                        until_ms: (now_ms + TOAST_MS) as u64,
                    },
                )
                &&& final(self).toasts@.last().text@ == title + if added {
                    " anadido a la biblioteca"@
                } else {
                    " ya estaba en la biblioteca"@
                }
                &&& (final(self).view, final(self).stack@) == screens_after_pop(old(self).view, old(self).stack@)
            }),
    {
        let title = Game::title_from_path(path);
        let args: Vec<String> = Vec::new();
        assert(args@.map_values(|a: String| a@) == Seq::<Seq<char>>::empty());
        let launch = Launch::Executable { path: owned(path), args, working_dir: None };
        assert(launch@ == (LaunchView::Executable { path: path@, args: seq![], working_dir: None }));
        let mut game = Game::new(title.as_str(), launch);
        game.collection = owned("PC");
        let ghost g = game;
        proof {
            reveal_strlit("PC");
            assert(g.collection@ == "PC"@);
            assert(g.launch@ == (LaunchView::Executable { path: path@, args: seq![], working_dir: None }));
            assert(g.id@ == game_id(path@, title_from_path_spec(path@)));
        }
        let added = library.add(game);
        let mut text = owned(title.as_str());
        let kind = if added {
            push_str(&mut text, " anadido a la biblioteca");
            ToastKind::Good
        } else {
            push_str(&mut text, " ya estaba en la biblioteca");
            ToastKind::Info
        };
        let ghost tv = text;
        self.toast(kind, text, now_ms);
        proof {
            let t = Toast { text: tv, kind: kind, until_ms: (now_ms + TOAST_MS) as u64 };
            assert(toasts_after(old(self).toasts@, t).last() == t);
            if added {
                assert(library.games@.last() == g);
                assert(library.games@.drop_last() =~= old(library).games@);
            }
        }
        self.pop_view();
        added
    }

    /// Takes the focused game out of the library, says so, and leaves its
    /// card if it was open. Returns the entry that left.
    pub fn remove_focused(&mut self, library: &mut Library, view: &Vec<usize>, focus: usize, now_ms: u64) -> (removed:
        Option<Game>)
        requires
            now_ms + TOAST_MS <= u64::MAX,
        ensures
            removed is Some == focused_entry(view@, focus as int, old(library).games@.len()) is Some,
            match focused_entry(view@, focus as int, old(library).games@.len()) {
                Some(i) => {
                    let p = first_with_id(old(library).games@, old(library).games@[i].id@);
                    &&& 0 <= p <= i
                    &&& removed == Some(old(library).games@[p])
                    &&& final(library).games@ == old(library).games@.remove(p)
                    &&& final(self).toasts@.len() > 0
                    &&& final(self).toasts@ == toasts_after(
                        old(self).toasts@,
                        Toast {
                            text: final(self).toasts@.last().text,
                            kind: ToastKind::Info,
                            until_ms: (now_ms + TOAST_MS) as u64,
                        },
                    )
                    &&& final(self).toasts@.last().text@ == old(library).games@[p].title@
                        + " quitado de la biblioteca"@
                    &&& (final(self).view, final(self).stack@) == if old(self).view == Screen::GameDetail {
                        screens_after_pop(old(self).view, old(self).stack@)
                    } else {
                        (old(self).view, old(self).stack@)
                    }
                },
                None => final(library).games@ == old(library).games@ && final(self).toasts@ == old(
                    self,
                ).toasts@ && final(self).view == old(self).view && final(self).stack@ == old(self).stack@,
            },
    {
        if focus >= view.len() || view[focus] >= library.games.len() {
            return None;
        }
        let i = view[focus];
        let id = library.games[i].id.clone();
        proof {
            lemma_first_with_id(library.games@, id@);
        }
        let removed = library.remove(id.as_str());
        match removed {
            Some(game) => {
                let mut text = owned(game.title.as_str());
                push_str(&mut text, " quitado de la biblioteca");
                let ghost tv = text;
                self.toast(ToastKind::Info, text, now_ms);
                proof {
                    let t = Toast { text: tv, kind: ToastKind::Info, until_ms: (now_ms + TOAST_MS) as u64 };
                    assert(toasts_after(old(self).toasts@, t).last() == t);
                }
                if self.view == Screen::GameDetail {
                    self.pop_view();
                }
                Some(game)
            },
            None => None,
        }
    }
}

} // verus!
