//! The shell's side of playing: whether a game may start, what is said when
//! it starts or ends, and what each option of the quick panel does. Starting
//! and ending the process, and the window, are the program's part: it is
//! told what to do.

use vstd::prelude::*;
use crate::text::{owned, push_str};
use crate::util::{format_playtime, playtime_text};
use crate::library::{first_with_id, Library};
use crate::optimizer::{count_outcome, delta_of, entry_views, summary_text, Outcome, Report};
use crate::shell::{screens_after_pop, toasts_after, QuickOption, Screen, Shell, Toast, ToastKind, TOAST_MS};

verus! {

/// What the program has to do after an option of the quick panel.
#[derive(Debug, Clone, Copy, PartialEq, Eq, Structural)]
pub enum QuickEffect {
    Nothing,
    /// Step aside for the game again.
    MinimizeWindow,
    /// Close the running game (then report it with `session_over`).
    EndSession,
    TogglePower,
    OpenCatalog,
    OpenDownloads,
    Exit,
}

/// The notice when a game is over: closed from the panel, or ended by
/// itself (then with the time played).
pub open spec fn session_message(title: Seq<char>, seconds: nat, closed_here: bool) -> Seq<char> {
    if closed_here {
        title + " cerrado"@
    } else {
        title + ": "@ + playtime_text(seconds)
    }
}

/// The notice after trying to start a game.
pub open spec fn launch_message(title: Seq<char>, outcome: Result<(), Seq<char>>) -> Seq<char> {
    match outcome {
        Ok(()) => "Lanzando "@ + title,
        Err(e) => "No se pudo lanzar "@ + title + ": "@ + e,
    }
}

/// The last notice is `t`, of kind `kind`, queued at `now_ms`.
pub open spec fn told(before: Seq<Toast>, after: Seq<Toast>, kind: ToastKind, t: Seq<char>, now_ms: u64) -> bool {
    &&& after.len() > 0
    &&& after == toasts_after(before, Toast { text: after.last().text, kind: kind, until_ms: (now_ms + TOAST_MS) as u64 })
    &&& after.last().text@ == t
}

impl Shell {
    /// Shows a notice and states which one it was.
    fn tell(&mut self, kind: ToastKind, text: String, now_ms: u64)
        requires
            now_ms + TOAST_MS <= u64::MAX,
        ensures
            told(old(self).toasts@, final(self).toasts@, kind, text@, now_ms),
            final(self).view == old(self).view,
            final(self).stack@ == old(self).stack@,
            final(self).renaming == old(self).renaming,
            final(self).rename_draft@ == old(self).rename_draft@,
            final(self).import_candidates@ == old(self).import_candidates@,
            final(self).import_focus == old(self).import_focus,
    {
        let ghost tv = text;
        self.toast(kind, text, now_ms);
        proof {
            let t = Toast { text: tv, kind: kind, until_ms: (now_ms + TOAST_MS) as u64 };
            assert(toasts_after(old(self).toasts@, t).last() == t);
        }
    }

    /// A game may start only when none is running; otherwise the user is
    /// told so.
    pub fn may_launch(&mut self, in_session: bool, now_ms: u64) -> (ok: bool)
        requires
            now_ms + TOAST_MS <= u64::MAX,
        ensures
            ok == !in_session,
            ok ==> final(self).toasts@ == old(self).toasts@,
            !ok ==> told(old(self).toasts@, final(self).toasts@, ToastKind::Info, "Ya hay un juego en marcha"@, now_ms),
            final(self).view == old(self).view,
            final(self).stack@ == old(self).stack@,
    {
        if in_session {
            let text = owned("Ya hay un juego en marcha");
            self.tell(ToastKind::Info, text, now_ms);
            return false;
        }
        true
    }

    /// What the start of a game gave: on success the library becomes the
    /// main screen; either way the user is told.
    pub fn launch_started(&mut self, title: &str, outcome: Result<(), String>, now_ms: u64)
        requires
            now_ms + TOAST_MS <= u64::MAX,
        ensures
            match outcome {
                Ok(()) => {
                    &&& told(
                        old(self).toasts@,
                        final(self).toasts@,
                        ToastKind::Good,
                        launch_message(title@, Ok(())),
                        now_ms,
                    )
                    &&& final(self).view == Screen::Library
                    &&& final(self).stack@.len() == 0
                },
                Err(e) => {
                    &&& told(
                        old(self).toasts@,
                        final(self).toasts@,
                        ToastKind::Bad,
                        launch_message(title@, Err(e@)),
                        now_ms,
                    )
                    &&& final(self).view == old(self).view
                    &&& final(self).stack@ == old(self).stack@
                },
            },
    {
        match outcome {
            Ok(()) => {
                let mut text = owned("Lanzando ");
                push_str(&mut text, title);
                self.tell(ToastKind::Good, text, now_ms);
                self.set_root_view(Screen::Library);
            },
            Err(e) => {
                let mut text = owned("No se pudo lanzar ");
                push_str(&mut text, title);
                push_str(&mut text, ": ");
                push_str(&mut text, e.as_str());
                self.tell(ToastKind::Bad, text, now_ms);
            },
        }
    }

    /// A game is over: its time is added to the library and the user is
    /// told, with the time played when it ended by itself.
    pub fn session_over(
        &mut self,
        library: &mut Library,
        game_id: &str,
        title: &str,
        seconds: u64,
        closed_here: bool,
        now_ms: u64,
    )
        requires
            now_ms + TOAST_MS <= u64::MAX,
            ({
                let p = first_with_id(old(library).games@, game_id@);
                p >= 0 ==> old(library).games@[p].play_seconds + seconds <= u64::MAX
            }),
        ensures
            ({
                let p = first_with_id(old(library).games@, game_id@);
                if p >= 0 {
                    &&& final(library).games@.len() == old(library).games@.len()
                    &&& final(library).games@[p].play_seconds == old(library).games@[p].play_seconds + seconds
                    &&& final(library).games@[p].last_played is Some
                    &&& forall|k: int|
                        0 <= k < old(library).games@.len() && k != p ==> final(library).games@[k]
                            == old(library).games@[k]
                } else {
                    final(library).games@ == old(library).games@
                }
            }),
            told(
                old(self).toasts@,
                final(self).toasts@,
                ToastKind::Info,
                session_message(title@, seconds as nat, closed_here),
                now_ms,
            ),
            final(self).view == old(self).view,
            final(self).stack@ == old(self).stack@,
    {
        library.record_session(game_id, seconds);
        let mut text = owned(title);
        if closed_here {
            push_str(&mut text, " cerrado");
        } else {
            push_str(&mut text, ": ");
            let played = format_playtime(seconds);
            push_str(&mut text, played.as_str());
        }
        self.tell(ToastKind::Info, text, now_ms);
    }

    /// Game mode can be switched only while it is not already working; if
    /// it is, the user is told to wait.
    pub fn may_toggle_power(&mut self, busy: bool, now_ms: u64) -> (ok: bool)
        requires
            now_ms + TOAST_MS <= u64::MAX,
        ensures
            ok == !busy,
            ok ==> final(self).toasts@ == old(self).toasts@,
            !ok ==> told(
                old(self).toasts@,
                final(self).toasts@,
                ToastKind::Info,
                "El modo juego ya esta trabajando..."@,
                now_ms,
            ),
            final(self).view == old(self).view,
            final(self).stack@ == old(self).stack@,
    {
        if busy {
            self.tell(ToastKind::Info, owned("El modo juego ya esta trabajando..."), now_ms);
            return false;
        }
        true
    }

    /// Tells what switching game mode did: whether it is on now, and the
    /// summary of the report; a report with failures is told as mere
    /// information, one without as good news.
    pub fn power_report(&mut self, report: &Report, engaged: bool, now_ms: u64)
        requires
            now_ms + TOAST_MS <= u64::MAX,
            i64::MIN <= delta_of(*report) <= i64::MAX,
        ensures
            told(
                old(self).toasts@,
                final(self).toasts@,
                if count_outcome(entry_views(report.entries@), Outcome::Failed) > 0 {
                    ToastKind::Info
                } else {
                    ToastKind::Good
                },
                (if engaged {
                    "Modo juego activo"@
                } else {
                    "Sistema restaurado"@
                }) + ": "@ + summary_text(*report),
                now_ms,
            ),
            final(self).view == old(self).view,
            final(self).stack@ == old(self).stack@,
    {
        let kind = if report.count(Outcome::Failed) > 0 {
            ToastKind::Info
        } else {
            ToastKind::Good
        };
        let mut text = if engaged {
            owned("Modo juego activo")
        } else {
            owned("Sistema restaurado")
        };
        push_str(&mut text, ": ");
        let summary = report.summary();
        push_str(&mut text, summary.as_str());
        self.tell(kind, text, now_ms);
    }

    /// Carries out an option of the quick panel as far as the screens go,
    /// and says what the program must do. Going back to the game and
    /// ending it close the panel; the sections become the main screen.
    pub fn run_quick_option(&mut self, choice: Option<QuickOption>, minimize_while_playing: bool) -> (effect:
        QuickEffect)
        ensures
            final(self).toasts@ == old(self).toasts@,
            match choice {
                None => effect == QuickEffect::Nothing && final(self).view == old(self).view
                    && final(self).stack@ == old(self).stack@,
                Some(QuickOption::ResumeGame) => {
                    &&& effect == if minimize_while_playing {
                        QuickEffect::MinimizeWindow
                    } else {
                        QuickEffect::Nothing
                    }
                    &&& (final(self).view, final(self).stack@) == screens_after_pop(old(self).view, old(self).stack@)
                },
                Some(QuickOption::EndSession) => {
                    &&& effect == QuickEffect::EndSession
                    &&& (final(self).view, final(self).stack@) == screens_after_pop(old(self).view, old(self).stack@)
                },
                Some(QuickOption::TogglePower) => effect == QuickEffect::TogglePower && final(self).view == old(
                    self,
                ).view && final(self).stack@ == old(self).stack@,
                Some(QuickOption::Library) => effect == QuickEffect::Nothing && final(self).view == Screen::Library
                    && final(self).stack@.len() == 0,
                Some(QuickOption::Settings) => effect == QuickEffect::Nothing && final(self).view == Screen::Settings
                    && final(self).stack@.len() == 0,
                Some(QuickOption::Catalog) => effect == QuickEffect::OpenCatalog && final(self).view == old(self).view
                    && final(self).stack@ == old(self).stack@,
                Some(QuickOption::Downloads) => effect == QuickEffect::OpenDownloads && final(self).view == old(
                    self,
                ).view && final(self).stack@ == old(self).stack@,
                Some(QuickOption::Exit) => effect == QuickEffect::Exit && final(self).view == old(self).view
                    && final(self).stack@ == old(self).stack@,
            },
    {
        match choice {
            None => QuickEffect::Nothing,
            Some(QuickOption::ResumeGame) => {
                self.pop_view();
                if minimize_while_playing {
                    QuickEffect::MinimizeWindow
                } else {
                    QuickEffect::Nothing
                }
            },
            Some(QuickOption::EndSession) => {
                self.pop_view();
                QuickEffect::EndSession
            },
            Some(QuickOption::TogglePower) => QuickEffect::TogglePower,
            Some(QuickOption::Library) => {
                self.set_root_view(Screen::Library);
                QuickEffect::Nothing
            },
            Some(QuickOption::Settings) => {
                self.set_root_view(Screen::Settings);
                QuickEffect::Nothing
            },
            Some(QuickOption::Catalog) => QuickEffect::OpenCatalog,
            Some(QuickOption::Downloads) => QuickEffect::OpenDownloads,
            Some(QuickOption::Exit) => QuickEffect::Exit,
        }
    }
}

} // verus!
