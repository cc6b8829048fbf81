//! What each button does on each screen of the shell. The program gives
//! the screen and the little state that matters; the answer names the
//! command to carry out.

use vstd::prelude::*;
use crate::input::NavAction;
use crate::shell::Screen;

verus! {

/// What a button press asks the shell to do.
#[derive(Debug, Clone, Copy, PartialEq, Eq, Structural)]
pub enum ShellCommand {
    Nothing,
    /// Open the quick panel; over a running game the window is brought back
    /// first.
    OpenQuick { bring_window_back: bool },
    // The library grid.
    MoveLibraryFocus(NavAction),
    EndSearch,
    OpenDetail,
    ClearSearch,
    ClearQuery,
    ToggleFavorite,
    AddExecutable,
    ToggleSearch,
    SwitchTo(Screen),
    CycleSort,
    // The card of a game.
    ConfirmRename,
    CancelRename,
    Launch,
    Back,
    RemoveGame,
    BeginRename,
    FetchCover,
    // What the machine spends.
    MoveResourceFocus(NavAction),
    ToggleService,
    Rescan,
    ResetServices,
    // The file browser.
    BrowserMove(NavAction),
    BrowserOpen,
    BrowserPickFolder,
    BrowserUp,
    // The review of an import.
    MoveImportFocus(NavAction),
    ToggleImport,
    ToggleImportAll,
    ConfirmImport,
    CancelImport,
    // Settings.
    MoveSettingsFocus(NavAction),
    AdjustSetting { forward: bool },
    SaveAndBack,
    // The key of SteamGridDB.
    ToggleKeyEditing,
    PasteKey,
    TestKey,
    ClearKey,
    FetchMissingCovers,
    CancelCoverSetup,
    StopKeyEditing,
    SaveKey,
    // The quick panel.
    MoveQuickFocus(NavAction),
    RunQuickOption,
    CloseQuick { minimize: bool },
}

/// The state a button press is judged in.
#[derive(Debug, Clone, Copy)]
pub struct ShellContext {
    pub view: Screen,
    pub in_session: bool,
    pub search_active: bool,
    pub query_empty: bool,
    pub library_len: usize,
    pub renaming: bool,
    pub cover_key_editing: bool,
    /// The browser is picking a folder (not a program).
    pub browser_folders: bool,
    pub minimize_while_playing: bool,
}

pub open spec fn is_move(a: NavAction) -> bool {
    a == NavAction::Up || a == NavAction::Down || a == NavAction::PageUp || a == NavAction::PageDown
}

pub open spec fn library_command(c: ShellContext, a: NavAction) -> ShellCommand {
    if is_move(a) || a == NavAction::Left || a == NavAction::Right {
        ShellCommand::MoveLibraryFocus(a)
    } else if a == NavAction::Accept {
        if c.search_active {
            ShellCommand::EndSearch
        } else if c.library_len > 0 {
            ShellCommand::OpenDetail
        } else {
            ShellCommand::Nothing
        }
    } else if a == NavAction::Back {
        if c.search_active {
            ShellCommand::ClearSearch
        } else if !c.query_empty {
            ShellCommand::ClearQuery
        } else {
            ShellCommand::Nothing
        }
    } else if a == NavAction::Favorite {
        ShellCommand::ToggleFavorite
    } else if a == NavAction::Context {
        ShellCommand::AddExecutable
    } else if a == NavAction::Search {
        ShellCommand::ToggleSearch
    } else if a == NavAction::TabNext {
        ShellCommand::SwitchTo(if c.view == Screen::Favorites { Screen::Library } else { Screen::Favorites })
    } else if a == NavAction::TabPrev {
        ShellCommand::CycleSort
    } else {
        ShellCommand::Nothing
    }
}

pub open spec fn detail_command(c: ShellContext, a: NavAction) -> ShellCommand {
    if c.renaming {
        if a == NavAction::Accept {
            ShellCommand::ConfirmRename
        } else if a == NavAction::Back {
            ShellCommand::CancelRename
        } else {
            ShellCommand::Nothing
        }
    } else if a == NavAction::Accept {
        ShellCommand::Launch
    } else if a == NavAction::Back {
        ShellCommand::Back
    } else if a == NavAction::Favorite {
        ShellCommand::ToggleFavorite
    } else if a == NavAction::Context {
        ShellCommand::RemoveGame
    } else if a == NavAction::TabPrev {
        ShellCommand::BeginRename
    } else if a == NavAction::Search {
        ShellCommand::FetchCover
    } else {
        ShellCommand::Nothing
    }
}

pub open spec fn resources_command(a: NavAction) -> ShellCommand {
    if is_move(a) {
        ShellCommand::MoveResourceFocus(a)
    } else if a == NavAction::Accept {
        ShellCommand::ToggleService
    } else if a == NavAction::Context {
        ShellCommand::Rescan
    } else if a == NavAction::Favorite {
        ShellCommand::ResetServices
    } else if a == NavAction::Back {
        ShellCommand::Back
    } else {
        ShellCommand::Nothing
    }
}

pub open spec fn browser_command(c: ShellContext, a: NavAction) -> ShellCommand {
    if is_move(a) {
        ShellCommand::BrowserMove(a)
    } else if a == NavAction::Accept {
        ShellCommand::BrowserOpen
    } else if a == NavAction::Favorite {
        if c.browser_folders {
            ShellCommand::BrowserPickFolder
        } else {
            ShellCommand::Nothing
        }
    } else if a == NavAction::Back {
        ShellCommand::BrowserUp
    } else {
        ShellCommand::Nothing
    }
}

pub open spec fn import_command(a: NavAction) -> ShellCommand {
    if is_move(a) {
        ShellCommand::MoveImportFocus(a)
    } else if a == NavAction::Accept {
        ShellCommand::ToggleImport
    } else if a == NavAction::Favorite {
        ShellCommand::ToggleImportAll
    } else if a == NavAction::Context {
        ShellCommand::ConfirmImport
    } else if a == NavAction::Back {
        ShellCommand::CancelImport
    } else {
        ShellCommand::Nothing
    }
}

pub open spec fn settings_command(a: NavAction) -> ShellCommand {
    if a == NavAction::Up || a == NavAction::Down {
        ShellCommand::MoveSettingsFocus(a)
    } else if a == NavAction::Left || a == NavAction::Right || a == NavAction::Accept {
        ShellCommand::AdjustSetting { forward: a != NavAction::Left }
    } else if a == NavAction::Back {
        ShellCommand::SaveAndBack
    } else {
        ShellCommand::Nothing
    }
}

pub open spec fn cover_setup_command(c: ShellContext, a: NavAction) -> ShellCommand {
    if a == NavAction::Accept {
        ShellCommand::ToggleKeyEditing
    } else if a == NavAction::Context {
        ShellCommand::PasteKey
    } else if a == NavAction::Favorite {
        ShellCommand::TestKey
    } else if a == NavAction::TabPrev {
        ShellCommand::ClearKey
    } else if a == NavAction::TabNext {
        ShellCommand::FetchMissingCovers
    } else if a == NavAction::Search {
        ShellCommand::CancelCoverSetup
    } else if a == NavAction::Back {
        if c.cover_key_editing {
            ShellCommand::StopKeyEditing
        } else {
            ShellCommand::SaveKey
        }
    } else {
        ShellCommand::Nothing
    }
}

pub open spec fn quick_command(c: ShellContext, a: NavAction) -> ShellCommand {
    if a == NavAction::Up || a == NavAction::Down {
        ShellCommand::MoveQuickFocus(a)
    } else if a == NavAction::Accept {
        ShellCommand::RunQuickOption
    } else if a == NavAction::Back || a == NavAction::Guide || a == NavAction::Menu {
        ShellCommand::CloseQuick { minimize: c.in_session && c.minimize_while_playing }
    } else {
        ShellCommand::Nothing
    }
}

/// What a press does. The guide button opens the quick panel from any
/// screen (over a running game too: no game has it assigned); Start opens
/// it only outside a game, where it is not the game's pause. Any other
/// press goes to the screen in front.
pub open spec fn command_of(c: ShellContext, a: NavAction) -> ShellCommand {
    if a == NavAction::Guide && c.view != Screen::Quick {
        ShellCommand::OpenQuick { bring_window_back: c.in_session }
    } else if a == NavAction::Menu && c.view != Screen::Quick && !c.in_session {
        ShellCommand::OpenQuick { bring_window_back: false }
    } else {
        match c.view {
            Screen::Library | Screen::Favorites => library_command(c, a),
            Screen::GameDetail => detail_command(c, a),
            Screen::Resources => resources_command(a),
            Screen::Settings => settings_command(a),
            Screen::CoverSetup => cover_setup_command(c, a),
            Screen::Quick => quick_command(c, a),
            Screen::Browser => browser_command(c, a),
            Screen::ImportReview => import_command(a),
        }
    }
}

fn move_of(a: NavAction) -> (r: bool)
    ensures
        r == is_move(a),
{
    a == NavAction::Up || a == NavAction::Down || a == NavAction::PageUp || a == NavAction::PageDown
}

fn library_press(c: ShellContext, a: NavAction) -> (r: ShellCommand)
    ensures
        r == library_command(c, a),
{
    if move_of(a) || a == NavAction::Left || a == NavAction::Right {
        ShellCommand::MoveLibraryFocus(a)
    } else if a == NavAction::Accept {
        if c.search_active {
            ShellCommand::EndSearch
        } else if c.library_len > 0 {
            ShellCommand::OpenDetail
        } else {
            ShellCommand::Nothing
        }
    } else if a == NavAction::Back {
        if c.search_active {
            ShellCommand::ClearSearch
        } else if !c.query_empty {
            ShellCommand::ClearQuery
        } else {
            ShellCommand::Nothing
        }
    } else if a == NavAction::Favorite {
        ShellCommand::ToggleFavorite
    } else if a == NavAction::Context {
        ShellCommand::AddExecutable
    } else if a == NavAction::Search {
        ShellCommand::ToggleSearch
    } else if a == NavAction::TabNext {
        ShellCommand::SwitchTo(if c.view == Screen::Favorites { Screen::Library } else { Screen::Favorites })
    } else if a == NavAction::TabPrev {
        ShellCommand::CycleSort
    } else {
        ShellCommand::Nothing
    }
}

fn detail_press(c: ShellContext, a: NavAction) -> (r: ShellCommand)
    ensures
        r == detail_command(c, a),
{
    if c.renaming {
        if a == NavAction::Accept {
            ShellCommand::ConfirmRename
        } else if a == NavAction::Back {
            ShellCommand::CancelRename
        } else {
            ShellCommand::Nothing
        }
    } else if a == NavAction::Accept {
        ShellCommand::Launch
    } else if a == NavAction::Back {
        ShellCommand::Back
    } else if a == NavAction::Favorite {
        ShellCommand::ToggleFavorite
    } else if a == NavAction::Context {
        ShellCommand::RemoveGame
    } else if a == NavAction::TabPrev {
        ShellCommand::BeginRename
    } else if a == NavAction::Search {
        ShellCommand::FetchCover
    } else {
        ShellCommand::Nothing
    }
}

fn resources_press(a: NavAction) -> (r: ShellCommand)
    ensures
        r == resources_command(a),
{
    if move_of(a) {
        ShellCommand::MoveResourceFocus(a)
    } else if a == NavAction::Accept {
        ShellCommand::ToggleService
    } else if a == NavAction::Context {
        ShellCommand::Rescan
    } else if a == NavAction::Favorite {
        ShellCommand::ResetServices
    } else if a == NavAction::Back {
        ShellCommand::Back
    } else {
        ShellCommand::Nothing
    }
}

fn browser_press(c: ShellContext, a: NavAction) -> (r: ShellCommand)
    ensures
        r == browser_command(c, a),
{
    if move_of(a) {
        ShellCommand::BrowserMove(a)
    } else if a == NavAction::Accept {
        ShellCommand::BrowserOpen
    } else if a == NavAction::Favorite {
        if c.browser_folders {
            ShellCommand::BrowserPickFolder
        } else {
            ShellCommand::Nothing
        }
    } else if a == NavAction::Back {
        ShellCommand::BrowserUp
    } else {
        ShellCommand::Nothing
    }
}

fn import_press(a: NavAction) -> (r: ShellCommand)
    ensures
        r == import_command(a),
{
    if move_of(a) {
        ShellCommand::MoveImportFocus(a)
    } else if a == NavAction::Accept {
        ShellCommand::ToggleImport
    } else if a == NavAction::Favorite {
        ShellCommand::ToggleImportAll
    } else if a == NavAction::Context {
        ShellCommand::ConfirmImport
    } else if a == NavAction::Back {
        ShellCommand::CancelImport
    } else {
        ShellCommand::Nothing
    }
}

fn settings_press(a: NavAction) -> (r: ShellCommand)
    ensures
        r == settings_command(a),
{
    if a == NavAction::Up || a == NavAction::Down {
        ShellCommand::MoveSettingsFocus(a)
    } else if a == NavAction::Left || a == NavAction::Right || a == NavAction::Accept {
        ShellCommand::AdjustSetting { forward: a != NavAction::Left }
    } else if a == NavAction::Back {
        ShellCommand::SaveAndBack
    } else {
        ShellCommand::Nothing
    }
}

fn cover_setup_press(c: ShellContext, a: NavAction) -> (r: ShellCommand)
    ensures
        r == cover_setup_command(c, a),
{
    if a == NavAction::Accept {
        ShellCommand::ToggleKeyEditing
    } else if a == NavAction::Context {
        ShellCommand::PasteKey
    } else if a == NavAction::Favorite {
        ShellCommand::TestKey
    } else if a == NavAction::TabPrev {
        ShellCommand::ClearKey
    } else if a == NavAction::TabNext {
        ShellCommand::FetchMissingCovers
    } else if a == NavAction::Search {
        ShellCommand::CancelCoverSetup
    } else if a == NavAction::Back {
        if c.cover_key_editing {
            ShellCommand::StopKeyEditing
        } else {
            ShellCommand::SaveKey
        }
    } else {
        ShellCommand::Nothing
    }
}

fn quick_press(c: ShellContext, a: NavAction) -> (r: ShellCommand)
    ensures
        r == quick_command(c, a),
{
    if a == NavAction::Up || a == NavAction::Down {
        ShellCommand::MoveQuickFocus(a)
    } else if a == NavAction::Accept {
        ShellCommand::RunQuickOption
    } else if a == NavAction::Back || a == NavAction::Guide || a == NavAction::Menu {
        ShellCommand::CloseQuick { minimize: c.in_session && c.minimize_while_playing }
    } else {
        ShellCommand::Nothing
    }
}

/// The command for a press on the screen in front.
pub fn command_for(c: ShellContext, a: NavAction) -> (r: ShellCommand)
    ensures
        r == command_of(c, a),
{
    if a == NavAction::Guide && c.view != Screen::Quick {
        return ShellCommand::OpenQuick { bring_window_back: c.in_session };
    }
    if a == NavAction::Menu && c.view != Screen::Quick && !c.in_session {
        return ShellCommand::OpenQuick { bring_window_back: false };
    }
    match c.view {
        Screen::Library | Screen::Favorites => library_press(c, a),
        Screen::GameDetail => detail_press(c, a),
        Screen::Resources => resources_press(a),
        Screen::Settings => settings_press(a),
        Screen::CoverSetup => cover_setup_press(c, a),
        Screen::Quick => quick_press(c, a),
        Screen::Browser => browser_press(c, a),
        Screen::ImportReview => import_press(a),
    }
}

/// The guide button reaches the quick panel from every screen, also over a
/// running game; Start never does while a game runs (it is the game's
/// pause); inside the panel both close it.
pub proof fn lemma_guide_always_reaches_quick(c: ShellContext)
    ensures
        c.view != Screen::Quick ==> command_of(c, NavAction::Guide) is OpenQuick,
        c.in_session && c.view != Screen::Quick ==> !(command_of(c, NavAction::Menu) is OpenQuick),
        c.view == Screen::Quick ==> command_of(c, NavAction::Guide) is CloseQuick && command_of(
            c,
            NavAction::Menu,
        ) is CloseQuick,
{
}

/// The legend of the bottom bar on each screen: which button does what,
/// in order (the glyph of each button depends on the pad in use). The
/// favourites and the import review have none.
pub open spec fn legend_of(screen: Screen) -> Seq<(NavAction, Seq<char>)> {
    match screen {
        Screen::Library => seq![(NavAction::Accept, "Ver"@), (NavAction::Back, "Limpiar busqueda"@), (NavAction::Context, "Anadir .exe"@), (NavAction::Favorite, "Favorito"@), (NavAction::TabPrev, "Orden"@), (NavAction::TabNext, "Catalogo"@), (NavAction::Search, "Buscar"@), (NavAction::Menu, "Menu"@)],
        Screen::GameDetail => seq![(NavAction::Accept, "Jugar"@), (NavAction::Back, "Volver"@), (NavAction::Context, "Quitar"@), (NavAction::Favorite, "Favorito"@), (NavAction::Search, "Buscar caratula"@)],
        Screen::Resources => seq![(NavAction::Accept, "Marcar/desmarcar servicio"@), (NavAction::Back, "Volver"@), (NavAction::Context, "Volver a medir"@), (NavAction::Favorite, "Seleccion recomendada"@)],
        Screen::Settings => seq![(NavAction::Right, "Cambiar"@), (NavAction::Left, "Valor anterior"@), (NavAction::Back, "Guardar y volver"@)],
        Screen::CoverSetup => seq![(NavAction::Accept, "Editar"@), (NavAction::Context, "Pegar"@), (NavAction::Favorite, "Probar clave"@), (NavAction::TabPrev, "Borrar"@), (NavAction::TabNext, "Descargar las que faltan"@), (NavAction::Back, "Guardar y volver"@)],
        Screen::Quick => seq![(NavAction::Accept, "Elegir"@), (NavAction::Back, "Cerrar"@)],
        Screen::Browser => seq![(NavAction::Accept, "Abrir"@), (NavAction::Back, "Subir"@), (NavAction::Favorite, "Usar esta carpeta"@)],
        _ => seq![],
    }
}

pub fn legend(screen: Screen) -> (v: Vec<(NavAction, &'static str)>)
    ensures
        v@.len() == legend_of(screen).len(),
        forall|i: int|
            0 <= i < v@.len() ==> (#[trigger] v@[i]).0 == legend_of(screen)[i].0 && v@[i].1@ == legend_of(
                screen,
            )[i].1,
{
    let mut v: Vec<(NavAction, &'static str)> = Vec::new();
    match screen {
        Screen::Library => {
            v.push((NavAction::Accept, "Ver"));
            v.push((NavAction::Back, "Limpiar busqueda"));
            v.push((NavAction::Context, "Anadir .exe"));
            v.push((NavAction::Favorite, "Favorito"));
            v.push((NavAction::TabPrev, "Orden"));
            v.push((NavAction::TabNext, "Catalogo"));
            v.push((NavAction::Search, "Buscar"));
            v.push((NavAction::Menu, "Menu"));
        },
        Screen::GameDetail => {
            v.push((NavAction::Accept, "Jugar"));
            v.push((NavAction::Back, "Volver"));
            v.push((NavAction::Context, "Quitar"));
            v.push((NavAction::Favorite, "Favorito"));
            v.push((NavAction::Search, "Buscar caratula"));
        },
        Screen::Resources => {
            v.push((NavAction::Accept, "Marcar/desmarcar servicio"));
            v.push((NavAction::Back, "Volver"));
            v.push((NavAction::Context, "Volver a medir"));
            v.push((NavAction::Favorite, "Seleccion recomendada"));
        },
        Screen::Settings => {
            v.push((NavAction::Right, "Cambiar"));
            v.push((NavAction::Left, "Valor anterior"));
            v.push((NavAction::Back, "Guardar y volver"));
        },
        Screen::CoverSetup => {
            v.push((NavAction::Accept, "Editar"));
            v.push((NavAction::Context, "Pegar"));
            v.push((NavAction::Favorite, "Probar clave"));
            v.push((NavAction::TabPrev, "Borrar"));
            v.push((NavAction::TabNext, "Descargar las que faltan"));
            v.push((NavAction::Back, "Guardar y volver"));
        },
        Screen::Quick => {
            v.push((NavAction::Accept, "Elegir"));
            v.push((NavAction::Back, "Cerrar"));
        },
        Screen::Browser => {
            v.push((NavAction::Accept, "Abrir"));
            v.push((NavAction::Back, "Subir"));
            v.push((NavAction::Favorite, "Usar esta carpeta"));
        },
        _ => {},
    }
    v
}

} // verus!
