use gamingmode::actions::{command_for, ShellCommand};
use gamingmode::browser::{listing, Browser, Filter, Item};
use gamingmode::config::{emulator_args, Config, Emulator, Theme};
use gamingmode::settings::{adjust_setting, Interface, SettingChange};
use gamingmode::config::Covers;
use gamingmode::input::{NavAction, PadKind, PollMode};
use gamingmode::library::{Game, Launch, Library, Sort};
use gamingmode::nav::{button_label, move_focus, move_list, InputSource};
use gamingmode::settings::{active_fps_steps, row_at, row_section, SETTINGS_ROWS};
use gamingmode::shell::{
    cycle, ellipsize, initials, looks_like_installer, mask_key, next_sort, poll_mode, quick_options, title_hue,
    CoverOutcome, CoverQueue, ImportCandidate, QuickOption, Screen, Shell, ToastKind, MAX_TOASTS,
};

#[test]
fn la_rejilla_no_salta_de_fila_al_moverse_de_lado() {
    assert_eq!(move_focus(0, 6, 3, NavAction::Left), 0, "no retrocede desde el borde");
    assert_eq!(move_focus(2, 6, 3, NavAction::Right), 2, "no avanza desde el borde");
    assert_eq!(move_focus(3, 6, 3, NavAction::Left), 3);
    assert_eq!(move_focus(1, 6, 3, NavAction::Right), 2);
}

#[test]
fn la_rejilla_sube_y_baja_por_columnas() {
    assert_eq!(move_focus(4, 6, 3, NavAction::Up), 1);
    assert_eq!(move_focus(1, 6, 3, NavAction::Down), 4);
    assert_eq!(move_focus(1, 6, 3, NavAction::Up), 1, "en la primera fila no pasa nada");
    assert_eq!(move_focus(2, 6, 3, NavAction::Up), 2, "tampoco cambia de columna al subir");
}

#[test]
fn bajar_desde_una_fila_incompleta_lleva_al_ultimo() {
    assert_eq!(move_focus(2, 5, 3, NavAction::Down), 4, "no hay hueco debajo: al ultimo");
    assert_eq!(move_focus(4, 5, 3, NavAction::Down), 4, "en la ultima fila se queda");
}

#[test]
fn la_rejilla_vacia_no_desborda() {
    assert_eq!(move_focus(0, 0, 3, NavAction::Down), 0);
    assert_eq!(move_focus(99, 3, 3, NavAction::Right), 2);
}

#[test]
fn las_listas_dan_la_vuelta() {
    assert_eq!(move_list(0, 4, NavAction::Up), 3);
    assert_eq!(move_list(3, 4, NavAction::Down), 0);
    assert_eq!(move_list(0, 0, NavAction::Down), 0);
}

#[test]
fn cada_fuente_tiene_su_propio_glifo_para_aceptar() {
    assert_eq!(button_label(InputSource::Xbox, NavAction::Accept), "A");
    assert_eq!(button_label(InputSource::PlayStation, NavAction::Accept), "✕");
    assert_eq!(button_label(InputSource::KeyboardMouse, NavAction::Accept), "Enter");
}

#[test]
fn las_direcciones_no_dependen_de_la_fuente() {
    for source in [InputSource::Xbox, InputSource::PlayStation, InputSource::KeyboardMouse] {
        assert_eq!(button_label(source, NavAction::Up), "▲");
        assert_eq!(button_label(source, NavAction::Right), "▶");
    }
}

#[test]
fn la_marca_del_mando_se_traduce_a_fuente_de_entrada() {
    assert_eq!(InputSource::from_pad_kind(PadKind::Xbox), InputSource::Xbox);
    assert_eq!(InputSource::from_pad_kind(PadKind::PlayStation), InputSource::PlayStation);
}

#[test]
fn las_iniciales_salen_del_titulo() {
    assert_eq!(initials("Super Mario World"), "SM");
    assert_eq!(initials("Doom"), "D");
    assert_eq!(initials(""), "");
    assert_eq!(initials("- Halo"), "H");
}

#[test]
fn el_color_generado_es_estable_y_distinto_por_titulo() {
    assert_eq!(title_hue("Doom"), title_hue("Doom"));
    assert_ne!(title_hue("Doom"), title_hue("Quake"));
}

#[test]
fn una_clave_vacia_se_marca_como_sin_configurar() {
    assert_eq!(mask_key(""), "(sin configurar)");
}

#[test]
fn una_clave_corta_se_oculta_entera() {
    assert_eq!(mask_key("abc123"), "••••••");
}

#[test]
fn una_clave_larga_ensena_solo_las_puntas() {
    assert_eq!(mask_key("sgdb-1234567890abcdef"), "sgdb···cdef");
}

#[test]
fn el_recorte_de_texto_respeta_los_caracteres_multibyte() {
    assert_eq!(ellipsize("Pokemon", 20), "Pokemon");
    assert_eq!(ellipsize("Edición Española Larga", 10), "Edición E…");
}

#[test]
fn el_ciclo_de_valores_da_la_vuelta_en_los_dos_sentidos() {
    let fps = active_fps_steps();
    assert_eq!(cycle(&fps, 30, true), 45);
    assert_eq!(cycle(&fps, 30, false), 144, "hacia atras desde el primero va al ultimo");
    assert_eq!(cycle(&fps, 144, true), 30);
    assert_eq!(cycle(&fps, 77, true), 45);
}

#[test]
fn cada_fila_tiene_etiqueta_y_seccion() {
    assert!(row_at(SETTINGS_ROWS).is_none());
    for index in 0..SETTINGS_ROWS {
        let row = row_at(index).expect("fila dentro del rango");
        assert!(!row_section(row).is_empty());
    }
}

fn item(name: &str, is_dir: bool) -> Item {
    Item { name: name.to_string(), path: format!("/juegos/{name}"), is_dir, size: 1 }
}

#[test]
fn filtra_por_tipo_y_pone_las_carpetas_primero() {
    let entries =
        vec![item("juego.exe", false), item("mario.sfc", false), item("subcarpeta", true), item("notas.txt", false), item(".oculto", false)];
    let names: Vec<String> = listing(Filter::Executables, &entries).iter().map(|i| i.name.clone()).collect();
    assert_eq!(names, vec!["subcarpeta", "juego.exe"]);
    assert_eq!(listing(Filter::Directories, &entries).len(), 1, "en modo carpeta solo se ven carpetas");
}

#[test]
fn entrar_y_salir_de_carpetas() {
    let mut browser = Browser::new(Filter::Executables, Some("/juegos".to_string()));
    browser.refresh_with(Ok(vec![item("juego.exe", false), item("subcarpeta", true)]));
    assert_eq!(browser.open_selected(), None, "abrir una carpeta no devuelve fichero");
    assert_eq!(browser.cwd.as_deref(), Some("/juegos/subcarpeta"));

    assert!(browser.go_up());
    assert_eq!(browser.cwd.as_deref(), Some("/juegos"));

    browser.refresh_with(Ok(vec![item("juego.exe", false), item("subcarpeta", true)]));
    browser.navigate(NavAction::Down);
    assert_eq!(browser.open_selected(), Some("/juegos/juego.exe".to_string()));
}

#[test]
fn una_carpeta_ilegible_deja_mensaje_en_vez_de_panico() {
    let mut browser = Browser::new(Filter::Executables, Some("/no/existe/jamas".to_string()));
    browser.refresh_with(Err("No such file or directory".to_string()));
    assert!(browser.error.is_some());
    assert!(browser.items.is_empty());
    assert_eq!(browser.error.as_deref(), Some("no se puede abrir /no/existe/jamas: No such file or directory"));
}

#[test]
fn el_titulo_del_explorador_es_la_carpeta_o_el_equipo() {
    assert_eq!(Browser::new(Filter::Executables, None).title(), "Equipo");
    assert_eq!(Browser::new(Filter::Executables, Some("C:\\Juegos".to_string())).title(), "C:\\Juegos");
    let mut root = Browser::new(Filter::Directories, None);
    assert!(!root.go_up(), "en la lista de unidades no se sube mas");
}

#[test]
fn volver_deshace_abrir_una_pantalla() {
    let mut shell = Shell::new();
    shell.push_view(Screen::Settings);
    shell.push_view(Screen::CoverSetup);
    assert_eq!(shell.view, Screen::CoverSetup);
    shell.pop_view();
    assert_eq!(shell.view, Screen::Settings);
    shell.pop_view();
    assert_eq!(shell.view, Screen::Library);
    shell.pop_view();
    assert_eq!(shell.view, Screen::Library, "sin nada detras se vuelve a la biblioteca");
    shell.push_view(Screen::Resources);
    shell.set_root_view(Screen::Favorites);
    assert!(shell.stack.is_empty());
}

#[test]
fn no_se_apilan_mas_de_cuatro_avisos() {
    let mut shell = Shell::new();
    for i in 0..6u64 {
        shell.toast(ToastKind::Info, format!("aviso {i}"), 1000 + i);
    }
    assert_eq!(shell.toasts.len(), MAX_TOASTS);
    assert_eq!(shell.toasts.first().unwrap().text, "aviso 2");
    assert_eq!(shell.toasts.last().unwrap().text, "aviso 5");
    assert_eq!(shell.toasts.last().unwrap().until_ms, 1005 + 5000);
    shell.expire_toasts(1003 + 5000);
    let left: Vec<&str> = shell.toasts.iter().map(|t| t.text.as_str()).collect();
    assert_eq!(left, vec!["aviso 4", "aviso 5"]);
}

#[test]
fn los_instaladores_entran_desmarcados() {
    assert!(looks_like_installer("Setup"));
    assert!(looks_like_installer("unins000"));
    assert!(looks_like_installer("VC_redist.x64"));
    assert!(!looks_like_installer("Doom"));
    let c = ImportCandidate::for_path("/juegos/setup.exe");
    assert!(c.installer && !c.checked);
    let c = ImportCandidate::for_path("/juegos/super_juego.exe");
    assert!(!c.installer && c.checked);
    assert_eq!(c.title, "Super Juego");
}

#[test]
fn confirmar_la_importacion_anade_solo_lo_marcado() {
    let mut shell = Shell::new();
    shell.push_view(Screen::Browser);
    shell.begin_import(
        vec![ImportCandidate::for_path("/j/a.exe"), ImportCandidate::for_path("/j/setup.exe"), ImportCandidate::for_path("/j/b.exe")],
        10,
    );
    assert_eq!(shell.view, Screen::ImportReview);
    let mut library = Library::new();
    let added = shell.confirm_import(&mut library, 20);
    assert_eq!(added, 2);
    let titles: Vec<&str> = library.games.iter().map(|g| g.title.as_str()).collect();
    assert_eq!(titles, vec!["A", "B"]);
    assert!(library.games.iter().all(|g| g.collection == "PC"));
    assert_eq!(shell.toasts.last().unwrap().text, "2 juego(s) anadidos a la biblioteca");
    assert_eq!(shell.toasts.last().unwrap().kind, ToastKind::Good);
    assert!(shell.import_candidates.is_empty());
    assert_eq!(shell.view, Screen::Library);
}

#[test]
fn sin_nada_marcado_no_se_anade_nada() {
    let mut shell = Shell::new();
    shell.begin_import(vec![ImportCandidate::for_path("/j/setup.exe")], 10);
    let mut library = Library::new();
    assert_eq!(shell.confirm_import(&mut library, 20), 0);
    assert!(library.games.is_empty());
    assert_eq!(shell.toasts.last().unwrap().text, "No se marco ningun .exe");
}

#[test]
fn una_carpeta_sin_ejecutables_avisa_y_vuelve() {
    let mut shell = Shell::new();
    shell.push_view(Screen::Browser);
    shell.begin_import(vec![], 10);
    assert_eq!(shell.view, Screen::Library);
    assert_eq!(shell.toasts.last().unwrap().text, "No se encontro ningun .exe nuevo en esa carpeta");
}

#[test]
fn marcar_dos_veces_deja_la_lista_igual_y_todos_marca_o_desmarca() {
    let mut shell = Shell::new();
    shell.begin_import(vec![ImportCandidate::for_path("/j/a.exe"), ImportCandidate::for_path("/j/setup.exe")], 10);
    shell.import_focus = 1;
    shell.toggle_import_focused();
    assert!(shell.import_candidates[1].checked);
    shell.toggle_import_focused();
    assert!(!shell.import_candidates[1].checked);
    shell.toggle_import_all();
    assert!(shell.import_candidates.iter().all(|c| c.checked));
    shell.toggle_import_all();
    assert!(shell.import_candidates.iter().all(|c| !c.checked));
}

#[test]
fn las_busquedas_de_caratula_no_pasan_de_tres_a_la_vez() {
    let mut queue = CoverQueue::new();
    for i in 0..5 {
        assert!(queue.maybe_fetch(true, true, &format!("id{i}"), &format!("Juego {i}")));
    }
    assert!(!queue.maybe_fetch(true, true, "id0", "Juego 0"), "una vez por sesion");
    let started = queue.launch_ready(true);
    assert_eq!(started.len(), 3);
    assert_eq!(queue.active, 3);
    assert!(queue.launch_ready(true).is_empty());
    queue.finished();
    let next = queue.launch_ready(true);
    assert_eq!(next.len(), 1);
    assert_eq!(next[0].game_id, "id3");
    queue.finished();
    assert!(queue.launch_ready(false).is_empty());
    assert!(queue.queue.is_empty(), "sin clave se descarta el resto");
}

#[test]
fn una_caratula_encontrada_se_pega_a_su_juego() {
    let mut shell = Shell::new();
    let mut queue = CoverQueue::new();
    let mut library = Library::new();
    library.add(Game::new("Doom", Launch::Shortcut { target: "steam://run/1".to_string() }));
    let id = library.games[0].id.clone();
    shell.fetch_cover_now(&mut queue, true, &id, "Doom", 5);
    assert_eq!(shell.toasts.last().unwrap().text, "Buscando caratula de \"Doom\"...");
    let started = queue.launch_ready(true);
    assert_eq!(started.len(), 1);
    let arrived = shell.cover_result(
        &mut queue,
        &mut library,
        CoverOutcome::Found { game_id: id.clone(), title: "Doom".to_string(), path: "/covers/doom.png".to_string(), notify: true },
        6,
    );
    assert!(arrived);
    assert_eq!(library.games[0].cover.as_deref(), Some("/covers/doom.png"));
    assert_eq!(shell.toasts.last().unwrap().text, "Caratula de \"Doom\" descargada");
    assert_eq!(queue.active, 0);
}

#[test]
fn guardar_una_clave_en_blanco_la_borra() {
    let mut shell = Shell::new();
    let mut covers = Covers { steamgrid_api_key: Some("vieja".to_string()), auto_fetch: true };
    shell.open_cover_setup(&covers);
    assert_eq!(shell.cover_key_draft, "vieja");
    shell.cover_key_clear();
    shell.save_cover_key(&mut covers, 1);
    assert!(covers.steamgrid_api_key.is_none());
    assert_eq!(shell.toasts.last().unwrap().text, "Clave de SteamGridDB borrada");
    shell.open_cover_setup(&covers);
    shell.cover_key_pasted("  nueva-clave \n", 2);
    assert_eq!(shell.begin_key_test(false), Some("nueva-clave".to_string()));
    shell.save_cover_key(&mut covers, 3);
    assert_eq!(covers.steamgrid_api_key.as_deref(), Some("nueva-clave"));
}

#[test]
fn el_orden_da_la_vuelta_en_cuatro_pasos() {
    let mut s = Sort::LastPlayed;
    for _ in 0..4 {
        s = next_sort(s);
    }
    assert_eq!(s, Sort::LastPlayed);
    assert_eq!(next_sort(Sort::LastPlayed), Sort::Title);
}

#[test]
fn el_ritmo_depende_de_lo_que_pasa() {
    assert_eq!(poll_mode(true, false, 0, 8), PollMode::InGame);
    assert_eq!(poll_mode(true, true, 0, 8), PollMode::Active, "el panel rapido sobre el juego va a ritmo normal");
    assert_eq!(poll_mode(false, false, 9000, 8), PollMode::Idle);
    assert_eq!(poll_mode(false, false, 8000, 8), PollMode::Active);
}

#[test]
fn el_panel_rapido_solo_ofrece_volver_con_un_juego_en_marcha() {
    assert_eq!(quick_options(false).len(), 6);
    let with_game = quick_options(true);
    assert_eq!(with_game[0], QuickOption::ResumeGame);
    assert_eq!(with_game.len(), 8);
    assert_eq!(QuickOption::TogglePower.label(true), "Desactivar modo juego (restaurar sistema)");
}

fn context(view: Screen, in_session: bool) -> gamingmode::actions::ShellContext {
    gamingmode::actions::ShellContext {
        view,
        in_session,
        search_active: false,
        query_empty: true,
        library_len: 3,
        renaming: false,
        cover_key_editing: false,
        browser_folders: false,
        minimize_while_playing: true,
    }
}

#[test]
fn el_boton_guia_abre_el_panel_incluso_con_un_juego() {
    assert_eq!(command_for(context(Screen::Library, true), NavAction::Guide), ShellCommand::OpenQuick { bring_window_back: true });
    assert_eq!(command_for(context(Screen::Library, true), NavAction::Menu), ShellCommand::Nothing, "Start es la pausa del juego");
    assert_eq!(command_for(context(Screen::Library, false), NavAction::Menu), ShellCommand::OpenQuick { bring_window_back: false });
    assert_eq!(command_for(context(Screen::Quick, true), NavAction::Guide), ShellCommand::CloseQuick { minimize: true });
}

#[test]
fn cada_pantalla_entiende_sus_botones() {
    assert_eq!(command_for(context(Screen::Library, false), NavAction::Accept), ShellCommand::OpenDetail);
    let mut empty = context(Screen::Library, false);
    empty.library_len = 0;
    assert_eq!(command_for(empty, NavAction::Accept), ShellCommand::Nothing);
    assert_eq!(command_for(context(Screen::Favorites, false), NavAction::TabNext), ShellCommand::SwitchTo(Screen::Library));
    assert_eq!(command_for(context(Screen::Settings, false), NavAction::Left), ShellCommand::AdjustSetting { forward: false });
    assert_eq!(command_for(context(Screen::GameDetail, false), NavAction::Accept), ShellCommand::Launch);
    let mut renaming = context(Screen::GameDetail, false);
    renaming.renaming = true;
    assert_eq!(command_for(renaming, NavAction::Accept), ShellCommand::ConfirmRename);
    assert_eq!(command_for(context(Screen::Browser, false), NavAction::Favorite), ShellCommand::Nothing);
    assert_eq!(command_for(context(Screen::ImportReview, false), NavAction::Context), ShellCommand::ConfirmImport);
}

#[test]
fn ajustar_una_fila_cambia_solo_su_valor() {
    let mut config = Config::default();
    let mut iface = Interface {
        fullscreen: true,
        theme: Theme::Dark,
        active_fps: 60,
        idle_fps: 10,
        background_fps: 1,
        minimize_while_playing: true,
        repeat_delay_ms: 380,
        capture_guide_button: true,
        rumble_feedback: true,
    };
    assert_eq!(adjust_setting(&mut config, &mut iface, 2, true), SettingChange::Stored);
    assert_eq!(iface.active_fps, 90);
    assert_eq!(adjust_setting(&mut config, &mut iface, 14, false), SettingChange::Stored);
    assert_eq!(config.power.auto_throttle_max, 8);
    assert_eq!(adjust_setting(&mut config, &mut iface, 0, true), SettingChange::Window);
    assert!(!iface.fullscreen);
    assert_eq!(adjust_setting(&mut config, &mut iface, 99, true), SettingChange::Nothing);
    assert_eq!(adjust_setting(&mut config, &mut iface, 23, true), SettingChange::PickFolder(gamingmode::shell::BrowserPurpose::PickCatalogDir));
}

#[test]
fn los_argumentos_del_emulador_llevan_la_rom() {
    let emulator = Emulator {
        id: "snes9x".to_string(),
        name: "Snes9x".to_string(),
        exe: "C:/emus/snes9x.exe".to_string(),
        args: vec!["-fullscreen".to_string(), "{rom}".to_string(), "--rom={rom}.bak".to_string()],
        platforms: vec!["snes".to_string()],
    };
    assert_eq!(
        emulator_args(&emulator, "C:/roms/smw.sfc"),
        vec!["-fullscreen", "C:/roms/smw.sfc", "--rom=C:/roms/smw.sfc.bak"]
    );
}

#[test]
fn los_candidatos_se_ordenan_por_titulo() {
    let sorted = gamingmode::shell::sort_candidates(vec![
        ImportCandidate::for_path("/j/zelda.exe"),
        ImportCandidate::for_path("/j/Mario.exe"),
        ImportCandidate::for_path("/j/asteroids.exe"),
    ]);
    let titles: Vec<&str> = sorted.iter().map(|c| c.title.as_str()).collect();
    assert_eq!(titles, vec!["Asteroids", "Mario", "Zelda"]);
    let mut library = Library::new();
    library.add(Game::new("Mario", Launch::Executable { path: "/j/Mario.exe".to_string(), args: vec![], working_dir: None }));
    assert!(library.has_executable("/j/Mario.exe"));
    assert!(!library.has_executable("/j/zelda.exe"));
}

#[test]
fn retroceder_pagina_mantiene_la_columna() {
    assert_eq!(move_focus(4, 12, 3, NavAction::PageUp), 1);
    assert_eq!(move_focus(10, 12, 3, NavAction::PageUp), 1);
    assert_eq!(move_focus(11, 30, 3, NavAction::PageUp), 2);
    assert_eq!(move_focus(2, 12, 3, NavAction::PageUp), 2);
}

#[test]
fn las_iniciales_son_dos_letras_como_mucho() {
    assert_eq!(initials("ß ß").chars().count(), 2);
    assert_eq!(initials("ßeta"), "S");
}

#[test]
fn moverse_o_abrir_no_toca_el_error() {
    let mut b = Browser::new(Filter::Executables, Some("/juegos".to_string()));
    b.refresh_with(Err("sin permiso".to_string()));
    let error = b.error.clone();
    b.navigate(NavAction::Down);
    assert_eq!(b.error, error);
    assert!(b.open_selected().is_none());
    assert_eq!(b.error, error);
    assert_eq!(b.selected, 0);
}
