use gamingmode::browser::{filter_for, Filter};
use gamingmode::config::{Config, PowerPlan, Theme};
use gamingmode::library::{Game, Launch, Library, Sort};
use gamingmode::library_screen::{focused_game, scan_exe_candidates};
use gamingmode::optimizer::{Entry, Outcome, Report};
use gamingmode::scan::{process_fate, stoppable_services, ServiceReport};
use gamingmode::select::{Selection, Target, Untouched};
use gamingmode::services::ServiceEntry;
use gamingmode::session::QuickEffect;
use gamingmode::settings::{row_hint, row_label, row_value, Interface, SettingRow};
use gamingmode::shell::{key_status, BrowserPurpose, CoverQueue, KeyTestState, QuickOption, Screen, Shell, ToastKind, Tone};
use gamingmode::sys::ProcessUsage;

fn exe(title: &str, path: &str) -> Game {
    Game::new(title, Launch::Executable { path: path.to_string(), args: vec![], working_dir: None })
}

fn iface() -> Interface {
    Interface {
        fullscreen: true,
        theme: Theme::Dark,
        active_fps: 60,
        idle_fps: 10,
        background_fps: 2,
        minimize_while_playing: true,
        repeat_delay_ms: 350,
        capture_guide_button: true,
        rumble_feedback: false,
    }
}

#[test]
fn favorito_se_marca_y_se_desmarca() {
    let mut library = Library::new();
    library.add(exe("Doom", "/j/doom.exe"));
    library.add(exe("Quake", "/j/quake.exe"));
    let mut shell = Shell::new();
    let view = vec![1usize, 0];
    assert!(shell.toggle_favorite(&mut library, &view, 0, 0));
    assert!(library.games[1].favorite);
    assert!(!library.games[0].favorite);
    assert_eq!(shell.toasts.last().unwrap().text, "Anadido a favoritos");
    assert!(shell.toggle_favorite(&mut library, &view, 0, 0));
    assert!(!library.games[1].favorite);
    assert_eq!(shell.toasts.last().unwrap().text, "Quitado de favoritos");
    // Sin juego bajo el foco no cambia nada.
    assert!(!shell.toggle_favorite(&mut library, &view, 5, 0));
    assert_eq!(shell.toasts.len(), 2);
}

#[test]
fn quitar_el_juego_enfocado_cierra_su_ficha() {
    let mut library = Library::new();
    library.add(exe("Doom", "/j/doom.exe"));
    library.add(exe("Quake", "/j/quake.exe"));
    let mut shell = Shell::new();
    shell.push_view(Screen::GameDetail);
    let view = vec![0usize, 1];
    let removed = shell.remove_focused(&mut library, &view, 1, 0).unwrap();
    assert_eq!(removed.title, "Quake");
    assert_eq!(library.games.len(), 1);
    assert_eq!(shell.toasts.last().unwrap().text, "Quake quitado de la biblioteca");
    assert_eq!(shell.view, Screen::Library);
    assert!(shell.remove_focused(&mut library, &view, 1, 0).is_none());
}

#[test]
fn renombrar_mantiene_el_foco_en_el_mismo_juego() {
    let mut library = Library::new();
    library.add(exe("Zelda", "/j/zelda.exe"));
    library.add(exe("Doom", "/j/doom.exe"));
    let mut shell = Shell::new();
    let mut covers = CoverQueue::new();
    covers.note_attempt(&library.games[0].id.clone());
    let mut view = library.view("", None, Sort::Title, false);
    assert_eq!(view, vec![1, 0]);
    let mut focus = 1usize;
    shell.push_view(Screen::GameDetail);
    shell.begin_rename("  Aladdin ");
    assert!(shell.confirm_rename(&mut library, &mut covers, &mut view, &mut focus, "", Sort::Title, 0));
    assert_eq!(library.games[0].title, "Aladdin");
    assert_eq!(view, vec![0, 1]);
    assert_eq!(focus, 0, "el foco sigue al juego, no a la posicion vieja");
    assert_eq!(shell.view, Screen::GameDetail);
    assert!(!shell.renaming);
    assert!(!covers.was_attempted(&library.games[0].id));
    assert_eq!(shell.toasts.last().unwrap().text, "Renombrado a \"Aladdin\"");
}

#[test]
fn renombrar_fuera_de_la_busqueda_cierra_la_ficha() {
    let mut library = Library::new();
    library.add(exe("Zelda", "/j/zelda.exe"));
    let mut shell = Shell::new();
    let mut covers = CoverQueue::new();
    let mut view = library.view("zel", None, Sort::Title, false);
    let mut focus = 0usize;
    shell.push_view(Screen::GameDetail);
    shell.begin_rename("Doom");
    shell.confirm_rename(&mut library, &mut covers, &mut view, &mut focus, "zel", Sort::Title, 0);
    assert!(view.is_empty());
    assert_eq!(shell.view, Screen::Library);
}

#[test]
fn un_titulo_vacio_no_se_guarda() {
    let mut library = Library::new();
    library.add(exe("Zelda", "/j/zelda.exe"));
    let mut shell = Shell::new();
    let mut covers = CoverQueue::new();
    let mut view = vec![0usize];
    let mut focus = 0usize;
    shell.begin_rename("   ");
    assert!(!shell.confirm_rename(&mut library, &mut covers, &mut view, &mut focus, "", Sort::Title, 0));
    assert_eq!(library.games[0].title, "Zelda");
    assert!(shell.renaming, "la edicion sigue abierta");
    let last = shell.toasts.last().unwrap();
    assert_eq!(last.text, "El titulo no puede quedar vacio");
    assert_eq!(last.kind, ToastKind::Bad);
}

#[test]
fn anadir_un_ejecutable_desde_el_explorador() {
    let mut library = Library::new();
    let mut shell = Shell::new();
    shell.push_view(Screen::Browser);
    assert!(shell.add_executable(&mut library, "/juegos/hollow_knight.exe", 0));
    assert_eq!(library.games.len(), 1);
    assert_eq!(library.games[0].title, "Hollow Knight");
    assert_eq!(library.games[0].collection, "PC");
    assert_eq!(shell.toasts.last().unwrap().text, "Hollow Knight anadido a la biblioteca");
    assert_eq!(shell.view, Screen::Library);
    shell.push_view(Screen::Browser);
    assert!(!shell.add_executable(&mut library, "/juegos/hollow_knight.exe", 0));
    assert_eq!(library.games.len(), 1);
    let last = shell.toasts.last().unwrap();
    assert_eq!(last.text, "Hollow Knight ya estaba en la biblioteca");
    assert_eq!(last.kind, ToastKind::Info);
}

#[test]
fn importar_ofrece_solo_exe_nuevos_en_orden_de_titulo() {
    let mut library = Library::new();
    library.add(exe("Ya", "/c/ya.EXE"));
    let files = vec![
        "/c/zeta.exe".to_string(),
        "/c/leeme.txt".to_string(),
        "/c/ya.EXE".to_string(),
        "/c/setup.EXE".to_string(),
        "/c/alfa.Exe".to_string(),
    ];
    let out = scan_exe_candidates(&files, &library);
    let paths: Vec<&str> = out.iter().map(|c| c.path.as_str()).collect();
    assert_eq!(paths, vec!["/c/alfa.Exe", "/c/setup.EXE", "/c/zeta.exe"]);
    assert!(out[0].checked);
    assert!(out[1].installer && !out[1].checked, "un instalador entra sin marcar");
}

#[test]
fn solo_se_lanza_un_juego_a_la_vez() {
    let mut shell = Shell::new();
    assert!(shell.may_launch(false, 0));
    assert!(shell.toasts.is_empty());
    assert!(!shell.may_launch(true, 0));
    assert_eq!(shell.toasts.last().unwrap().text, "Ya hay un juego en marcha");
}

#[test]
fn lanzar_avisa_y_vuelve_a_la_biblioteca() {
    let mut shell = Shell::new();
    shell.push_view(Screen::GameDetail);
    shell.launch_started("Doom", Ok(()), 0);
    assert_eq!(shell.view, Screen::Library);
    assert!(shell.stack.is_empty());
    assert_eq!(shell.toasts.last().unwrap().text, "Lanzando Doom");
    shell.push_view(Screen::GameDetail);
    shell.launch_started("Doom", Err("no existe".to_string()), 0);
    assert_eq!(shell.view, Screen::GameDetail);
    assert_eq!(shell.toasts.last().unwrap().text, "No se pudo lanzar Doom: no existe");
}

#[test]
fn al_acabar_la_partida_se_apunta_el_tiempo() {
    let mut library = Library::new();
    library.add(exe("Doom", "/j/doom.exe"));
    let id = library.games[0].id.clone();
    let mut shell = Shell::new();
    shell.session_over(&mut library, &id, "Doom", 3700, false, 0);
    assert_eq!(library.games[0].play_seconds, 3700);
    assert!(library.games[0].last_played.is_some());
    assert_eq!(shell.toasts.last().unwrap().text, "Doom: 1 h 1 min");
    shell.session_over(&mut library, &id, "Doom", 60, true, 0);
    assert_eq!(library.games[0].play_seconds, 3760);
    assert_eq!(shell.toasts.last().unwrap().text, "Doom cerrado");
}

#[test]
fn opciones_del_panel_rapido() {
    let mut shell = Shell::new();
    shell.push_view(Screen::Quick);
    assert_eq!(shell.run_quick_option(Some(QuickOption::ResumeGame), true), QuickEffect::MinimizeWindow);
    assert_eq!(shell.view, Screen::Library);
    shell.push_view(Screen::Quick);
    assert_eq!(shell.run_quick_option(Some(QuickOption::EndSession), true), QuickEffect::EndSession);
    assert_eq!(shell.view, Screen::Library);
    shell.push_view(Screen::Quick);
    assert_eq!(shell.run_quick_option(Some(QuickOption::Settings), false), QuickEffect::Nothing);
    assert_eq!(shell.view, Screen::Settings);
    assert!(shell.stack.is_empty());
    assert_eq!(shell.run_quick_option(Some(QuickOption::TogglePower), false), QuickEffect::TogglePower);
    assert_eq!(shell.run_quick_option(Some(QuickOption::Exit), false), QuickEffect::Exit);
    assert_eq!(shell.run_quick_option(None, false), QuickEffect::Nothing);
    assert_eq!(shell.view, Screen::Settings);
}

#[test]
fn textos_de_las_filas_de_ajustes() {
    let mut config = Config::default();
    let i = iface();
    assert_eq!(row_label(SettingRow::KillExplorer), "Cerrar explorer.exe (avanzado)");
    assert_eq!(row_hint(SettingRow::Fullscreen), "Se aplica al momento; tambien con F11");
    assert_eq!(row_hint(SettingRow::Rumble), "");
    assert_eq!(row_value(&config, &i, SettingRow::ActiveFps, "/d").unwrap(), "60 fps");
    assert_eq!(row_value(&config, &i, SettingRow::BackgroundFps, "/d").unwrap(), "2 Hz");
    assert_eq!(row_value(&config, &i, SettingRow::Rumble, "/d").unwrap(), "desactivado");
    assert_eq!(row_value(&config, &i, SettingRow::ThemeMode, "/d").unwrap(), "oscuro");
    assert!(row_value(&config, &i, SettingRow::UiScale, "/d").is_none());
    config.power.power_plan = PowerPlan::Ultimate;
    assert_eq!(row_value(&config, &i, SettingRow::PowerPlan, "/d").unwrap(), "maximo rendimiento");
    config.power.stop_services = true;
    config.power.services = vec![];
    assert_eq!(row_value(&config, &i, SettingRow::StopServices, "/d").unwrap(), "seleccion recomendada");
    config.power.services = vec!["SysMain".to_string(), "WSearch".to_string()];
    assert_eq!(row_value(&config, &i, SettingRow::StopServices, "/d").unwrap(), "2 elegidos a mano");
    config.power.auto_throttle_min_mb = 150;
    assert_eq!(row_value(&config, &i, SettingRow::AutoThrottleMinMb, "/d").unwrap(), "desde 150 MB");
    config.catalog.index_dir = None;
    assert_eq!(row_value(&config, &i, SettingRow::CatalogDir, "/d").unwrap(), "sin configurar");
    config.covers.steamgrid_api_key = Some("   ".to_string());
    assert_eq!(row_value(&config, &i, SettingRow::CoverAutoFetch, "/d").unwrap(), "sin clave configurada");
    config.covers.steamgrid_api_key = Some("abc".to_string());
    config.covers.auto_fetch = true;
    assert_eq!(row_value(&config, &i, SettingRow::CoverAutoFetch, "/d").unwrap(), "activado");
}

#[test]
fn estado_de_la_prueba_de_clave() {
    assert_eq!(key_status(&KeyTestState::Idle, true).1, Tone::Dim);
    assert_eq!(key_status(&KeyTestState::Idle, false).0, "Sin guardar todavia. Pulsa Y para probarla antes de guardar.");
    assert_eq!(key_status(&KeyTestState::Testing, false), ("Probando contra SteamGridDB...".to_string(), Tone::Warn));
    assert_eq!(key_status(&KeyTestState::Valid, false).0, "\u{2714} La clave funciona.");
    assert_eq!(
        key_status(&KeyTestState::Invalid("clave rechazada".to_string()), true),
        ("\u{2716} clave rechazada".to_string(), Tone::Bad)
    );
}

fn process(pid: u32, name: &str) -> ProcessUsage {
    ProcessUsage { pid, name: name.to_string(), parent_pid: 0, working_set: 0, private_bytes: 0 }
}

#[test]
fn cada_proceso_lleva_su_destino() {
    let selection = Selection {
        targets: vec![
            Target { pid: 10, name: "chrome".to_string(), working_set: 1, forced: false },
            Target { pid: 11, name: "discord".to_string(), working_set: 1, forced: true },
        ],
        untouched: vec![Untouched { name: "SteamController".to_string(), reason: "mando de Steam Deck".to_string() }],
    };
    assert_eq!(process_fate(&selection, &process(10, "chrome")), ("a segundo plano".to_string(), Tone::Accent));
    assert_eq!(process_fate(&selection, &process(11, "discord")).0, "siempre a segundo plano");
    assert_eq!(
        process_fate(&selection, &process(12, "steamcontroller")),
        ("mando de Steam Deck".to_string(), Tone::Good)
    );
    assert_eq!(process_fate(&selection, &process(13, "notepad")), ("sin tocar".to_string(), Tone::Dim));
}

#[test]
fn servicios_que_se_detendrian() {
    let entry = ServiceEntry { name: "SysMain", display: "Superfetch", effect: "nada", default_on: true };
    let reports = vec![
        ServiceReport { entry, running: true, ram: None, shared_process: false, enabled: true },
        ServiceReport { entry, running: false, ram: None, shared_process: false, enabled: true },
        ServiceReport { entry, running: true, ram: None, shared_process: false, enabled: false },
    ];
    assert_eq!(stoppable_services(&reports), 1);
}

#[test]
fn el_explorador_filtra_segun_para_que_se_abre() {
    assert_eq!(filter_for(BrowserPurpose::AddExecutable), Filter::Executables);
    assert_eq!(filter_for(BrowserPurpose::ImportFolder), Filter::Directories);
    assert_eq!(filter_for(BrowserPurpose::PickDownloadDir), Filter::Directories);
}

#[test]
fn el_modo_juego_no_se_cambia_mientras_trabaja() {
    let mut shell = Shell::new();
    assert!(shell.may_toggle_power(false, 0));
    assert!(shell.toasts.is_empty());
    assert!(!shell.may_toggle_power(true, 0));
    assert_eq!(shell.toasts.last().unwrap().text, "El modo juego ya esta trabajando...");
}

#[test]
fn el_informe_del_modo_juego_se_cuenta() {
    let mut shell = Shell::new();
    let mut report = Report::default();
    report.entries.push(Entry { area: "Plan", message: "ok".to_string(), outcome: Outcome::Applied });
    shell.power_report(&report, true, 0);
    let last = shell.toasts.last().unwrap();
    assert_eq!(last.text, "Modo juego activo: 1 cambios aplicados");
    assert_eq!(last.kind, ToastKind::Good);
    report.entries.push(Entry { area: "Servicio", message: "no".to_string(), outcome: Outcome::Failed });
    shell.power_report(&report, false, 0);
    let last = shell.toasts.last().unwrap();
    assert_eq!(last.text, "Sistema restaurado: 1 cambios aplicados, 1 fallidos");
    assert_eq!(last.kind, ToastKind::Info);
}

#[test]
fn el_juego_enfocado() {
    let mut library = Library::new();
    library.add(exe("Doom", "/j/doom.exe"));
    let view = vec![0usize];
    assert_eq!(focused_game(&library, &view, 0).unwrap().title, "Doom");
    assert!(focused_game(&library, &view, 1).is_none());
    assert!(focused_game(&library, &vec![3usize], 0).is_none());
}

#[test]
fn leyenda_de_la_barra_inferior() {
    let v = gamingmode::actions::legend(Screen::Settings);
    assert_eq!(v.len(), 3);
    assert_eq!(v[0].1, "Cambiar");
    assert_eq!(gamingmode::actions::legend(Screen::Library).len(), 8);
    assert!(gamingmode::actions::legend(Screen::ImportReview).is_empty());
}

#[test]
fn la_ficha_de_un_juego() {
    let mut g = exe("Doom", "/j/doom.exe");
    g.play_seconds = 3700;
    g.favorite = true;
    let rows = gamingmode::library_screen::detail_rows(&g);
    assert_eq!(rows[0], ("Tiempo jugado", "1 h 1 min".to_string()));
    assert_eq!(rows[1], ("Ultima partida", "nunca".to_string()));
    assert_eq!(rows[2], ("Favorito", "si".to_string()));
    assert_eq!(rows[3], ("Destino", "/j/doom.exe".to_string()));
    assert_eq!(gamingmode::library_screen::launch_kind(&g.launch), "Ejecutable");
    assert_eq!(gamingmode::library_screen::cover_button_label(false), "Buscar caratula");
}

#[test]
fn el_subtitulo_de_la_tarjeta() {
    assert_eq!(gamingmode::library_screen::card_subtitle("PC", false, true), "PC");
    assert_eq!(gamingmode::library_screen::card_subtitle("PC", true, true), "\u{2605} PC");
    assert_eq!(gamingmode::library_screen::card_subtitle("", true, false), "\u{26a0} no encontrado \u{b7} \u{2605}");
    assert_eq!(gamingmode::library_screen::card_subtitle("", false, true), "");
}

#[test]
fn cuando_se_vuelve_a_medir() {
    assert!(gamingmode::scan::rescan_due(true, false, None, 0));
    assert!(!gamingmode::scan::rescan_due(false, false, None, 0));
    assert!(!gamingmode::scan::rescan_due(true, true, None, 0));
    assert!(!gamingmode::scan::rescan_due(true, false, Some(1000), 11000));
    assert!(gamingmode::scan::rescan_due(true, false, Some(1000), 11001));
    assert!(gamingmode::scan::memory_read_due(0, 1501));
    assert!(!gamingmode::scan::memory_read_due(0, 1500));
}

#[test]
fn una_tarea_periodica_toca_cuando_pasa_su_plazo() {
    assert!(gamingmode::scan::due(0, None, 1500));
    assert!(!gamingmode::scan::due(1500, Some(0), 1500));
    assert!(gamingmode::scan::due(1501, Some(0), 1500));
    assert!(!gamingmode::scan::due(5, Some(10), 1500));
}
