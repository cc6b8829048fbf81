use gamingmode::config::{Config, Emulator};
use gamingmode::error::Error;
use gamingmode::launcher::{launch_command, LaunchCommand};
use gamingmode::library::{Game, Launch};

#[test]
fn un_ejecutable_que_no_existe_da_not_found() {
    let game = Game::new(
        "Fantasma",
        Launch::Executable { path: "/no/existe/x.exe".to_string(), args: vec![], working_dir: None },
    );
    let available = game.launch.is_available();
    assert!(matches!(launch_command(&game.launch, &Config::default(), available), Err(Error::NotFound(_))));
}

#[test]
fn un_ejecutable_arranca_en_su_carpeta() {
    let launch = Launch::Executable {
        path: "/juegos/celeste/Celeste.exe".to_string(),
        args: vec!["--fullscreen".to_string()],
        working_dir: None,
    };
    match launch_command(&launch, &Config::default(), true) {
        Ok(LaunchCommand::Run { program, args, cwd }) => {
            assert_eq!(program, "/juegos/celeste/Celeste.exe");
            assert_eq!(args, vec!["--fullscreen".to_string()]);
            assert_eq!(cwd.as_deref(), Some("/juegos/celeste"));
        }
        _ => panic!("se esperaba un programa que arrancar"),
    }
}

#[test]
fn la_carpeta_configurada_manda() {
    let launch = Launch::Executable {
        path: "/juegos/x/bin/x.exe".to_string(),
        args: vec![],
        working_dir: Some("/juegos/x".to_string()),
    };
    match launch_command(&launch, &Config::default(), true) {
        Ok(LaunchCommand::Run { cwd, .. }) => assert_eq!(cwd.as_deref(), Some("/juegos/x")),
        _ => panic!("se esperaba un programa que arrancar"),
    }
}

#[test]
fn una_rom_sin_emulador_es_un_error_de_configuracion() {
    let launch = Launch::Rom { path: "/roms/mario.sfc".to_string(), platform: "snes".to_string(), emulator_id: None };
    match launch_command(&launch, &Config::default(), true) {
        Err(Error::Config(m)) => assert_eq!(m, "no hay emulador para snes"),
        _ => panic!("se esperaba un error de configuracion"),
    }
    assert!(matches!(launch_command(&launch, &Config::default(), false), Err(Error::NotFound(p)) if p == "/roms/mario.sfc"));
}

#[test]
fn una_rom_se_abre_con_su_emulador() {
    let mut config = Config::default();
    config.emulators.push(Emulator {
        id: "snes9x".to_string(),
        name: "Snes9x".to_string(),
        exe: "C:/emus/snes9x.exe".to_string(),
        args: vec!["-fullscreen".to_string(), "{rom}".to_string()],
        platforms: vec!["SNES".to_string()],
    });
    let launch = Launch::Rom { path: "/roms/mario.sfc".to_string(), platform: "snes".to_string(), emulator_id: None };
    match launch_command(&launch, &config, true) {
        Ok(LaunchCommand::Run { program, args, cwd }) => {
            assert_eq!(program, "C:/emus/snes9x.exe");
            assert_eq!(args, vec!["-fullscreen".to_string(), "/roms/mario.sfc".to_string()]);
            assert!(cwd.is_none());
        }
        _ => panic!("se esperaba el emulador"),
    }
    let by_id = Launch::Rom { path: "/roms/m.sfc".to_string(), platform: "gba".to_string(), emulator_id: Some("otro".to_string()) };
    assert!(matches!(launch_command(&by_id, &config, true), Err(Error::Config(_))));
}

#[test]
fn un_atajo_lo_abre_el_sistema() {
    let launch = Launch::Shortcut { target: "steam://rungameid/504230".to_string() };
    match launch_command(&launch, &Config::default(), false) {
        Ok(LaunchCommand::Open { target }) => assert_eq!(target, "steam://rungameid/504230"),
        _ => panic!("se esperaba un atajo"),
    }
}
