use gamingmode::library::{Game, Launch, Library, Sort};
use gamingmode::util::{format_bytes, format_playtime, normalize, stable_id};

fn exe(path: &str, title: &str) -> Game {
    Game::new(title, Launch::Executable { path: path.to_string(), args: vec![], working_dir: None })
}

#[test]
fn normaliza_acentos_y_puntuacion() {
    assert_eq!(normalize("Pokémon: Edición Roja"), "pokemon edicion roja");
    assert_eq!(normalize("  F-ZERO  (USA) "), "f zero usa");
    assert_eq!(normalize("Ninõ"), "nino");
}

#[test]
fn los_ids_son_estables_y_distintos() {
    let a = stable_id(&["C:/juegos/a.exe", "Juego A"]);
    assert_eq!(a, stable_id(&["C:/juegos/a.exe", "Juego A"]));
    assert_ne!(a, stable_id(&["C:/juegos/b.exe", "Juego A"]));
    assert_ne!(stable_id(&["ab", "c"]), stable_id(&["a", "bc"]));
}

#[test]
fn formatea_tiempos_y_tamanos() {
    assert_eq!(format_playtime(30), "sin jugar");
    assert_eq!(format_playtime(3600 * 2 + 60 * 5), "2 h 5 min");
    assert_eq!(format_bytes(2048), "2.0 KB");
}

#[test]
fn no_se_duplican_entradas() {
    let mut lib = Library::new();
    assert!(lib.add(exe("C:/a.exe", "Doom")));
    assert!(!lib.add(exe("C:/a.exe", "Doom")));
    assert_eq!(lib.games.len(), 1);
}

#[test]
fn la_busqueda_ignora_acentos_y_orden_de_palabras() {
    let mut lib = Library::new();
    lib.add(exe("C:/a.exe", "Pokémon Edición Roja"));
    lib.add(exe("C:/b.exe", "Doom Eternal"));
    assert_eq!(lib.view("pokemon roja", None, Sort::Title, false).len(), 1);
    assert_eq!(lib.view("roja pokemon", None, Sort::Title, false).len(), 1);
    assert_eq!(lib.view("zelda", None, Sort::Title, false).len(), 0);
    assert_eq!(lib.view("", None, Sort::Title, false).len(), 2);
}

#[test]
fn renombrar_actualiza_titulo_y_clave_de_busqueda() {
    let mut lib = Library::new();
    lib.add(exe("C:/a.exe", "Mi Juego v1 2 3 Win64"));
    let id = lib.games[0].id.clone();
    assert!(lib.rename(&id, "Pokemon Edicion Roja"));
    assert_eq!(lib.games[0].title, "Pokemon Edicion Roja");
    assert_eq!(lib.view("pokemon roja", None, Sort::Title, false).len(), 1, "la busqueda ya usa el nuevo titulo");
    assert_eq!(lib.view("mi juego", None, Sort::Title, false).len(), 0, "el titulo viejo ya no encuentra nada");
}

#[test]
fn renombrar_algo_que_no_existe_no_hace_nada() {
    let mut lib = Library::new();
    assert!(!lib.rename("no-existe", "Nuevo"));
}

#[test]
fn ordena_por_ultima_partida() {
    let mut lib = Library::new();
    lib.add(exe("C:/a.exe", "A"));
    lib.add(exe("C:/b.exe", "B"));
    let id_b = lib.games[1].id.clone();
    lib.record_session(&id_b, 120);
    let view = lib.view("", None, Sort::LastPlayed, false);
    assert_eq!(lib.games[view[0]].title, "B");
    assert_eq!(lib.games[view[0]].play_seconds, 120);
}

#[test]
fn deriva_titulos_de_rutas() {
    assert_eq!(Game::title_from_path("C:/x/super_mario_world.sfc"), "Super Mario World");
    assert_eq!(Game::title_from_path("/x/DOOM.exe"), "DOOM");
}

#[test]
fn get_mut_cambia_la_entrada_en_su_sitio() {
    let mut lib = Library::new();
    lib.add(exe("C:/a.exe", "A"));
    lib.add(exe("C:/b.exe", "B"));
    let id_b = lib.games[1].id.clone();
    match lib.get_mut(&id_b) {
        Some(game) => game.favorite = true,
        None => panic!("la entrada existe"),
    }
    assert!(lib.games[1].favorite);
    assert!(!lib.games[0].favorite);
    assert!(lib.get_mut("no-existe").is_none());
}

#[test]
fn quitar_devuelve_la_entrada_y_la_borra() {
    let mut lib = Library::new();
    lib.add(exe("C:/a.exe", "A"));
    let id = lib.games[0].id.clone();
    let removed = lib.remove(&id).expect("estaba");
    assert_eq!(removed.title, "A");
    assert!(lib.games.is_empty());
    assert!(lib.remove(&id).is_none());
}

#[test]
fn una_entrada_nueva_lleva_la_hora_en_que_se_anadio() {
    let g = Game::new_at("Doom", Launch::Shortcut { target: "steam://run/1".to_string() }, 1_700_000_000);
    assert_eq!(g.added_at, 1_700_000_000);
    assert!(g.last_played.is_none());
    assert_eq!(g.play_seconds, 0);
}

#[test]
fn la_ultima_partida_lleva_su_hora_y_ordena() {
    let mut lib = Library::new();
    lib.add(exe("C:/a.exe", "A"));
    lib.add(exe("C:/b.exe", "B"));
    let id_b = lib.games[1].id.clone();
    let before = lib.games[0].clone();
    lib.record_session_at(&id_b, 120, 1_700_000_500);
    assert_eq!(lib.games[1].play_seconds, 120);
    assert_eq!(lib.games[1].last_played, Some(1_700_000_500));
    assert_eq!(lib.games[0].last_played, before.last_played);
    assert_eq!(lib.games[0].play_seconds, before.play_seconds);
    let view = lib.view("", None, Sort::LastPlayed, false);
    assert_eq!(lib.games[view[0]].title, "B");
    lib.record_session_at("no-existe", 10, 5);
    assert_eq!(lib.games[1].play_seconds, 120);
}
