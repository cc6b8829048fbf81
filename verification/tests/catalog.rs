use gamingmode::download::{part_path, DownloadState, Downloader, Progress, Transport};
use gamingmode::entry::{load_platform, RawEntry, RawUrl};
use gamingmode::error::Error;
use gamingmode::names::{display_name, family, platforms, Family};
use gamingmode::steamgrid::{cover_from_grids, fetch_cover, game_from_search, percent_encode, validate_key};

#[test]
fn el_temporal_no_pisa_la_extension_original() {
    let part = part_path("C:/roms/Super Mario World.sfc");
    assert_eq!(std::path::Path::new(&part).file_name().unwrap(), "Super Mario World.sfc.part");
}

#[test]
fn la_cola_respeta_el_maximo_de_simultaneas() {
    let downloader = Downloader::new(99, Transport::Ready);
    assert_eq!(downloader.max_concurrent(), 8, "se recorta a un maximo sensato");
    let downloader = Downloader::new(0, Transport::Ready);
    assert_eq!(downloader.max_concurrent(), 1);
}

#[test]
fn el_progreso_se_describe_para_la_interfaz() {
    let mut progress = Progress { state: DownloadState::Running, done: 512 * 1024, total: Some(1024 * 1024), speed_bps: 256 * 1024 };
    assert!(progress.describe().contains("512.0 KB / 1.0 MB"));

    progress.total = None;
    progress.state = DownloadState::Failed("sin red".into());
    assert_eq!(progress.describe(), "error: sin red");
}

#[test]
fn fuera_de_windows_la_descarga_falla_con_un_mensaje_claro() {
    let mut downloader = Downloader::new(2, Transport::Unsupported);
    let id = downloader.enqueue("Prueba", "https://example.org/x.zip", "/tmp/x.zip");
    let item = downloader.items().iter().find(|d| d.id == id).unwrap();
    let state = item.snapshot().state;
    assert!(matches!(state, DownloadState::Failed(_)));
    downloader.clear_finished();
    assert!(downloader.items().is_empty());
}

#[test]
fn la_tabla_esta_ordenada_para_la_busqueda_binaria() {
    let table = platforms();
    for pair in table.windows(2) {
        assert!(pair[0].0 < pair[1].0, "{} deberia ir despues de {}", pair[0].0, pair[1].0);
    }
}

#[test]
fn traduce_ids_conocidos_y_desconocidos() {
    assert_eq!(display_name("psx"), "PlayStation");
    assert_eq!(family("psx"), Family::Sony);
    assert_eq!(display_name("plataforma_rara"), "Plataforma_rara");
    assert_eq!(family("plataforma_rara"), Family::Otros);
}

#[test]
fn la_codificacion_deja_intactos_los_caracteres_seguros() {
    assert_eq!(percent_encode("Doom"), "Doom");
    assert_eq!(percent_encode("Super Mario World"), "Super%20Mario%20World");
    assert_eq!(percent_encode("Pokemon: Red"), "Pokemon%3A%20Red");
}

#[test]
fn fuera_de_windows_no_se_intenta_descargar_nada() {
    let result = fetch_cover("clave", "Doom", "abc123", "/tmp/gm-steamgrid");
    assert!(matches!(result, Err(Error::Unsupported(_))));
}

#[test]
fn fuera_de_windows_tampoco_se_valida_ninguna_clave() {
    assert!(matches!(validate_key("clave"), Err(Error::Unsupported(_))));
}

fn raw(kind: &str, p: &str, n: &str, ext: &str, parent: &str, urls: Vec<RawUrl>) -> RawEntry {
    RawEntry {
        kind: kind.to_string(),
        p: p.to_string(),
        n: n.to_string(),
        ext: ext.to_string(),
        parent: parent.to_string(),
        urls,
    }
}

#[test]
fn carga_saltando_directorios_y_lineas_rotas() {
    // The lines of `snes.jsonl` as parsed: a file, a folder, a file inside a
    // folder, and a line that is not JSON (the blank line is never parsed).
    let lines = vec![
        Some(raw(
            "file",
            "Super Mario World.sfc",
            "Super Mario World",
            ".sfc",
            "",
            vec![RawUrl { u: "https://example.org/smw.sfc".to_string(), label: None }],
        )),
        Some(raw("dir", "carpeta", "carpeta", "", "", vec![])),
        Some(raw(
            "file",
            "roms/Chrono Trigger.sfc",
            "Chrono Trigger",
            ".sfc",
            "roms",
            vec![RawUrl { u: "https://example.org/ct.sfc".to_string(), label: Some("Chrono Trigger".to_string()) }],
        )),
        None,
    ];
    let index = load_platform(&lines, "snes");

    assert_eq!(index.entries.len(), 2);
    assert_eq!(index.skipped, 2, "un dir y una linea rota");
    assert_eq!(index.display, "Super Nintendo");
    assert!(index.approx_bytes > 0);

    let smw = &index.entries[0];
    assert_eq!(smw.primary_url(), Some("https://example.org/smw.sfc"));
    assert_eq!(smw.search_key, "super mario world");
    assert_eq!(smw.file_name(), "Super Mario World.sfc");
    assert_eq!(index.entries[1].file_name(), "Chrono Trigger.sfc");
}

#[test]
fn una_entrada_sin_descarga_se_salta() {
    let lines = vec![
        Some(raw("file", "a.sfc", "A", ".sfc", "", vec![RawUrl { u: String::new(), label: None }])),
        Some(raw("file", "b.sfc", "B", ".sfc", "", vec![])),
        Some(raw(
            "file",
            "c.sfc",
            "C",
            ".sfc",
            "",
            vec![RawUrl { u: String::new(), label: None }, RawUrl { u: "https://example.org/c".to_string(), label: None }],
        )),
    ];
    let index = load_platform(&lines, "snes");
    assert_eq!(index.entries.len(), 1);
    assert_eq!(index.skipped, 2);
    assert_eq!(index.entries[0].primary_url(), Some("https://example.org/c"));
}

#[test]
fn la_busqueda_toma_el_primer_juego() {
    let body = r#"{"success":true,"data":[{"id":5247,"name":"Doom"},{"id":1,"name":"Doom II"}]}"#;
    assert_eq!(game_from_search(body, "Doom").unwrap(), 5247);
}

#[test]
fn una_busqueda_sin_resultados_no_encuentra_el_juego() {
    match game_from_search(r#"{"success":true,"data":[]}"#, "Juego Raro") {
        Err(Error::NotFound(m)) => assert_eq!(m, "ningun juego de SteamGridDB coincide con 'Juego Raro'"),
        other => panic!("se esperaba NotFound, llego {other:?}"),
    }
}

#[test]
fn una_respuesta_que_no_es_json_es_ilegible() {
    match game_from_search("<html>502</html>", "Doom") {
        Err(Error::Remote(m)) => assert!(m.starts_with("respuesta de SteamGridDB ilegible: "), "{m}"),
        other => panic!("se esperaba Remote, llego {other:?}"),
    }
    match cover_from_grids("") {
        Err(Error::Remote(m)) => assert!(m.starts_with("respuesta de SteamGridDB ilegible: "), "{m}"),
        other => panic!("se esperaba Remote, llego {other:?}"),
    }
}

#[test]
fn la_caratula_es_la_primera_de_la_lista() {
    let body = r#"{"success":true,"data":[{"id":9,"score":3,"url":"https://cdn2.steamgriddb.com/grid/a.png"},{"id":8,"url":"https://x/b.jpg"}]}"#;
    assert_eq!(cover_from_grids(body).unwrap(), "https://cdn2.steamgriddb.com/grid/a.png");
    match cover_from_grids(r#"{"success":true,"data":[{"id":9}]}"#) {
        Err(Error::NotFound(m)) => assert_eq!(m, "SteamGridDB no tiene ninguna caratula para ese juego"),
        other => panic!("se esperaba NotFound, llego {other:?}"),
    }
}

#[test]
fn cancelar_marca_solo_esa_descarga() {
    let mut downloader = Downloader::new(2, Transport::Ready);
    let a = downloader.enqueue("A", "https://x/a.zip", "/tmp/a.zip");
    let b = downloader.enqueue("B", "https://x/b.zip", "/tmp/b.zip");
    downloader.cancel(b);
    let items = downloader.items();
    assert!(!items.iter().find(|d| d.id == a).unwrap().cancel_requested());
    assert!(items.iter().find(|d| d.id == b).unwrap().cancel_requested());
    downloader.cancel(999);
    assert_eq!(downloader.items().iter().filter(|d| d.cancel_requested()).count(), 1);
}
