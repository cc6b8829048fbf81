use gamingmode::config::Power;
use gamingmode::guid::{balanced, ultimate, SchemeGuid};
use gamingmode::protect::{detect_helpers, handheld_helpers, protection_for, stem, Protection};
use gamingmode::scan::{build_service_reports, SystemScan};
use gamingmode::select::select_throttle_targets;
use gamingmode::services::{catalog, defaults, is_allowed, reset_services, sanitize, toggle_service};
use gamingmode::sys::{ProcessUsage, ServiceStatus};

#[test]
fn ida_y_vuelta_de_texto() {
    let text = "e9a42b02-d5df-448d-aa00-03f14749eb61";
    let guid = SchemeGuid::parse(text).unwrap();
    assert_eq!(guid, ultimate());
    assert_eq!(guid.to_string(), text);
}

#[test]
fn acepta_llaves_y_rechaza_basura() {
    assert_eq!(SchemeGuid::parse("{381b4222-f694-41f0-9685-ff5bb260df2e}"), Some(balanced()));
    assert_eq!(SchemeGuid::parse("no-soy-un-guid"), None);
    assert_eq!(SchemeGuid::parse(""), None);
}

#[test]
fn los_procesos_del_sistema_estan_siempre_protegidos() {
    assert_eq!(protection_for("csrss", &[], false), Some(Protection::System));
    assert_eq!(protection_for("LSASS.EXE", &[], false), Some(Protection::System));
    assert_eq!(protection_for("TextInputHost", &[], false), Some(Protection::System));
}

#[test]
fn las_utilidades_de_portatil_se_protegen_cuando_toca() {
    let protection = protection_for("HandheldCompanion.exe", &[], true).unwrap();
    assert!(matches!(protection, Protection::Handheld(_)));
    assert!(protection.reason().contains("Handheld Companion"));
    assert!(protection.reason().contains("mando"));
    assert_eq!(protection_for("HandheldCompanion", &[], false), None);
}

#[test]
fn la_extension_da_igual_como_este_escrita() {
    assert_eq!(stem("Juego.EXE"), "Juego");
    assert_eq!(stem("sin_extension"), "sin_extension");
    assert_eq!(stem("varios.puntos.exe"), "varios.puntos");
    assert_eq!(stem("Emulación.exe"), "Emulación");
    assert_eq!(stem("Emulación"), "Emulación");
}

#[test]
fn el_usuario_puede_anadir_los_suyos() {
    let extra = vec!["MiUtilidad".to_string()];
    assert_eq!(protection_for("miutilidad.exe", &extra, true), Some(Protection::User));
    assert_eq!(protection_for("otracosa", &extra, true), None);
}

#[test]
fn la_deteccion_no_repite_programa() {
    let running = ["SteamController", "FanControl", "PowerControl", "notepad", "HandheldCompanion"];
    let found = detect_helpers(&running);
    let suites: Vec<&str> = found.iter().map(|helper| helper.suite).collect();
    assert_eq!(suites, vec!["Steam Deck Tools", "Handheld Companion"]);
}

#[test]
fn no_hay_entradas_duplicadas_en_las_listas() {
    let helpers = handheld_helpers();
    for (index, helper) in helpers.iter().enumerate() {
        assert!(
            !helpers[index + 1..].iter().any(|other| other.process == helper.process),
            "{} aparece dos veces",
            helper.process
        );
    }
}

#[test]
fn el_catalogo_no_tiene_duplicados() {
    let cat = catalog();
    for (index, entry) in cat.iter().enumerate() {
        assert!(
            !cat[index + 1..].iter().any(|other| other.name.eq_ignore_ascii_case(entry.name)),
            "{} duplicado",
            entry.name
        );
        assert!(!entry.effect.is_empty(), "{} sin explicacion", entry.name);
    }
}

#[test]
fn solo_se_aceptan_servicios_del_catalogo() {
    let (allowed, rejected) =
        sanitize(&["sysmain".to_string(), "Audiosrv".to_string(), "SysMain".to_string(), "ViGEmBus".to_string()]);
    assert_eq!(allowed, vec!["SysMain"], "se normaliza y no se repite");
    assert_eq!(rejected, vec!["Audiosrv", "ViGEmBus"], "nada fuera de la lista blanca");
}

#[test]
fn los_defaults_son_un_subconjunto_del_catalogo() {
    let defaults = defaults();
    assert!(!defaults.is_empty());
    assert!(defaults.iter().all(|name| is_allowed(name)));
    assert!(defaults.contains(&"SysMain".to_string()));
}

#[test]
fn el_catalogo_no_toca_nada_de_audio_red_o_mandos() {
    for prohibido in ["Audiosrv", "AudioEndpointBuilder", "ViGEmBus", "HidHide", "Dhcp", "Dnscache", "nsi"] {
        assert!(!is_allowed(prohibido), "{prohibido} no deberia poder detenerse");
    }
}

fn status(name: &str, running: bool, pid: u32) -> ServiceStatus {
    ServiceStatus { name: name.to_string(), display: name.to_string(), running, pid }
}

fn usage(pid: u32, name: &str, mb: u64) -> ProcessUsage {
    ProcessUsage { pid, name: name.to_string(), parent_pid: 0, working_set: mb * 1024 * 1024, private_bytes: 0 }
}

#[test]
fn cruza_servicios_con_la_memoria_de_su_proceso() {
    let statuses = vec![status("SysMain", true, 500), status("WSearch", true, 600)];
    let processes = vec![usage(500, "svchost", 300), usage(600, "SearchIndexer", 700)];
    let reports = build_service_reports(&statuses, &processes, &["SysMain".to_string()]);

    let sysmain = reports.iter().find(|r| r.entry.name == "SysMain").unwrap();
    assert!(sysmain.running && sysmain.enabled);
    assert_eq!(sysmain.ram, Some(300 * 1024 * 1024));
    assert!(!sysmain.shared_process);

    let wsearch = reports.iter().find(|r| r.entry.name == "WSearch").unwrap();
    assert!(wsearch.running);
    assert!(!wsearch.enabled, "no estaba en la seleccion");
}

#[test]
fn marca_los_servicios_que_comparten_proceso() {
    let statuses = vec![status("SysMain", true, 500), status("DiagTrack", true, 500)];
    let processes = vec![usage(500, "svchost", 400)];
    let reports = build_service_reports(&statuses, &processes, &[]);
    assert!(reports.iter().filter(|r| r.running).all(|r| r.shared_process));
}

#[test]
fn un_servicio_que_no_existe_en_el_equipo_sale_parado_y_sin_memoria() {
    let reports = build_service_reports(&[], &[], &[]);
    assert_eq!(reports.len(), catalog().len());
    assert!(reports.iter().all(|r| !r.running && r.ram.is_none()));
}

#[test]
fn la_lista_pone_primero_lo_que_esta_corriendo_y_pesa() {
    let statuses = vec![status("SysMain", true, 1), status("Spooler", true, 2), status("Fax", false, 0)];
    let processes = vec![usage(1, "a", 100), usage(2, "b", 300)];
    let reports = build_service_reports(&statuses, &processes, &[]);
    assert_eq!(reports[0].entry.name, "Spooler", "el que mas pesa primero");
    assert_eq!(reports[1].entry.name, "SysMain");
    assert!(!reports.last().unwrap().running);
}

#[test]
fn solo_se_cuenta_como_recuperable_lo_que_no_comparte_proceso() {
    let mut scan = SystemScan::default();
    scan.services = build_service_reports(
        &[status("SysMain", true, 1), status("Spooler", true, 2), status("DiagTrack", true, 2)],
        &[usage(1, "a", 100), usage(2, "b", 300)],
        &["SysMain".to_string(), "Spooler".to_string(), "DiagTrack".to_string()],
    );
    assert_eq!(scan.recoverable_service_ram(), 100 * 1024 * 1024);
}

fn process(pid: u32, name: &str, mb: u64) -> ProcessUsage {
    child_process(pid, 0, name, mb)
}

fn child_process(pid: u32, parent_pid: u32, name: &str, mb: u64) -> ProcessUsage {
    ProcessUsage { pid, parent_pid, name: name.to_string(), working_set: mb * 1024 * 1024, private_bytes: mb * 1024 * 1024 }
}

fn config() -> Power {
    let mut p = Power::defaults();
    p.auto_throttle_max = 2;
    p.auto_throttle_min_mb = 100;
    p
}

fn target_names(processes: &[ProcessUsage], config: &Power, self_pid: u32, game: Option<u32>) -> Vec<String> {
    select_throttle_targets(processes, config, self_pid, game).targets.iter().map(|t| t.name.clone()).collect()
}

#[test]
fn se_eligen_los_mas_pesados_hasta_el_maximo() {
    let processes =
        vec![process(10, "navegador", 900), process(11, "chat", 400), process(12, "editor", 250), process(13, "cosita", 5)];
    assert_eq!(target_names(&processes, &config(), 1, None), vec!["navegador", "chat"], "solo los dos mas gordos");
}

#[test]
fn lo_que_no_llega_al_umbral_ni_se_mira() {
    let processes = vec![process(10, "pequeno", 40), process(11, "minimo", 1)];
    let selection = select_throttle_targets(&processes, &config(), 1, None);
    assert!(selection.targets.is_empty());
}

#[test]
fn nunca_se_toca_el_shell_ni_el_juego() {
    let processes = vec![process(1, "gamingmode", 300), process(42, "eljuego", 4000), process(10, "otro", 500)];
    let selection = select_throttle_targets(&processes, &config(), 1, Some(42));
    let names: Vec<&str> = selection.targets.iter().map(|t| t.name.as_str()).collect();
    assert_eq!(names, vec!["otro"]);
    assert!(selection.untouched.iter().any(|u| u.name == "eljuego" && u.reason.contains("juego en marcha")));
}

#[test]
fn las_utilidades_de_portatil_quedan_fuera_aunque_pesen() {
    let processes =
        vec![process(10, "HandheldCompanion", 900), process(11, "SteamController", 800), process(12, "navegador", 300)];
    let selection = select_throttle_targets(&processes, &config(), 1, None);
    let names: Vec<&str> = selection.targets.iter().map(|t| t.name.as_str()).collect();
    assert_eq!(names, vec!["navegador"], "los ayudantes del mando no se tocan");
    assert_eq!(selection.untouched.len(), 2);
    assert!(selection.untouched.iter().any(|u| u.reason.contains("Handheld Companion")));
}

#[test]
fn los_procesos_criticos_de_windows_quedan_fuera() {
    let processes = vec![process(10, "svchost", 900), process(11, "lsass", 800), process(12, "app", 300)];
    assert_eq!(target_names(&processes, &config(), 1, None), vec!["app"]);
}

#[test]
fn el_informe_no_repite_nombres_protegidos() {
    let processes = (0..20).map(|i| process(100 + i, "svchost", 50)).collect::<Vec<_>>();
    let selection = select_throttle_targets(&processes, &config(), 1, None);
    assert_eq!(selection.untouched.len(), 1, "20 svchost, una sola linea");
}

#[test]
fn los_forzados_entran_aunque_sean_ligeros_y_no_gastan_cupo() {
    let mut config = config();
    config.extra_throttle = vec!["manias".to_string()];
    let processes =
        vec![process(10, "manias", 3), process(11, "gordo1", 900), process(12, "gordo2", 800), process(13, "gordo3", 700)];
    let selection = select_throttle_targets(&processes, &config, 1, None);
    let names: Vec<&str> = selection.targets.iter().map(|t| t.name.as_str()).collect();
    assert_eq!(names, vec!["manias", "gordo1", "gordo2"], "el forzado no ocupa una de las 2 plazas");
    assert!(selection.targets[0].forced);
}

#[test]
fn con_la_busqueda_automatica_apagada_solo_quedan_los_forzados() {
    let mut config = config();
    config.auto_throttle = false;
    config.extra_throttle = vec!["manias".to_string()];
    let processes = vec![process(10, "manias", 3), process(11, "gordo", 900)];
    assert_eq!(target_names(&processes, &config, 1, None), vec!["manias"]);
}

#[test]
fn un_proceso_hijo_del_juego_tambien_queda_protegido() {
    let processes = vec![
        process(1, "gamingmode", 300),
        process(42, "lanzador", 50),
        child_process(43, 42, "eljuegodeverdad", 4000),
        process(10, "otro", 500),
    ];
    let selection = select_throttle_targets(&processes, &config(), 1, Some(42));
    let names: Vec<&str> = selection.targets.iter().map(|t| t.name.as_str()).collect();
    assert_eq!(names, vec!["otro"], "el hijo del lanzador no debe degradarse");
    assert!(selection.untouched.iter().any(|u| u.name == "eljuegodeverdad"));
}

#[test]
fn la_proteccion_de_descendencia_no_cuelga_con_una_cadena_larga() {
    let mut processes = vec![process(1, "gamingmode", 300)];
    for i in 0..20u32 {
        let parent = if i == 0 { 42 } else { 100 + i - 1 };
        processes.push(child_process(100 + i, parent, "eslabon", 10));
    }
    let selection = select_throttle_targets(&processes, &config(), 1, Some(42));
    assert!(selection.targets.len() + selection.untouched.len() > 0);
}

#[test]
fn una_cadena_de_padres_con_ciclo_no_cuelga() {
    let processes = vec![process(1, "gamingmode", 300), child_process(10, 11, "a", 500), child_process(11, 10, "b", 500)];
    let selection = select_throttle_targets(&processes, &config(), 1, Some(999));
    assert_eq!(selection.targets.len(), 2, "sin relacion con el juego, se degradan como cualquier otro");
}

#[test]
fn un_proceso_protegido_por_el_usuario_no_entra_ni_forzado() {
    let mut config = config();
    config.protected_processes = vec!["intocable".to_string()];
    config.extra_throttle = vec!["intocable".to_string()];
    let processes = vec![process(10, "intocable", 900)];
    let selection = select_throttle_targets(&processes, &config, 1, None);
    assert!(selection.targets.is_empty(), "proteger gana a degradar");
    assert_eq!(selection.untouched.len(), 1);
}

#[test]
fn tocar_un_servicio_deja_de_heredar_la_seleccion_recomendada() {
    let mut power = Power::defaults();
    assert!(toggle_service(&mut power, "sysmain"));
    assert!(!power.services.iter().any(|s| s.eq_ignore_ascii_case("SysMain")), "se quita");
    assert!(power.stop_services);
    assert_eq!(power.services.len(), defaults().len() - 1);

    assert!(toggle_service(&mut power, "BITS"), "del catalogo: se anade");
    assert_eq!(power.services.last().map(|s| s.as_str()), Some("BITS"));

    let before = power.services.clone();
    assert!(!toggle_service(&mut power, "Audiosrv"), "fuera del catalogo: se rechaza");
    assert_eq!(power.services, before);

    reset_services(&mut power);
    assert!(power.stop_services && power.services.is_empty());
}
