use gamingmode::config::Power;
use gamingmode::optimizer::{Entry, Optimizer, Outcome, Report, Step, SysReply, SysRequest};
use gamingmode::snapshot::{ProcessState, ServiceState, Snapshot};
use gamingmode::sys;

/// Answers the engine's requests as a machine without Windows would, with
/// the snapshot file kept in `disk`.
fn drive(optimizer: &mut Optimizer, mut step: Step, disk: &mut Option<Snapshot>, log: &mut Vec<String>) -> Option<Report> {
    loop {
        let request = match step {
            Step::Finished(report) => return report,
            Step::Ask(request) => request,
        };
        log.push(format!("{request:?}").split('(').next().unwrap_or("").to_string());
        let reply = match request {
            SysRequest::IsElevated => SysReply::Elevated(sys::is_elevated()),
            SysRequest::MemoryStatus => SysReply::Memory(sys::memory_status()),
            SysRequest::ActivePowerScheme => SysReply::Scheme(sys::active_power_scheme()),
            SysRequest::EnsureSchemeAvailable(g) => SysReply::Done(sys::ensure_scheme_available(g)),
            SysRequest::SetPowerScheme(g) => SysReply::Done(sys::set_power_scheme(g)),
            SysRequest::ServiceState(name) => SysReply::RunState(sys::service_state(&name)),
            SysRequest::StopService(name) => SysReply::Done(sys::stop_service(&name)),
            SysRequest::StartService(name) => SysReply::Done(sys::start_service(&name)),
            SysRequest::SampleProcesses => SysReply::Usage(sys::sample_processes()),
            SysRequest::ListProcesses => SysReply::Processes(sys::list_processes()),
            SysRequest::CurrentPid => SysReply::Pid(4242),
            SysRequest::PriorityClass(pid) => SysReply::Priority(sys::priority_class(pid)),
            SysRequest::SetPriorityClass(pid, class) => SysReply::Done(sys::set_priority_class(pid, class)),
            SysRequest::SetEcoQos(pid, on) => SysReply::Done(sys::set_eco_qos(pid, on)),
            SysRequest::TrimWorkingSet(pid) => SysReply::Done(sys::trim_working_set(pid)),
            SysRequest::KillExplorer => SysReply::Done(sys::kill_explorer()),
            SysRequest::StartExplorer => SysReply::Done(sys::start_explorer()),
            SysRequest::SaveSnapshot(s) => {
                *disk = Some(s);
                SysReply::Done(Ok(()))
            }
            SysRequest::LoadSnapshot => SysReply::Loaded(Ok(disk.clone())),
            SysRequest::ClearSnapshot => {
                *disk = None;
                SysReply::Done(Ok(()))
            }
        };
        step = optimizer.resume(reply);
    }
}

fn optimizer() -> Optimizer {
    Optimizer::with_snapshot_path(Power::defaults(), "/tmp/gm-power-snapshot.json".to_string())
}

#[test]
fn activar_dos_veces_no_duplica_el_estado() {
    let mut disk = None;
    let mut log = Vec::new();
    let mut optimizer = optimizer();

    let step = optimizer.engage();
    drive(&mut optimizer, step, &mut disk, &mut log);
    assert!(optimizer.is_engaged());
    let step = optimizer.engage();
    let second = drive(&mut optimizer, step, &mut disk, &mut log).expect("informe");
    assert!(second.entries.iter().any(|e| e.outcome == Outcome::Skipped && e.area == "estado"));

    let step = optimizer.restore();
    drive(&mut optimizer, step, &mut disk, &mut log);
    assert!(!optimizer.is_engaged());
}

#[test]
fn restaurar_borra_el_snapshot_de_disco() {
    let mut disk = None;
    let mut log = Vec::new();
    let mut optimizer = optimizer();
    let step = optimizer.engage();
    drive(&mut optimizer, step, &mut disk, &mut log);
    assert!(disk.is_some(), "el estado previo se guarda antes de tocar nada");
    let step = optimizer.restore();
    drive(&mut optimizer, step, &mut disk, &mut log);
    assert!(disk.is_none(), "el snapshot deberia desaparecer tras restaurar");
}

#[test]
fn se_revierte_un_snapshot_huerfano_al_arrancar() {
    let mut stale = Snapshot::new();
    stale.services.push(ServiceState { name: "SysMain".into(), was_running: true });
    let mut disk = Some(stale);
    let mut log = Vec::new();

    let mut optimizer = optimizer();
    let step = optimizer.recover_stale();
    let report = drive(&mut optimizer, step, &mut disk, &mut log).expect("deberia detectar el snapshot huerfano");
    assert!(report.entries.iter().any(|e| e.area == "recuperacion"));
    assert!(!optimizer.is_engaged());
    assert!(disk.is_none());
}

#[test]
fn sin_snapshot_previo_no_hay_recuperacion() {
    let mut disk = None;
    let mut log = Vec::new();
    let mut optimizer = optimizer();
    let step = optimizer.recover_stale();
    assert!(drive(&mut optimizer, step, &mut disk, &mut log).is_none());
}

#[test]
fn restaurar_sin_activar_avisa_en_vez_de_fallar() {
    let mut disk = None;
    let mut log = Vec::new();
    let mut optimizer = optimizer();
    let step = optimizer.restore();
    let report = drive(&mut optimizer, step, &mut disk, &mut log).expect("informe");
    assert!(report.entries.iter().any(|e| e.outcome == Outcome::Skipped));
}

#[test]
fn el_estado_se_guarda_antes_de_cualquier_cambio() {
    let mut disk = None;
    let mut log = Vec::new();
    let mut optimizer = optimizer();
    let step = optimizer.engage();
    drive(&mut optimizer, step, &mut disk, &mut log);
    let first_save = log.iter().position(|r| r == "SaveSnapshot").expect("se guarda el snapshot");
    for change in ["SetPowerScheme", "StopService", "SetPriorityClass", "KillExplorer"] {
        if let Some(at) = log.iter().position(|r| r == change) {
            assert!(at > first_save, "{change} antes de guardar el estado");
        }
    }
}

#[test]
fn la_ram_liberada_es_la_que_baja() {
    let mut r = Report::default();
    r.memory_before = 3 << 30;
    r.memory_after = 2 << 30;
    assert_eq!(r.memory_delta(), 1 << 30);
    r.entries.push(Entry { area: "a", message: "x".to_string(), outcome: Outcome::Applied });
    r.entries.push(Entry { area: "a", message: "x".to_string(), outcome: Outcome::Applied });
    r.entries.push(Entry { area: "b", message: "y".to_string(), outcome: Outcome::Failed });
    assert_eq!(r.summary(), "2 cambios aplicados, 1 fallidos, 1.0 GB de RAM liberada");
    r.memory_after = 4 << 30;
    assert_eq!(r.memory_delta(), -(1 << 30));
    assert_eq!(r.summary(), "2 cambios aplicados, 1 fallidos");
}

#[test]
fn restaurar_devuelve_prioridades_y_escritorio_en_orden() {
    let mut stale = Snapshot::new();
    stale.explorer_killed = true;
    stale.power_scheme = Some(gamingmode::guid::balanced());
    stale.services.push(ServiceState { name: "SysMain".into(), was_running: true });
    stale.services.push(ServiceState { name: "Spooler".into(), was_running: false });
    stale.processes.push(ProcessState { pid: 10, name: "chrome".into(), previous_priority: 0x20, eco_qos_applied: true });
    stale.processes.push(ProcessState { pid: 11, name: "discord".into(), previous_priority: 0x8000, eco_qos_applied: false });
    stale.processes.push(ProcessState { pid: 12, name: "viejo".into(), previous_priority: 0x20, eco_qos_applied: false });
    let mut optimizer = optimizer();
    let mut step = optimizer.recover_stale();
    let mut asked: Vec<String> = Vec::new();
    let mut priorities: Vec<(u32, u32)> = Vec::new();
    let report = loop {
        let request = match step {
            Step::Finished(report) => break report,
            Step::Ask(request) => request,
        };
        asked.push(format!("{request:?}").split('(').next().unwrap_or("").to_string());
        let reply = match request {
            SysRequest::LoadSnapshot => SysReply::Loaded(Ok(Some(stale.clone()))),
            SysRequest::IsElevated => SysReply::Elevated(true),
            SysRequest::MemoryStatus => SysReply::Memory(sys::memory_status()),
            SysRequest::ListProcesses => SysReply::Processes(Ok(vec![
                sys::ProcInfo { pid: 10, name: "chrome".into(), parent_pid: 0 },
                sys::ProcInfo { pid: 11, name: "discord".into(), parent_pid: 0 },
                // The pid of a dead process, now taken by another program.
                sys::ProcInfo { pid: 12, name: "otro".into(), parent_pid: 0 },
            ])),
            SysRequest::SetPriorityClass(pid, class) => {
                priorities.push((pid, class));
                SysReply::Done(Ok(()))
            }
            _ => SysReply::Done(Ok(())),
        };
        step = optimizer.resume(reply);
    }
    .expect("informe");
    assert_eq!(priorities, vec![(10, 0x20), (11, 0x8000)]);
    assert_eq!(
        asked,
        vec![
            "LoadSnapshot", "IsElevated", "MemoryStatus", "StartExplorer", "ListProcesses", "SetEcoQos",
            "SetPriorityClass", "SetPriorityClass", "StartService", "SetPowerScheme", "ClearSnapshot", "MemoryStatus",
        ]
    );
    let last = report.entries.last().unwrap();
    assert_eq!((last.outcome, last.area), (Outcome::Applied, "recuperacion"));
    let shape: Vec<(Outcome, &str)> = report.entries.iter().map(|e| (e.outcome, e.area)).collect();
    assert_eq!(
        shape,
        vec![
            (Outcome::Applied, "escritorio"),
            (Outcome::Applied, "procesos"),
            (Outcome::Applied, "procesos"),
            (Outcome::Skipped, "procesos"),
            (Outcome::Applied, "servicios"),
            (Outcome::Skipped, "servicios"),
            (Outcome::Applied, "energia"),
            (Outcome::Applied, "recuperacion"),
        ]
    );
    assert_eq!(report.entries[3].message, "viejo ya no esta en ejecucion");
    assert_eq!(report.entries[5].message, "Spooler ya estaba parado antes");
    assert!(!optimizer.is_engaged());
}

#[test]
fn un_snapshot_vacio_se_borra_y_uno_ilegible_se_conserva() {
    let mut optimizer = optimizer();
    let step = optimizer.recover_stale();
    assert!(matches!(step, Step::Ask(SysRequest::LoadSnapshot)));
    let step = optimizer.resume(SysReply::Loaded(Ok(Some(Snapshot::new()))));
    assert!(matches!(step, Step::Ask(SysRequest::ClearSnapshot)));
    assert!(matches!(optimizer.resume(SysReply::Done(Ok(()))), Step::Finished(None)));

    let step = optimizer.recover_stale();
    assert!(matches!(step, Step::Ask(SysRequest::LoadSnapshot)));
    let broken = Err(gamingmode::error::Error::Json("roto".to_string()));
    assert!(matches!(optimizer.resume(SysReply::Loaded(broken)), Step::Finished(None)));
    assert!(!optimizer.is_engaged());
}

#[test]
fn un_rearranque_que_falla_se_informa_como_fallido() {
    let mut stale = Snapshot::new();
    stale.services.push(ServiceState { name: "SysMain".into(), was_running: true });
    let mut optimizer = optimizer();
    let mut step = optimizer.recover_stale();
    let report = loop {
        let request = match step {
            Step::Finished(report) => break report,
            Step::Ask(request) => request,
        };
        let reply = match request {
            SysRequest::LoadSnapshot => SysReply::Loaded(Ok(Some(stale.clone()))),
            SysRequest::IsElevated => SysReply::Elevated(false),
            SysRequest::MemoryStatus => SysReply::Memory(sys::memory_status()),
            SysRequest::ListProcesses => SysReply::Processes(Ok(vec![])),
            SysRequest::StartService(_) => SysReply::Done(Err(gamingmode::error::Error::Remote("acceso denegado".into()))),
            _ => SysReply::Done(Ok(())),
        };
        step = optimizer.resume(reply);
    }
    .expect("informe");
    let shape: Vec<(Outcome, &str)> = report.entries.iter().map(|e| (e.outcome, e.area)).collect();
    assert_eq!(shape, vec![(Outcome::Failed, "servicios"), (Outcome::Applied, "recuperacion")]);
    assert!(report.entries[0].message.starts_with("no se pudo rearrancar SysMain: "));
}
