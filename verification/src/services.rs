//! The catalog of Windows services that can be stopped without breaking
//! anything.
//!
//! It is an allow-list on purpose: game mode can stop **only** what is here.
//! Everything on it comes back by itself (on demand or at the next boot) and
//! is also restarted when game mode ends.

use vstd::prelude::*;

use crate::config::Power;
use crate::text::{eq_ignore_ascii_case, owned, same_ignoring_ascii_case, same_text, texts};

verus! {

#[derive(Debug, Clone, Copy)]
pub struct ServiceEntry {
    /// Internal name of the service.
    pub name: &'static str,
    /// Readable name.
    pub display: &'static str,
    /// What is lost while it is stopped.
    pub effect: &'static str,
    /// Stopped by default when game mode engages.
    pub default_on: bool,
}

pub struct ServiceEntryView {
    pub name: Seq<char>,
    pub display: Seq<char>,
    pub effect: Seq<char>,
    pub default_on: bool,
}

impl View for ServiceEntry {
    type V = ServiceEntryView;

    open spec fn view(&self) -> ServiceEntryView {
        ServiceEntryView {
            name: self.name@,
            display: self.display@,
            effect: self.effect@,
            default_on: self.default_on,
        }
    }
}

pub open spec fn service_view(
    name: Seq<char>,
    display: Seq<char>,
    effect: Seq<char>,
    default_on: bool,
) -> ServiceEntryView {
    ServiceEntryView { name, display, effect, default_on }
}

/// The catalog, roughly from most to least worthwhile: what is really
/// noticed comes first.
pub open spec fn service_table() -> Seq<ServiceEntryView> {
    seq![
        service_view("SysMain"@, "SysMain (Superfetch)"@, "precarga de programas; en un SSD no aporta y compite por disco y RAM"@, true),
        service_view("WSearch"@, "Windows Search"@, "el indexador deja de trabajar; buscar en el menu inicio sera mas lento"@, true),
        service_view("DiagTrack"@, "Experiencias del usuario conectado"@, "telemetria de Microsoft"@, true),
        service_view("dmwappushservice"@, "Enrutador de mensajes WAP"@, "telemetria"@, true),
        service_view("DoSvc"@, "Optimizacion de entrega"@, "deja de subir actualizaciones a otros equipos de la red"@, true),
        service_view("wuauserv"@, "Windows Update"@, "no se buscan ni instalan actualizaciones mientras juegas"@, true),
        service_view("UsoSvc"@, "Orquestador de actualizaciones"@, "igual que el anterior; van de la mano"@, true),
        service_view("Spooler"@, "Cola de impresion"@, "no se puede imprimir"@, true),
        service_view("WerSvc"@, "Informe de errores de Windows"@, "no se envian informes de fallos"@, true),
        service_view("MapsBroker"@, "Mapas descargados"@, "la app de Mapas sin conexion"@, true),
        service_view("RemoteRegistry"@, "Registro remoto"@, "acceso al registro desde otro equipo"@, true),
        service_view("BITS"@, "Transferencia inteligente en segundo plano"@, "descargas en segundo plano de Windows y de algunas apps"@, false),
        service_view("PcaSvc"@, "Asistente de compatibilidad de programas"@, "avisos de compatibilidad al abrir programas antiguos"@, false),
        service_view("DPS"@, "Directiva de diagnostico"@, "diagnosticos automaticos de Windows"@, false),
        service_view("diagnosticshub.standardcollector.service"@, "Recopilador de diagnosticos"@, "captura de rendimiento para herramientas de desarrollo"@, false),
        service_view("SSDPSRV"@, "Descubrimiento SSDP"@, "deteccion de dispositivos UPnP en la red"@, false),
        service_view("upnphost"@, "Host de dispositivos UPnP"@, "compartir dispositivos por UPnP"@, false),
        service_view("WMPNetworkSvc"@, "Uso compartido de Windows Media Player"@, "compartir la biblioteca multimedia"@, false),
        service_view("lfsvc"@, "Servicio de geolocalizacion"@, "las apps no sabran donde estas"@, false),
        service_view("stisvc"@, "Adquisicion de imagenes"@, "escaneres y camaras conectadas"@, false),
        service_view("TrkWks"@, "Seguimiento de vinculos distribuidos"@, "seguimiento de accesos directos movidos"@, false),
        service_view("SEMgrSvc"@, "Administrador de pagos NFC"@, "pagos por NFC"@, false),
        service_view("WbioSrvc"@, "Servicio biometrico"@, "huella dactilar y reconocimiento facial"@, false),
        service_view("WpcMonSvc"@, "Control parental"@, "supervision familiar"@, false),
        service_view("DusmSvc"@, "Uso de datos"@, "estadisticas de consumo de datos"@, false),
        service_view("Fax"@, "Fax"@, "nada, en serio"@, false),
        service_view("RetailDemo"@, "Demo de tienda"@, "el modo demostracion de los expositores"@, false),
    ]
}

fn entry(name: &'static str, display: &'static str, effect: &'static str, default_on: bool) -> (e:
    ServiceEntry)
    ensures
        e@ == service_view(name@, display@, effect@, default_on),
{
    ServiceEntry { name, display, effect, default_on }
}

/// The whole catalog, in its order.
pub fn catalog() -> (v: Vec<ServiceEntry>)
    ensures
        v@.map_values(|e: ServiceEntry| e@) == service_table(),
{
    let mut v: Vec<ServiceEntry> = Vec::new();
    v.push(entry("SysMain", "SysMain (Superfetch)", "precarga de programas; en un SSD no aporta y compite por disco y RAM", true));
    v.push(entry("WSearch", "Windows Search", "el indexador deja de trabajar; buscar en el menu inicio sera mas lento", true));
    v.push(entry("DiagTrack", "Experiencias del usuario conectado", "telemetria de Microsoft", true));
    v.push(entry("dmwappushservice", "Enrutador de mensajes WAP", "telemetria", true));
    v.push(entry("DoSvc", "Optimizacion de entrega", "deja de subir actualizaciones a otros equipos de la red", true));
    v.push(entry("wuauserv", "Windows Update", "no se buscan ni instalan actualizaciones mientras juegas", true));
    v.push(entry("UsoSvc", "Orquestador de actualizaciones", "igual que el anterior; van de la mano", true));
    v.push(entry("Spooler", "Cola de impresion", "no se puede imprimir", true));
    v.push(entry("WerSvc", "Informe de errores de Windows", "no se envian informes de fallos", true));
    v.push(entry("MapsBroker", "Mapas descargados", "la app de Mapas sin conexion", true));
    v.push(entry("RemoteRegistry", "Registro remoto", "acceso al registro desde otro equipo", true));
    v.push(entry("BITS", "Transferencia inteligente en segundo plano", "descargas en segundo plano de Windows y de algunas apps", false));
    v.push(entry("PcaSvc", "Asistente de compatibilidad de programas", "avisos de compatibilidad al abrir programas antiguos", false));
    v.push(entry("DPS", "Directiva de diagnostico", "diagnosticos automaticos de Windows", false));
    v.push(entry("diagnosticshub.standardcollector.service", "Recopilador de diagnosticos", "captura de rendimiento para herramientas de desarrollo", false));
    v.push(entry("SSDPSRV", "Descubrimiento SSDP", "deteccion de dispositivos UPnP en la red", false));
    v.push(entry("upnphost", "Host de dispositivos UPnP", "compartir dispositivos por UPnP", false));
    v.push(entry("WMPNetworkSvc", "Uso compartido de Windows Media Player", "compartir la biblioteca multimedia", false));
    v.push(entry("lfsvc", "Servicio de geolocalizacion", "las apps no sabran donde estas", false));
    v.push(entry("stisvc", "Adquisicion de imagenes", "escaneres y camaras conectadas", false));
    v.push(entry("TrkWks", "Seguimiento de vinculos distribuidos", "seguimiento de accesos directos movidos", false));
    v.push(entry("SEMgrSvc", "Administrador de pagos NFC", "pagos por NFC", false));
    v.push(entry("WbioSrvc", "Servicio biometrico", "huella dactilar y reconocimiento facial", false));
    v.push(entry("WpcMonSvc", "Control parental", "supervision familiar", false));
    v.push(entry("DusmSvc", "Uso de datos", "estadisticas de consumo de datos", false));
    v.push(entry("Fax", "Fax", "nada, en serio", false));
    v.push(entry("RetailDemo", "Demo de tienda", "el modo demostracion de los expositores", false));
    assert(v@.map_values(|e: ServiceEntry| e@) =~= service_table());
    v
}

/// The first entry of `t` whose name matches `name`, ASCII case aside.
pub open spec fn find_in(t: Seq<ServiceEntryView>, name: Seq<char>) -> Option<ServiceEntryView>
    decreases t.len(),
{
    if t.len() == 0 {
        None
    } else if same_ignoring_ascii_case(t[0].name, name) {
        Some(t[0])
    } else {
        find_in(t.drop_first(), name)
    }
}

pub open spec fn find_service(name: Seq<char>) -> Option<ServiceEntryView> {
    find_in(service_table(), name)
}

/// The names of the entries stopped by default, in catalog order.
pub open spec fn default_names(t: Seq<ServiceEntryView>) -> Seq<Seq<char>>
    decreases t.len(),
{
    if t.len() == 0 {
        seq![]
    } else {
        let rest = default_names(t.drop_last());
        if t.last().default_on {
            rest.push(t.last().name)
        } else {
            rest
        }
    }
}

/// The requested names split into the catalog's own spelling of the
/// allowed ones, each once, and the rejected ones as they were written.
pub open spec fn sanitized(requested: Seq<Seq<char>>) -> (Seq<Seq<char>>, Seq<Seq<char>>)
    decreases requested.len(),
{
    if requested.len() == 0 {
        (seq![], seq![])
    } else {
        let prev = sanitized(requested.drop_last());
        let name = requested.last();
        match find_service(name) {
            Some(e) => if prev.0.contains(e.name) {
                prev
            } else {
                (prev.0.push(e.name), prev.1)
            },
            None => (prev.0, prev.1.push(name)),
        }
    }
}

/// The services that game mode stops under the given settings: none when
/// stopping is off, the recommended ones when the list is empty, the
/// allowed part of the list otherwise.
pub open spec fn enabled_service_names(stop: bool, services: Seq<Seq<char>>) -> Seq<Seq<char>> {
    if !stop {
        seq![]
    } else if services.len() == 0 {
        default_names(service_table())
    } else {
        sanitized(services).0
    }
}

/// The catalog entry with that name, ASCII case aside.
pub fn find(name: &str) -> (r: Option<ServiceEntry>)
    ensures
        match r {
            Some(e) => find_service(name@) == Some(e@),
            None => find_service(name@) is None,
        },
{
    let cat = catalog();
    let ghost t = service_table();
    let mut i: usize = 0;
    assert(t.subrange(0, t.len() as int) == t);
    while i < cat.len()
        invariant
            i <= cat.len(),
            cat@.map_values(|e: ServiceEntry| e@) == t,
            t == service_table(),
            find_service(name@) == find_in(t.subrange(i as int, t.len() as int), name@),
        decreases cat.len() - i,
    {
        let e = cat[i];
        assert(t[i as int] == e@);
        assert(t.subrange(i as int, t.len() as int)[0] == e@);
        if eq_ignore_ascii_case(e.name, name) {
            return Some(e);
        }
        assert(t.subrange(i as int, t.len() as int).drop_first() == t.subrange(i + 1, t.len() as int));
        i += 1;
    }
    None
}

/// Only what is in the catalog may be stopped.
pub fn is_allowed(name: &str) -> (r: bool)
    ensures
        r == find_service(name@) is Some,
{
    find(name).is_some()
}

/// The recommended selection, as installed.
pub fn defaults() -> (r: Vec<String>)
    ensures
        texts(r@) == default_names(service_table()),
{
    let cat = catalog();
    let ghost t = service_table();
    let mut r: Vec<String> = Vec::new();
    let mut i: usize = 0;
    while i < cat.len()
        invariant
            i <= cat.len(),
            cat@.map_values(|e: ServiceEntry| e@) == t,
            t == service_table(),
            texts(r@) == default_names(t.take(i as int)),
        decreases cat.len() - i,
    {
        let e = cat[i];
        assert(t[i as int] == e@);
        assert(t.take(i + 1).drop_last() == t.take(i as int));
        if e.default_on {
            r.push(owned(e.name));
            assert(texts(r@) =~= default_names(t.take(i as int)).push(e.name@));
        }
        i += 1;
    }
    assert(t.take(t.len() as int) == t);
    r
}

fn contains_text(v: &Vec<String>, t: &str) -> (r: bool)
    ensures
        r == texts(v@).contains(t@),
{
    let mut i: usize = 0;
    while i < v.len()
        invariant
            i <= v.len(),
            forall|j: int| 0 <= j < i ==> v@[j]@ != t@,
        decreases v.len() - i,
    {
        if same_text(v[i].as_str(), t) {
            assert(texts(v@)[i as int] == t@);
            return true;
        }
        i += 1;
    }
    assert forall|j: int| 0 <= j < texts(v@).len() implies texts(v@)[j] != t@ by {
        assert(texts(v@)[j] == v@[j]@);
    }
    false
}

/// Splits a list of services into the allowed ones, in the catalog's own
/// spelling and without repeats, and the rejected ones, to be reported.
pub fn sanitize(requested: &[String]) -> (r: (Vec<String>, Vec<String>))
    ensures
        (texts(r.0@), texts(r.1@)) == sanitized(texts(requested@)),
{
    let ghost req = texts(requested@);
    let mut allowed: Vec<String> = Vec::new();
    let mut rejected: Vec<String> = Vec::new();
    let mut i: usize = 0;
    while i < requested.len()
        invariant
            i <= requested.len(),
            req == texts(requested@),
            (texts(allowed@), texts(rejected@)) == sanitized(req.take(i as int)),
        decreases requested.len() - i,
    {
        let name = &requested[i];
        assert(req.take(i + 1).drop_last() == req.take(i as int));
        assert(req.take(i + 1).last() == name@);
        match find(name.as_str()) {
            Some(e) => {
                if !contains_text(&allowed, e.name) {
                    allowed.push(owned(e.name));
                    assert(texts(allowed@) =~= sanitized(req.take(i as int)).0.push(e.name@));
                }
            },
            None => {
                rejected.push(owned(name.as_str()));
                assert(texts(rejected@) =~= sanitized(req.take(i as int)).1.push(name@));
            },
        }
        i += 1;
    }
    assert(req.take(requested.len() as int) == req);
    (allowed, rejected)
}

/// The services to stop under the given settings.
pub fn enabled_services(power: &Power) -> (r: Vec<String>)
    ensures
        texts(r@) == enabled_service_names(power.stop_services, texts(power.services@)),
{
    if !power.stop_services {
        let r: Vec<String> = Vec::new();
        assert(texts(r@) =~= seq![]);
        return r;
    }
    if power.services.len() == 0 {
        defaults()
    } else {
        sanitize(power.services.as_slice()).0
    }
}

/// Where the first name equal to `name` (ASCII case aside) stands, -1 when
/// none is.
pub open spec fn first_same_name(names: Seq<Seq<char>>, name: Seq<char>) -> int
    decreases names.len(),
{
    if names.len() == 0 {
        -1
    } else {
        let p = first_same_name(names.drop_last(), name);
        if p >= 0 {
            p
        } else if same_ignoring_ascii_case(names.last(), name) {
            names.len() - 1
        } else {
            -1
        }
    }
}

proof fn lemma_first_same_name(names: Seq<Seq<char>>, name: Seq<char>)
    ensures
        -1 <= first_same_name(names, name) < names.len(),
        first_same_name(names, name) >= 0 ==> same_ignoring_ascii_case(
            names[first_same_name(names, name)],
            name,
        ),
        forall|j: int|
            0 <= j < names.len() && (first_same_name(names, name) < 0 || j < first_same_name(
                names,
                name,
            )) ==> !same_ignoring_ascii_case(#[trigger] names[j], name),
    decreases names.len(),
{
    if names.len() > 0 {
        lemma_first_same_name(names.drop_last(), name);
        assert forall|j: int| 0 <= j < names.len() - 1 implies names[j] == names.drop_last()[j] by {}
    }
}

/// The services to stop after switching one of them: taken out when it
/// was in (ASCII case aside), added as written when the catalog has it,
/// refused (`None`) otherwise.
pub open spec fn toggled_services(enabled: Seq<Seq<char>>, name: Seq<char>) -> Option<Seq<Seq<char>>> {
    let p = first_same_name(enabled, name);
    if p >= 0 {
        Some(enabled.remove(p))
    } else if find_service(name) is Some {
        Some(enabled.push(name))
    } else {
        None
    }
}

/// Switches one service of the catalog on or off. Touching the list stops
/// following the recommended selection; emptying it turns stopping off.
/// Returns `false`, changing nothing, for a name outside the catalog.
pub fn toggle_service(power: &mut Power, name: &str) -> (accepted: bool)
    ensures
        ({
            let en = enabled_service_names(old(power).stop_services, texts(old(power).services@));
            match toggled_services(en, name@) {
                Some(list) => {
                    &&& accepted
                    &&& texts(final(power).services@) == list
                    &&& final(power).stop_services == (list.len() > 0)
                    &&& final(power).engage_on_start == old(power).engage_on_start
                    &&& final(power).power_plan == old(power).power_plan
                    &&& final(power).auto_throttle == old(power).auto_throttle
                    &&& final(power).auto_throttle_max == old(power).auto_throttle_max
                    &&& final(power).auto_throttle_min_mb == old(power).auto_throttle_min_mb
                    &&& final(power).protect_handheld_helpers == old(power).protect_handheld_helpers
                    &&& final(power).protected_processes == old(power).protected_processes
                    &&& final(power).extra_throttle == old(power).extra_throttle
                    &&& final(power).eco_qos_background == old(power).eco_qos_background
                    &&& final(power).trim_working_sets == old(power).trim_working_sets
                    &&& final(power).game_priority == old(power).game_priority
                    &&& final(power).kill_explorer == old(power).kill_explorer
                    &&& final(power).restore_on_exit == old(power).restore_on_exit
                },
                None => !accepted && *final(power) == *old(power),
            }
        }),
{
    let mut enabled = enabled_services(power);
    let ghost en = texts(enabled@);
    proof {
        lemma_first_same_name(en, name@);
    }
    let mut i: usize = 0;
    while i < enabled.len()
        invariant
            i <= enabled@.len(),
            en == texts(enabled@),
            forall|j: int| 0 <= j < i ==> !same_ignoring_ascii_case(#[trigger] en[j], name@),
        ensures
            i <= enabled@.len(),
            forall|j: int| 0 <= j < i ==> !same_ignoring_ascii_case(#[trigger] en[j], name@),
            i < enabled@.len() ==> same_ignoring_ascii_case(en[i as int], name@),
        decreases enabled.len() - i,
    {
        if eq_ignore_ascii_case(enabled[i].as_str(), name) {
            break;
        }
        i += 1;
    }
    if i < enabled.len() {
        assert(first_same_name(en, name@) == i) by {
            let p = first_same_name(en, name@);
            if p < i as int {
                assert(!same_ignoring_ascii_case(en[p], name@));
            }
        }
        enabled.remove(i);
        assert(texts(enabled@) =~= en.remove(i as int));
    } else {
        assert(first_same_name(en, name@) == -1);
        if !is_allowed(name) {
            return false;
        }
        enabled.push(owned(name));
        assert(texts(enabled@) =~= en.push(name@));
    }
    power.stop_services = enabled.len() > 0;
    power.services = enabled;
    true
}

/// Back to the recommended selection of the catalog.
pub fn reset_services(power: &mut Power)
    ensures
        final(power).stop_services,
        final(power).services@.len() == 0,
        enabled_service_names(final(power).stop_services, texts(final(power).services@)) == default_names(
            service_table(),
        ),
        final(power).power_plan == old(power).power_plan,
        final(power).auto_throttle == old(power).auto_throttle,
        final(power).protected_processes == old(power).protected_processes,
        final(power).extra_throttle == old(power).extra_throttle,
        final(power).game_priority == old(power).game_priority,
        final(power).kill_explorer == old(power).kill_explorer,
{
    power.stop_services = true;
    power.services.clear();
    assert(texts(power.services@) =~= Seq::<Seq<char>>::empty());
}

// ---------------------------------------------------------------------
// Laws
// ---------------------------------------------------------------------

proof fn lemma_find_in(t: Seq<ServiceEntryView>, name: Seq<char>)
    ensures
        find_in(t, name) is Some <==> exists|j: int|
            0 <= j < t.len() && same_ignoring_ascii_case(#[trigger] t[j].name, name),
        find_in(t, name) matches Some(e) ==> exists|j: int|
            0 <= j < t.len() && t[j] == e && same_ignoring_ascii_case(e.name, name),
    decreases t.len(),
{
    if t.len() > 0 {
        lemma_find_in(t.drop_first(), name);
        if find_in(t.drop_first(), name) is Some {
            let j = choose|j: int|
                0 <= j < t.drop_first().len() && same_ignoring_ascii_case(
                    #[trigger] t.drop_first()[j].name,
                    name,
                );
            assert(t[j + 1] == t.drop_first()[j]);
        }
        if exists|j: int| 0 <= j < t.len() && same_ignoring_ascii_case(#[trigger] t[j].name, name) {
            let j = choose|j: int| 0 <= j < t.len() && same_ignoring_ascii_case(#[trigger] t[j].name, name);
            if j > 0 {
                assert(t.drop_first()[j - 1] == t[j]);
            }
        }
        if find_in(t, name) is Some && !same_ignoring_ascii_case(t[0].name, name) {
            let e = find_in(t, name)->0;
            let j = choose|j: int|
                0 <= j < t.drop_first().len() && t.drop_first()[j] == e && same_ignoring_ascii_case(
                    e.name,
                    name,
                );
            assert(t[j + 1] == t.drop_first()[j]);
        }
    }
}

/// What `sanitize` keeps are catalog names, each once; what it rejects is
/// not in the catalog.
pub proof fn lemma_sanitize_only_catalog(requested: Seq<Seq<char>>)
    ensures
        forall|i: int|
            0 <= i < sanitized(requested).0.len() ==> exists|j: int|
                0 <= j < service_table().len() && service_table()[j].name == #[trigger] sanitized(
                    requested,
                ).0[i],
        forall|i: int, k: int|
            0 <= i < k < sanitized(requested).0.len() ==> sanitized(requested).0[i] != sanitized(
                requested,
            ).0[k],
        forall|i: int|
            0 <= i < sanitized(requested).1.len() ==> find_service(#[trigger] sanitized(requested).1[i])
                is None,
    decreases requested.len(),
{
    if requested.len() > 0 {
        let prev = sanitized(requested.drop_last());
        lemma_sanitize_only_catalog(requested.drop_last());
        lemma_find_in(service_table(), requested.last());
    }
}

/// Every recommended service is in the catalog, so it is allowed.
pub proof fn lemma_defaults_allowed()
    ensures
        forall|i: int|
            0 <= i < default_names(service_table()).len() ==> find_service(
                #[trigger] default_names(service_table())[i],
            ) is Some,
{
    let t = service_table();
    assert forall|i: int| 0 <= i < default_names(t).len() implies find_service(
        #[trigger] default_names(t)[i],
    ) is Some by {
        lemma_default_names_in(t, i);
        let j = choose|j: int| 0 <= j < t.len() && t[j].name == default_names(t)[i];
        lemma_find_in(t, default_names(t)[i]);
        assert(same_ignoring_ascii_case(t[j].name, default_names(t)[i]));
    }
}

proof fn lemma_default_names_in(t: Seq<ServiceEntryView>, i: int)
    requires
        0 <= i < default_names(t).len(),
    ensures
        exists|j: int| 0 <= j < t.len() && t[j].name == default_names(t)[i],
    decreases t.len(),
{
    let rest = default_names(t.drop_last());
    if t.last().default_on && i == rest.len() {
        assert(t[t.len() - 1].name == default_names(t)[i]);
    } else {
        lemma_default_names_in(t.drop_last(), i);
        let j = choose|j: int| 0 <= j < t.drop_last().len() && t.drop_last()[j].name == rest[i];
        assert(t[j] == t.drop_last()[j]);
    }
}

/// The services stopped by default: prefetching, the search indexer,
/// telemetry, delivery optimisation, Windows Update and its orchestrator,
/// the print spooler, error reporting, offline maps and the remote
/// registry; the rest of the catalog (background transfers, diagnostics,
/// UPnP, media sharing, location, scanners, biometrics and the like) is
/// only stopped when the user asks for it.
pub proof fn lemma_recommended_services()
    ensures
        default_names(service_table()) == seq!["SysMain"@, "WSearch"@, "DiagTrack"@, "dmwappushservice"@, "DoSvc"@, "wuauserv"@, "UsoSvc"@, "Spooler"@, "WerSvc"@, "MapsBroker"@, "RemoteRegistry"@],
{
    reveal_with_fuel(default_names, 28);
    assert(default_names(service_table()) =~= seq!["SysMain"@, "WSearch"@, "DiagTrack"@, "dmwappushservice"@, "DoSvc"@, "wuauserv"@, "UsoSvc"@, "Spooler"@, "WerSvc"@, "MapsBroker"@, "RemoteRegistry"@]);
}

} // verus!
