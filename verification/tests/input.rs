use gamingmode::input::{
    detect_pad_kind, pad_kind_among, HidDevice, InputHub, InputTiming, NavAction, PadKind, PadReading, PollMode,
    StubBackend, Dir, BUTTON_A, BUTTON_B, DPAD_DOWN, DPAD_RIGHT, DPAD_UP, MAX_PADS, VENDOR_SONY,
};

fn hub() -> InputHub {
    InputHub::headless(InputTiming::default())
}

fn reading(packet: u32, buttons: u16) -> PadReading {
    PadReading {
        packet,
        buttons,
        idle: buttons == 0,
        left_trigger_pulled: false,
        right_trigger_pulled: false,
        stick: None,
    }
}

fn snap(packet: u32, buttons: u16) -> Option<PadReading> {
    Some(reading(packet, buttons))
}

fn pads(first: Option<PadReading>) -> [Option<PadReading>; MAX_PADS] {
    [first, None, None, None]
}

/// The first packet after connecting fires nothing.
fn connect(hub: &mut InputHub, now: u64) {
    hub.process(pads(snap(1, 0)), now);
}

const T0: u64 = 1_000_000;

#[test]
fn el_vid_de_sony_es_el_documentado() {
    assert_eq!(VENDOR_SONY, 1356);
}

#[test]
fn fuera_de_windows_no_hay_deteccion() {
    assert_eq!(detect_pad_kind(), None);
}

#[test]
fn el_primer_paquete_tras_conectar_no_dispara_nada() {
    let mut hub = hub();
    let frame = hub.process(pads(snap(1, BUTTON_A)), T0);
    assert!(frame.actions.is_empty());
    assert_eq!(frame.connected_pads, 1);
}

#[test]
fn detecta_flanco_de_botones_una_sola_vez() {
    let mut hub = hub();
    connect(&mut hub, T0);
    let frame = hub.process(pads(snap(2, BUTTON_A)), T0);
    assert_eq!(frame.actions, vec![NavAction::Accept]);
    let frame = hub.process(pads(snap(3, BUTTON_A)), T0 + 500);
    assert!(frame.actions.is_empty());
}

#[test]
fn la_repeticion_direccional_respeta_retardo_e_intervalo() {
    let mut hub = hub();
    connect(&mut hub, T0);
    let delay = hub.settings().repeat_delay_ms;
    let interval = hub.settings().repeat_interval_ms;

    let frame = hub.process(pads(snap(2, DPAD_DOWN)), T0);
    assert_eq!(frame.actions, vec![NavAction::Down]);

    let frame = hub.process(pads(snap(3, DPAD_DOWN)), T0 + delay - 10);
    assert!(frame.actions.is_empty());

    let frame = hub.process(pads(snap(4, DPAD_DOWN)), T0 + delay);
    assert_eq!(frame.actions, vec![NavAction::Down]);

    let frame = hub.process(pads(snap(5, DPAD_DOWN)), T0 + delay + interval);
    assert_eq!(frame.actions, vec![NavAction::Down]);
}

#[test]
fn cambiar_de_direccion_dispara_de_inmediato() {
    let mut hub = hub();
    connect(&mut hub, T0);
    hub.process(pads(snap(2, DPAD_DOWN)), T0);
    let frame = hub.process(pads(snap(3, DPAD_RIGHT)), T0 + 20);
    assert_eq!(frame.actions, vec![NavAction::Right]);
}

#[test]
fn el_stick_navega_como_la_cruceta() {
    let mut hub = hub();
    connect(&mut hub, T0);
    // The stick pushed down past the dead zone, as the program judges it.
    let tilted = PadReading { stick: Some(Dir::Down), idle: false, ..reading(2, 0) };
    let frame = hub.process(pads(Some(tilted)), T0);
    assert_eq!(frame.actions, vec![NavAction::Down]);

    // Inside the dead zone the direction is released.
    let centered = PadReading { stick: None, idle: false, ..reading(3, 0) };
    let frame = hub.process(pads(Some(centered)), T0 + 10);
    assert!(frame.actions.is_empty());
}

#[test]
fn el_paquete_repetido_se_ignora() {
    let mut hub = hub();
    connect(&mut hub, T0);
    hub.process(pads(snap(2, BUTTON_A)), T0);
    let frame = hub.process(pads(snap(2, BUTTON_B)), T0 + 10);
    assert!(frame.actions.is_empty());
}

#[test]
fn los_gatillos_son_botones_con_flanco() {
    let mut hub = hub();
    connect(&mut hub, T0);
    let pulled = PadReading { right_trigger_pulled: true, idle: false, ..reading(2, 0) };
    assert_eq!(hub.process(pads(Some(pulled)), T0).actions, vec![NavAction::PageDown]);
    let held = PadReading { right_trigger_pulled: true, idle: false, ..reading(3, 0) };
    assert!(hub.process(pads(Some(held)), T0 + 50).actions.is_empty());
}

#[test]
fn desconectar_limpia_el_estado() {
    let mut hub = hub();
    connect(&mut hub, T0);
    hub.process(pads(snap(2, DPAD_UP)), T0);
    assert_eq!(hub.connected_pads(), 1);

    hub.process(pads(None), T0 + 10);
    assert_eq!(hub.connected_pads(), 0);

    let frame = hub.process(pads(snap(9, DPAD_UP)), T0 + 20);
    assert!(frame.actions.is_empty());
}

#[test]
fn el_sondeo_baja_de_ritmo_durante_el_juego() {
    let hub = hub();
    // A lower rate is a longer interval between polls.
    assert!(hub.poll_rate(PollMode::InGame) < hub.poll_rate(PollMode::Active));
    assert!(hub.poll_rate(PollMode::Idle) < hub.poll_rate(PollMode::Active));
}

#[test]
fn un_mando_de_sony_manda_sobre_los_demas() {
    let xbox = HidDevice { vendor: 0x045E, usage_page: 0x01, usage: 0x05 };
    let sony = HidDevice { vendor: VENDOR_SONY, usage_page: 0x01, usage: 0x05 };
    let keyboard = HidDevice { vendor: VENDOR_SONY, usage_page: 0x01, usage: 0x06 };
    assert_eq!(pad_kind_among(&[xbox, sony]), Some(PadKind::PlayStation));
    assert_eq!(pad_kind_among(&[xbox]), Some(PadKind::Xbox));
    assert_eq!(pad_kind_among(&[keyboard]), None, "un teclado de Sony no es un mando");
    assert_eq!(pad_kind_among(&[]), None);
}

#[test]
fn sin_backend_no_hay_boton_guia() {
    let backend = StubBackend::load(true).expect("siempre carga");
    assert!(!backend.guide_supported());
    assert_eq!(backend.describe(), "sin backend de mandos (no es Windows)");
}
