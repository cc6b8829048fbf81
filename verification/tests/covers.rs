use gamingmode::covers::{decode, fits_as_is, CoverTextures, DecodeResult, MAX_CACHED, MAX_CONCURRENT_DECODES, MAX_SIDE};

fn result(id: &str, generation: u64, image: Option<u32>) -> DecodeResult<u32> {
    DecodeResult { game_id: id.to_string(), generation, image }
}

#[test]
fn sin_fichero_de_caratula_no_se_pide_nada() {
    let mut c: CoverTextures<u32> = CoverTextures::new();
    assert!(c.get("a", None).is_none());
    assert_eq!(c.clock, 0);
    assert!(c.queue.is_empty());
}

#[test]
fn una_caratula_se_encola_una_sola_vez() {
    let mut c: CoverTextures<u32> = CoverTextures::new();
    assert!(c.get("a", Some("/covers/a.png")).is_none());
    assert!(c.get("a", Some("/covers/a.png")).is_none());
    assert_eq!(c.queue.len(), 1);
    assert_eq!(c.in_flight, vec!["a".to_string()]);
    assert_eq!(c.queue[0].path, "/covers/a.png");
    assert_eq!(c.queue[0].generation, 0);
}

#[test]
fn se_decodifican_a_lo_sumo_cuatro_a_la_vez() {
    let mut c: CoverTextures<u32> = CoverTextures::new();
    for i in 0..6 {
        let id = format!("g{}", i);
        c.get(&id, Some("/x.png"));
    }
    let started = c.pump(Vec::new());
    assert_eq!(started.len(), MAX_CONCURRENT_DECODES);
    assert_eq!(started[0].game_id, "g0");
    assert_eq!(started[3].game_id, "g3");
    assert_eq!(c.queue.len(), 2);
    assert_eq!(c.decoding, 4);
    // Sin huecos libres no arranca ninguna mas.
    assert!(c.pump(Vec::new()).is_empty());
    // Al terminar una, arranca la siguiente en la proxima vuelta.
    let again = c.pump(vec![result("g0", 0, Some(7))]);
    assert!(again.is_empty());
    assert_eq!(c.decoding, 3);
    let next = c.pump(Vec::new());
    assert_eq!(next.len(), 1);
    assert_eq!(next[0].game_id, "g4");
}

#[test]
fn la_textura_decodificada_se_devuelve_despues() {
    let mut c: CoverTextures<u32> = CoverTextures::new();
    c.get("a", Some("/a.png"));
    let started = c.pump(Vec::new());
    assert_eq!(started.len(), 1);
    c.pump(vec![result("a", started[0].generation, Some(42))]);
    assert_eq!(c.get("a", Some("/a.png")), Some(&42));
    assert!(c.in_flight.is_empty());
}

#[test]
fn un_fichero_ilegible_se_recuerda_sin_textura() {
    let mut c: CoverTextures<u32> = CoverTextures::new();
    c.get("a", Some("/a.png"));
    c.pump(Vec::new());
    c.pump(vec![result("a", 0, None)]);
    assert!(c.get("a", Some("/a.png")).is_none());
    assert!(c.queue.is_empty(), "no se reintenta en cada frame");
}

#[test]
fn un_decode_viejo_no_pisa_la_caratula_nueva() {
    let mut c: CoverTextures<u32> = CoverTextures::new();
    c.get("a", Some("/a.png"));
    let started = c.pump(Vec::new());
    let old_generation = started[0].generation;
    c.invalidate("a");
    assert_eq!(c.generation("a"), old_generation + 1);
    // La peticion nueva ocupa el mismo id.
    c.get("a", Some("/a.png"));
    assert_eq!(c.queue[0].generation, 1);
    // El resultado viejo llega tarde y se descarta sin tocar nada.
    assert!(!c.arrived("a".to_string(), old_generation, Some(1)));
    assert!(c.entries.is_empty());
    assert_eq!(c.in_flight, vec!["a".to_string()]);
    // El nuevo si se guarda.
    c.pump(Vec::new());
    assert!(c.arrived("a".to_string(), 1, Some(2)));
    assert_eq!(c.get("a", Some("/a.png")), Some(&2));
}

#[test]
fn invalidar_saca_la_caratula_de_la_cache_y_de_la_cola() {
    let mut c: CoverTextures<u32> = CoverTextures::new();
    c.get("a", Some("/a.png"));
    c.get("b", Some("/b.png"));
    c.invalidate("a");
    assert_eq!(c.queue.len(), 1);
    assert_eq!(c.queue[0].game_id, "b");
    assert_eq!(c.in_flight, vec!["b".to_string()]);
    c.pump(Vec::new());
    c.pump(vec![result("b", 0, Some(5))]);
    c.invalidate("b");
    assert!(c.entries.is_empty());
}

#[test]
fn por_encima_del_techo_sale_la_menos_usada() {
    let mut c: CoverTextures<u32> = CoverTextures::new();
    for i in 0..MAX_CACHED {
        let id = format!("g{}", i);
        assert!(c.arrived(id, 0, Some(i as u32)));
    }
    // Se usa la primera: la menos usada pasa a ser g1.
    assert_eq!(c.get("g0", Some("/g0.png")), Some(&0));
    let extra = MAX_CACHED as u32;
    c.pump(vec![result("nueva", 0, Some(extra))]);
    assert_eq!(c.entries.len(), MAX_CACHED);
    assert!(c.entries.iter().any(|e| e.game_id == "g0"));
    assert!(c.entries.iter().any(|e| e.game_id == "nueva"));
    assert!(!c.entries.iter().any(|e| e.game_id == "g1"));
}

fn png_bytes(width: u32, height: u32) -> Vec<u8> {
    let img = image::RgbaImage::new(width, height);
    let mut out = std::io::Cursor::new(Vec::new());
    image::DynamicImage::ImageRgba8(img).write_to(&mut out, image::ImageFormat::Png).unwrap();
    out.into_inner()
}

#[test]
fn una_caratula_grande_se_reduce_sin_deformarse() {
    let cover = decode(&png_bytes(1024, 600)).unwrap();
    assert_eq!((cover.width, cover.height), (512, 300));
    assert_eq!(cover.rgba.len(), 512 * 300 * 4);
}

#[test]
fn una_caratula_pequena_se_queda_como_esta() {
    let cover = decode(&png_bytes(40, 60)).unwrap();
    assert_eq!((cover.width, cover.height), (40, 60));
    assert_eq!(cover.rgba.len(), 40 * 60 * 4);
    assert!(cover.width <= MAX_SIDE);
}

#[test]
fn unos_bytes_que_no_son_imagen_no_se_decodifican() {
    assert!(decode(b"no es una imagen").is_none());
    assert!(decode(&[]).is_none());
}

#[test]
fn solo_se_reduce_lo_que_pasa_del_lado_maximo() {
    assert!(fits_as_is(512, 512));
    assert!(fits_as_is(0, 300));
    assert!(!fits_as_is(513, 10));
    assert!(!fits_as_is(10, 513));
}

#[test]
fn una_caratula_alta_se_ajusta_al_lado_maximo() {
    let cover = decode(&png_bytes(100, 2048)).unwrap();
    assert_eq!((cover.width, cover.height), (25, 512));
    assert_eq!(cover.rgba.len(), 25 * 512 * 4);
}

#[test]
fn una_caratula_de_16_bits_se_reduce_en_su_propio_formato() {
    let img = image::ImageBuffer::<image::Rgba<u16>, Vec<u16>>::from_pixel(1024, 1024, image::Rgba([65535, 0, 257, 65535]));
    let mut out = std::io::Cursor::new(Vec::new());
    image::DynamicImage::ImageRgba16(img).write_to(&mut out, image::ImageFormat::Png).unwrap();
    let cover = decode(&out.into_inner()).unwrap();
    assert_eq!((cover.width, cover.height), (512, 512));
    assert_eq!(&cover.rgba[..4], &[255, 0, 1, 255]);
}

#[test]
fn una_caratula_nueva_no_echa_a_las_que_ya_estaban() {
    let mut c: CoverTextures<u32> = CoverTextures::new();
    c.get("a", Some("/a.png"));
    c.get("b", Some("/b.png"));
    c.pump(Vec::new());
    c.pump(vec![result("a", 0, Some(1))]);
    c.pump(vec![result("b", 0, Some(2)), result("zzz", 5, Some(9))]);
    assert_eq!(c.entries.len(), 2);
    assert_eq!(c.get("a", Some("/a.png")), Some(&1));
    assert_eq!(c.get("b", Some("/b.png")), Some(&2));
    assert!(c.get("zzz", None).is_none());
}
