use yarvis_app::impresora::{
    enviar_bytes_raw, listar_impresoras_sistema, normalizar_filas_conciliacion, normalizar_filas_stock,
    tienda_o_defecto, validar_envio_raw, validar_lista, validar_red, validar_spooler, FilaConciliacionPayload, FilaStockBajoPayload,
};
use yarvis_app::termica::{
    ancho_de, construir_apertura_cajon, construir_lista_conciliacion, construir_lista_stock_bajo, fmt_cant_exec,
    recortar, sanitizar, AnchoPapel, FilaConciliacion, FilaStockBajo,
};

const INIT: &[u8] = &[0x1B, 0x40];
const CORTE: &[u8] = &[0x1D, 0x56, 0x00];
const ABRIR_CAJON: &[u8] = &[0x1B, 0x70, 0x00, 0x19, 0xFA];

fn conc(nombre: &str, fisico: i32, sistema: i32, precio: i64) -> FilaConciliacion {
    FilaConciliacion { nombre: nombre.into(), fisico, sistema, precio_venta: precio }
}

#[test]
fn arma_ticket_con_init_y_corte() {
    let filas = vec![conc("Coca-Cola 600ml", 10, 12, 2000)];
    let bytes = construir_lista_conciliacion("Mi Tienda", "2026-09-09", &filas, AnchoPapel::Mm80);
    assert!(bytes.starts_with(INIT));
    assert!(bytes.ends_with(CORTE));
    let texto = String::from_utf8_lossy(&bytes);
    assert!(texto.contains("Mi Tienda"));
    assert!(texto.contains("Coca-Cola"));
    assert!(texto.contains("FALTA"));
    // 2 faltantes a $20.00
    assert!(texto.contains("Perdida est.: $40.00"));
}

#[test]
fn sistema_negativo_marca_concil_aunque_dif_cero() {
    let filas = vec![conc("Coca-Cola 600ml", -1, -1, 2000)];
    let bytes = construir_lista_conciliacion("Mi Tienda", "2026-09-09", &filas, AnchoPapel::Mm80);
    let texto = String::from_utf8_lossy(&bytes);
    assert!(texto.contains("CONCIL"));
    assert!(texto.contains("Concil:1"));
}

#[test]
fn stock_bajo_lista_criticos_con_negativo() {
    let filas = vec![
        FilaStockBajo { nombre: "Coca-Cola 600ml".into(), stock: -100, minimo: 500 },
        FilaStockBajo { nombre: "Jumex Durazno 500ml".into(), stock: 300, minimo: 500 },
    ];
    let bytes = construir_lista_stock_bajo("Mi Tienda", "2026-09-09", &filas, AnchoPapel::Mm80);
    assert!(bytes.starts_with(INIT));
    assert!(bytes.ends_with(CORTE));
    let texto = String::from_utf8_lossy(&bytes);
    assert!(texto.contains("stock bajo"));
    assert!(texto.contains("Coca-Cola"));
    assert!(texto.contains("-1"));
    assert!(texto.contains("Criticos:2"));
}

#[test]
fn sanitiza_tildes_sin_romper() {
    let bytes = construir_lista_conciliacion("Abarrotes Hernández", "2026-09-09", &vec![], AnchoPapel::Mm80);
    let texto = String::from_utf8_lossy(&bytes);
    assert!(texto.contains("Hernandez"));
}

#[test]
fn apertura_cajon_manda_init_y_pulso() {
    let bytes = construir_apertura_cajon();
    assert!(bytes.starts_with(INIT));
    assert!(bytes.ends_with(ABRIR_CAJON));
    assert_eq!(&bytes[bytes.len() - ABRIR_CAJON.len()..], &[0x1B, 0x70, 0x00, 0x19, 0xFA]);
}

#[test]
fn ancho_58mm_no_pasa_de_32_columnas() {
    let filas = vec![conc("Coca-Cola 600ml presentacion familiar grande", 25, -3, 2000)];
    let bytes = construir_lista_conciliacion("Mi Tienda Larga Nombre", "2026-09-09", &filas, AnchoPapel::Mm58);
    assert!(bytes.starts_with(INIT));
    assert!(bytes.ends_with(CORTE));
    let texto = String::from_utf8_lossy(&bytes);
    assert!(texto.contains(&"-".repeat(32)));
    assert!(!texto.contains(&"-".repeat(33)));
    for linea in texto.lines() {
        let visible: String = linea
            .replace("\u{1b}@", "")
            .replace("\u{1b}a\u{0}", "")
            .replace("\u{1b}a\u{1}", "")
            .replace("\u{1b}E\u{0}", "")
            .replace("\u{1b}E\u{1}", "")
            .replace("\u{1d}V\u{0}", "");
        assert!(visible.chars().count() <= 32, "linea pasada de 32: {visible:?}");
    }
}

#[test]
fn desde_mm_cae_a_80_si_es_raro() {
    assert_eq!(AnchoPapel::desde_mm(80), AnchoPapel::Mm80);
    assert_eq!(AnchoPapel::desde_mm(58), AnchoPapel::Mm58);
    assert_eq!(AnchoPapel::desde_mm(0), AnchoPapel::Mm80);
    assert_eq!(AnchoPapel::desde_mm(255), AnchoPapel::Mm80);
}

#[test]
fn ancho_raro_cae_a_80mm() {
    assert_eq!(ancho_de(None), AnchoPapel::Mm80);
    assert_eq!(ancho_de(Some(80)), AnchoPapel::Mm80);
    assert_eq!(ancho_de(Some(58)), AnchoPapel::Mm58);
    assert_eq!(ancho_de(Some(0)), AnchoPapel::Mm80);
}

#[test]
fn columnas_por_ancho() {
    assert_eq!(AnchoPapel::Mm80.cols(), 48);
    assert_eq!(AnchoPapel::Mm58.cols(), 32);
    assert_eq!(AnchoPapel::default(), AnchoPapel::Mm80);
}

#[test]
fn sanitizar_translitera_y_marca_lo_raro() {
    assert_eq!(sanitizar("Ñandú café"), "nandu cafe");
    assert_eq!(sanitizar("a\tb€"), "a?b?");
    assert_eq!(sanitizar(&sanitizar("Ñoño")), sanitizar("Ñoño"));
    assert_eq!(recortar("héroe", 3), "hér");
    assert_eq!(recortar("ab", 5), "ab");
}

#[test]
fn cantidades_en_centesimas() {
    let s = |c: i64| fmt_cant_exec(c).into_iter().collect::<String>();
    assert_eq!(s(500), "5");
    assert_eq!(s(-100), "-1");
    assert_eq!(s(250), "2.50");
    assert_eq!(s(-50), "-0.50");
    assert_eq!(s(0), "0");
}

#[test]
fn fila_80mm_con_sobrante_y_estado() {
    let filas = vec![conc("Jumex", 7, 5, 1500)];
    let bytes = construir_lista_conciliacion("T", "F", &filas, AnchoPapel::Mm80);
    let texto = String::from_utf8_lossy(&bytes);
    let fila = format!("{:<20} {:>5} {:>5} {:>+5}  {:<8}", "Jumex", 7, 5, 2, "SOBRA");
    assert!(texto.contains(&fila), "{texto}");
    assert!(texto.contains("Items:1 Faltan:0 Sobran:1 Concil:0"));
    assert!(texto.contains("Perdida est.: $0.00"));
}

#[test]
fn spooler_fuera_de_windows_da_error_claro() {
    let msg = "Impresion RAW solo disponible en Windows en Fase 1.";
    assert_eq!(listar_impresoras_sistema().err(), Some(msg.to_string()));
    assert_eq!(enviar_bytes_raw("Termica", &[1, 2, 3]).err(), Some(msg.to_string()));
}

#[test]
fn red_sin_ip_o_puerto_cero_se_rechaza() {
    let e = validar_red("", 9100).unwrap_err();
    assert!(e.contains("IP"));
    let e = validar_red("127.0.0.1", 0).unwrap_err();
    assert!(e.contains("Puerto"));
    assert_eq!(validar_red(" 10.0.0.5 ", 9100), Ok("10.0.0.5".to_string()));
    assert_eq!(validar_spooler("  "), Err("Elige una impresora instalada.".to_string()));
    assert_eq!(validar_spooler(" EPSON "), Ok("EPSON".to_string()));
}

#[test]
fn lista_valida_impresora_y_filas() {
    assert_eq!(validar_lista("", 3), Err("Elige una impresora instalada.".to_string()));
    assert_eq!(validar_lista("T", 0), Err("No hay filas que imprimir.".to_string()));
    assert_eq!(
        validar_lista("T", 2001),
        Err("Demasiadas filas (2001). Limite Fase 1: 2000. Filtra la lista.".to_string())
    );
    assert_eq!(validar_lista(" T ", 2000), Ok("T".to_string()));
    assert_eq!(tienda_o_defecto(&None), "MI TIENDA");
    assert_eq!(tienda_o_defecto(&Some("  ".into())), "MI TIENDA");
    assert_eq!(tienda_o_defecto(&Some(" Abarrotes ".into())), "Abarrotes");
}

#[test]
fn payload_de_filas_se_sanea() {
    let f = normalizar_filas_conciliacion(vec![FilaConciliacionPayload {
        nombre: "X".into(),
        fisico: -4,
        sistema: -2,
        precio_venta: -10,
    }]);
    assert_eq!((f[0].fisico, f[0].sistema, f[0].precio_venta), (0, -2, 0));
    let s = normalizar_filas_stock(vec![FilaStockBajoPayload { nombre: "Y".into(), stock: -300, minimo: -1 }]);
    assert_eq!((s[0].stock, s[0].minimo), (-300, 0));
}

#[test]
fn envio_raw_revisa_nombre_bytes_y_tope_en_orden() {
    assert_eq!(validar_envio_raw("  ", 0), Err("Elige una impresora instalada.".to_string()));
    assert_eq!(validar_envio_raw(" EPSON ", 0), Err("Nada que imprimir: el ticket viene vacio.".to_string()));
    assert_eq!(
        validar_envio_raw("EPSON", 524289),
        Err("Ticket demasiado grande para Fase 1 (limite 512KB).".to_string())
    );
    assert_eq!(validar_envio_raw(" EPSON ", 524288), Ok("EPSON".to_string()));
}
