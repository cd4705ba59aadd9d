use yarvis_app::codigos::{
    ean_final, es_error_codigo_duplicado, mensaje_error_codigo, normalizar_codigo_barras,
    normalizar_codigo_obligatorio, validar_codigo_barras,
};
use yarvis_app::ean::validar_ean;

#[test]
fn normaliza_a_none_si_vacio() {
    assert_eq!(normalizar_codigo_barras(None), None);
    assert_eq!(normalizar_codigo_barras(Some("")), None);
    assert_eq!(normalizar_codigo_barras(Some("   ")), None);
    assert_eq!(normalizar_codigo_barras(Some(" - ")), None);
}

#[test]
fn normaliza_quitando_espacios_guiones_y_mayusculas() {
    assert_eq!(
        normalizar_codigo_barras(Some("  750-123 456 ")),
        Some("750123456".to_string())
    );
    assert_eq!(
        normalizar_codigo_barras(Some("unico123")),
        Some("UNICO123".to_string())
    );
}

#[test]
fn valida_longitud_y_caracteres() {
    assert!(validar_codigo_barras(&None).is_ok());
    assert!(validar_codigo_barras(&Some("7501234567890".into())).is_ok());
    assert!(validar_codigo_barras(&Some("a".repeat(65))).is_err());
    assert!(validar_codigo_barras(&Some("código😀".into())).is_err());
}

#[test]
fn detecta_duplicado_por_mensaje_sqlite() {
    assert!(es_error_codigo_duplicado(
        "UNIQUE constraint failed: productos.codigo_barras"
    ));
    assert!(!es_error_codigo_duplicado("no such table: productos"));
}

#[test]
fn dataset_real_pasa() {
    assert!(validar_ean("7501011101456"));
    assert!(validar_ean("7501055304745"));
    assert!(validar_ean("7501055370276"));
    assert!(validar_ean("0000075007614"));
}

#[test]
fn un_digito_mal_falla() {
    assert!(!validar_ean("7501011101457"));
    assert!(!validar_ean("7501055304746"));
    assert!(!validar_ean("123"));
    assert!(!validar_ean(""));
}

#[test]
fn code128_sin_checksum_se_permite() {
    assert!(validar_ean("UNICO123"));
    assert!(validar_ean("CAJA-001"));
}

#[test]
fn normalizar_es_idempotente_en_ejemplos() {
    for raw in ["  750-123 456 ", "unico123", "a\u{00A0}b-c", "ÁrbOl"] {
        let una = normalizar_codigo_barras(Some(raw)).unwrap();
        assert_eq!(normalizar_codigo_barras(Some(&una)), Some(una.clone()));
    }
    // Solo minúsculas ASCII suben: la tilde se queda tal cual.
    assert_eq!(normalizar_codigo_obligatorio("ÁrbOl"), Some("ÁRBOL".to_string()));
    // El espacio no separable de Unicode también se quita.
    assert_eq!(normalizar_codigo_obligatorio("a\u{00A0}b-c"), Some("ABC".to_string()));
}

#[test]
fn limite_de_64_bytes_cuenta_utf8() {
    assert!(validar_codigo_barras(&Some("A".repeat(64))).is_ok());
    // 32 caracteres de 2 bytes = 64 bytes: al tope pero no gráfico ASCII.
    let e = validar_codigo_barras(&Some("ñ".repeat(32))).unwrap_err();
    assert!(e.contains("caracteres no válidos"));
    // 33 de 2 bytes = 66 bytes: manda el largo.
    let e = validar_codigo_barras(&Some("ñ".repeat(33))).unwrap_err();
    assert!(e.contains("64 caracteres"));
}

#[test]
fn mensaje_de_duplicado_es_amigable() {
    assert_eq!(
        mensaje_error_codigo("UNIQUE constraint failed: productos.codigo_barras"),
        "El código de barras ya está registrado en otro producto."
    );
    assert_eq!(
        mensaje_error_codigo("error en idx_productos_codigo_barras"),
        "El código de barras ya está registrado en otro producto."
    );
    assert_eq!(mensaje_error_codigo("disk I/O error"), "disk I/O error");
}

#[test]
fn ean_final_prefiere_el_del_operador() {
    assert_eq!(
        ean_final(Some(" 750-1 "), Some("999".into())),
        Ok(Some("7501".to_string()))
    );
    assert_eq!(ean_final(None, Some("abc 1".into())), Ok(Some("ABC1".to_string())));
    assert_eq!(ean_final(None, None), Ok(None));
    assert_eq!(ean_final(Some("  "), Some("123".into())), Ok(None));
}

#[test]
fn cualquier_digito_cambiado_falla_en_ejemplo() {
    let bueno = "7501055304745";
    for pos in 0..bueno.len() {
        for d in b'0'..=b'9' {
            let mut b = bueno.as_bytes().to_vec();
            if b[pos] == d {
                continue;
            }
            b[pos] = d;
            let s = String::from_utf8(b).unwrap();
            assert!(!validar_ean(&s), "{s} no debió pasar");
        }
    }
}
