use yarvis_app::modelos::VeredictoVerde;
use yarvis_app::presentacion::{extraer_presentacion, presentacion_de_catalogo};
use yarvis_app::rojo::{
    alta_producto, contar_pendientes, ean_del_alta, ean_para_asignar, preparar_pendiente, revisar_ean_resolucion, unidad_del_alta,
    va_a_conflicto, validar_no_resuelto, validar_nombre_alta,
};
use yarvis_app::verde::{
    desenlace_de_veredicto, desenlace_por_gemelos, es_gemelo, revisar_ean_verde, revisar_fila_catalogo,
    resumir_importacion, texto_ticket_catalogo, veredicto_colisiones, veredicto_nombres, CatalogoRow, Desenlace,
    PasoEan, ResultadoFila,
};

#[test]
fn ean_del_verde() {
    assert_eq!(revisar_ean_verde(" ").err(), Some("Código de barras vacío.".to_string()));
    match revisar_ean_verde("750-1055-30000-6").ok() {
        Some(PasoEan::Listo(e)) => assert_eq!(e, "7501055300006"),
        _ => panic!("debía quedar listo"),
    }
    match revisar_ean_verde("7501055300004").ok() {
        Some(PasoEan::Rechazado(v)) => {
            assert!(!v.asignado);
            assert_eq!(v.motivo, "ean con dígito verificador inválido");
        },
        _ => panic!("debía rechazarse"),
    }
}

#[test]
fn colisiones_en_orden() {
    assert!(veredicto_colisiones(false, false, false).is_none());
    assert_eq!(veredicto_colisiones(true, true, true).map(|v| v.motivo), Some("ean reclamado por otro producto".into()));
    assert_eq!(veredicto_colisiones(false, true, true).map(|v| v.motivo), Some("el producto ya tiene otro código".into()));
    assert_eq!(
        veredicto_colisiones(false, false, true).map(|v| v.motivo),
        Some("ean en conflicto (2 productos lo reclaman)".into())
    );
}

#[test]
fn nombres_marca_y_medida_mandan() {
    let p600 = presentacion_de_catalogo(600_000_000, "ml");
    let ok = veredicto_nombres("coca cola 600 ml", "coca cola", Some("Coca"), Some("coca"), p600);
    assert!(ok.asignado, "{}", ok.motivo);
    let v = veredicto_nombres("coca cola 600 ml", "coca", None, None, p600);
    assert_eq!(v.motivo, "nombre base no exacto (va a amarillo/rojo)");
    let v = veredicto_nombres("coca cola 600 ml", "coca cola", Some("Pepsi"), Some("coca"), p600);
    assert_eq!(v.motivo, "marca distinta");
    let p3l = presentacion_de_catalogo(3_000_000, "l");
    let v = veredicto_nombres("coca cola 600 ml", "coca cola", None, None, p3l);
    assert_eq!(v.motivo, "presentación distinta o ausente");
    let v = veredicto_nombres("", "", None, None, p600);
    assert_eq!(v.motivo, "nombre de ticket vacío");
    assert_eq!(extraer_presentacion("coca cola 600 ml"), p600);
}

fn fila(ean: &str, unidad: &str) -> CatalogoRow {
    CatalogoRow {
        ean: ean.into(),
        nombre: "Coca Cola".into(),
        marca: Some("Coca".into()),
        cantidad: 600_000_000,
        unidad: unidad.into(),
        categoria: None,
    }
}

#[test]
fn filas_del_catalogo() {
    assert_eq!(revisar_fila_catalogo(&fila(" ", "ml")).err(), Some("ean vacío para 'Coca Cola'".to_string()));
    assert_eq!(
        revisar_fila_catalogo(&fila("7501055300004", "ml")).err(),
        Some("'Coca Cola': ean 7501055300004 con dígito inválido".to_string())
    );
    assert_eq!(
        revisar_fila_catalogo(&fila("7501055300006", "oz")).err(),
        Some("'Coca Cola': unidad 'oz' fuera de catálogo".to_string())
    );
    assert_eq!(
        revisar_fila_catalogo(&fila("7501055300006", " ML ")).ok(),
        Some(("7501055300006".to_string(), "ml".to_string()))
    );
    assert_eq!(texto_ticket_catalogo("Coca Cola", 600_000_000, "ml"), "Coca Cola 600ml");
    assert_eq!(texto_ticket_catalogo("Leche", 1_500_000, "l"), "Leche 1.5l");
    assert_eq!(texto_ticket_catalogo("Queso", 250_000, "kg"), "Queso 0.25kg");
}

#[test]
fn gemelos_y_desenlaces() {
    let p = presentacion_de_catalogo(600_000_000, "ml");
    assert!(es_gemelo(false, "coca cola", "coca cola", Some("Coca"), None, p, p));
    assert!(!es_gemelo(true, "coca cola", "coca cola", None, None, p, p));
    assert!(!es_gemelo(false, "coca cola", "coca cola", None, None, p, None));
    assert!(desenlace_por_gemelos(0) == Some(Desenlace::SinMatch));
    assert!(desenlace_por_gemelos(1).is_none());
    assert!(desenlace_por_gemelos(2) == Some(Desenlace::Conflicto));
    let v = |a: bool, m: &str| VeredictoVerde { asignado: a, motivo: m.into() };
    assert!(desenlace_de_veredicto(&v(true, "auto-verde asignado")) == Desenlace::Verde);
    assert!(desenlace_de_veredicto(&v(false, "ean reclamado por otro producto")) == Desenlace::Conflicto);
    assert!(desenlace_de_veredicto(&v(false, "marca distinta")) == Desenlace::SinMatch);
}

#[test]
fn pendientes_y_resoluciones() {
    assert_eq!(preparar_pendiente(Some(" 750-1 "), "coca"), Ok(Some("7501".to_string())));
    assert_eq!(preparar_pendiente(None, ""), Err("El nombre del ticket es obligatorio.".to_string()));
    assert_eq!(
        revisar_ean_resolucion(&"7501055300004".to_string()).err(),
        Some("El ean 7501055300004 tiene dígito verificador inválido.".to_string())
    );
    assert_eq!(
        ean_para_asignar(None, None).err(),
        Some("Sin ean que asignar (el pendiente no trae y no mandaste override).".to_string())
    );
    assert_eq!(ean_para_asignar(Some("7501055300006"), Some("X".into())), Ok("7501055300006".to_string()));
    assert_eq!(unidad_del_alta(Some(" KG ")), Ok(Some("kg".to_string())));
    assert_eq!(unidad_del_alta(Some("oz")).err(), Some("Unidad 'oz' fuera de catálogo (ml|l|g|kg|pzs).".to_string()));
    assert_eq!(unidad_del_alta(None), Ok(None));
    assert!(validar_nombre_alta("  ").is_err());
    assert!(validar_no_resuelto("resuelto").is_err());
    assert!(validar_no_resuelto("rojo").is_ok());
    assert!(va_a_conflicto(Some(2), 1));
    assert!(!va_a_conflicto(Some(1), 1));
    assert!(!va_a_conflicto(None, 1));
}

#[test]
fn conteo_de_la_cola() {
    let rows = vec![("rojo".to_string(), 4), ("amarillo".to_string(), 2), ("otro".to_string(), 9), ("resuelto".to_string(), 1)];
    let c = contar_pendientes(&rows);
    assert_eq!((c.rojo, c.amarillo, c.conflicto, c.resuelto), (4, 2, 0, 1));
}

#[test]
fn resumen_de_importacion_cuadra() {
    let filas = vec![
        ResultadoFila::Registrada(Desenlace::Verde),
        ResultadoFila::Rechazada("ean vacío para 'x'".to_string()),
        ResultadoFila::Registrada(Desenlace::SinMatch),
        ResultadoFila::Registrada(Desenlace::Conflicto),
        ResultadoFila::Registrada(Desenlace::Verde),
        ResultadoFila::Rechazada("'y': unidad 'lt' fuera de catálogo".to_string()),
    ];
    let r = resumir_importacion(&filas);
    assert_eq!(r.catalogo_upserts, 4);
    assert_eq!(r.verde_asignados, 2);
    assert_eq!(r.sin_match, 1);
    assert_eq!(r.conflictos, 1);
    assert_eq!(r.errores, vec!["ean vacío para 'x'".to_string(), "'y': unidad 'lt' fuera de catálogo".to_string()]);
    let vacio = resumir_importacion(&vec![]);
    assert_eq!(vacio.catalogo_upserts, 0);
    assert!(vacio.errores.is_empty());
}

#[test]
fn alta_desde_pendiente_compone_el_codigo_guardado() {
    let pend = Some(("rojo".to_string(), Some("750 1055 3000 06".to_string())));
    assert_eq!(ean_del_alta("Coca", pend.clone(), None), Ok(Some("7501055300006".to_string())));
    assert_eq!(ean_del_alta("Coca", pend.clone(), Some("")), Ok(None));
    assert_eq!(ean_del_alta("  ", pend.clone(), None), Err("El nombre del producto es obligatorio.".to_string()));
    assert_eq!(ean_del_alta("Coca", None, None), Err("Pendiente no existe.".to_string()));
    assert_eq!(
        ean_del_alta("Coca", Some(("resuelto".to_string(), None)), None),
        Err("Ese pendiente ya está resuelto.".to_string())
    );
    assert_eq!(
        ean_del_alta("Coca", Some(("rojo".to_string(), None)), Some("7501055300007")),
        Err("El ean 7501055300007 tiene dígito verificador inválido.".to_string())
    );
    let a = alta_producto(" Coca ", Some("7501055300006".to_string()), false, Some(" ML ")).unwrap();
    assert_eq!(a.nombre, "Coca");
    assert_eq!(a.codigo_barras.as_deref(), Some("7501055300006"));
    assert_eq!(a.unidad.as_deref(), Some("ml"));
    assert_eq!(
        alta_producto("Coca", Some("7501055300006".to_string()), true, None).err(),
        Some("El código de barras ya está registrado en otro producto.".to_string())
    );
    assert!(alta_producto("Coca", None, true, None).is_ok());
    assert_eq!(
        alta_producto("Coca", None, false, Some("lt")).err(),
        Some("Unidad 'lt' fuera de catálogo (ml|l|g|kg|pzs).".to_string())
    );
}
