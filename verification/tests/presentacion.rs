use yarvis_app::presentacion::{
    a_base, extraer_presentacion, misma_presentacion, normalizar_unidad,
    presentacion_de_catalogo, quitar_presentacion, Presentacion, UnidadBase,
};

/// Millonésimas de una cantidad entera.
fn m(x: u128) -> u128 {
    x * 1_000_000
}

#[test]
fn alias_y_bases() {
    let a = extraer_presentacion("cocacola 600ml").unwrap();
    let b = extraer_presentacion("cocacola 0.6l").unwrap();
    assert!(misma_presentacion(&a, &b));
    let k = extraer_presentacion("pan 1kg").unwrap();
    let g = extraer_presentacion("pan 1000g").unwrap();
    assert!(misma_presentacion(&k, &g));
}

#[test]
fn espacios_y_mayusculas() {
    assert!(extraer_presentacion("coca cola 600 ml").is_some());
    assert!(extraer_presentacion("leche 1,5 l").is_some());
    assert!(extraer_presentacion("sabritas 42 g").is_some());
    assert!(extraer_presentacion("jugo sin presentacion").is_none());
}

#[test]
fn medida_manda_mas_que_nombre() {
    let a = extraer_presentacion("coca 600ml").unwrap();
    let b = extraer_presentacion("coca 3l").unwrap();
    assert!(!misma_presentacion(&a, &b));
}

#[test]
fn quita_presentacion_para_base() {
    assert_eq!(quitar_presentacion("cocacola 600ml"), "cocacola");
    assert_eq!(
        quitar_presentacion("coca cola original 600 ml"),
        "coca cola original"
    );
    assert_eq!(quitar_presentacion("pan dulce"), "pan dulce");
}

#[test]
fn catalogo_cerrado() {
    assert!(presentacion_de_catalogo(m(600), "ml").is_some());
    assert!(presentacion_de_catalogo(1_500_000, "l").is_some());
    assert!(presentacion_de_catalogo(m(42), "g").is_some());
    assert!(presentacion_de_catalogo(m(12), "pzs").is_some());
    assert!(presentacion_de_catalogo(m(42), "gr").is_some());
    assert!(presentacion_de_catalogo(m(1), "litros").is_some());
    assert!(presentacion_de_catalogo(m(1), "onzas").is_none());
}

#[test]
fn cantidades_exactas_en_millonesimas() {
    assert_eq!(
        extraer_presentacion("leche 1,5 l"),
        Some(Presentacion { cantidad_millonesimas: m(1500), unidad_base: UnidadBase::Ml })
    );
    assert_eq!(
        extraer_presentacion("jamon 250 gramos"),
        Some(Presentacion { cantidad_millonesimas: m(250), unidad_base: UnidadBase::G })
    );
    assert_eq!(
        extraer_presentacion("huevo 12pz"),
        Some(Presentacion { cantidad_millonesimas: m(12), unidad_base: UnidadBase::Pzs })
    );
    // La última presentación manda.
    assert_eq!(
        extraer_presentacion("caja 12 pzs coca 355 ml"),
        Some(Presentacion { cantidad_millonesimas: m(355), unidad_base: UnidadBase::Ml })
    );
    // Número sin unidad conocida: no es presentación.
    assert_eq!(extraer_presentacion("modelo 2024 onzas"), None);
    assert_eq!(
        presentacion_de_catalogo(1_500_000, " L "),
        Some(Presentacion { cantidad_millonesimas: m(1500), unidad_base: UnidadBase::Ml })
    );
    assert_eq!(a_base(m(2), "kg"), Some(Presentacion { cantidad_millonesimas: m(2000), unidad_base: UnidadBase::G }));
    assert_eq!(a_base(m(2), "oz"), None);
}

#[test]
fn alias_de_unidades() {
    assert_eq!(normalizar_unidad("lts"), Some("l"));
    assert_eq!(normalizar_unidad("gramos"), Some("g"));
    assert_eq!(normalizar_unidad("kilo"), Some("kg"));
    assert_eq!(normalizar_unidad("p"), Some("pzs"));
    assert_eq!(normalizar_unidad("mililitros"), Some("ml"));
    assert_eq!(normalizar_unidad("ML"), None);
}

#[test]
fn quitar_conserva_lo_que_sigue() {
    assert_eq!(quitar_presentacion("  coca 600 ml retornable "), "coca retornable");
    assert_eq!(quitar_presentacion("600ml"), "");
    assert_eq!(quitar_presentacion("coca 600"), "coca 600");
}
