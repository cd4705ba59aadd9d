use yarvis_app::amarillo::{camino_sugerencia, estado_de_camino, hay_conflicto, top5, Camino, Candidato};
use yarvis_app::fuzzy::{jaccard, similitud_fuzzy, trigramas};
use yarvis_app::marcas::{decide, delta_marca, marca_norm, marcas_iguales, normalizar_marca, UMBRAL_AMARILLO};

fn valor(f: (u128, u128)) -> f64 {
    f.0 as f64 / f.1 as f64
}

#[test]
fn iguales_y_vacios() {
    assert_eq!(valor(similitud_fuzzy("coca", "coca")), 1.0);
    assert_eq!(valor(similitud_fuzzy("", "coca")), 0.0);
}

#[test]
fn tolera_pegados_y_typos() {
    let pegado = valor(similitud_fuzzy("cocacola", "coca cola"));
    assert!(pegado > 0.3, "pegado = {pegado}");
    let typo = valor(similitud_fuzzy("sabritas", "sabrita"));
    assert!(typo > 0.5, "typo = {typo}");
}

#[test]
fn distintos_quedan_abajo() {
    let s = valor(similitud_fuzzy("coca cola", "pepsi"));
    assert!(s < 0.2, "distintos = {s}");
}

#[test]
fn trigramas_por_palabra_y_cortas_enteras() {
    assert_eq!(trigramas("coca 3l"), vec!["coc".to_string(), "oca".to_string(), "3l".to_string()]);
    assert!(trigramas("").is_empty());
}

#[test]
fn jaccard_exacto_en_fraccion() {
    let a = trigramas("sabritas");
    let b = trigramas("sabrita");
    // sab abr bri rit ita tas vs sab abr bri rit ita: 5 en común, unión 6
    assert_eq!(jaccard(&a, &b), (5, 6));
    assert_eq!(jaccard(&a, &vec![]), (0, 1));
}

#[test]
fn borde_exactamente_en_umbral() {
    assert!(decide(8000));
    assert!(decide(9900));
}

#[test]
fn debajo_cae_a_rojo() {
    assert!(!decide(7999));
    assert!(!decide(0));
    assert_eq!(UMBRAL_AMARILLO, 8000);
}

#[test]
fn marca_normalizada_recorta_y_baja() {
    assert_eq!(marca_norm(Some("  Coca ")), Some("coca".to_string()));
    assert_eq!(marca_norm(Some("   ")), None);
    assert_eq!(marca_norm(None), None);
    assert_eq!(normalizar_marca(Some("ÉXITO")), Some("éxito".to_string()));
}

#[test]
fn delta_de_marca_suma_resta_o_nada() {
    assert_eq!(delta_marca(Some("Coca"), Some("coca")), 500);
    assert_eq!(delta_marca(Some("Pepsi"), Some("coca")), -3000);
    assert_eq!(delta_marca(None, Some("Sabritas")), 0);
    assert_eq!(delta_marca(Some(" "), Some("Sabritas")), 0);
}

#[test]
fn marca_ausente_no_bloquea() {
    assert!(marcas_iguales(None, Some("Coca")));
    assert!(marcas_iguales(Some("COCA "), Some("coca")));
    assert!(!marcas_iguales(Some("Pepsi"), Some("coca")));
    // simetría
    assert_eq!(marcas_iguales(Some("a"), Some("b")), marcas_iguales(Some("b"), Some("a")));
}

fn cand(id: i64, score: u32) -> Candidato {
    Candidato { producto_id: id, nombre: format!("p{id}"), score, origen: "scoring".into() }
}

#[test]
fn top5_ordena_filtra_y_recorta() {
    let cs = vec![cand(1, 8100), cand(2, 9500), cand(3, 7000), cand(4, 9500), cand(5, 8000), cand(6, 8800), cand(7, 9900), cand(8, 8200)];
    let ids: Vec<i64> = top5(cs).iter().map(|c| c.producto_id).collect();
    assert_eq!(ids, vec![7, 2, 4, 6, 8]);
    assert!(top5(vec![cand(1, 7999)]).is_empty());
    assert!(top5(vec![]).is_empty());
}

#[test]
fn camino_de_la_sugerencia() {
    assert!(camino_sugerencia(true, true, 3) == Camino::Conflicto);
    assert!(camino_sugerencia(false, true, 3) == Camino::Aprendizaje);
    assert!(camino_sugerencia(false, false, 0) == Camino::Rojo);
    assert!(camino_sugerencia(false, false, 2) == Camino::Amarillo);
    assert_eq!(estado_de_camino(Camino::Rojo), "rojo");
    assert!(hay_conflicto(2));
    assert!(!hay_conflicto(1));
}

#[test]
fn jaccard_con_repetidos_no_pasa_de_uno() {
    let tres: Vec<String> = vec!["aaa".to_string(), "aaa".to_string(), "aaa".to_string()];
    let uno: Vec<String> = vec!["aaa".to_string()];
    // Intersección de multiconjuntos: min(3, 1) = 1; unión: max(3, 1) = 3.
    assert_eq!(jaccard(&tres, &uno), (1, 3));
    assert_eq!(jaccard(&uno, &tres), (1, 3));
    let a = trigramas("aaaaa");
    assert_eq!(jaccard(&a, &a), (3, 3));
    let (i, u) = similitud_fuzzy("aaaaa", "aaa");
    assert!(i <= u);
}
