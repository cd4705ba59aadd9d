use yarvis_app::asistencia::{
    bloques_de_hoy, bloques_del_dia, calcular_extras, dia_label_es, dias_incluye, extras_del_dia,
    fmt_hhmm, historial_horas_extra, mins_hhmm, minutos_de_bloque, minutos_de_turno, Asistencia,
    BloqueHorario, BloqueHoy,
};

#[test]
fn login_nocturno_cuenta_su_presencia() {
    assert_eq!(
        calcular_extras(20 * 60 + 33, 20 * 60 + 33, 9 * 60, 17 * 60),
        (0, 0)
    );
    assert_eq!(
        calcular_extras(20 * 60 + 33, 23 * 60, 9 * 60, 17 * 60),
        (0, 147)
    );
}

#[test]
fn noche_2141_al_cierre_2300() {
    let (pre, post) = calcular_extras(21 * 60 + 41, 23 * 60, 9 * 60, 17 * 60);
    assert_eq!((pre, post), (0, 79));
}

#[test]
fn extra_genuino_pre_y_post() {
    let (pre, post) = calcular_extras(8 * 60 + 40, 18 * 60 + 20, 9 * 60, 17 * 60);
    assert_eq!((pre, post), (5, 80));
}

#[test]
fn solo_cuenta_lo_que_pasa_la_cortesia() {
    let (pre, post) = calcular_extras(8 * 60 + 44, 9 * 60 + 5, 9 * 60, 17 * 60);
    assert_eq!((pre, post), (1, 0));
}

#[test]
fn jornada_previa_quedandose_si_cuenta() {
    let (pre, post) = calcular_extras(6 * 60, 10 * 60, 9 * 60, 17 * 60);
    assert_eq!((pre, post), (165, 0));
}

#[test]
fn llegada_puntual_no_cuenta_pre() {
    let (pre, post) = calcular_extras(8 * 60 + 50, 17 * 60, 9 * 60, 17 * 60);
    assert_eq!((pre, post), (0, 0));
}

#[test]
fn visita_temprana_sin_quedarse_no_cuenta() {
    let (pre, post) = calcular_extras(6 * 60, 6 * 60 + 30, 9 * 60, 17 * 60);
    assert_eq!((pre, post), (0, 0));
}

#[test]
fn entrada_en_la_frontera_si_cuenta_post() {
    let (pre, post) = calcular_extras(17 * 60, 17 * 60 + 30, 9 * 60, 17 * 60);
    assert_eq!((pre, post), (0, 30));
}

#[test]
fn horas_y_formato() {
    assert_eq!(mins_hhmm("08:44"), 8 * 60 + 44);
    assert_eq!(mins_hhmm("23:05:59"), 23 * 60 + 5);
    assert_eq!(mins_hhmm("9"), 540);
    assert_eq!(mins_hhmm("xx:30"), 30);
    assert_eq!(mins_hhmm(""), 0);
    assert_eq!(fmt_hhmm(9 * 60 + 5), "09:05");
    assert_eq!(fmt_hhmm(17 * 60 + 24 * 60), "17:00");
    assert_eq!(fmt_hhmm(0), "00:00");
    assert_eq!(fmt_hhmm(-61), "-1:-1");
}

#[test]
fn dias_de_los_bloques() {
    assert!(dias_incluye("0,2,4", 2));
    assert!(dias_incluye(" 1 , 3 ", 3));
    assert!(!dias_incluye("0,2,4", 3));
    assert!(!dias_incluye("x,,", 0));
    assert!(dias_incluye("+6", 6));
    assert_eq!(dia_label_es(0), "Lunes");
    assert_eq!(dia_label_es(2), "Miércoles");
    assert_eq!(dia_label_es(6), "Domingo");
}

fn bloque(dias: &str, ini: &str, fin: &str) -> BloqueHorario {
    BloqueHorario { dias: dias.into(), hora_inicio: ini.into(), hora_fin: fin.into() }
}

#[test]
fn bloques_nocturnos_cruzan_medianoche() {
    assert_eq!(minutos_de_bloque("22:00", "06:00"), 8 * 60);
    assert_eq!(minutos_de_bloque("09:00", "17:00"), 8 * 60);
    let bs = vec![bloque("0,1", "09:00", "13:00"), bloque("1", "22:00", "06:00"), bloque("2", "10:00", "11:00")];
    assert_eq!(bloques_del_dia(&bs, 1), vec![(540, 780), (1320, 1800)]);
    assert_eq!(bloques_del_dia(&bs, 5), vec![]);
    let hoy = bloques_de_hoy(&bs, 0);
    assert_eq!(hoy.len(), 1);
    assert_eq!(hoy[0].hora_inicio, "09:00");
}

#[test]
fn el_bloque_mas_largo_manda() {
    // 09:00-13:00 (240) y 15:00-17:00 (120): manda el primero.
    let r = extras_del_dia("08:00", "14:00", &vec![(540, 780), (900, 1020)]).unwrap();
    assert_eq!(r, (45, 60, 540, 780, 480, 840));
    // Sin bloques no hay extra.
    assert_eq!(extras_del_dia("08:00", "14:00", &vec![]), None);
    // Sin extra tampoco.
    assert_eq!(extras_del_dia("09:00", "13:00", &vec![(540, 780)]), None);
}

#[test]
fn historial_solo_dias_con_extra() {
    // 2026-01-05 es lunes; 2026-01-06 es martes.
    let bs = vec![bloque("0", "09:00", "17:00")];
    let asis = vec![
        Asistencia { fecha: "2026-01-05".into(), primer_login: "08:30".into(), ultimo_login: "18:00".into() },
        Asistencia { fecha: "2026-01-06".into(), primer_login: "08:00".into(), ultimo_login: "20:00".into() },
        Asistencia { fecha: "no-fecha".into(), primer_login: "08:00".into(), ultimo_login: "20:00".into() },
    ];
    let h = historial_horas_extra(&asis, &bs, "2026-01-05", false);
    assert_eq!(h.len(), 1);
    let d = &h[0];
    assert_eq!(d.fecha, "2026-01-05");
    assert_eq!(d.dia_label, "Lunes");
    assert_eq!(d.entrada_oficial, "09:00");
    assert_eq!(d.salida_oficial, "17:00");
    assert_eq!((d.extra_pre_min, d.extra_post_min), (15, 60));
    assert_eq!(d.trabajo_min, 570);
    assert!(d.en_curso);
    let h = historial_horas_extra(&asis, &bs, "2026-01-05", true);
    assert!(!h[0].en_curso);
}

#[test]
fn turno_partido_y_nocturno_suma_sus_minutos() {
    let bloques = vec![
        BloqueHoy { hora_inicio: "09:00".to_string(), hora_fin: "13:00".to_string() },
        BloqueHoy { hora_inicio: "22:00".to_string(), hora_fin: "02:30".to_string() },
    ];
    assert_eq!(minutos_de_turno(&bloques), 240 + 270);
    assert_eq!(minutos_de_turno(&Vec::new()), 0);
}
