//! Asistencia y horas extra del empleado.
//!
//! Reglas: el primer login del día es la entrada real; los bloques de
//! horario del día (convención L=0..D=6) dan la entrada y salida
//! oficiales; los turnos nocturnos se extienden +24h. El extra previo
//! descuenta 15 minutos de cortesía y solo cuenta si el empleado siguió
//! hasta la entrada oficial; el extra posterior cuenta lo que pasó del fin
//! del turno, o toda la presencia si entró ya de noche tras el fin.

use vstd::prelude::*;
use chrono::Datelike;
use crate::formato::{con_ceros, con_ceros_exec};
use crate::texto::{
    anexar, buscar_char, buscar_char_exec, campos, chars_de, lema_buscar_char, lema_campos_resto,
    parse_entero,
    parse_entero_exec, recortado, recortar_espacios, string_de, subrango,
};

verus! {

/// Minutos de cortesía antes de la entrada oficial.
pub const UMBRAL_TEMPRANO_MIN: i64 = 15;

/// Minutos de un día.
pub const MINUTOS_DIA: i64 = 1440;

pub open spec fn cabe_i64(x: int) -> bool {
    i64::MIN <= x <= i64::MAX
}

pub open spec fn min_i(a: int, b: int) -> int {
    if a <= b {
        a
    } else {
        b
    }
}

pub open spec fn max_i(a: int, b: int) -> int {
    if a >= b {
        a
    } else {
        b
    }
}

/// Extra previo y posterior en minutos (regla B, ver el módulo).
pub open spec fn spec_extras(entrada: int, salida: int, ini: int, fin: int) -> (int, int) {
    let presencia_previa = max_i(min_i(salida, ini) - entrada, 0);
    let pre = if salida >= ini {
        max_i(presencia_previa - 15, 0)
    } else {
        0
    };
    let post = if entrada <= fin {
        max_i(salida - fin, 0)
    } else {
        max_i(salida - entrada, 0)
    };
    (pre, post)
}

/// Las restas de `calcular_extras` caben en 64 bits.
pub open spec fn extras_sin_desborde(entrada: int, salida: int, ini: int, fin: int) -> bool {
    &&& cabe_i64(min_i(salida, ini) - entrada)
    &&& entrada <= fin ==> cabe_i64(salida - fin)
    &&& entrada > fin ==> cabe_i64(salida - entrada)
}

/// Minutos extra (previos, posteriores) de una jornada contra su bloque,
/// todo en minutos con los nocturnos ya extendidos +24h.
pub fn calcular_extras(entrada_min: i64, salida_min: i64, bloque_ini: i64, bloque_fin: i64) -> (r: (
    i64,
    i64,
))
    requires
        extras_sin_desborde(entrada_min as int, salida_min as int, bloque_ini as int, bloque_fin as int),
    ensures
        (r.0 as int, r.1 as int) == spec_extras(
            entrada_min as int,
            salida_min as int,
            bloque_ini as int,
            bloque_fin as int,
        ),
{
    let tope = if salida_min < bloque_ini {
        salida_min
    } else {
        bloque_ini
    };
    let d = tope - entrada_min;
    let presencia_previa = if d > 0 {
        d
    } else {
        0
    };
    let extra_pre = if salida_min >= bloque_ini {
        if presencia_previa - UMBRAL_TEMPRANO_MIN > 0 {
            presencia_previa - UMBRAL_TEMPRANO_MIN
        } else {
            0
        }
    } else {
        0
    };
    let extra_post = if entrada_min <= bloque_fin {
        let x = salida_min - bloque_fin;
        if x > 0 {
            x
        } else {
            0
        }
    } else {
        let x = salida_min - entrada_min;
        if x > 0 {
            x
        } else {
            0
        }
    };
    (extra_pre, extra_post)
}

/// Valor de un campo numérico como lo lee `parse().unwrap_or(0)`.
pub open spec fn campo_o_cero(s: Seq<char>) -> int {
    match parse_entero(s, i64::MIN as int, i64::MAX as int) {
        Some(v) => v,
        None => 0,
    }
}

/// Horas y minutos de "HH:MM" (el primer campo y el segundo; lo que no
/// es número cuenta 0).
pub open spec fn partes_hhmm(t: Seq<char>) -> (int, int) {
    let a = buscar_char(t, ':', 0);
    let h = campo_o_cero(t.subrange(0, a));
    let m = if a < t.len() {
        campo_o_cero(t.subrange(a + 1, buscar_char(t, ':', a + 1)))
    } else {
        0
    };
    (h, m)
}

pub open spec fn spec_mins(t: Seq<char>) -> int {
    partes_hhmm(t).0 * 60 + partes_hhmm(t).1
}

pub open spec fn mins_sin_desborde(t: Seq<char>) -> bool {
    cabe_i64(partes_hhmm(t).0 * 60) && cabe_i64(spec_mins(t))
}

/// Minutos desde medianoche de un "HH:MM".
pub fn mins_hhmm(t: &str) -> (r: i64)
    requires
        mins_sin_desborde(t@),
    ensures
        r == spec_mins(t@),
{
    let v = chars_de(t);
    proof {
        lema_buscar_char(v@, ':', 0);
    }
    let a = buscar_char_exec(&v, ':', 0);
    let c0 = subrango(&v, 0, a);
    let h: i64 = match parse_entero_exec(&c0, i64::MIN, i64::MAX) {
        Some(x) => x,
        None => 0,
    };
    let m: i64 = if a < v.len() {
        proof {
            lema_buscar_char(v@, ':', a + 1);
        }
        let b = buscar_char_exec(&v, ':', a + 1);
        let c1 = subrango(&v, a + 1, b);
        match parse_entero_exec(&c1, i64::MIN, i64::MAX) {
            Some(x) => x,
            None => 0,
        }
    } else {
        0
    };
    h * 60 + m
}

/// División truncada hacia cero (la de `/` en enteros de Rust), `b > 0`.
pub open spec fn div_t(a: int, b: int) -> int {
    if a >= 0 {
        a / b
    } else {
        -((-a) / b)
    }
}

/// Resto con el signo del dividendo (el de `%` en enteros de Rust), `b > 0`.
pub open spec fn rem_t(a: int, b: int) -> int {
    a - b * div_t(a, b)
}

pub open spec fn spec_fmt_hhmm(mins: int) -> Seq<char> {
    con_ceros(rem_t(div_t(mins, 60), 24), 2) + seq![':'] + con_ceros(rem_t(mins, 60), 2)
}

fn div_trunc(a: i64, b: i64) -> (r: i64)
    requires
        b > 0,
    ensures
        r == div_t(a as int, b as int),
{
    if a >= 0 {
        a / b
    } else {
        let pos: i128 = 0 - (a as i128);
        let q: i128 = pos / (b as i128);
        (0 - q) as i64
    }
}

fn rem_trunc(a: i64, b: i64) -> (r: i64)
    requires
        b > 0,
    ensures
        r == rem_t(a as int, b as int),
{
    let q = div_trunc(a, b);
    assert(0 <= (-(a as int)) / (b as int) <= -(a as int) || a >= 0) by (nonlinear_arith)
        requires
            b > 0,
    ;
    assert(-(b as int) < rem_t(a as int, b as int) < b) by (nonlinear_arith)
        requires
            b > 0,
            q == div_t(a as int, b as int),
    ;
    ((a as i128) - (b as i128) * (q as i128)) as i64
}

/// "HH:MM" de una cantidad de minutos (las horas dan la vuelta a las 24).
pub fn fmt_hhmm(mins: i64) -> (r: String)
    ensures
        r@ == spec_fmt_hhmm(mins as int),
{
    let h = rem_trunc(div_trunc(mins, 60), 24);
    let m = rem_trunc(mins, 60);
    let mut out = con_ceros_exec(h, 2);
    out.push(':');
    let mm = con_ceros_exec(m, 2);
    anexar(&mut out, &mm);
    string_de(&out)
}

/// Nombre del día de la semana (Lunes=0 .. Domingo=6).
pub open spec fn spec_etiqueta_dia(idx: u32) -> Seq<char> {
    if idx == 0 {
        "Lunes"@
    } else if idx == 1 {
        "Martes"@
    } else if idx == 2 {
        "Miércoles"@
    } else if idx == 3 {
        "Jueves"@
    } else if idx == 4 {
        "Viernes"@
    } else if idx == 5 {
        "Sábado"@
    } else {
        "Domingo"@
    }
}

/// Nombre en español del día de la semana `idx` (0 = lunes ... 6 = domingo).
pub fn dia_label_es(idx: u32) -> (r: &'static str)
    requires
        idx <= 6,
    ensures
        r@ == spec_etiqueta_dia(idx),
{
    if idx == 0 {
        "Lunes"
    } else if idx == 1 {
        "Martes"
    } else if idx == 2 {
        "Miércoles"
    } else if idx == 3 {
        "Jueves"
    } else if idx == 4 {
        "Viernes"
    } else if idx == 5 {
        "Sábado"
    } else {
        "Domingo"
    }
}

/// ¿La lista "0,2,4" de días incluye `dia`? Cada campo se recorta y se
/// lee como entero de 32 bits; los que no son número se ignoran.
pub open spec fn spec_dias_incluye(dias: Seq<char>, dia: i32) -> bool {
    exists|i: int|
        0 <= i < campos(dias, ',').len() && parse_entero(
            recortado(#[trigger] campos(dias, ',')[i]),
            i32::MIN as int,
            i32::MAX as int,
        ) == Some(dia as int)
}

/// ¿El bloque con días `dias` aplica el día `dia`?
pub fn dias_incluye(dias: &str, dia: i32) -> (r: bool)
    ensures
        r == spec_dias_incluye(dias@, dia),
{
    let v = chars_de(dias);
    let mut inicio: usize = 0;
    let ghost mut vistos: Seq<Seq<char>> = Seq::empty();
    proof {
        assert(v@.subrange(0, v@.len() as int) =~= v@);
    }
    loop
        invariant
            inicio <= v.len(),
            campos(dias@, ',') == vistos + campos(v@.subrange(inicio as int, v@.len() as int), ','),
            v@ == dias@,
            forall|i: int|
                0 <= i < vistos.len() ==> parse_entero(
                    recortado(#[trigger] vistos[i]),
                    i32::MIN as int,
                    i32::MAX as int,
                ) != Some(dia as int),
        decreases v.len() - inicio,
    {
        let ghost resto = v@.subrange(inicio as int, v@.len() as int);
        proof {
            lema_buscar_char(resto, ',', 0);
            lema_buscar_char(v@, ',', inicio as int);
            lema_buscar_igual(v@, inicio as int, 0);
        }
        let p = buscar_char_exec(&v, ',', inicio);
        let campo = subrango(&v, inicio, p);
        let t = recortar_espacios(&campo);
        let coincide = match parse_entero_exec(&t, i32::MIN as i64, i32::MAX as i64) {
            Some(x) => x == dia as i64,
            None => false,
        };
        assert(campo@ =~= resto.subrange(0, p - inicio));
        if coincide {
            proof {
                if p < v.len() {
                    lema_campos_resto(resto, ',', p - inicio);
                }
                let todos = campos(dias@, ',');
                assert(todos[vistos.len() as int] == campo@);
            }
            return true;
        }
        if p >= v.len() {
            proof {
                let todos = campos(dias@, ',');
                assert(todos =~= vistos.push(campo@));
                assert forall|i: int| 0 <= i < todos.len() implies parse_entero(
                    recortado(#[trigger] todos[i]),
                    i32::MIN as int,
                    i32::MAX as int,
                ) != Some(dia as int) by {
                    if i < vistos.len() {
                        assert(todos[i] == vistos[i]);
                    }
                }
            }
            return false;
        }
        proof {
            lema_campos_resto(resto, ',', p - inicio);
            assert(resto.subrange(p - inicio + 1, resto.len() as int) =~= v@.subrange(
                p + 1,
                v@.len() as int,
            ));
            vistos = vistos.push(campo@);
            assert forall|i: int| 0 <= i < vistos.len() implies parse_entero(
                recortado(#[trigger] vistos[i]),
                i32::MIN as int,
                i32::MAX as int,
            ) != Some(dia as int) by {}
        }
        inicio = p + 1;
    }
}

proof fn lema_buscar_igual(v: Seq<char>, inicio: int, k: int)
    requires
        0 <= inicio <= v.len(),
        0 <= k <= v.len() - inicio,
    ensures
        buscar_char(v.subrange(inicio, v.len() as int), ',', k) + inicio == buscar_char(
            v,
            ',',
            inicio + k,
        ),
    decreases v.len() - inicio - k,
{
    if k < v.len() - inicio {
        assert(v.subrange(inicio, v.len() as int)[k] == v[inicio + k]);
        lema_buscar_igual(v, inicio, k + 1);
    }
}

/// Un bloque de horario tal como se guarda: días "0,2,4" y horas "HH:MM".
#[derive(Debug, Clone)]
pub struct BloqueHorario {
    pub dias: String,
    pub hora_inicio: String,
    pub hora_fin: String,
}

/// Un bloque que aplica hoy.
#[derive(Debug, Clone)]
pub struct BloqueHoy {
    pub hora_inicio: String,
    pub hora_fin: String,
}

/// Un día de asistencia: fecha "YYYY-MM-DD" y primer/último login "HH:MM".
#[derive(Debug, Clone)]
pub struct Asistencia {
    pub fecha: String,
    pub primer_login: String,
    pub ultimo_login: String,
}

/// Un día con horas extra.
#[derive(Debug, Clone)]
pub struct DiaExtra {
    pub fecha: String,
    pub dia_label: String,
    /// HH:MM del primer login del día.
    pub primer_login: String,
    /// HH:MM del último registro de actividad.
    pub ultimo_login: String,
    pub entrada_oficial: String,
    pub salida_oficial: String,
    pub extra_pre_min: i64,
    pub extra_post_min: i64,
    /// Minutos trabajados ese día (entrada a salida reales).
    pub trabajo_min: i64,
    /// Es hoy y aún no hay corte Z.
    pub en_curso: bool,
}

/// Rango en minutos de un bloque: (inicio, fin) con el fin extendido
/// +24h si el turno cruza la medianoche.
pub open spec fn rango_bloque(hi: Seq<char>, hf: Seq<char>) -> (int, int) {
    let ini = spec_mins(hi);
    let fin = spec_mins(hf);
    (ini, if fin <= ini {
        fin + 1440
    } else {
        fin
    })
}

pub open spec fn bloque_sin_desborde(hi: Seq<char>, hf: Seq<char>) -> bool {
    &&& mins_sin_desborde(hi)
    &&& mins_sin_desborde(hf)
    &&& cabe_i64(spec_mins(hf) + 1440)
    &&& cabe_i64(rango_bloque(hi, hf).1 - rango_bloque(hi, hf).0)
}

/// Minutos de un bloque "HH:MM"-"HH:MM" (con el cruce de medianoche).
pub fn rango_de_bloque(hora_inicio: &str, hora_fin: &str) -> (r: (i64, i64))
    requires
        bloque_sin_desborde(hora_inicio@, hora_fin@),
    ensures
        (r.0 as int, r.1 as int) == rango_bloque(hora_inicio@, hora_fin@),
{
    let ini = mins_hhmm(hora_inicio);
    let mut fin = mins_hhmm(hora_fin);
    if fin <= ini {
        fin = fin + MINUTOS_DIA;
    }
    (ini, fin)
}

/// Minutos que dura un bloque (lo que suma a las horas del día).
pub fn minutos_de_bloque(hora_inicio: &str, hora_fin: &str) -> (r: i64)
    requires
        bloque_sin_desborde(hora_inicio@, hora_fin@),
    ensures
        r == rango_bloque(hora_inicio@, hora_fin@).1 - rango_bloque(hora_inicio@, hora_fin@).0,
{
    let (ini, fin) = rango_de_bloque(hora_inicio, hora_fin);
    fin - ini
}

/// Rangos de los bloques que aplican el día `dia`, en su orden.
pub open spec fn spec_bloques_del_dia(bs: Seq<BloqueHorario>, dia: i32) -> Seq<(int, int)>
    decreases bs.len(),
{
    if bs.len() == 0 {
        Seq::empty()
    } else {
        let previos = spec_bloques_del_dia(bs.drop_last(), dia);
        let b = bs.last();
        if spec_dias_incluye(b.dias@, dia) {
            previos.push(rango_bloque(b.hora_inicio@, b.hora_fin@))
        } else {
            previos
        }
    }
}

pub open spec fn bloques_sin_desborde(bs: Seq<BloqueHorario>) -> bool {
    forall|i: int|
        0 <= i < bs.len() ==> bloque_sin_desborde(#[trigger] bs[i].hora_inicio@, bs[i].hora_fin@)
}

/// Rangos en minutos de los bloques del día `dia` (L=0..D=6).
pub fn bloques_del_dia(bloques: &Vec<BloqueHorario>, dia: i32) -> (r: Vec<(i64, i64)>)
    requires
        bloques_sin_desborde(bloques@),
    ensures
        r@.len() == spec_bloques_del_dia(bloques@, dia).len(),
        forall|i: int|
            0 <= i < r@.len() ==> (#[trigger] r@[i].0 as int, r@[i].1 as int)
                == spec_bloques_del_dia(bloques@, dia)[i],
{
    let mut out: Vec<(i64, i64)> = Vec::new();
    let mut k: usize = 0;
    while k < bloques.len()
        invariant
            k <= bloques.len(),
            bloques_sin_desborde(bloques@),
            out@.len() == spec_bloques_del_dia(bloques@.subrange(0, k as int), dia).len(),
            forall|i: int|
                0 <= i < out@.len() ==> (#[trigger] out@[i].0 as int, out@[i].1 as int)
                    == spec_bloques_del_dia(bloques@.subrange(0, k as int), dia)[i],
        decreases bloques.len() - k,
    {
        let b = &bloques[k];
        assert(bloques@.subrange(0, k + 1).drop_last() =~= bloques@.subrange(0, k as int));
        assert(bloque_sin_desborde(bloques@[k as int].hora_inicio@, bloques@[k as int].hora_fin@));
        if dias_incluye(b.dias.as_str(), dia) {
            let rango = rango_de_bloque(b.hora_inicio.as_str(), b.hora_fin.as_str());
            out.push(rango);
        }
        k = k + 1;
    }
    assert(bloques@.subrange(0, bloques@.len() as int) =~= bloques@);
    out
}

/// El bloque más largo; entre empatados, el último (como `max_by_key`).
pub open spec fn mejor_bloque(bs: Seq<(int, int)>) -> (int, int)
    decreases bs.len(),
{
    if bs.len() <= 1 {
        bs[0]
    } else {
        let m = mejor_bloque(bs.drop_last());
        let x = bs.last();
        if x.1 - x.0 >= m.1 - m.0 {
            x
        } else {
            m
        }
    }
}

/// Resultado de un día: (extra previo, extra posterior, bloque, entrada,
/// salida), o nada si el día no tiene bloques o no hubo extra.
pub open spec fn spec_extras_del_dia(pl: Seq<char>, ul: Seq<char>, bs: Seq<(int, int)>) -> Option<
    (int, int, int, int, int, int),
> {
    let entrada = spec_mins(pl);
    let salida = max_i(spec_mins(ul), entrada);
    if bs.len() == 0 {
        None
    } else {
        let (ini, fin) = mejor_bloque(bs);
        let (pre, post) = spec_extras(entrada, salida, ini, fin);
        if pre + post <= 0 {
            None
        } else {
            Some((pre, post, ini, fin, entrada, salida))
        }
    }
}

pub open spec fn dia_sin_desborde(pl: Seq<char>, ul: Seq<char>, ini: int, fin: int) -> bool {
    let entrada = spec_mins(pl);
    let salida = max_i(spec_mins(ul), entrada);
    &&& mins_sin_desborde(pl)
    &&& mins_sin_desborde(ul)
    &&& extras_sin_desborde(entrada, salida, ini, fin)
    &&& cabe_i64(spec_extras(entrada, salida, ini, fin).0 + spec_extras(entrada, salida, ini, fin).1)
    &&& cabe_i64(salida - entrada)
}

proof fn lema_mejor_en(bs: Seq<(int, int)>)
    requires
        bs.len() >= 1,
    ensures
        exists|i: int| 0 <= i < bs.len() && bs[i] == mejor_bloque(bs),
    decreases bs.len(),
{
    if bs.len() > 1 {
        lema_mejor_en(bs.drop_last());
        let i = choose|i: int| 0 <= i < bs.drop_last().len() && bs.drop_last()[i] == mejor_bloque(bs.drop_last());
        assert(bs[i] == bs.drop_last()[i]);
        assert(bs[bs.len() - 1] == bs.last());
    } else {
        assert(bs[0] == mejor_bloque(bs));
    }
}

/// El bloque más largo está en la lista, ninguno lo supera y los que
/// vienen después son más cortos.
proof fn lema_mejor_es_el_mas_largo(bs: Seq<(int, int)>) -> (i: int)
    requires
        bs.len() >= 1,
    ensures
        0 <= i < bs.len(),
        bs[i] == mejor_bloque(bs),
        forall|j: int| 0 <= j < bs.len() ==> #[trigger] bs[j].1 - bs[j].0 <= bs[i].1 - bs[i].0,
        forall|j: int| i < j < bs.len() ==> #[trigger] bs[j].1 - bs[j].0 < bs[i].1 - bs[i].0,
    decreases bs.len(),
{
    if bs.len() == 1 {
        0
    } else {
        let p = bs.drop_last();
        let ip = lema_mejor_es_el_mas_largo(p);
        let n = bs.len() - 1;
        assert forall|j: int| 0 <= j < n implies bs[j] == p[j] by {}
        let x = bs[n];
        assert(x == bs.last());
        if x.1 - x.0 >= p[ip].1 - p[ip].0 {
            assert forall|j: int| 0 <= j < bs.len() implies #[trigger] bs[j].1 - bs[j].0 <= bs[n].1 - bs[n].0 by {
                if j < n {
                    assert(bs[j] == p[j]);
                }
            }
            n
        } else {
            assert forall|j: int| 0 <= j < bs.len() implies #[trigger] bs[j].1 - bs[j].0 <= bs[ip].1 - bs[ip].0 by {
                if j < n {
                    assert(bs[j] == p[j]);
                }
            }
            assert forall|j: int| ip < j < bs.len() implies #[trigger] bs[j].1 - bs[j].0 < bs[ip].1 - bs[ip].0 by {
                if j < n {
                    assert(bs[j] == p[j]);
                }
            }
            ip
        }
    }
}

/// El horario oficial de un día con varios bloques es el bloque más
/// largo: está entre los bloques del día, ninguno dura más y, entre los
/// que duran lo mismo, es el último. Las extras se miden contra él.
pub proof fn ley_bloque_oficial_es_el_mas_largo(pl: Seq<char>, ul: Seq<char>, bs: Seq<(int, int)>)
    ensures
        spec_extras_del_dia(pl, ul, bs) matches Some(x) ==> exists|i: int|
            0 <= i < bs.len() && #[trigger] bs[i] == (x.2, x.3) && (forall|j: int|
                0 <= j < bs.len() ==> #[trigger] bs[j].1 - bs[j].0 <= x.3 - x.2) && (forall|j: int|
                i < j < bs.len() ==> #[trigger] bs[j].1 - bs[j].0 < x.3 - x.2),
        spec_extras_del_dia(pl, ul, bs) matches Some(x) ==> (x.0, x.1) == spec_extras(x.4, x.5, x.2, x.3),
{
    if bs.len() >= 1 {
        let i = lema_mejor_es_el_mas_largo(bs);
        if spec_extras_del_dia(pl, ul, bs) is Some {
            let x = spec_extras_del_dia(pl, ul, bs)->Some_0;
            assert(bs[i] == (x.2, x.3));
        }
    }
}

/// Extras de un día contra sus bloques (ver el módulo); nada si no hubo.
pub fn extras_del_dia(pl: &str, ul: &str, bs: &Vec<(i64, i64)>) -> (r: Option<(i64, i64, i64, i64, i64, i64)>)
    requires
        forall|i: int| 0 <= i < bs@.len() ==> cabe_i64(#[trigger] bs@[i].1 - bs@[i].0),
        forall|i: int|
            0 <= i < bs@.len() ==> dia_sin_desborde(pl@, ul@, #[trigger] bs@[i].0 as int, bs@[i].1 as int),
    ensures
        match spec_extras_del_dia(
            pl@,
            ul@,
            Seq::new(bs@.len(), |i: int| (bs@[i].0 as int, bs@[i].1 as int)),
        ) {
            None => r is None,
            Some(x) => r matches Some(y) && x == (
                y.0 as int,
                y.1 as int,
                y.2 as int,
                y.3 as int,
                y.4 as int,
                y.5 as int,
            ),
        },
{
    let ghost vista = Seq::new(bs@.len(), |i: int| (bs@[i].0 as int, bs@[i].1 as int));
    if bs.len() == 0 {
        return None;
    }
    assert(dia_sin_desborde(pl@, ul@, bs@[0].0 as int, bs@[0].1 as int));
    let entrada = mins_hhmm(pl);
    let u = mins_hhmm(ul);
    let salida = if u >= entrada {
        u
    } else {
        entrada
    };
    let mut mejor = bs[0];
    let mut k: usize = 1;
    while k < bs.len()
        invariant
            1 <= k <= bs.len(),
            vista == Seq::new(bs@.len(), |i: int| (bs@[i].0 as int, bs@[i].1 as int)),
            forall|i: int| 0 <= i < bs@.len() ==> cabe_i64(#[trigger] bs@[i].1 - bs@[i].0),
            (mejor.0 as int, mejor.1 as int) == mejor_bloque(vista.subrange(0, k as int)),
        decreases bs.len() - k,
    {
        let x = bs[k];
        assert(cabe_i64(bs@[k as int].1 - bs@[k as int].0));
        proof {
            lema_mejor_en(vista.subrange(0, k as int));
            let j = choose|j: int| 0 <= j < k && vista.subrange(0, k as int)[j] == mejor_bloque(vista.subrange(0, k as int));
            assert(cabe_i64(bs@[j].1 - bs@[j].0));
            assert(vista.subrange(0, k + 1).drop_last() =~= vista.subrange(0, k as int));
        }
        if x.1 - x.0 >= mejor.1 - mejor.0 {
            mejor = x;
        }
        k = k + 1;
    }
    assert(vista.subrange(0, bs@.len() as int) =~= vista);
    proof {
        lema_mejor_en(vista);
        let j = choose|j: int| 0 <= j < vista.len() && vista[j] == mejor_bloque(vista);
        assert(dia_sin_desborde(pl@, ul@, bs@[j].0 as int, bs@[j].1 as int));
    }
    let (pre, post) = calcular_extras(entrada, salida, mejor.0, mejor.1);
    if pre + post <= 0 {
        None
    } else {
        Some((pre, post, mejor.0, mejor.1, entrada, salida))
    }
}

/// Día de la semana (0 = lunes ... 6 = domingo) de una fecha
/// "YYYY-MM-DD", si es una fecha válida.
pub uninterp spec fn dia_semana_fecha(fecha: Seq<char>) -> Option<u32>;

/// `chrono::NaiveDate::parse_from_str(fecha, "%Y-%m-%d")` y, si la fecha
/// es válida, `weekday().num_days_from_monday()`. El contrato dice que el
/// resultado solo depende del texto y que el día va de 0 a 6; qué fechas
/// acepta chrono no se enuncia aquí.
#[verifier::external_body]
fn dia_semana(fecha: &str) -> (r: Option<u32>)
    ensures
        r == dia_semana_fecha(fecha@),
        r matches Some(d) ==> d <= 6,
{
    match chrono::NaiveDate::parse_from_str(fecha, "%Y-%m-%d") {
        Ok(d) => Some(d.weekday().num_days_from_monday()),
        Err(_) => None,
    }
}

/// Lo que se espera de un día con extra ya calculado.
pub open spec fn dia_extra_es(
    d: DiaExtra,
    a: Asistencia,
    wd: u32,
    x: (int, int, int, int, int, int),
    en_curso: bool,
) -> bool {
    &&& d.fecha@ == a.fecha@
    &&& d.dia_label@ == spec_etiqueta_dia(wd)
    &&& d.primer_login@ == a.primer_login@
    &&& d.ultimo_login@ == a.ultimo_login@
    &&& d.entrada_oficial@ == spec_fmt_hhmm(x.2)
    &&& d.salida_oficial@ == spec_fmt_hhmm(x.3)
    &&& d.extra_pre_min == x.0
    &&& d.extra_post_min == x.1
    &&& d.trabajo_min == x.5 - x.4
    &&& d.en_curso == en_curso
}

/// Días con extra de un historial: (asistencia, día de la semana,
/// resultado del día, en curso), en el orden del historial.
pub open spec fn spec_historial(
    asis: Seq<Asistencia>,
    bloques: Seq<BloqueHorario>,
    hoy: Seq<char>,
    hay_z_hoy: bool,
) -> Seq<(Asistencia, u32, (int, int, int, int, int, int), bool)>
    decreases asis.len(),
{
    if asis.len() == 0 {
        Seq::empty()
    } else {
        let previos = spec_historial(asis.drop_last(), bloques, hoy, hay_z_hoy);
        let a = asis.last();
        match dia_semana_fecha(a.fecha@) {
            None => previos,
            Some(wd) => match spec_extras_del_dia(
                a.primer_login@,
                a.ultimo_login@,
                spec_bloques_del_dia(bloques, wd as i32),
            ) {
                None => previos,
                Some(x) => previos.push((a, wd, x, a.fecha@ == hoy && !hay_z_hoy)),
            },
        }
    }
}

pub open spec fn historial_sin_desborde(asis: Seq<Asistencia>, bloques: Seq<BloqueHorario>) -> bool {
    &&& bloques_sin_desborde(bloques)
    &&& forall|i: int, j: int|
        0 <= i < asis.len() && 0 <= j < bloques.len() ==> dia_sin_desborde(
            #[trigger] asis[i].primer_login@,
            asis[i].ultimo_login@,
            rango_bloque(#[trigger] bloques[j].hora_inicio@, bloques[j].hora_fin@).0,
            rango_bloque(bloques[j].hora_inicio@, bloques[j].hora_fin@).1,
        )
}

proof fn lema_bloques_del_dia_de(bloques: Seq<BloqueHorario>, dia: i32, i: int)
    requires
        0 <= i < spec_bloques_del_dia(bloques, dia).len(),
    ensures
        exists|j: int|
            0 <= j < bloques.len() && #[trigger] spec_bloques_del_dia(bloques, dia)[i] == rango_bloque(
                bloques[j].hora_inicio@,
                bloques[j].hora_fin@,
            ),
    decreases bloques.len(),
{
    let previos = spec_bloques_del_dia(bloques.drop_last(), dia);
    if i < previos.len() {
        lema_bloques_del_dia_de(bloques.drop_last(), dia, i);
        let j = choose|j: int|
            0 <= j < bloques.drop_last().len() && #[trigger] spec_bloques_del_dia(
                bloques.drop_last(),
                dia,
            )[i] == rango_bloque(
                bloques.drop_last()[j].hora_inicio@,
                bloques.drop_last()[j].hora_fin@,
            );
        assert(bloques[j] == bloques.drop_last()[j]);
    } else {
        assert(bloques[bloques.len() - 1] == bloques.last());
    }
}

/// Historial de horas extra: por cada día con asistencia (en su orden) se
/// toma su día de la semana, los bloques de ese día y el más largo de ellos,
/// y se calculan las extras; solo quedan los días con extra. `hay_z_hoy`
/// dice si el empleado ya cerró un corte Z con fecha `hoy`.
pub fn historial_horas_extra(
    asistencias: &Vec<Asistencia>,
    bloques: &Vec<BloqueHorario>,
    hoy: &str,
    hay_z_hoy: bool,
) -> (r: Vec<DiaExtra>)
    requires
        historial_sin_desborde(asistencias@, bloques@),
    ensures
        r@.len() == spec_historial(asistencias@, bloques@, hoy@, hay_z_hoy).len(),
        forall|i: int|
            0 <= i < r@.len() ==> {
                let e = #[trigger] spec_historial(asistencias@, bloques@, hoy@, hay_z_hoy)[i];
                dia_extra_es(r@[i], e.0, e.1, e.2, e.3)
            },
{
    let hoy_v = chars_de(hoy);
    let mut out: Vec<DiaExtra> = Vec::new();
    let mut k: usize = 0;
    while k < asistencias.len()
        invariant
            k <= asistencias.len(),
            hoy_v@ == hoy@,
            historial_sin_desborde(asistencias@, bloques@),
            out@.len() == spec_historial(asistencias@.subrange(0, k as int), bloques@, hoy@, hay_z_hoy).len(),
            forall|i: int|
                0 <= i < out@.len() ==> {
                    let e = #[trigger] spec_historial(
                        asistencias@.subrange(0, k as int),
                        bloques@,
                        hoy@,
                        hay_z_hoy,
                    )[i];
                    dia_extra_es(out@[i], e.0, e.1, e.2, e.3)
                },
        decreases asistencias.len() - k,
    {
        let a = &asistencias[k];
        let ghost previa = asistencias@.subrange(0, k as int);
        assert(asistencias@.subrange(0, k + 1).drop_last() =~= previa);
        assert(asistencias@.subrange(0, k + 1).last() == asistencias@[k as int]);
        if let Some(wd) = dia_semana(a.fecha.as_str()) {
            let bs = bloques_del_dia(bloques, wd as i32);
            proof {
                assert forall|i: int| 0 <= i < bs@.len() implies cabe_i64(#[trigger] bs@[i].1 - bs@[i].0)
                    && dia_sin_desborde(
                    a.primer_login@,
                    a.ultimo_login@,
                    bs@[i].0 as int,
                    bs@[i].1 as int,
                ) by {
                    lema_bloques_del_dia_de(bloques@, wd as i32, i);
                    let j = choose|j: int|
                        0 <= j < bloques@.len() && #[trigger] spec_bloques_del_dia(bloques@, wd as i32)[i]
                            == rango_bloque(bloques@[j].hora_inicio@, bloques@[j].hora_fin@);
                    assert(bloque_sin_desborde(bloques@[j].hora_inicio@, bloques@[j].hora_fin@));
                    assert(dia_sin_desborde(
                        asistencias@[k as int].primer_login@,
                        asistencias@[k as int].ultimo_login@,
                        rango_bloque(bloques@[j].hora_inicio@, bloques@[j].hora_fin@).0,
                        rango_bloque(bloques@[j].hora_inicio@, bloques@[j].hora_fin@).1,
                    ));
                }
                assert(Seq::new(bs@.len(), |i: int| (bs@[i].0 as int, bs@[i].1 as int))
                    =~= spec_bloques_del_dia(bloques@, wd as i32));
            }
            if let Some(x) = extras_del_dia(a.primer_login.as_str(), a.ultimo_login.as_str(), &bs) {
                let fecha_v = chars_de(a.fecha.as_str());
                let en_curso = crate::texto::iguales(&fecha_v, &hoy_v) && !hay_z_hoy;
                let d = DiaExtra {
                    fecha: a.fecha.clone(),
                    dia_label: dia_label_es(wd).to_owned(),
                    primer_login: a.primer_login.clone(),
                    ultimo_login: a.ultimo_login.clone(),
                    entrada_oficial: fmt_hhmm(x.2),
                    salida_oficial: fmt_hhmm(x.3),
                    extra_pre_min: x.0,
                    extra_post_min: x.1,
                    trabajo_min: x.5 - x.4,
                    en_curso,
                };
                out.push(d);
            }
        }
        k = k + 1;
    }
    assert(asistencias@.subrange(0, asistencias@.len() as int) =~= asistencias@);
    out
}

/// ¿Hoy es laborable y qué bloques aplican? (para "mi turno").
pub fn bloques_de_hoy(bloques: &Vec<BloqueHorario>, hoy: i32) -> (r: Vec<BloqueHoy>)
    ensures
        r@.len() == spec_bloques_hoy(bloques@, hoy).len(),
        forall|i: int|
            #![trigger r@[i]]
            0 <= i < r@.len() ==> r@[i].hora_inicio@ == spec_bloques_hoy(bloques@, hoy)[i].hora_inicio@
                && r@[i].hora_fin@ == spec_bloques_hoy(bloques@, hoy)[i].hora_fin@,
{
    let mut out: Vec<BloqueHoy> = Vec::new();
    let mut k: usize = 0;
    while k < bloques.len()
        invariant
            k <= bloques.len(),
            out@.len() == spec_bloques_hoy(bloques@.subrange(0, k as int), hoy).len(),
            forall|i: int|
                #![trigger out@[i]]
                0 <= i < out@.len() ==> out@[i].hora_inicio@ == spec_bloques_hoy(
                    bloques@.subrange(0, k as int),
                    hoy,
                )[i].hora_inicio@ && out@[i].hora_fin@ == spec_bloques_hoy(
                    bloques@.subrange(0, k as int),
                    hoy,
                )[i].hora_fin@,
        decreases bloques.len() - k,
    {
        let b = &bloques[k];
        assert(bloques@.subrange(0, k + 1).drop_last() =~= bloques@.subrange(0, k as int));
        assert(bloques@.subrange(0, k + 1).last() == bloques@[k as int]);
        if dias_incluye(b.dias.as_str(), hoy) {
            out.push(BloqueHoy { hora_inicio: b.hora_inicio.clone(), hora_fin: b.hora_fin.clone() });
        }
        k = k + 1;
    }
    assert(bloques@.subrange(0, bloques@.len() as int) =~= bloques@);
    out
}

/// Los bloques (en su orden) cuyos días incluyen `hoy`.
pub open spec fn spec_bloques_hoy(bs: Seq<BloqueHorario>, hoy: i32) -> Seq<BloqueHorario>
    decreases bs.len(),
{
    if bs.len() == 0 {
        Seq::empty()
    } else {
        let previos = spec_bloques_hoy(bs.drop_last(), hoy);
        if spec_dias_incluye(bs.last().dias@, hoy) {
            previos.push(bs.last())
        } else {
            previos
        }
    }
}


/// Minutos que suman los bloques de hoy (las horas del día del turno).
pub open spec fn suma_minutos(bs: Seq<BloqueHoy>) -> int
    decreases bs.len(),
{
    if bs.len() == 0 {
        0
    } else {
        let b = bs.last();
        suma_minutos(bs.drop_last()) + rango_bloque(b.hora_inicio@, b.hora_fin@).1 - rango_bloque(
            b.hora_inicio@,
            b.hora_fin@,
        ).0
    }
}

/// Cada bloque se lee sin desborde y cada suma parcial cabe en `i64`.
pub open spec fn turno_sin_desborde(bs: Seq<BloqueHoy>) -> bool {
    &&& forall|i: int|
        0 <= i < bs.len() ==> bloque_sin_desborde(#[trigger] bs[i].hora_inicio@, bs[i].hora_fin@)
    &&& forall|k: int| 0 <= k <= bs.len() ==> cabe_i64(#[trigger] suma_minutos(bs.take(k)))
}

/// Minutos de trabajo de hoy según sus bloques (turnos nocturnos con el
/// cruce de medianoche); la pantalla los muestra en horas.
pub fn minutos_de_turno(bloques: &Vec<BloqueHoy>) -> (r: i64)
    requires
        turno_sin_desborde(bloques@),
    ensures
        r == suma_minutos(bloques@),
{
    let mut total: i64 = 0;
    let mut k: usize = 0;
    while k < bloques.len()
        invariant
            k <= bloques.len(),
            turno_sin_desborde(bloques@),
            total == suma_minutos(bloques@.take(k as int)),
        decreases bloques.len() - k,
    {
        let b = &bloques[k];
        assert(bloques@.take(k + 1).drop_last() =~= bloques@.take(k as int));
        assert(bloques@.take(k + 1).last() == bloques@[k as int]);
        assert(cabe_i64(suma_minutos(bloques@.take(k + 1))));
        let m = minutos_de_bloque(b.hora_inicio.as_str(), b.hora_fin.as_str());
        total = total + m;
        k = k + 1;
    }
    assert(bloques@.take(bloques@.len() as int) =~= bloques@);
    total
}

} // verus!
