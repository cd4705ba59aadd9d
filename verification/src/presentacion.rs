//! Presentación canónica del semáforo verde ("600 ml", "0.6L", "1kg"...).
//!
//! Se escanea a mano número + unidad sobre el texto ya normalizado. La
//! ÚLTIMA presentación del texto es la que manda. Las cantidades se
//! llevan exactas, en millonésimas de la unidad base (ml, g o pzs), así
//! `0.6l` y `600ml` son la misma cantidad sin decimales traicioneros.

use vstd::prelude::*;
use crate::texto::{
    anexar, chars_de, es_digito_ascii, es_letra_ascii, es_texto, lema_sin_espacios_fin,
    lema_sin_espacios_inicio, minus_ascii, minus_ascii_exec, recortado, recortar_espacios,
    recortar_fin, recortar_inicio, sin_espacios_fin, sin_espacios_inicio, string_de, subrango,
};

verus! {

/// Unidad base de una presentación.
#[derive(Debug, Clone, Copy, PartialEq, Eq, Structural)]
pub enum UnidadBase {
    Ml,
    G,
    Pzs,
}

/// Presentación en unidades base; `cantidad_millonesimas` es la cantidad
/// multiplicada por un millón (exacta hasta la sexta decimal).
#[derive(Debug, Clone, Copy, PartialEq, Eq, Structural)]
pub struct Presentacion {
    pub cantidad_millonesimas: u128,
    pub unidad_base: UnidadBase,
}

/// Unidad canónica de un alias (ya en minúsculas), si es conocido.
pub open spec fn unidad_canonica(u: Seq<char>) -> Option<Seq<char>> {
    if u == "ml"@ || u == "mililitro"@ || u == "mililitros"@ {
        Some("ml"@)
    } else if u == "l"@ || u == "lt"@ || u == "lts"@ || u == "litro"@ || u == "litros"@ {
        Some("l"@)
    } else if u == "g"@ || u == "gr"@ || u == "grs"@ || u == "gramo"@ || u == "gramos"@ {
        Some("g"@)
    } else if u == "kg"@ || u == "kgs"@ || u == "kilo"@ || u == "kilos"@ || u == "kilogramo"@
        || u == "kilogramos"@ {
        Some("kg"@)
    } else if u == "pzs"@ || u == "pz"@ || u == "pza"@ || u == "pzas"@ || u == "pieza"@
        || u == "piezas"@ || u == "p"@ {
        Some("pzs"@)
    } else {
        None
    }
}

fn unidad_de_chars(u: &Vec<char>) -> (r: Option<&'static str>)
    ensures
        match r {
            Some(c) => unidad_canonica(u@) == Some(c@),
            None => unidad_canonica(u@) is None,
        },
{
    if es_texto(u, "ml") || es_texto(u, "mililitro") || es_texto(u, "mililitros") {
        Some("ml")
    } else if es_texto(u, "l") || es_texto(u, "lt") || es_texto(u, "lts") || es_texto(u, "litro")
        || es_texto(u, "litros") {
        Some("l")
    } else if es_texto(u, "g") || es_texto(u, "gr") || es_texto(u, "grs") || es_texto(u, "gramo")
        || es_texto(u, "gramos") {
        Some("g")
    } else if es_texto(u, "kg") || es_texto(u, "kgs") || es_texto(u, "kilo") || es_texto(
        u,
        "kilos",
    ) || es_texto(u, "kilogramo") || es_texto(u, "kilogramos") {
        Some("kg")
    } else if es_texto(u, "pzs") || es_texto(u, "pz") || es_texto(u, "pza") || es_texto(u, "pzas")
        || es_texto(u, "pieza") || es_texto(u, "piezas") || es_texto(u, "p") {
        Some("pzs")
    } else {
        None
    }
}

/// Mapea una unidad cruda (ya en minúsculas) a la canónica del catálogo
/// cerrado (`ml`, `l`, `g`, `kg`, `pzs`); `None` si no se conoce.
pub fn normalizar_unidad(raw: &str) -> (r: Option<&'static str>)
    ensures
        match r {
            Some(c) => unidad_canonica(raw@) == Some(c@),
            None => unidad_canonica(raw@) is None,
        },
{
    let v = chars_de(raw);
    unidad_de_chars(&v)
}

pub open spec fn es_sep_decimal(c: char) -> bool {
    c == '.' || c == ','
}

/// Fin del número que empieza en `j`: dígitos con a lo más un separador.
pub open spec fn fin_numero(t: Seq<char>, j: int, sep: bool) -> int
    decreases t.len() - j,
{
    if 0 <= j < t.len() && (es_digito_ascii(t[j]) || (!sep && es_sep_decimal(t[j]))) {
        fin_numero(t, j + 1, sep || es_sep_decimal(t[j]))
    } else {
        j
    }
}

pub open spec fn saltar_blancos(t: Seq<char>, k: int) -> int
    decreases t.len() - k,
{
    if 0 <= k < t.len() && t[k] == ' ' {
        saltar_blancos(t, k + 1)
    } else {
        k
    }
}

pub open spec fn fin_letras(t: Seq<char>, k: int) -> int
    decreases t.len() - k,
{
    if 0 <= k < t.len() && es_letra_ascii(t[k]) {
        fin_letras(t, k + 1)
    } else {
        k
    }
}

pub proof fn lema_fin_numero(t: Seq<char>, j: int, sep: bool)
    requires
        0 <= j <= t.len(),
    ensures
        j <= fin_numero(t, j, sep) <= t.len(),
        j < t.len() && es_digito_ascii(t[j]) ==> j < fin_numero(t, j, sep),
    decreases t.len() - j,
{
    if 0 <= j < t.len() && (es_digito_ascii(t[j]) || (!sep && es_sep_decimal(t[j]))) {
        lema_fin_numero(t, j + 1, sep || es_sep_decimal(t[j]));
    }
}

pub proof fn lema_saltar_blancos(t: Seq<char>, k: int)
    requires
        0 <= k <= t.len(),
    ensures
        k <= saltar_blancos(t, k) <= t.len(),
    decreases t.len() - k,
{
    if 0 <= k < t.len() && t[k] == ' ' {
        lema_saltar_blancos(t, k + 1);
    }
}

pub proof fn lema_fin_letras(t: Seq<char>, k: int)
    requires
        0 <= k <= t.len(),
    ensures
        k <= fin_letras(t, k) <= t.len(),
    decreases t.len() - k,
{
    if 0 <= k < t.len() && es_letra_ascii(t[k]) {
        lema_fin_letras(t, k + 1);
    }
}

pub open spec fn minusculas(s: Seq<char>) -> Seq<char> {
    s.map_values(|c: char| minus_ascii(c))
}

/// Posiciones de una presentación hallada: inicio del número, fin del
/// número, inicio y fin de la unidad.
pub struct Tramo {
    pub ini: int,
    pub fin_num: int,
    pub ini_u: int,
    pub fin: int,
}

/// El escaneo de izquierda a derecha desde `i`, con `prev` como la última
/// presentación vista hasta ahí.
pub open spec fn ultima_desde(t: Seq<char>, i: int, prev: Option<Tramo>) -> Option<Tramo>
    decreases t.len() - i,
{
    if i < 0 || i >= t.len() {
        prev
    } else if !es_digito_ascii(t[i]) {
        ultima_desde(t, i + 1, prev)
    } else {
        let j = fin_numero(t, i, false);
        let u = saltar_blancos(t, j);
        let k = fin_letras(t, u);
        proof {
            lema_fin_numero(t, i, false);
            lema_saltar_blancos(t, j);
            lema_fin_letras(t, u);
        }
        if u == k {
            ultima_desde(t, j, prev)
        } else {
            let nuevo = if unidad_canonica(minusculas(t.subrange(u, k))) is Some {
                Some(Tramo { ini: i, fin_num: j, ini_u: u, fin: k })
            } else {
                prev
            };
            ultima_desde(t, k, nuevo)
        }
    }
}

/// La última presentación (número + unidad conocida) del texto.
pub open spec fn ultima_presentacion(t: Seq<char>) -> Option<Tramo> {
    ultima_desde(t, 0, None)
}

pub open spec fn tramo_valido(t: Seq<char>, r: Option<Tramo>) -> bool {
    match r {
        None => true,
        Some(x) => 0 <= x.ini < x.fin_num <= x.ini_u < x.fin <= t.len(),
    }
}

proof fn lema_ultima_valida(t: Seq<char>, i: int, prev: Option<Tramo>)
    requires
        tramo_valido(t, prev),
    ensures
        tramo_valido(t, ultima_desde(t, i, prev)),
    decreases t.len() - i,
{
    if i < 0 || i >= t.len() {
    } else if !es_digito_ascii(t[i]) {
        lema_ultima_valida(t, i + 1, prev);
    } else {
        let j = fin_numero(t, i, false);
        let u = saltar_blancos(t, j);
        let k = fin_letras(t, u);
        lema_fin_numero(t, i, false);
        lema_saltar_blancos(t, j);
        lema_fin_letras(t, u);
        if u == k {
            lema_ultima_valida(t, j, prev);
        } else {
            let nuevo = if unidad_canonica(minusculas(t.subrange(u, k))) is Some {
                Some(Tramo { ini: i, fin_num: j, ini_u: u, fin: k })
            } else {
                prev
            };
            lema_ultima_valida(t, k, nuevo);
        }
    }
}

/// Tramo ejecutable (posiciones en caracteres).
struct TramoExec {
    ini: usize,
    fin_num: usize,
    ini_u: usize,
    fin: usize,
}

spec fn vista_tramo(o: Option<TramoExec>) -> Option<Tramo> {
    match o {
        None => None,
        Some(x) => Some(
            Tramo { ini: x.ini as int, fin_num: x.fin_num as int, ini_u: x.ini_u as int, fin: x.fin as int },
        ),
    }
}

fn fin_numero_exec(t: &Vec<char>, j0: usize) -> (j: usize)
    requires
        j0 <= t.len(),
    ensures
        j == fin_numero(t@, j0 as int, false),
{
    let mut j = j0;
    let mut sep = false;
    while j < t.len() && (('0' <= t[j] && t[j] <= '9') || (!sep && (t[j] == '.' || t[j] == ',')))
        invariant
            j0 <= j <= t.len(),
            fin_numero(t@, j as int, sep) == fin_numero(t@, j0 as int, false),
        decreases t.len() - j,
    {
        if t[j] == '.' || t[j] == ',' {
            sep = true;
        }
        j = j + 1;
    }
    j
}

fn saltar_blancos_exec(t: &Vec<char>, k0: usize) -> (k: usize)
    requires
        k0 <= t.len(),
    ensures
        k == saltar_blancos(t@, k0 as int),
{
    let mut k = k0;
    while k < t.len() && t[k] == ' '
        invariant
            k0 <= k <= t.len(),
            saltar_blancos(t@, k as int) == saltar_blancos(t@, k0 as int),
        decreases t.len() - k,
    {
        k = k + 1;
    }
    k
}

fn fin_letras_exec(t: &Vec<char>, k0: usize) -> (k: usize)
    requires
        k0 <= t.len(),
    ensures
        k == fin_letras(t@, k0 as int),
{
    let mut k = k0;
    while k < t.len() && (('a' <= t[k] && t[k] <= 'z') || ('A' <= t[k] && t[k] <= 'Z'))
        invariant
            k0 <= k <= t.len(),
            fin_letras(t@, k as int) == fin_letras(t@, k0 as int),
        decreases t.len() - k,
    {
        k = k + 1;
    }
    k
}

/// El texto recortado y en minúsculas ASCII (`trim` + `to_ascii_lowercase`).
pub fn minusculas_recortadas(s: &str) -> (r: String)
    ensures
        r@ == minusculas(recortado(s@)),
{
    let v = chars_de(s);
    let t = recortar_espacios(&v);
    string_de(&minusculas_exec(&t))
}

fn minusculas_exec(v: &Vec<char>) -> (r: Vec<char>)
    ensures
        r@ == minusculas(v@),
{
    let mut r: Vec<char> = Vec::new();
    let mut i: usize = 0;
    while i < v.len()
        invariant
            i <= v.len(),
            r@ == minusculas(v@.subrange(0, i as int)),
        decreases v.len() - i,
    {
        r.push(minus_ascii_exec(v[i]));
        i = i + 1;
        assert(r@ =~= minusculas(v@.subrange(0, i as int)));
    }
    assert(v@.subrange(0, v@.len() as int) =~= v@);
    r
}

fn ultima_presentacion_span(t: &Vec<char>) -> (r: Option<TramoExec>)
    ensures
        vista_tramo(r) == ultima_presentacion(t@),
        tramo_valido(t@, vista_tramo(r)),
{
    let mut i: usize = 0;
    let mut ultima: Option<TramoExec> = None;
    proof {
        lema_ultima_valida(t@, 0, None);
    }
    while i < t.len()
        invariant
            i <= t.len(),
            ultima_desde(t@, i as int, vista_tramo(ultima)) == ultima_presentacion(t@),
            tramo_valido(t@, vista_tramo(ultima)),
        decreases t.len() - i,
    {
        if !('0' <= t[i] && t[i] <= '9') {
            i = i + 1;
        } else {
            let ini = i;
            let j = fin_numero_exec(t, i);
            proof {
                lema_fin_numero(t@, i as int, false);
            }
            let k0 = saltar_blancos_exec(t, j);
            proof {
                lema_saltar_blancos(t@, j as int);
            }
            let k = fin_letras_exec(t, k0);
            proof {
                lema_fin_letras(t@, k0 as int);
            }
            if k0 == k {
                i = j;
            } else {
                let unidad = subrango(t, k0, k);
                let baja = minusculas_exec(&unidad);
                if unidad_de_chars(&baja).is_some() {
                    ultima = Some(TramoExec { ini, fin_num: j, ini_u: k0, fin: k });
                }
                i = k;
            }
        }
    }
    ultima
}

/// El texto sin su última presentación (lo que queda antes, un espacio y
/// lo que queda después), sin espacios en las orillas.
pub open spec fn spec_quitar_presentacion(t: Seq<char>) -> Seq<char> {
    match ultima_presentacion(t) {
        Some(x) => {
            let antes = sin_espacios_fin(t.subrange(0, x.ini));
            let despues = sin_espacios_inicio(t.subrange(x.fin, t.len() as int));
            recortado(
                if despues.len() == 0 {
                    antes
                } else if antes.len() == 0 {
                    despues
                } else {
                    antes + seq![' '] + despues
                },
            )
        },
        None => recortado(t),
    }
}

/// Quita la presentación final para comparar nombres base:
/// "cocacola 600ml" -> "cocacola". Sin presentación, el texto recortado.
pub fn quitar_presentacion(texto_norm: &str) -> (r: String)
    ensures
        r@ == spec_quitar_presentacion(texto_norm@),
{
    let t = chars_de(texto_norm);
    match ultima_presentacion_span(&t) {
        Some(x) => {
            let pre = subrango(&t, 0, x.ini);
            let mut base = recortar_fin(&pre);
            let post = subrango(&t, x.fin, t.len());
            let resto = recortar_inicio(&post);
            if resto.len() != 0 {
                if base.len() != 0 {
                    base.push(' ');
                }
                anexar(&mut base, &resto);
            }
            let r = recortar_espacios(&base);
            proof {
                let antes = sin_espacios_fin(t@.subrange(0, x.ini as int));
                let despues = sin_espacios_inicio(t@.subrange(x.fin as int, t@.len() as int));
                if despues.len() != 0 && antes.len() != 0 {
                    assert(base@ =~= antes + seq![' '] + despues);
                } else if despues.len() != 0 {
                    assert(base@ =~= despues);
                }
            }
            string_de(&r)
        },
        None => {
            let r = recortar_espacios(&t);
            string_de(&r)
        },
    }
}

/// Valor decimal de una cadena de dígitos.
pub open spec fn valor_digitos(s: Seq<char>) -> nat
    decreases s.len(),
{
    if s.len() == 0 {
        0
    } else {
        valor_digitos(s.drop_last()) * 10 + ((s.last() as u32) - ('0' as u32)) as nat
    }
}

pub open spec fn potencia10(e: nat) -> nat
    decreases e,
{
    if e == 0 {
        1
    } else {
        10 * potencia10((e - 1) as nat)
    }
}

/// Posición del separador decimal de un número (o su largo si no trae).
pub open spec fn pos_separador(n: Seq<char>) -> int
    decreases n.len(),
{
    if n.len() == 0 {
        0
    } else if es_sep_decimal(n[0]) {
        0
    } else {
        1 + pos_separador(n.drop_first())
    }
}

/// El número `n` ("1.5", "0,6", "600") multiplicado por 10^e, truncado.
pub open spec fn valor_escalado(n: Seq<char>, e: nat) -> nat {
    let p = pos_separador(n);
    let entero = n.subrange(0, p);
    let frac = if p < n.len() {
        n.subrange(p + 1, n.len() as int)
    } else {
        Seq::empty()
    };
    let m: nat = if frac.len() < e {
        frac.len()
    } else {
        e
    };
    valor_digitos(entero) * potencia10(e) + valor_digitos(frac.subrange(0, m as int)) * potencia10(
        (e - m) as nat,
    )
}

/// Unidad base y factor (1 o 1000) de una unidad canónica.
pub open spec fn base_de(canon: Seq<char>) -> Option<(UnidadBase, nat)> {
    if canon == "ml"@ {
        Some((UnidadBase::Ml, 1))
    } else if canon == "l"@ {
        Some((UnidadBase::Ml, 1000))
    } else if canon == "g"@ {
        Some((UnidadBase::G, 1))
    } else if canon == "kg"@ {
        Some((UnidadBase::G, 1000))
    } else if canon == "pzs"@ {
        Some((UnidadBase::Pzs, 1))
    } else {
        None
    }
}

/// Exponente para llevar un número escrito en la unidad dada a
/// millonésimas de la unidad base (6, o 9 si la unidad es l o kg).
pub open spec fn exponente_de(factor: nat) -> nat {
    if factor == 1000 {
        9
    } else {
        6
    }
}

/// Presentación (cantidad en millonésimas, unidad base) de la última
/// presentación del texto, sin cota de tamaño.
pub open spec fn spec_extraer(t: Seq<char>) -> Option<(nat, UnidadBase)> {
    match ultima_presentacion(t) {
        None => None,
        Some(x) => match unidad_canonica(minusculas(t.subrange(x.ini_u, x.fin))) {
            None => None,
            Some(c) => match base_de(c) {
                None => None,
                Some((u, f)) => Some(
                    (valor_escalado(t.subrange(x.ini, x.fin_num), exponente_de(f)), u),
                ),
            },
        },
    }
}

fn base_de_exec(c: &'static str) -> (r: Option<(UnidadBase, u128)>)
    ensures
        match r {
            None => base_de(c@) is None,
            Some((u, f)) => base_de(c@) == Some((u, f as nat)),
        },
{
    let v = chars_de(c);
    if es_texto(&v, "ml") {
        Some((UnidadBase::Ml, 1))
    } else if es_texto(&v, "l") {
        Some((UnidadBase::Ml, 1000))
    } else if es_texto(&v, "g") {
        Some((UnidadBase::G, 1))
    } else if es_texto(&v, "kg") {
        Some((UnidadBase::G, 1000))
    } else if es_texto(&v, "pzs") {
        Some((UnidadBase::Pzs, 1))
    } else {
        None
    }
}

proof fn lema_pos_separador(n: Seq<char>)
    ensures
        0 <= pos_separador(n) <= n.len(),
        forall|i: int| 0 <= i < pos_separador(n) ==> !es_sep_decimal(#[trigger] n[i]),
        pos_separador(n) < n.len() ==> es_sep_decimal(n[pos_separador(n)]),
    decreases n.len(),
{
    if n.len() > 0 && !es_sep_decimal(n[0]) {
        lema_pos_separador(n.drop_first());
        assert forall|i: int| 0 <= i < pos_separador(n) implies !es_sep_decimal(#[trigger] n[i]) by {
            if i > 0 {
                assert(n[i] == n.drop_first()[i - 1]);
            }
        }
    }
}

proof fn lema_potencia10_positiva(e: nat)
    ensures
        potencia10(e) >= 1,
    decreases e,
{
    if e > 0 {
        lema_potencia10_positiva((e - 1) as nat);
    }
}

/// Valor de una cadena de dígitos; `None` si pasa de `u128::MAX`.
fn valor_digitos_exec(v: &Vec<char>, a: usize, b: usize) -> (r: Option<u128>)
    requires
        a <= b <= v.len(),
        forall|i: int| a <= i < b ==> es_digito_ascii(#[trigger] v@[i]),
    ensures
        match r {
            Some(x) => x == valor_digitos(v@.subrange(a as int, b as int)),
            None => valor_digitos(v@.subrange(a as int, b as int)) > u128::MAX,
        },
{
    let mut acc: u128 = 0;
    let mut i = a;
    while i < b
        invariant
            a <= i <= b <= v.len(),
            forall|j: int| a <= j < b ==> es_digito_ascii(#[trigger] v@[j]),
            acc == valor_digitos(v@.subrange(a as int, i as int)),
        decreases b - i,
    {
        assert(es_digito_ascii(v@[i as int]));
        let d: u128 = (v[i] as u32 - '0' as u32) as u128;
        assert(v@.subrange(a as int, i + 1).drop_last() =~= v@.subrange(a as int, i as int));
        match acc.checked_mul(10) {
            None => {
                proof {
                    lema_digitos_crecen(v@, a as int, i + 1, b as int);
                }
                return None;
            },
            Some(m) => match m.checked_add(d) {
                None => {
                    proof {
                        lema_digitos_crecen(v@, a as int, i + 1, b as int);
                    }
                    return None;
                },
                Some(x) => {
                    acc = x;
                },
            },
        }
        i = i + 1;
    }
    Some(acc)
}

proof fn lema_digitos_crecen(v: Seq<char>, a: int, i: int, b: int)
    requires
        0 <= a <= i <= b <= v.len(),
    ensures
        valor_digitos(v.subrange(a, i)) <= valor_digitos(v.subrange(a, b)),
    decreases b - i,
{
    if i < b {
        lema_digitos_crecen(v, a, i, b - 1);
        assert(v.subrange(a, b).drop_last() =~= v.subrange(a, b - 1));
    }
}

/// `x * 10^e`, o `None` si pasa de `u128::MAX`.
fn por_potencia10(x: u128, e: u32) -> (r: Option<u128>)
    ensures
        match r {
            Some(y) => y == x * potencia10(e as nat),
            None => x * potencia10(e as nat) > u128::MAX,
        },
{
    let mut acc = x;
    let mut k: u32 = 0;
    assert(potencia10(0) == 1);
    assert(x * potencia10(0) == x);
    while k < e
        invariant
            k <= e,
            acc == x * potencia10(k as nat),
        decreases e - k,
    {
        assert(x * potencia10((k + 1) as nat) == 10 * (x * potencia10(k as nat))) by (nonlinear_arith)
            requires
                potencia10((k + 1) as nat) == 10 * potencia10(k as nat),
        ;
        match acc.checked_mul(10) {
            None => {
                proof {
                    lema_potencia_crece(x as nat, (k + 1) as nat, e as nat);
                }
                return None;
            },
            Some(y) => {
                acc = y;
            },
        }
        k = k + 1;
    }
    Some(acc)
}

proof fn lema_potencia_crece(x: nat, k: nat, e: nat)
    requires
        k <= e,
    ensures
        x * potencia10(k) <= x * potencia10(e),
    decreases e - k,
{
    if k < e {
        lema_potencia_crece(x, k, (e - 1) as nat);
        lema_potencia10_positiva((e - 1) as nat);
        assert(x * potencia10((e - 1) as nat) <= x * potencia10(e)) by (nonlinear_arith)
            requires
                potencia10(e) == 10 * potencia10((e - 1) as nat),
                potencia10((e - 1) as nat) >= 1,
        ;
    }
}

/// `valor_escalado` del número `v[a..b]`; `None` si pasa de `u128::MAX`.
fn valor_escalado_exec(v: &Vec<char>, a: usize, b: usize, e: u32) -> (r: Option<u128>)
    requires
        a <= b <= v.len(),
        forall|i: int| a <= i < b ==> es_digito_ascii(#[trigger] v@[i]) || es_sep_decimal(v@[i]),
        forall|i: int, j: int|
            a <= i < j < b && es_sep_decimal(#[trigger] v@[i]) ==> !es_sep_decimal(#[trigger] v@[j]),
    ensures
        match r {
            Some(x) => x == valor_escalado(v@.subrange(a as int, b as int), e as nat),
            None => valor_escalado(v@.subrange(a as int, b as int), e as nat) > u128::MAX,
        },
{
    let ghost n = v@.subrange(a as int, b as int);
    proof {
        lema_pos_separador(n);
    }
    let mut p = a;
    while p < b && !(v[p] == '.' || v[p] == ',')
        invariant
            a <= p <= b <= v.len(),
            n == v@.subrange(a as int, b as int),
            forall|i: int| a <= i < p ==> !es_sep_decimal(#[trigger] v@[i]),
        decreases b - p,
    {
        p = p + 1;
    }
    proof {
        assert forall|i: int| 0 <= i < p - a implies !es_sep_decimal(#[trigger] n[i]) by {
            assert(n[i] == v@[a + i]);
        }
        if p < b {
            assert(es_sep_decimal(n[p - a]));
        }
        lema_mismo_separador(n, p - a);
    }
    let ghost entero = n.subrange(0, p - a);
    assert(entero =~= v@.subrange(a as int, p as int));
    let ent = match valor_digitos_exec(v, a, p) {
        None => {
            proof {
                lema_escalado_cota_entero(n, e as nat);
            }
            return None;
        },
        Some(x) => x,
    };
    let ent_esc = match por_potencia10(ent, e) {
        None => {
            proof {
                lema_escalado_cota_entero(n, e as nat);
            }
            return None;
        },
        Some(x) => x,
    };
    let ini_f: usize = if p < b {
        p + 1
    } else {
        b
    };
    let largo_f: usize = b - ini_f;
    let m: usize = if largo_f < e as usize {
        largo_f
    } else {
        e as usize
    };
    proof {
        let frac = if p - a < n.len() {
            n.subrange(p - a + 1, n.len() as int)
        } else {
            Seq::<char>::empty()
        };
        assert(frac =~= v@.subrange(ini_f as int, b as int));
        assert(frac.subrange(0, m as int) =~= v@.subrange(ini_f as int, (ini_f + m) as int));
        assert forall|i: int| ini_f <= i < ini_f + m implies es_digito_ascii(#[trigger] v@[i]) by {
            if es_sep_decimal(v@[i]) {
                assert(es_sep_decimal(v@[p as int]));
            }
        }
    }
    let fr = match valor_digitos_exec(v, ini_f, ini_f + m) {
        None => {
            proof {
                lema_escalado_cota_frac(n, e as nat);
            }
            return None;
        },
        Some(x) => x,
    };
    let fr_esc = match por_potencia10(fr, e - m as u32) {
        None => {
            proof {
                lema_escalado_cota_frac(n, e as nat);
            }
            return None;
        },
        Some(x) => x,
    };
    ent_esc.checked_add(fr_esc)
}

proof fn lema_mismo_separador(n: Seq<char>, p: int)
    requires
        0 <= p <= n.len(),
        forall|i: int| 0 <= i < p ==> !es_sep_decimal(#[trigger] n[i]),
        p < n.len() ==> es_sep_decimal(n[p]),
    ensures
        pos_separador(n) == p,
    decreases n.len(),
{
    if n.len() > 0 && p > 0 {
        assert(!es_sep_decimal(n[0]));
        assert forall|i: int| 0 <= i < p - 1 implies !es_sep_decimal(#[trigger] n.drop_first()[i]) by {
            assert(n.drop_first()[i] == n[i + 1]);
        }
        lema_mismo_separador(n.drop_first(), p - 1);
    }
}

proof fn lema_escalado_cota_entero(n: Seq<char>, e: nat)
    ensures
        valor_digitos(n.subrange(0, pos_separador(n))) <= valor_escalado(n, e),
        valor_digitos(n.subrange(0, pos_separador(n))) * potencia10(e) <= valor_escalado(n, e),
{
    lema_potencia10_positiva(e);
    let x = valor_digitos(n.subrange(0, pos_separador(n)));
    assert(x <= x * potencia10(e)) by (nonlinear_arith)
        requires
            potencia10(e) >= 1,
    ;
    let p = pos_separador(n);
    let frac = if p < n.len() {
        n.subrange(p + 1, n.len() as int)
    } else {
        Seq::empty()
    };
    let m: nat = if frac.len() < e {
        frac.len()
    } else {
        e
    };
    let y = valor_digitos(frac.subrange(0, m as int));
    let z = potencia10((e - m) as nat);
    assert(0 <= y * z) by (nonlinear_arith);
}

proof fn lema_escalado_cota_frac(n: Seq<char>, e: nat)
    ensures
        ({
            let p = pos_separador(n);
            let frac = if p < n.len() {
                n.subrange(p + 1, n.len() as int)
            } else {
                Seq::empty()
            };
            let m: nat = if frac.len() < e {
                frac.len()
            } else {
                e
            };
            &&& valor_digitos(frac.subrange(0, m as int)) <= valor_escalado(n, e)
            &&& valor_digitos(frac.subrange(0, m as int)) * potencia10((e - m) as nat)
                <= valor_escalado(n, e)
        }),
{
    let p = pos_separador(n);
    let frac = if p < n.len() {
        n.subrange(p + 1, n.len() as int)
    } else {
        Seq::empty()
    };
    let m: nat = if frac.len() < e {
        frac.len()
    } else {
        e
    };
    let y = valor_digitos(frac.subrange(0, m as int));
    let z = potencia10((e - m) as nat);
    lema_potencia10_positiva((e - m) as nat);
    lema_potencia10_positiva(e);
    let x = valor_digitos(n.subrange(0, p));
    assert(y <= y * z && 0 <= x * potencia10(e)) by (nonlinear_arith)
        requires
            z >= 1,
    ;
}

/// Igualdad de presentaciones: misma unidad base y misma cantidad.
pub fn misma_presentacion(a: &Presentacion, b: &Presentacion) -> (r: bool)
    ensures
        r == (a.unidad_base == b.unidad_base && a.cantidad_millonesimas == b.cantidad_millonesimas),
{
    a.unidad_base == b.unidad_base && a.cantidad_millonesimas == b.cantidad_millonesimas
}

/// La presentación de una cantidad en millonésimas de la unidad dada.
pub open spec fn spec_a_base(cantidad_millonesimas: nat, canon: Seq<char>) -> Option<(nat, UnidadBase)> {
    match base_de(canon) {
        None => None,
        Some((u, f)) => Some((cantidad_millonesimas * f, u)),
    }
}

/// Convierte (cantidad en millonésimas, unidad canónica) a la base
/// comparable; `None` si la unidad no es canónica o la cantidad no cabe.
pub fn a_base(cantidad_millonesimas: u128, unidad_canon: &'static str) -> (r: Option<Presentacion>)
    ensures
        match spec_a_base(cantidad_millonesimas as nat, unidad_canon@) {
            None => r is None,
            Some((v, u)) => if v <= u128::MAX {
                r == Some(Presentacion { cantidad_millonesimas: v as u128, unidad_base: u })
            } else {
                r is None
            },
        },
{
    match base_de_exec(unidad_canon) {
        None => None,
        Some((u, f)) => match cantidad_millonesimas.checked_mul(f) {
            None => None,
            Some(v) => Some(Presentacion { cantidad_millonesimas: v, unidad_base: u }),
        },
    }
}

/// Presentación de una fila de catálogo (cantidad y unidad separadas):
/// la unidad se recorta, se pasa a minúsculas y se canoniza.
pub fn presentacion_de_catalogo(cantidad_millonesimas: u128, unidad: &str) -> (r: Option<Presentacion>)
    ensures
        match unidad_canonica(minusculas(recortado(unidad@))) {
            None => r is None,
            Some(c) => match spec_a_base(cantidad_millonesimas as nat, c) {
                None => r is None,
                Some((v, u)) => if v <= u128::MAX {
                    r == Some(Presentacion { cantidad_millonesimas: v as u128, unidad_base: u })
                } else {
                    r is None
                },
            },
        },
{
    let v = chars_de(unidad);
    let t = recortar_espacios(&v);
    let baja = minusculas_exec(&t);
    match unidad_de_chars(&baja) {
        None => None,
        Some(c) => a_base(cantidad_millonesimas, c),
    }
}

proof fn lema_tramo_numero(t: Seq<char>, i: int, sep: bool, fin: int)
    requires
        0 <= i <= t.len(),
        fin == fin_numero(t, i, sep),
        sep ==> forall|q: int| i <= q < fin ==> !es_sep_decimal(#[trigger] t[q]),
    ensures
        forall|q: int| i <= q < fin ==> es_digito_ascii(#[trigger] t[q]) || es_sep_decimal(t[q]),
        forall|q: int, w: int|
            i <= q < w < fin && es_sep_decimal(#[trigger] t[q]) ==> !es_sep_decimal(#[trigger] t[w]),
    decreases t.len() - i,
{
    if 0 <= i < t.len() && (es_digito_ascii(t[i]) || (!sep && es_sep_decimal(t[i]))) {
        let s2 = sep || es_sep_decimal(t[i]);
        if s2 && !sep {
            // el separador está en i; lo que sigue ya no trae otro
            lema_sin_sep_tras(t, i + 1, fin);
        }
        lema_tramo_numero(t, i + 1, s2, fin);
    }
}

proof fn lema_sin_sep_tras(t: Seq<char>, i: int, fin: int)
    requires
        0 <= i <= t.len(),
        fin == fin_numero(t, i, true),
    ensures
        forall|q: int| i <= q < fin ==> !es_sep_decimal(#[trigger] t[q]),
    decreases t.len() - i,
{
    if 0 <= i < t.len() && es_digito_ascii(t[i]) {
        lema_sin_sep_tras(t, i + 1, fin);
    }
}

/// Extrae la última presentación del texto normalizado, si hay. `None`
/// también cuando la cantidad no cabe en 128 bits.
pub fn extraer_presentacion(texto_norm: &str) -> (r: Option<Presentacion>)
    ensures
        match spec_extraer(texto_norm@) {
            None => r is None,
            Some((v, u)) => if v <= u128::MAX {
                r == Some(Presentacion { cantidad_millonesimas: v as u128, unidad_base: u })
            } else {
                r is None
            },
        },
{
    let t = chars_de(texto_norm);
    match ultima_presentacion_span(&t) {
        None => None,
        Some(x) => {
            let unidad = subrango(&t, x.ini_u, x.fin);
            let baja = minusculas_exec(&unidad);
            match unidad_de_chars(&baja) {
                None => None,
                Some(c) => match base_de_exec(c) {
                    None => None,
                    Some((u, f)) => {
                        let e: u32 = if f == 1000 {
                            9
                        } else {
                            6
                        };
                        proof {
                            lema_fin_numero_ultima(t@);
                            lema_tramo_numero(t@, x.ini as int, false, x.fin_num as int);
                        }
                        match valor_escalado_exec(&t, x.ini, x.fin_num, e) {
                            None => None,
                            Some(v) => Some(Presentacion { cantidad_millonesimas: v, unidad_base: u }),
                        }
                    },
                },
            }
        },
    }
}

proof fn lema_fin_numero_ultima(t: Seq<char>)
    ensures
        match ultima_presentacion(t) {
            None => true,
            Some(x) => x.fin_num == fin_numero(t, x.ini, false),
        },
{
    lema_ultima_fin(t, 0, None);
}

proof fn lema_ultima_fin(t: Seq<char>, i: int, prev: Option<Tramo>)
    requires
        match prev {
            None => true,
            Some(x) => x.fin_num == fin_numero(t, x.ini, false),
        },
    ensures
        match ultima_desde(t, i, prev) {
            None => true,
            Some(x) => x.fin_num == fin_numero(t, x.ini, false),
        },
    decreases t.len() - i,
{
    if i < 0 || i >= t.len() {
    } else if !es_digito_ascii(t[i]) {
        lema_ultima_fin(t, i + 1, prev);
    } else {
        let j = fin_numero(t, i, false);
        let u = saltar_blancos(t, j);
        let k = fin_letras(t, u);
        lema_fin_numero(t, i, false);
        lema_saltar_blancos(t, j);
        lema_fin_letras(t, u);
        if u == k {
            lema_ultima_fin(t, j, prev);
        } else {
            let nuevo = if unidad_canonica(minusculas(t.subrange(u, k))) is Some {
                Some(Tramo { ini: i, fin_num: j, ini_u: u, fin: k })
            } else {
                prev
            };
            lema_ultima_fin(t, k, nuevo);
        }
    }
}


/// La tabla de unidades: cada alias de mililitro es `ml`, cada alias de
/// litro (`l`, `lt`, `lts`, `litro`, `litros`) es `l`, y así gramos,
/// kilos y piezas; un litro son 1000 ml y un kilo 1000 g. Así "2 lt" y
/// "2 l" son la misma presentación: 2000 ml.
pub proof fn ley_tabla_de_unidades()
    ensures
        unidad_canonica("ml"@) == Some("ml"@),
        unidad_canonica("mililitro"@) == Some("ml"@),
        unidad_canonica("mililitros"@) == Some("ml"@),
        base_de("ml"@) == Some((UnidadBase::Ml, 1nat)),
        unidad_canonica("l"@) == Some("l"@),
        unidad_canonica("lt"@) == Some("l"@),
        unidad_canonica("lts"@) == Some("l"@),
        unidad_canonica("litro"@) == Some("l"@),
        unidad_canonica("litros"@) == Some("l"@),
        base_de("l"@) == Some((UnidadBase::Ml, 1000nat)),
        unidad_canonica("g"@) == Some("g"@),
        unidad_canonica("gr"@) == Some("g"@),
        unidad_canonica("grs"@) == Some("g"@),
        unidad_canonica("gramo"@) == Some("g"@),
        unidad_canonica("gramos"@) == Some("g"@),
        base_de("g"@) == Some((UnidadBase::G, 1nat)),
        unidad_canonica("kg"@) == Some("kg"@),
        unidad_canonica("kgs"@) == Some("kg"@),
        unidad_canonica("kilo"@) == Some("kg"@),
        unidad_canonica("kilos"@) == Some("kg"@),
        unidad_canonica("kilogramo"@) == Some("kg"@),
        unidad_canonica("kilogramos"@) == Some("kg"@),
        base_de("kg"@) == Some((UnidadBase::G, 1000nat)),
        unidad_canonica("pzs"@) == Some("pzs"@),
        unidad_canonica("pz"@) == Some("pzs"@),
        unidad_canonica("pza"@) == Some("pzs"@),
        unidad_canonica("pzas"@) == Some("pzs"@),
        unidad_canonica("pieza"@) == Some("pzs"@),
        unidad_canonica("piezas"@) == Some("pzs"@),
        unidad_canonica("p"@) == Some("pzs"@),
        base_de("pzs"@) == Some((UnidadBase::Pzs, 1nat)),
{
    reveal_strlit("g");
    reveal_strlit("gr");
    reveal_strlit("gramo");
    reveal_strlit("gramos");
    reveal_strlit("grs");
    reveal_strlit("kg");
    reveal_strlit("kgs");
    reveal_strlit("kilo");
    reveal_strlit("kilogramo");
    reveal_strlit("kilogramos");
    reveal_strlit("kilos");
    reveal_strlit("l");
    reveal_strlit("litro");
    reveal_strlit("litros");
    reveal_strlit("lt");
    reveal_strlit("lts");
    reveal_strlit("mililitro");
    reveal_strlit("mililitros");
    reveal_strlit("ml");
    reveal_strlit("p");
    reveal_strlit("pieza");
    reveal_strlit("piezas");
    reveal_strlit("pz");
    reveal_strlit("pza");
    reveal_strlit("pzas");
    reveal_strlit("pzs");
    assert("ml"@.len() == 2);
    assert("mililitro"@.len() == 9);
    assert("mililitros"@.len() == 10);
    assert("l"@.len() == 1);
    assert("lt"@.len() == 2);
    assert("lts"@.len() == 3);
    assert("litro"@.len() == 5);
    assert("litros"@.len() == 6);
    assert("g"@.len() == 1);
    assert("gr"@.len() == 2);
    assert("grs"@.len() == 3);
    assert("gramo"@.len() == 5);
    assert("gramos"@.len() == 6);
    assert("kg"@.len() == 2);
    assert("kgs"@.len() == 3);
    assert("kilo"@.len() == 4);
    assert("kilos"@.len() == 5);
    assert("kilogramo"@.len() == 9);
    assert("kilogramos"@.len() == 10);
    assert("pzs"@.len() == 3);
    assert("pz"@.len() == 2);
    assert("pza"@.len() == 3);
    assert("pzas"@.len() == 4);
    assert("pieza"@.len() == 5);
    assert("piezas"@.len() == 6);
    assert("p"@.len() == 1);
    assert("l"@ != "ml"@);
    assert("l"@ != "mililitro"@);
    assert("l"@ != "mililitros"@);
    assert("lt"@[0] != "ml"@[0]);
    assert("lt"@ != "ml"@);
    assert("lt"@ != "mililitro"@);
    assert("lt"@ != "mililitros"@);
    assert("lts"@ != "ml"@);
    assert("lts"@ != "mililitro"@);
    assert("lts"@ != "mililitros"@);
    assert("litro"@ != "ml"@);
    assert("litro"@ != "mililitro"@);
    assert("litro"@ != "mililitros"@);
    assert("litros"@ != "ml"@);
    assert("litros"@ != "mililitro"@);
    assert("litros"@ != "mililitros"@);
    assert("g"@ != "ml"@);
    assert("g"@ != "mililitro"@);
    assert("g"@ != "mililitros"@);
    assert("g"@[0] != "l"@[0]);
    assert("g"@ != "l"@);
    assert("g"@ != "lt"@);
    assert("g"@ != "lts"@);
    assert("g"@ != "litro"@);
    assert("g"@ != "litros"@);
    assert("gr"@[0] != "ml"@[0]);
    assert("gr"@ != "ml"@);
    assert("gr"@ != "mililitro"@);
    assert("gr"@ != "mililitros"@);
    assert("gr"@ != "l"@);
    assert("gr"@[0] != "lt"@[0]);
    assert("gr"@ != "lt"@);
    assert("gr"@ != "lts"@);
    assert("gr"@ != "litro"@);
    assert("gr"@ != "litros"@);
    assert("grs"@ != "ml"@);
    assert("grs"@ != "mililitro"@);
    assert("grs"@ != "mililitros"@);
    assert("grs"@ != "l"@);
    assert("grs"@ != "lt"@);
    assert("grs"@[0] != "lts"@[0]);
    assert("grs"@ != "lts"@);
    assert("grs"@ != "litro"@);
    assert("grs"@ != "litros"@);
    assert("gramo"@ != "ml"@);
    assert("gramo"@ != "mililitro"@);
    assert("gramo"@ != "mililitros"@);
    assert("gramo"@ != "l"@);
    assert("gramo"@ != "lt"@);
    assert("gramo"@ != "lts"@);
    assert("gramo"@[0] != "litro"@[0]);
    assert("gramo"@ != "litro"@);
    assert("gramo"@ != "litros"@);
    assert("gramos"@ != "ml"@);
    assert("gramos"@ != "mililitro"@);
    assert("gramos"@ != "mililitros"@);
    assert("gramos"@ != "l"@);
    assert("gramos"@ != "lt"@);
    assert("gramos"@ != "lts"@);
    assert("gramos"@ != "litro"@);
    assert("gramos"@[0] != "litros"@[0]);
    assert("gramos"@ != "litros"@);
    assert("kg"@[0] != "ml"@[0]);
    assert("kg"@ != "ml"@);
    assert("kg"@ != "mililitro"@);
    assert("kg"@ != "mililitros"@);
    assert("kg"@ != "l"@);
    assert("kg"@[0] != "lt"@[0]);
    assert("kg"@ != "lt"@);
    assert("kg"@ != "lts"@);
    assert("kg"@ != "litro"@);
    assert("kg"@ != "litros"@);
    assert("kg"@ != "g"@);
    assert("kg"@[0] != "gr"@[0]);
    assert("kg"@ != "gr"@);
    assert("kg"@ != "grs"@);
    assert("kg"@ != "gramo"@);
    assert("kg"@ != "gramos"@);
    assert("kgs"@ != "ml"@);
    assert("kgs"@ != "mililitro"@);
    assert("kgs"@ != "mililitros"@);
    assert("kgs"@ != "l"@);
    assert("kgs"@ != "lt"@);
    assert("kgs"@[0] != "lts"@[0]);
    assert("kgs"@ != "lts"@);
    assert("kgs"@ != "litro"@);
    assert("kgs"@ != "litros"@);
    assert("kgs"@ != "g"@);
    assert("kgs"@ != "gr"@);
    assert("kgs"@[0] != "grs"@[0]);
    assert("kgs"@ != "grs"@);
    assert("kgs"@ != "gramo"@);
    assert("kgs"@ != "gramos"@);
    assert("kilo"@ != "ml"@);
    assert("kilo"@ != "mililitro"@);
    assert("kilo"@ != "mililitros"@);
    assert("kilo"@ != "l"@);
    assert("kilo"@ != "lt"@);
    assert("kilo"@ != "lts"@);
    assert("kilo"@ != "litro"@);
    assert("kilo"@ != "litros"@);
    assert("kilo"@ != "g"@);
    assert("kilo"@ != "gr"@);
    assert("kilo"@ != "grs"@);
    assert("kilo"@ != "gramo"@);
    assert("kilo"@ != "gramos"@);
    assert("kilos"@ != "ml"@);
    assert("kilos"@ != "mililitro"@);
    assert("kilos"@ != "mililitros"@);
    assert("kilos"@ != "l"@);
    assert("kilos"@ != "lt"@);
    assert("kilos"@ != "lts"@);
    assert("kilos"@[0] != "litro"@[0]);
    assert("kilos"@ != "litro"@);
    assert("kilos"@ != "litros"@);
    assert("kilos"@ != "g"@);
    assert("kilos"@ != "gr"@);
    assert("kilos"@ != "grs"@);
    assert("kilos"@[0] != "gramo"@[0]);
    assert("kilos"@ != "gramo"@);
    assert("kilos"@ != "gramos"@);
    assert("kilogramo"@ != "ml"@);
    assert("kilogramo"@[0] != "mililitro"@[0]);
    assert("kilogramo"@ != "mililitro"@);
    assert("kilogramo"@ != "mililitros"@);
    assert("kilogramo"@ != "l"@);
    assert("kilogramo"@ != "lt"@);
    assert("kilogramo"@ != "lts"@);
    assert("kilogramo"@ != "litro"@);
    assert("kilogramo"@ != "litros"@);
    assert("kilogramo"@ != "g"@);
    assert("kilogramo"@ != "gr"@);
    assert("kilogramo"@ != "grs"@);
    assert("kilogramo"@ != "gramo"@);
    assert("kilogramo"@ != "gramos"@);
    assert("kilogramos"@ != "ml"@);
    assert("kilogramos"@ != "mililitro"@);
    assert("kilogramos"@[0] != "mililitros"@[0]);
    assert("kilogramos"@ != "mililitros"@);
    assert("kilogramos"@ != "l"@);
    assert("kilogramos"@ != "lt"@);
    assert("kilogramos"@ != "lts"@);
    assert("kilogramos"@ != "litro"@);
    assert("kilogramos"@ != "litros"@);
    assert("kilogramos"@ != "g"@);
    assert("kilogramos"@ != "gr"@);
    assert("kilogramos"@ != "grs"@);
    assert("kilogramos"@ != "gramo"@);
    assert("kilogramos"@ != "gramos"@);
    assert("pzs"@ != "ml"@);
    assert("pzs"@ != "mililitro"@);
    assert("pzs"@ != "mililitros"@);
    assert("pzs"@ != "l"@);
    assert("pzs"@ != "lt"@);
    assert("pzs"@[0] != "lts"@[0]);
    assert("pzs"@ != "lts"@);
    assert("pzs"@ != "litro"@);
    assert("pzs"@ != "litros"@);
    assert("pzs"@ != "g"@);
    assert("pzs"@ != "gr"@);
    assert("pzs"@[0] != "grs"@[0]);
    assert("pzs"@ != "grs"@);
    assert("pzs"@ != "gramo"@);
    assert("pzs"@ != "gramos"@);
    assert("pzs"@ != "kg"@);
    assert("pzs"@[0] != "kgs"@[0]);
    assert("pzs"@ != "kgs"@);
    assert("pzs"@ != "kilo"@);
    assert("pzs"@ != "kilos"@);
    assert("pzs"@ != "kilogramo"@);
    assert("pzs"@ != "kilogramos"@);
    assert("pz"@[0] != "ml"@[0]);
    assert("pz"@ != "ml"@);
    assert("pz"@ != "mililitro"@);
    assert("pz"@ != "mililitros"@);
    assert("pz"@ != "l"@);
    assert("pz"@[0] != "lt"@[0]);
    assert("pz"@ != "lt"@);
    assert("pz"@ != "lts"@);
    assert("pz"@ != "litro"@);
    assert("pz"@ != "litros"@);
    assert("pz"@ != "g"@);
    assert("pz"@[0] != "gr"@[0]);
    assert("pz"@ != "gr"@);
    assert("pz"@ != "grs"@);
    assert("pz"@ != "gramo"@);
    assert("pz"@ != "gramos"@);
    assert("pz"@[0] != "kg"@[0]);
    assert("pz"@ != "kg"@);
    assert("pz"@ != "kgs"@);
    assert("pz"@ != "kilo"@);
    assert("pz"@ != "kilos"@);
    assert("pz"@ != "kilogramo"@);
    assert("pz"@ != "kilogramos"@);
    assert("pza"@ != "ml"@);
    assert("pza"@ != "mililitro"@);
    assert("pza"@ != "mililitros"@);
    assert("pza"@ != "l"@);
    assert("pza"@ != "lt"@);
    assert("pza"@[0] != "lts"@[0]);
    assert("pza"@ != "lts"@);
    assert("pza"@ != "litro"@);
    assert("pza"@ != "litros"@);
    assert("pza"@ != "g"@);
    assert("pza"@ != "gr"@);
    assert("pza"@[0] != "grs"@[0]);
    assert("pza"@ != "grs"@);
    assert("pza"@ != "gramo"@);
    assert("pza"@ != "gramos"@);
    assert("pza"@ != "kg"@);
    assert("pza"@[0] != "kgs"@[0]);
    assert("pza"@ != "kgs"@);
    assert("pza"@ != "kilo"@);
    assert("pza"@ != "kilos"@);
    assert("pza"@ != "kilogramo"@);
    assert("pza"@ != "kilogramos"@);
    assert("pzas"@ != "ml"@);
    assert("pzas"@ != "mililitro"@);
    assert("pzas"@ != "mililitros"@);
    assert("pzas"@ != "l"@);
    assert("pzas"@ != "lt"@);
    assert("pzas"@ != "lts"@);
    assert("pzas"@ != "litro"@);
    assert("pzas"@ != "litros"@);
    assert("pzas"@ != "g"@);
    assert("pzas"@ != "gr"@);
    assert("pzas"@ != "grs"@);
    assert("pzas"@ != "gramo"@);
    assert("pzas"@ != "gramos"@);
    assert("pzas"@ != "kg"@);
    assert("pzas"@ != "kgs"@);
    assert("pzas"@[0] != "kilo"@[0]);
    assert("pzas"@ != "kilo"@);
    assert("pzas"@ != "kilos"@);
    assert("pzas"@ != "kilogramo"@);
    assert("pzas"@ != "kilogramos"@);
    assert("pieza"@ != "ml"@);
    assert("pieza"@ != "mililitro"@);
    assert("pieza"@ != "mililitros"@);
    assert("pieza"@ != "l"@);
    assert("pieza"@ != "lt"@);
    assert("pieza"@ != "lts"@);
    assert("pieza"@[0] != "litro"@[0]);
    assert("pieza"@ != "litro"@);
    assert("pieza"@ != "litros"@);
    assert("pieza"@ != "g"@);
    assert("pieza"@ != "gr"@);
    assert("pieza"@ != "grs"@);
    assert("pieza"@[0] != "gramo"@[0]);
    assert("pieza"@ != "gramo"@);
    assert("pieza"@ != "gramos"@);
    assert("pieza"@ != "kg"@);
    assert("pieza"@ != "kgs"@);
    assert("pieza"@ != "kilo"@);
    assert("pieza"@[0] != "kilos"@[0]);
    assert("pieza"@ != "kilos"@);
    assert("pieza"@ != "kilogramo"@);
    assert("pieza"@ != "kilogramos"@);
    assert("piezas"@ != "ml"@);
    assert("piezas"@ != "mililitro"@);
    assert("piezas"@ != "mililitros"@);
    assert("piezas"@ != "l"@);
    assert("piezas"@ != "lt"@);
    assert("piezas"@ != "lts"@);
    assert("piezas"@ != "litro"@);
    assert("piezas"@[0] != "litros"@[0]);
    assert("piezas"@ != "litros"@);
    assert("piezas"@ != "g"@);
    assert("piezas"@ != "gr"@);
    assert("piezas"@ != "grs"@);
    assert("piezas"@ != "gramo"@);
    assert("piezas"@[0] != "gramos"@[0]);
    assert("piezas"@ != "gramos"@);
    assert("piezas"@ != "kg"@);
    assert("piezas"@ != "kgs"@);
    assert("piezas"@ != "kilo"@);
    assert("piezas"@ != "kilos"@);
    assert("piezas"@ != "kilogramo"@);
    assert("piezas"@ != "kilogramos"@);
    assert("p"@ != "ml"@);
    assert("p"@ != "mililitro"@);
    assert("p"@ != "mililitros"@);
    assert("p"@[0] != "l"@[0]);
    assert("p"@ != "l"@);
    assert("p"@ != "lt"@);
    assert("p"@ != "lts"@);
    assert("p"@ != "litro"@);
    assert("p"@ != "litros"@);
    assert("p"@[0] != "g"@[0]);
    assert("p"@ != "g"@);
    assert("p"@ != "gr"@);
    assert("p"@ != "grs"@);
    assert("p"@ != "gramo"@);
    assert("p"@ != "gramos"@);
    assert("p"@ != "kg"@);
    assert("p"@ != "kgs"@);
    assert("p"@ != "kilo"@);
    assert("p"@ != "kilos"@);
    assert("p"@ != "kilogramo"@);
    assert("p"@ != "kilogramos"@);
}

} // verus!
