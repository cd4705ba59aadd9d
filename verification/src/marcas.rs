//! Marcas y umbral del semáforo amarillo.
//!
//! Una marca se compara recortada y en minúsculas; una marca ausente
//! (o en blanco) nunca cuenta como distinta. El puntaje de una
//! sugerencia viaja en diezmilésimas (el puntaje combinado se redondea
//! a cuatro decimales), así que el umbral y el ajuste por marca son
//! enteros exactos.

use vstd::prelude::*;
use crate::texto::{chars_de, recortado, recortar_espacios, string_de};
use crate::codigos::{vista_str, vista_string};

verus! {

/// Lo que `str::to_lowercase` devuelve para un texto.
pub uninterp spec fn minusculas_unicode(s: Seq<char>) -> Seq<char>;

/// `str::to_lowercase`: el equivalente en minúsculas según la propiedad
/// Unicode `Lowercase`. El contrato sólo lo nombra: la tabla de
/// conversión no se escribe aquí.
#[verifier::external_body]
fn a_minusculas(s: &str) -> (r: String)
    ensures
        r@ == minusculas_unicode(s@),
{
    s.to_lowercase()
}

/// Marca normalizada: recortada y en minúsculas; ausente si no queda nada.
pub open spec fn spec_marca_norm(m: Option<Seq<char>>) -> Option<Seq<char>> {
    match m {
        None => None,
        Some(s) => {
            let t = minusculas_unicode(recortado(s));
            if t.len() == 0 {
                None
            } else {
                Some(t)
            }
        },
    }
}

/// Normaliza una marca opcional (recorta, pasa a minúsculas, vacía = ausente).
pub fn marca_norm(m: Option<&str>) -> (r: Option<String>)
    ensures
        vista_string(r) == spec_marca_norm(vista_str(m)),
{
    match m {
        None => None,
        Some(s) => {
            let v = chars_de(s);
            let rec = recortar_espacios(&v);
            let rec_s = string_de(&rec);
            let t = a_minusculas(rec_s.as_str());
            if t.as_str().is_empty() {
                None
            } else {
                Some(t)
            }
        },
    }
}

/// La misma normalización, del lado de la auto-asignación verde.
pub fn normalizar_marca(m: Option<&str>) -> (r: Option<String>)
    ensures
        vista_string(r) == spec_marca_norm(vista_str(m)),
{
    marca_norm(m)
}

/// Dos marcas chocan sólo si ambas existen y difieren tras normalizar.
pub open spec fn spec_marcas_iguales(a: Option<Seq<char>>, b: Option<Seq<char>>) -> bool {
    match (spec_marca_norm(a), spec_marca_norm(b)) {
        (Some(x), Some(y)) => x == y,
        _ => true,
    }
}

/// ¿Las marcas son compatibles? Un dato ausente no bloquea.
pub fn marcas_iguales(a: Option<&str>, b: Option<&str>) -> (r: bool)
    ensures
        r == spec_marcas_iguales(vista_str(a), vista_str(b)),
{
    match (normalizar_marca(a), normalizar_marca(b)) {
        (Some(x), Some(y)) => x == y,
        _ => true,
    }
}

/// Ajuste por misma marca, en diezmilésimas (+0.05).
pub const DELTA_MARCA_MISMA: i32 = 500;
/// Ajuste por marca distinta, en diezmilésimas (-0.30).
pub const DELTA_MARCA_DISTINTA: i32 = -3000;

pub open spec fn spec_delta_marca(a: Option<Seq<char>>, b: Option<Seq<char>>) -> int {
    match (spec_marca_norm(a), spec_marca_norm(b)) {
        (Some(x), Some(y)) => if x == y {
            DELTA_MARCA_MISMA as int
        } else {
            DELTA_MARCA_DISTINTA as int
        },
        _ => 0,
    }
}

/// Ajuste del puntaje por marca (diezmilésimas): suma si es la misma,
/// resta fuerte si es distinta, nada si falta alguna.
pub fn delta_marca(marca_ticket: Option<&str>, marca_prod: Option<&str>) -> (r: i32)
    ensures
        r == spec_delta_marca(vista_str(marca_ticket), vista_str(marca_prod)),
{
    match (marca_norm(marca_ticket), marca_norm(marca_prod)) {
        (Some(a), Some(b)) => if a == b {
            DELTA_MARCA_MISMA
        } else {
            DELTA_MARCA_DISTINTA
        },
        _ => 0,
    }
}

/// Puntaje mínimo para sugerir, en diezmilésimas (0.80).
pub const UMBRAL_AMARILLO: u32 = 8000;

/// ¿Se sugiere (puntaje en diezmilésimas) o cae a rojo?
pub fn decide(score: u32) -> (r: bool)
    ensures
        r == (score >= UMBRAL_AMARILLO),
{
    score >= UMBRAL_AMARILLO
}

/// Comparar marcas no depende del orden, y el ajuste tampoco.
pub proof fn ley_marcas_simetricas(a: Option<Seq<char>>, b: Option<Seq<char>>)
    ensures
        spec_marcas_iguales(a, b) == spec_marcas_iguales(b, a),
        spec_delta_marca(a, b) == spec_delta_marca(b, a),
{
}

/// Una marca ausente nunca castiga: el ajuste es cero y no bloquea.
pub proof fn ley_marca_ausente_no_castiga(a: Option<Seq<char>>, b: Option<Seq<char>>)
    requires
        spec_marca_norm(a) is None || spec_marca_norm(b) is None,
    ensures
        spec_delta_marca(a, b) == 0,
        spec_marcas_iguales(a, b),
{
}

/// El ajuste sólo resta cuando las marcas no son compatibles.
pub proof fn ley_delta_negativo_sii_marcas_distintas(a: Option<Seq<char>>, b: Option<Seq<char>>)
    ensures
        spec_delta_marca(a, b) < 0 <==> !spec_marcas_iguales(a, b),
{
}

/// Subir el puntaje nunca hace que deje de sugerirse.
pub proof fn ley_umbral_monotono(a: u32, b: u32)
    requires
        a <= b,
        a >= UMBRAL_AMARILLO,
    ensures
        b >= UMBRAL_AMARILLO,
{
}

} // verus!
