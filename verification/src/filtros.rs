//! Saneamiento de lo que llega del frontend: rangos de días, textos
//! opcionales y renglones de archivos CSV.

use vstd::prelude::*;
use crate::texto::{chars_de, recortado, recortar_espacios, string_de};
use crate::ticket_venta::{opcional_recortado, vista_opcion};

verus! {

/// Días de historial del rango "Todos" (unos cien años).
pub const DIAS_TODOS: i64 = 36500;

/// El horizonte de una predicción va de 1 a 365 días.
pub fn validar_horizonte_prediccion(days: i32) -> (r: Result<usize, String>)
    ensures
        match r {
            Ok(n) => 1 <= days <= 365 && n == days,
            Err(e) => !(1 <= days <= 365) && e@ == "El horizonte de predicción debe estar entre 1 y 365 días"@,
        },
{
    if days < 1 || days > 365 {
        return Err("El horizonte de predicción debe estar entre 1 y 365 días".to_owned());
    }
    Ok(days as usize)
}

pub open spec fn acotado(d: int) -> int {
    if d < 1 {
        1
    } else if d > DIAS_TODOS {
        DIAS_TODOS as int
    } else {
        d
    }
}

/// Días válidos para los filtros: [1, DIAS_TODOS]; sin dato, 1.
pub fn normalizar_dias(dias: Option<i64>) -> (r: i64)
    ensures
        r == acotado(
            match dias {
                Some(d) => d as int,
                None => 1,
            },
        ),
{
    match dias {
        Some(d) => acotar_dias(d),
        None => 1,
    }
}

/// Recorta días al rango [1, DIAS_TODOS].
pub fn acotar_dias(dias: i64) -> (r: i64)
    ensures
        r == acotado(dias as int),
        1 <= r <= DIAS_TODOS,
{
    if dias < 1 {
        1
    } else if dias > DIAS_TODOS {
        DIAS_TODOS
    } else {
        dias
    }
}

/// Texto opcional recortado; vacío cuenta como ausente.
pub fn limpiar_opt(v: Option<String>) -> (r: Option<String>)
    ensures
        vista_opcion(r) == opcional_recortado(v),
{
    match v {
        Some(s) => {
            let t = recortar_espacios(&chars_de(s.as_str()));
            if t.len() > 0 {
                Some(string_de(&t))
            } else {
                None
            }
        },
        None => None,
    }
}

/// La contraseña tal cual (todavía sin hash).
pub fn hash_password_placeholder(pass: &str) -> (r: String)
    ensures
        r@ == pass@,
{
    pass.to_owned()
}

/// ¿Separa campos de un CSV? (coma, punto y coma o tabulador)
pub open spec fn sep_csv(c: char) -> bool {
    c == ',' || c == ';' || c == '\t'
}

/// Estado del lector tras leer `s`: (campos cerrados, campo actual, dentro de comillas).
pub open spec fn estado_csv(s: Seq<char>) -> (Seq<Seq<char>>, Seq<char>, bool)
    decreases s.len(),
{
    if s.len() == 0 {
        (Seq::empty(), Seq::empty(), false)
    } else {
        let e = estado_csv(s.drop_last());
        let ch = s.last();
        if ch == '"' {
            (e.0, e.1, !e.2)
        } else if sep_csv(ch) && !e.2 {
            let campos = if recortado(e.1).len() > 0 || e.0.len() > 0 {
                e.0.push(recortado(e.1))
            } else {
                e.0
            };
            (campos, Seq::empty(), e.2)
        } else {
            (e.0, e.1.push(ch), e.2)
        }
    }
}

/// Campos de un renglón CSV: respeta comillas, recorta cada campo y
/// descarta los vacíos del principio.
pub open spec fn spec_split_csv(s: Seq<char>) -> Seq<Seq<char>> {
    let e = estado_csv(s);
    if e.1.len() > 0 {
        e.0.push(recortado(e.1))
    } else {
        e.0
    }
}

pub open spec fn vista_textos(v: Seq<String>) -> Seq<Seq<char>> {
    v.map_values(|s: String| s@)
}

/// Parte un renglón CSV respetando campos entre comillas.
pub fn split_csv_line(line: &str) -> (r: Vec<String>)
    ensures
        vista_textos(r@) == spec_split_csv(line@),
{
    let v = chars_de(line);
    let mut fields: Vec<String> = Vec::new();
    let mut current: Vec<char> = Vec::new();
    let mut in_quotes = false;
    let mut i: usize = 0;
    assert(v@.take(0) =~= Seq::<char>::empty());
    assert(vista_textos(fields@) =~= Seq::<Seq<char>>::empty());
    while i < v.len()
        invariant
            i <= v.len(),
            estado_csv(v@.take(i as int)) == (vista_textos(fields@), current@, in_quotes),
        decreases v.len() - i,
    {
        let ch = v[i];
        assert(v@.take(i + 1).drop_last() =~= v@.take(i as int));
        assert(v@.take(i + 1).last() == ch);
        if ch == '"' {
            in_quotes = !in_quotes;
        } else if (ch == ',' || ch == ';' || ch == '\t') && !in_quotes {
            let t = recortar_espacios(&current);
            if t.len() > 0 || fields.len() > 0 {
                let ghost antes = fields@;
                let s = string_de(&t);
                fields.push(s);
                assert(vista_textos(fields@) =~= vista_textos(antes).push(t@));
            }
            current = Vec::new();
        } else {
            current.push(ch);
        }
        i = i + 1;
    }
    assert(v@.take(v.len() as int) =~= v@);
    if current.len() > 0 {
        let ghost antes = fields@;
        let t = recortar_espacios(&current);
        fields.push(string_de(&t));
        assert(vista_textos(fields@) =~= vista_textos(antes).push(t@));
    }
    fields
}

} // verus!
