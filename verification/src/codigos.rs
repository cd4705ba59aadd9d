//! Códigos de barras por producto: normalización, validación y
//! traducción del error de duplicado que impone SQLite.
//!
//! El código se guarda siempre NORMALIZADO (sin espacios ni guiones,
//! en mayúsculas ASCII) o ausente: una cadena vacía nunca se guarda.

use vstd::prelude::*;
use crate::texto::{
    chars_de, contiene, contiene_exec, es_espacio, es_espacio_exec, es_grafico_ascii,
    es_minuscula_ascii, excede_bytes_utf8, largo_utf8, mayus_ascii, mayus_ascii_exec, string_de,
};

verus! {

/// Caracteres que sobreviven a la normalización, ya en mayúsculas.
pub open spec fn codigo_limpio(s: Seq<char>) -> Seq<char>
    decreases s.len(),
{
    if s.len() == 0 {
        Seq::empty()
    } else {
        let previo = codigo_limpio(s.drop_last());
        let c = s.last();
        if es_espacio(c) || c == '-' {
            previo
        } else {
            previo.push(mayus_ascii(c))
        }
    }
}

/// Resultado de normalizar un código opcional: ausente si no queda nada.
pub open spec fn spec_normalizar_codigo(raw: Option<Seq<char>>) -> Option<Seq<char>> {
    match raw {
        None => None,
        Some(s) => if codigo_limpio(s).len() == 0 {
            None
        } else {
            Some(codigo_limpio(s))
        },
    }
}

pub open spec fn vista_str(o: Option<&str>) -> Option<Seq<char>> {
    match o {
        None => None,
        Some(s) => Some(s@),
    }
}

pub open spec fn vista_string(o: Option<String>) -> Option<Seq<char>> {
    match o {
        None => None,
        Some(s) => Some(s@),
    }
}

fn limpiar_chars(v: &Vec<char>) -> (r: Vec<char>)
    ensures
        r@ == codigo_limpio(v@),
{
    let mut out: Vec<char> = Vec::new();
    let mut i: usize = 0;
    while i < v.len()
        invariant
            i <= v.len(),
            out@ == codigo_limpio(v@.subrange(0, i as int)),
        decreases v.len() - i,
    {
        let c = v[i];
        assert(v@.subrange(0, i + 1).drop_last() =~= v@.subrange(0, i as int));
        if !(es_espacio_exec(c) || c == '-') {
            out.push(mayus_ascii_exec(c));
        }
        i = i + 1;
    }
    assert(v@.subrange(0, v@.len() as int) =~= v@);
    out
}

/// Normaliza un código opcional tal como viene del formulario, el CSV o
/// el escáner: se quitan espacios (Unicode) y guiones, las minúsculas
/// ASCII pasan a mayúsculas, y si no queda nada el resultado es `None`.
pub fn normalizar_codigo_barras(raw: Option<&str>) -> (r: Option<String>)
    ensures
        vista_string(r) == spec_normalizar_codigo(vista_str(raw)),
{
    match raw {
        None => None,
        Some(s) => {
            let v = chars_de(s);
            let limpio = limpiar_chars(&v);
            if limpio.len() == 0 {
                None
            } else {
                Some(string_de(&limpio))
            }
        },
    }
}

/// Variante para el código obligatorio que manda el escáner.
pub fn normalizar_codigo_obligatorio(raw: &str) -> (r: Option<String>)
    ensures
        vista_string(r) == spec_normalizar_codigo(Some(raw@)),
{
    normalizar_codigo_barras(Some(raw))
}

/// Largo máximo en bytes UTF-8 de un código.
pub const LARGO_MAXIMO_CODIGO: usize = 64;

pub open spec fn todo_grafico_ascii(s: Seq<char>) -> bool {
    forall|i: int| 0 <= i < s.len() ==> es_grafico_ascii(#[trigger] s[i])
}

/// Mensaje cuando el código excede el largo permitido.
pub open spec fn msg_codigo_largo() -> Seq<char> {
    "El código de barras no puede pasar de 64 caracteres."@
}

/// Mensaje cuando el código trae caracteres fuera de ASCII gráfico.
pub open spec fn msg_codigo_invalido() -> Seq<char> {
    "El código de barras tiene caracteres no válidos."@
}

/// Valida un código YA normalizado: a lo más 64 bytes y solo ASCII gráfico.
pub fn validar_codigo_barras(codigo: &Option<String>) -> (r: Result<(), String>)
    ensures
        match codigo {
            None => r is Ok,
            Some(c) => match r {
                Ok(_) => largo_utf8(c@) <= 64 && todo_grafico_ascii(c@),
                Err(e) => if largo_utf8(c@) > 64 {
                    e@ == msg_codigo_largo()
                } else {
                    !todo_grafico_ascii(c@) && e@ == msg_codigo_invalido()
                },
            },
        },
{
    match codigo {
        None => Ok(()),
        Some(c) => {
            let v = chars_de(c.as_str());
            if excede_bytes_utf8(&v, LARGO_MAXIMO_CODIGO) {
                return Err("El código de barras no puede pasar de 64 caracteres.".to_owned());
            }
            let mut i: usize = 0;
            while i < v.len()
                invariant
                    *codigo == Some(*c),
                    v@ == c@,
                    largo_utf8(c@) <= 64,
                    i <= v.len(),
                    forall|j: int| 0 <= j < i ==> es_grafico_ascii(#[trigger] v@[j]),
                decreases v.len() - i,
            {
                if !('!' <= v[i] && v[i] <= '~') {
                    assert(!es_grafico_ascii(v@[i as int]));
                    return Err("El código de barras tiene caracteres no válidos.".to_owned());
                }
                i = i + 1;
            }
            Ok(())
        },
    }
}

pub open spec fn spec_es_duplicado(msg: Seq<char>) -> bool {
    contiene(msg, "idx_productos_codigo_barras"@) || (contiene(msg, "UNIQUE constraint failed"@)
        && contiene(msg, "productos.codigo_barras"@))
}

/// ¿El error crudo de SQLite es por código de barras duplicado?
pub fn es_error_codigo_duplicado(msg: &str) -> (b: bool)
    ensures
        b == spec_es_duplicado(msg@),
{
    let m = chars_de(msg);
    let indice = chars_de("idx_productos_codigo_barras");
    let unico = chars_de("UNIQUE constraint failed");
    let columna = chars_de("productos.codigo_barras");
    contiene_exec(&m, &indice) || (contiene_exec(&m, &unico) && contiene_exec(&m, &columna))
}

pub open spec fn msg_codigo_duplicado() -> Seq<char> {
    "El código de barras ya está registrado en otro producto."@
}

/// Traduce el texto del error de SQLite a un mensaje para el tendero.
pub fn mensaje_error_codigo(msg: &str) -> (r: String)
    ensures
        r@ == if spec_es_duplicado(msg@) {
            msg_codigo_duplicado()
        } else {
            msg@
        },
{
    if es_error_codigo_duplicado(msg) {
        "El código de barras ya está registrado en otro producto.".to_owned()
    } else {
        msg.to_owned()
    }
}

/// El código que se termina pegando al confirmar un pendiente: el que
/// manda el operador si lo manda, si no el del pendiente; normalizado.
pub fn ean_final(ean_override: Option<&str>, ean_pend: Option<String>) -> (r: Result<
    Option<String>,
    String,
>)
    ensures
        match r {
            Ok(o) => vista_string(o) == spec_normalizar_codigo(
                match ean_override {
                    Some(s) => Some(s@),
                    None => vista_string(ean_pend),
                },
            ),
            Err(_) => false,
        },
{
    match ean_override {
        Some(s) => Ok(normalizar_codigo_barras(Some(s))),
        None => match ean_pend {
            Some(p) => Ok(normalizar_codigo_barras(Some(p.as_str()))),
            None => Ok(None),
        },
    }
}

/// Normalizar dos veces da lo mismo que normalizar una.
pub proof fn ley_normalizar_idempotente(s: Seq<char>)
    ensures
        codigo_limpio(codigo_limpio(s)) == codigo_limpio(s),
    decreases s.len(),
{
    if s.len() > 0 {
        ley_normalizar_idempotente(s.drop_last());
        let c = s.last();
        let previo = codigo_limpio(s.drop_last());
        if !(es_espacio(c) || c == '-') {
            let m = mayus_ascii(c);
            assert(previo.push(m).drop_last() =~= previo);
            assert(!es_espacio(m) && m != '-');
            assert(mayus_ascii(m) == m);
        }
    }
}

/// Un código normalizado no trae espacios, guiones ni minúsculas ASCII.
pub proof fn ley_normalizado_sin_separadores(s: Seq<char>)
    ensures
        forall|i: int|
            0 <= i < codigo_limpio(s).len() ==> {
                let c = #[trigger] codigo_limpio(s)[i];
                !es_espacio(c) && c != '-' && !es_minuscula_ascii(c)
            },
    decreases s.len(),
{
    if s.len() > 0 {
        ley_normalizar_idempotente(s.drop_last());
        ley_normalizado_sin_separadores(s.drop_last());
    }
}

} // verus!
