//! Importación de tickets parseados: fecha de la venta, vínculo de cada
//! renglón con el inventario y el mensaje que resume el resultado.
//!
//! El vínculo es conservador: nombre normalizado exacto y no ambiguo; si
//! el nombre no existe, el producto más parecido sólo si gana con
//! claridad (puntajes de parecido en diezmilésimas).

use vstd::prelude::*;
use crate::texto::{anexar, anexar_str, chars_de, string_de};
use crate::formato::{dec, dec_exec};

verus! {

/// "YYYY-MM-DD HH:MM:SS" de la venta importada, si hay fecha.
pub open spec fn spec_fecha_iso(fecha: Option<Seq<char>>, hora: Option<Seq<char>>) -> Option<Seq<char>> {
    match fecha {
        Some(f) => if f.len() == 0 {
            None
        } else {
            match hora {
                Some(h) => if h.len() > 0 {
                    Some(f + " "@ + h + ":00"@)
                } else {
                    Some(f + " 00:00:00"@)
                },
                None => Some(f + " 00:00:00"@),
            }
        },
        None => None,
    }
}

pub open spec fn vista_texto(o: Option<String>) -> Option<Seq<char>> {
    match o {
        Some(s) => Some(s@),
        None => None,
    }
}

/// Fecha de la venta a partir de fecha y hora del ticket.
pub fn fecha_iso(fecha: Option<String>, hora: Option<String>) -> (r: Option<String>)
    ensures
        vista_texto(r) == spec_fecha_iso(vista_texto(fecha), vista_texto(hora)),
{
    match fecha {
        Some(f) => {
            if f.as_str().is_empty() {
                return None;
            }
            let mut v: Vec<char> = chars_de(f.as_str());
            match hora {
                Some(h) => {
                    if !h.as_str().is_empty() {
                        anexar_str(&mut v, " ");
                        anexar(&mut v, &chars_de(h.as_str()));
                        anexar_str(&mut v, ":00");
                    } else {
                        anexar_str(&mut v, " 00:00:00");
                    }
                },
                None => anexar_str(&mut v, " 00:00:00"),
            }
            Some(string_de(&v))
        },
        None => None,
    }
}

/// Método de pago de la venta importada: el dado o "efectivo".
pub fn metodo_o_efectivo(metodo: Option<String>) -> (r: String)
    ensures
        r@ == (match metodo {
            Some(m) => m@,
            None => "efectivo"@,
        }),
{
    match metodo {
        Some(m) => m,
        None => "efectivo".to_owned(),
    }
}

/// Resultado de buscar el nombre normalizado en el inventario.
#[derive(PartialEq, Eq, Structural)]
pub enum Coincidencia {
    /// Un solo producto con ese nombre.
    Unica(i64),
    /// Varios productos lo comparten: no se adivina.
    Ambigua,
    /// Ningún producto con ese nombre.
    Ninguna,
}

/// Clasifica los ids que comparten el nombre normalizado.
pub fn coincidencia_exacta(ids: &Vec<i64>) -> (r: Coincidencia)
    ensures
        r == (if ids@.len() == 0 {
            Coincidencia::Ninguna
        } else if ids@.len() == 1 {
            Coincidencia::Unica(ids@[0])
        } else {
            Coincidencia::Ambigua
        }),
{
    if ids.len() == 0 {
        Coincidencia::Ninguna
    } else if ids.len() == 1 {
        Coincidencia::Unica(ids[0])
    } else {
        Coincidencia::Ambigua
    }
}

/// Puntaje mínimo del ganador (0.55).
pub const PUNTAJE_MINIMO: i64 = 5500;
/// El segundo lugar debe quedar por debajo de esto (0.52).
pub const SEGUNDO_MAXIMO: i64 = 5200;

/// Mejor candidato y segundo mejor puntaje tras recorrer los puntajes.
pub open spec fn podio(ps: Seq<(i64, i64)>) -> (Option<(i64, i64)>, int)
    decreases ps.len(),
{
    if ps.len() == 0 {
        (None, 0)
    } else {
        let prev = podio(ps.drop_last());
        let (pid, score) = ps.last();
        match prev.0 {
            Some((bp, best)) => if score > best {
                (Some((pid, score)), best as int)
            } else if score > prev.1 {
                (prev.0, score as int)
            } else {
                prev
            },
            None => (Some((pid, score)), prev.1),
        }
    }
}

/// El producto más parecido, si gana con claridad.
pub open spec fn ganador_claro(ps: Seq<(i64, i64)>) -> Option<i64> {
    let p = podio(ps);
    match p.0 {
        Some((pid, best)) => if best >= PUNTAJE_MINIMO && p.1 < SEGUNDO_MAXIMO {
            Some(pid)
        } else {
            None
        },
        None => None,
    }
}

/// Producto al que se vincula un renglón: el exacto si es único; si el
/// nombre no existe, el más parecido que gane con claridad; si es
/// ambiguo, ninguno.
pub open spec fn spec_vincular(exacta: Coincidencia, puntajes: Option<Seq<(i64, i64)>>) -> Option<i64> {
    match exacta {
        Coincidencia::Unica(id) => Some(id),
        Coincidencia::Ambigua => None,
        Coincidencia::Ninguna => match puntajes {
            Some(ps) => ganador_claro(ps),
            None => None,
        },
    }
}

fn ganador_claro_exec(ps: &Vec<(i64, i64)>) -> (r: Option<i64>)
    ensures
        r == ganador_claro(ps@),
{
    let mut mejor: Option<(i64, i64)> = None;
    let mut segundo: i64 = 0;
    let mut i: usize = 0;
    assert(ps@.take(0) =~= Seq::<(i64, i64)>::empty());
    while i < ps.len()
        invariant
            i <= ps.len(),
            podio(ps@.take(i as int)) == (mejor, segundo as int),
        decreases ps.len() - i,
    {
        let (pid, score) = ps[i];
        assert(ps@.take(i + 1).drop_last() =~= ps@.take(i as int));
        assert(ps@.take(i + 1).last() == (pid, score));
        match mejor {
            Some((_, best)) => {
                if score > best {
                    segundo = best;
                    mejor = Some((pid, score));
                } else if score > segundo {
                    segundo = score;
                }
            },
            None => {
                mejor = Some((pid, score));
            },
        }
        i = i + 1;
    }
    assert(ps@.take(ps.len() as int) =~= ps@);
    match mejor {
        Some((pid, best)) => {
            if best >= PUNTAJE_MINIMO && segundo < SEGUNDO_MAXIMO {
                Some(pid)
            } else {
                None
            }
        },
        None => None,
    }
}

/// Resuelve el producto de un renglón importado. `puntajes` trae el
/// parecido (diezmilésimas) de cada producto con texto comparable, o
/// nada si el renglón no tiene texto comparable.
pub fn vincular_producto(exacta: Coincidencia, puntajes: Option<&Vec<(i64, i64)>>) -> (r: Option<i64>)
    ensures
        r == spec_vincular(
            exacta,
            match puntajes {
                Some(ps) => Some(ps@),
                None => None,
            },
        ),
{
    match exacta {
        Coincidencia::Unica(id) => Some(id),
        Coincidencia::Ambigua => None,
        Coincidencia::Ninguna => match puntajes {
            Some(ps) => ganador_claro_exec(ps),
            None => None,
        },
    }
}

/// Un empate en el primer lugar nunca se resuelve a ciegas: si dos
/// productos comparten el mejor puntaje, no hay ganador (con puntajes
/// que alcanzan el mínimo).
pub proof fn ley_empate_no_vincula(ps: Seq<(i64, i64)>, a: (i64, i64), b: (i64, i64))
    requires
        a.1 == b.1,
        a.1 >= PUNTAJE_MINIMO,
        forall|k: int| 0 <= k < ps.len() ==> #[trigger] ps[k].1 <= a.1,
    ensures
        ganador_claro(ps.push(a).push(b)) is None,
{
    lema_podio_tope(ps, a.1 as int);
    let p1 = ps.push(a);
    assert(p1.drop_last() =~= ps);
    assert(ps.push(a).push(b).drop_last() =~= p1);
    lema_podio_tope(p1, a.1 as int);
}

proof fn lema_podio_tope(ps: Seq<(i64, i64)>, tope: int)
    requires
        tope >= 0,
        forall|k: int| 0 <= k < ps.len() ==> #[trigger] ps[k].1 <= tope,
    ensures
        podio(ps).1 <= tope,
        match podio(ps).0 {
            Some((_, best)) => best <= tope,
            None => true,
        },
    decreases ps.len(),
{
    if ps.len() > 0 {
        assert forall|k: int| 0 <= k < ps.drop_last().len() implies #[trigger] ps.drop_last()[k].1 <= tope by {
            assert(ps.drop_last()[k] == ps[k]);
        }
        lema_podio_tope(ps.drop_last(), tope);
        assert(ps.last() == ps[ps.len() - 1]);
    }
}

pub open spec fn spec_mensaje_importacion(total: nat, sin_vincular: nat) -> Seq<char> {
    if sin_vincular > 0 {
        "Ticket importado ("@ + dec((total - sin_vincular) as nat) + "/"@ + dec(total)
            + " items vinculados al inventario; "@ + dec(sin_vincular) + " sin coincidencia por nombre)"@
    } else {
        "Ticket importado correctamente"@
    }
}

/// Resumen de la importación.
pub fn mensaje_importacion(total: usize, sin_vincular: usize) -> (r: String)
    requires
        sin_vincular <= total,
    ensures
        r@ == spec_mensaje_importacion(total as nat, sin_vincular as nat),
{
    if sin_vincular > 0 {
        let mut v: Vec<char> = Vec::new();
        anexar_str(&mut v, "Ticket importado (");
        anexar(&mut v, &dec_exec((total - sin_vincular) as u128));
        anexar_str(&mut v, "/");
        anexar(&mut v, &dec_exec(total as u128));
        anexar_str(&mut v, " items vinculados al inventario; ");
        anexar(&mut v, &dec_exec(sin_vincular as u128));
        anexar_str(&mut v, " sin coincidencia por nombre)");
        string_de(&v)
    } else {
        "Ticket importado correctamente".to_owned()
    }
}

} // verus!
