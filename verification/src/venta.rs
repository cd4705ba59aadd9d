//! Reglas del cobro de una venta: cuándo se acepta y con qué etiqueta de
//! método de pago queda registrada. Montos en centavos: la comparación
//! entre lo pagado y el total es exacta.

use vstd::prelude::*;

verus! {

/// Etiqueta del método de pago según qué montos son positivos.
pub open spec fn spec_metodo_pago(efectivo: int, tarjeta: int, transferencia: int) -> Seq<char> {
    if efectivo > 0 && tarjeta > 0 && transferencia > 0 {
        "mixto"@
    } else if efectivo > 0 && tarjeta > 0 {
        "efectivo/tarjeta"@
    } else if efectivo > 0 && transferencia > 0 {
        "efectivo/transferencia"@
    } else if tarjeta > 0 && transferencia > 0 {
        "tarjeta/transferencia"@
    } else if tarjeta > 0 {
        "tarjeta"@
    } else if transferencia > 0 {
        "transferencia"@
    } else {
        "efectivo"@
    }
}

/// Método de pago con que queda registrada la venta.
pub fn metodo_pago(efectivo: i64, tarjeta: i64, transferencia: i64) -> (r: &'static str)
    ensures
        r@ == spec_metodo_pago(efectivo as int, tarjeta as int, transferencia as int),
{
    if efectivo > 0 && tarjeta > 0 && transferencia > 0 {
        "mixto"
    } else if efectivo > 0 && tarjeta > 0 {
        "efectivo/tarjeta"
    } else if efectivo > 0 && transferencia > 0 {
        "efectivo/transferencia"
    } else if tarjeta > 0 && transferencia > 0 {
        "tarjeta/transferencia"
    } else if tarjeta > 0 {
        "tarjeta"
    } else if transferencia > 0 {
        "transferencia"
    } else {
        "efectivo"
    }
}

/// Revisa una venta antes de guardarla: trae productos y lo pagado
/// (efectivo + tarjeta + transferencia) cubre el total. Devuelve el
/// método de pago.
pub fn validar_venta(n_items: usize, efectivo: i64, tarjeta: i64, transferencia: i64, total: i64) -> (r: Result<
    &'static str,
    String,
>)
    ensures
        match r {
            Ok(m) => n_items > 0 && efectivo + tarjeta + transferencia >= total && m@ == spec_metodo_pago(
                efectivo as int,
                tarjeta as int,
                transferencia as int,
            ),
            Err(e) => if n_items == 0 {
                e@ == "No hay productos en la venta"@
            } else {
                efectivo + tarjeta + transferencia < total && e@ == "El monto pagado es menor al total"@
            },
        },
{
    if n_items == 0 {
        return Err("No hay productos en la venta".to_owned());
    }
    let pagado: i128 = efectivo as i128 + tarjeta as i128 + transferencia as i128;
    if pagado < total as i128 {
        return Err("El monto pagado es menor al total".to_owned());
    }
    Ok(metodo_pago(efectivo, tarjeta, transferencia))
}

/// Número del siguiente ticket: el mayor id más uno (1 si no hay ventas).
pub fn siguiente_ticket(max_id: Option<i64>) -> (r: i64)
    requires
        max_id is Some ==> max_id->0 < i64::MAX,
    ensures
        r == (match max_id {
            Some(m) => m + 1,
            None => 1,
        }),
{
    match max_id {
        Some(m) => m + 1,
        None => 1,
    }
}

/// Sin ningún monto positivo la venta queda registrada como efectivo.
pub proof fn ley_metodo_sin_montos(efectivo: int, tarjeta: int, transferencia: int)
    requires
        efectivo <= 0,
        tarjeta <= 0,
        transferencia <= 0,
    ensures
        spec_metodo_pago(efectivo, tarjeta, transferencia) == "efectivo"@,
{
}

} // verus!
