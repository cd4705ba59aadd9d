//! Recepción de mercancía y pago al proveedor: validación de renglones,
//! costo sugerido desde el catálogo y el egreso que se registra en caja.
//! Dinero en centavos; cantidades en milésimas de unidad.

use vstd::prelude::*;
use crate::texto::{anexar, anexar_str, chars_de, contiene, contiene_exec, es_texto, recortado, string_de};
use crate::formato::{dec_entero, entero_exec};
use crate::ticket_venta::limpiar;

verus! {

/// Un renglón de la compra tal como llega del frontend.
pub struct ItemCompraRequest {
    pub producto_id: Option<i64>,
    pub nombre: String,
    pub presentacion: String,
    /// Milésimas de unidad.
    pub cantidad: i64,
}

pub open spec fn presentacion_valida(p: Seq<char>) -> bool {
    p == "unidad"@ || p == "paquete"@
}

pub open spec fn error_item(it: ItemCompraRequest) -> Option<Seq<char>> {
    let nombre = recortado(it.nombre@);
    if nombre.len() == 0 {
        Some("Hay un renglón sin producto."@)
    } else if !presentacion_valida(it.presentacion@) {
        Some("Presentación inválida en '"@ + nombre + "': usa unidad o paquete."@)
    } else if it.cantidad <= 0 {
        Some("Cantidad inválida en '"@ + nombre + "'."@)
    } else {
        None
    }
}

/// Un renglón con producto, presentación unidad/paquete y cantidad
/// positiva; devuelve el nombre recortado y la cantidad.
pub fn validar_item(it: &ItemCompraRequest) -> (r: Result<(String, i64), String>)
    ensures
        match r {
            Ok((n, c)) => error_item(*it) is None && n@ == recortado(it.nombre@) && c == it.cantidad,
            Err(e) => error_item(*it) == Some(e@),
        },
{
    let nombre = limpiar(it.nombre.as_str());
    if nombre.as_str().is_empty() {
        return Err("Hay un renglón sin producto.".to_owned());
    }
    let p = chars_de(it.presentacion.as_str());
    if !es_texto(&p, "unidad") && !es_texto(&p, "paquete") {
        let mut e: Vec<char> = Vec::new();
        anexar_str(&mut e, "Presentación inválida en '");
        anexar(&mut e, &chars_de(nombre.as_str()));
        anexar_str(&mut e, "': usa unidad o paquete.");
        return Err(string_de(&e));
    }
    if it.cantidad <= 0 {
        let mut e: Vec<char> = Vec::new();
        anexar_str(&mut e, "Cantidad inválida en '");
        anexar(&mut e, &chars_de(nombre.as_str()));
        anexar_str(&mut e, "'.");
        return Err(string_de(&e));
    }
    Ok((nombre, it.cantidad))
}

/// Lo que se revisa antes de tocar la base: hay renglones y el monto
/// pagado (centavos) no es negativo.
pub fn validar_compra(n_items: usize, monto_pagado: i64) -> (r: Result<(), String>)
    ensures
        match r {
            Ok(_) => n_items > 0 && monto_pagado >= 0,
            Err(e) => if n_items == 0 {
                e@ == "La compra no trae productos."@
            } else {
                monto_pagado < 0 && e@ == "Monto pagado inválido."@
            },
        },
{
    if n_items == 0 {
        return Err("La compra no trae productos.".to_owned());
    }
    if monto_pagado < 0 {
        return Err("Monto pagado inválido.".to_owned());
    }
    Ok(())
}

/// Renglón del catálogo: (id, nombre normalizado, costo en centavos).
pub open spec fn indice_id(cat: Seq<(i64, String, i64)>, id: i64) -> int
    decreases cat.len(),
{
    if cat.len() == 0 {
        -1
    } else if indice_id(cat.drop_last(), id) >= 0 {
        indice_id(cat.drop_last(), id)
    } else if cat.last().0 == id {
        cat.len() - 1
    } else {
        -1
    }
}

/// Cuántos renglones del catálogo tienen ese nombre normalizado.
pub open spec fn cuantos_con_nombre(cat: Seq<(i64, String, i64)>, norm: Seq<char>) -> nat
    decreases cat.len(),
{
    if cat.len() == 0 {
        0
    } else {
        cuantos_con_nombre(cat.drop_last(), norm) + if cat.last().1@ == norm {
            1nat
        } else {
            0nat
        }
    }
}

/// Costo del único renglón con ese nombre (el último que lo tenga).
pub open spec fn costo_por_nombre(cat: Seq<(i64, String, i64)>, norm: Seq<char>) -> int
    decreases cat.len(),
{
    if cat.len() == 0 {
        0
    } else if cat.last().1@ == norm {
        cat.last().2 as int
    } else {
        costo_por_nombre(cat.drop_last(), norm)
    }
}

/// Costo para el sugerido: el del producto por id si existe; si no, el
/// del nombre normalizado cuando no es ambiguo; si no, 0.
pub open spec fn spec_costo_de(cat: Seq<(i64, String, i64)>, pid: Option<i64>, norm: Seq<char>) -> int {
    if pid is Some && indice_id(cat, pid->0) >= 0 {
        cat[indice_id(cat, pid->0)].2 as int
    } else if cuantos_con_nombre(cat, norm) == 1 {
        costo_por_nombre(cat, norm)
    } else {
        0
    }
}

pub proof fn lema_indice_id(cat: Seq<(i64, String, i64)>, id: i64)
    ensures
        -1 <= indice_id(cat, id) < cat.len(),
        indice_id(cat, id) >= 0 ==> cat[indice_id(cat, id)].0 == id,
        indice_id(cat, id) < 0 ==> forall|k: int| 0 <= k < cat.len() ==> cat[k].0 != id,
    decreases cat.len(),
{
    if cat.len() > 0 {
        lema_indice_id(cat.drop_last(), id);
        if indice_id(cat.drop_last(), id) < 0 {
            assert forall|k: int| 0 <= k < cat.len() - 1 implies cat[k].0 != id by {
                assert(cat.drop_last()[k] == cat[k]);
            }
        } else {
            assert(cat.drop_last()[indice_id(cat.drop_last(), id)] == cat[indice_id(cat.drop_last(), id)]);
        }
    }
}

/// Costo sugerido para un renglón de la compra.
pub fn costo_de(catalogo: &Vec<(i64, String, i64)>, pid: Option<i64>, norm: &str) -> (r: i64)
    ensures
        r == spec_costo_de(catalogo@, pid, norm@),
{
    let n = chars_de(norm);
    let mut idx: Option<usize> = None;
    let mut cuantos: usize = 0;
    let mut costo_nombre: i64 = 0;
    let mut i: usize = 0;
    while i < catalogo.len()
        invariant
            i <= catalogo.len(),
            n@ == norm@,
            cuantos == cuantos_con_nombre(catalogo@.take(i as int), norm@),
            cuantos <= i,
            costo_nombre == costo_por_nombre(catalogo@.take(i as int), norm@),
            match idx {
                Some(k) => pid is Some && k < i && k as int == indice_id(catalogo@.take(i as int), pid->0),
                None => pid is None || indice_id(catalogo@.take(i as int), pid->0) == -1,
            },
        decreases catalogo.len() - i,
    {
        let fila = &catalogo[i];
        assert(catalogo@.take(i + 1).drop_last() =~= catalogo@.take(i as int));
        assert(catalogo@.take(i + 1).last() == *fila);
        match pid {
            Some(id) => {
                if idx.is_none() && fila.0 == id {
                    idx = Some(i);
                }
            },
            None => {},
        }
        let nf = chars_de(fila.1.as_str());
        if crate::texto::iguales(&nf, &n) {
            cuantos = cuantos + 1;
            costo_nombre = fila.2;
        }
        i = i + 1;
    }
    assert(catalogo@.take(catalogo.len() as int) =~= catalogo@);
    match idx {
        Some(k) => {
            proof {
                lema_indice_id(catalogo@, pid->0);
            }
            catalogo[k].2
        },
        None => {
            if cuantos == 1 {
                costo_nombre
            } else {
                0
            }
        },
    }
}

proof fn lema_producto_i64(a: i64, b: i64)
    ensures
        -0x4000_0000_0000_0000_0000_0000_0000_0000 <= a * b <= 0x4000_0000_0000_0000_0000_0000_0000_0000,
{
    assert(-0x4000_0000_0000_0000_0000_0000_0000_0000 <= a * b <= 0x4000_0000_0000_0000_0000_0000_0000_0000)
        by (nonlinear_arith)
        requires
            -0x8000_0000_0000_0000 <= a <= 0x7fff_ffff_ffff_ffff,
            -0x8000_0000_0000_0000 <= b <= 0x7fff_ffff_ffff_ffff,
    ;
}

/// Redondeo al entero más cercano (mitades lejos de cero) de `n / 1000`.
pub open spec fn redondeo_mil(n: int) -> int {
    if n >= 0 {
        (n + 500) / 1000
    } else {
        -((-n + 500) / 1000)
    }
}

/// Monto sugerido de un renglón en centavos: cantidad (milésimas) por costo.
pub fn sugerido_renglon(cantidad: i64, costo: i64) -> (r: i128)
    ensures
        r == redondeo_mil(cantidad * costo),
{
    proof {
        lema_producto_i64(cantidad, costo);
    }
    let n: i128 = (cantidad as i128) * (costo as i128);
    if n >= 0 {
        (n + 500) / 1000
    } else {
        0 - ((0 - n + 500) / 1000)
    }
}

/// Qué pasa con el pago en caja.
#[derive(PartialEq, Eq, Structural)]
pub enum Egreso {
    /// No se pagó nada: no hay egreso.
    Ninguno,
    /// Retiro contra el corte abierto del cajero.
    Retiro(i64),
    /// Se pagó pero no había corte abierto: el egreso queda pendiente.
    Pendiente,
}

/// El egreso sólo se registra si se pagó algo y hay un corte abierto;
/// nunca se inventa un corte.
pub fn decidir_egreso(monto_pagado: i64, corte_abierto: Option<i64>) -> (r: Egreso)
    ensures
        r == (if monto_pagado <= 0 {
            Egreso::Ninguno
        } else {
            match corte_abierto {
                Some(c) => Egreso::Retiro(c),
                None => Egreso::Pendiente,
            }
        }),
{
    if monto_pagado <= 0 {
        Egreso::Ninguno
    } else {
        match corte_abierto {
            Some(c) => Egreso::Retiro(c),
            None => Egreso::Pendiente,
        }
    }
}

/// Concepto del retiro: `Compra #<id> · <proveedor>`.
pub fn concepto_compra(compra_id: i64, proveedor: &str) -> (r: String)
    ensures
        r@ == "Compra #"@ + dec_entero(compra_id as int) + " · "@ + proveedor@,
{
    let mut v: Vec<char> = Vec::new();
    anexar_str(&mut v, "Compra #");
    anexar(&mut v, &entero_exec(compra_id));
    anexar_str(&mut v, " · ");
    anexar(&mut v, &chars_de(proveedor));
    string_de(&v)
}

/// Página del historial: entre 1 y 500 renglones, desde un desplazamiento
/// no negativo.
pub fn paginacion(limit: i64, offset: i64) -> (r: (i64, i64))
    ensures
        r.0 == (if limit < 1 { 1 } else if limit > 500 { 500 } else { limit }),
        r.1 == (if offset < 0 { 0 } else { offset }),
{
    let l = if limit < 1 {
        1
    } else if limit > 500 {
        500
    } else {
        limit
    };
    let o = if offset < 0 {
        0
    } else {
        offset
    };
    (l, o)
}

/// Sugerencia de pago por nombre normalizado: el costo sólo cuenta si el
/// nombre no es ambiguo; sin costo positivo no hay recomendación. El
/// total sale en milésimas de centavo (costo en centavos por cantidad
/// en milésimas).
pub fn sugerir_pago(catalogo: &Vec<(i64, String, i64)>, norm: &str, cantidad: i64) -> (r: Result<
    (Option<i128>, i64),
    String,
>)
    ensures
        match r {
            Err(e) => cantidad <= 0 && e@ == "Cantidad inválida."@,
            Ok((sug, costo)) => {
                &&& cantidad > 0
                &&& costo == (if cuantos_con_nombre(catalogo@, norm@) == 1 {
                    costo_por_nombre(catalogo@, norm@)
                } else {
                    0
                })
                &&& sug == (if costo > 0 { Some((costo * cantidad) as i128) } else { None })
            },
        },
{
    if cantidad <= 0 {
        return Err("Cantidad inválida.".to_owned());
    }
    let costo = costo_de(catalogo, None, norm);
    proof {
        lema_producto_i64(costo, cantidad);
    }
    if costo > 0 {
        Ok((Some((costo as i128) * (cantidad as i128)), costo))
    } else {
        Ok((None, costo))
    }
}

/// Nombre del proveedor: recortado y obligatorio.
pub fn validar_nombre_proveedor(nombre: &str) -> (r: Result<String, String>)
    ensures
        match r {
            Ok(n) => recortado(nombre@).len() > 0 && n@ == recortado(nombre@),
            Err(e) => recortado(nombre@).len() == 0 && e@ == "Escribe el nombre del proveedor."@,
        },
{
    let n = limpiar(nombre);
    if n.as_str().is_empty() {
        Err("Escribe el nombre del proveedor.".to_owned())
    } else {
        Ok(n)
    }
}

/// Traduce el error de SQLite al guardar un proveedor: el nombre
/// duplicado se explica; lo demás pasa tal cual.
pub fn mensaje_error_proveedor(msg: &str) -> (r: String)
    ensures
        r@ == (if contiene(msg@, "idx_proveedores_nombre"@) || contiene(msg@, "proveedores.nombre"@) {
            "Ese proveedor ya está registrado."@
        } else {
            msg@
        }),
{
    let m = chars_de(msg);
    if contiene_exec(&m, &chars_de("idx_proveedores_nombre")) || contiene_exec(&m, &chars_de("proveedores.nombre")) {
        "Ese proveedor ya está registrado.".to_owned()
    } else {
        msg.to_owned()
    }
}


/// ¿Hay en el catálogo un producto con ese id?
fn existe_id(catalogo: &Vec<(i64, String, i64)>, id: i64) -> (r: bool)
    ensures
        r == (indice_id(catalogo@, id) >= 0),
{
    proof {
        lema_indice_id(catalogo@, id);
    }
    let mut i: usize = 0;
    while i < catalogo.len()
        invariant
            i <= catalogo.len(),
            forall|k: int| 0 <= k < i ==> catalogo@[k].0 != id,
            -1 <= indice_id(catalogo@, id) < catalogo@.len(),
            indice_id(catalogo@, id) >= 0 ==> catalogo@[indice_id(catalogo@, id)].0 == id,
            indice_id(catalogo@, id) < 0 ==> forall|k: int| 0 <= k < catalogo@.len() ==> catalogo@[k].0 != id,
        decreases catalogo.len() - i,
    {
        if catalogo[i].0 == id {
            return true;
        }
        i = i + 1;
    }
    false
}

/// Un renglón validado de la compra, con el costo que se sugiere.
pub struct RenglonCompra {
    pub producto_id: Option<i64>,
    /// Nombre recortado.
    pub nombre: String,
    pub presentacion: String,
    /// Milésimas de unidad.
    pub cantidad: i64,
    /// Centavos por unidad.
    pub costo: i64,
}

/// Un producto pedido por id tiene que seguir en el inventario.
pub open spec fn error_existencia(cat: Seq<(i64, String, i64)>, it: ItemCompraRequest) -> Option<Seq<char>> {
    if it.producto_id is Some && indice_id(cat, it.producto_id->0) < 0 {
        Some("El producto '"@ + recortado(it.nombre@) + "' ya no existe en inventario."@)
    } else {
        None
    }
}

/// El primer error de los renglones, en orden: el del renglón mismo y
/// luego el de un producto que ya no existe.
pub open spec fn error_renglones(cat: Seq<(i64, String, i64)>, items: Seq<ItemCompraRequest>) -> Option<Seq<char>>
    decreases items.len(),
{
    if items.len() == 0 {
        None
    } else {
        match error_renglones(cat, items.drop_last()) {
            Some(e) => Some(e),
            None => match error_item(items.last()) {
                Some(e) => Some(e),
                None => error_existencia(cat, items.last()),
            },
        }
    }
}

/// Suma de lo sugerido por renglón (centavos).
pub open spec fn total_sugerido(
    cat: Seq<(i64, String, i64)>,
    items: Seq<ItemCompraRequest>,
    normas: Seq<Seq<char>>,
) -> int
    decreases items.len(),
{
    if items.len() == 0 || normas.len() == 0 {
        0
    } else {
        total_sugerido(cat, items.drop_last(), normas.drop_last()) + redondeo_mil(
            items.last().cantidad * spec_costo_de(cat, items.last().producto_id, normas.last()),
        )
    }
}

pub open spec fn renglon_de(r: RenglonCompra, it: ItemCompraRequest, cat: Seq<(i64, String, i64)>, norma: Seq<char>) -> bool {
    &&& r.producto_id == it.producto_id
    &&& r.nombre@ == recortado(it.nombre@)
    &&& r.presentacion@ == it.presentacion@
    &&& r.cantidad == it.cantidad
    &&& r.costo == spec_costo_de(cat, it.producto_id, norma)
}

/// Mientras los renglones van siendo válidos, la suma sugerida cabe en
/// `i64` (la columna donde se guarda).
pub open spec fn sugerido_cabe(
    cat: Seq<(i64, String, i64)>,
    items: Seq<ItemCompraRequest>,
    normas: Seq<Seq<char>>,
) -> bool {
    forall|k: int|
        0 <= k <= items.len() && error_renglones(cat, #[trigger] items.take(k)) is None ==> i64::MIN
            <= total_sugerido(cat, items.take(k), normas.take(k)) <= i64::MAX
}

/// Valida los renglones de una compra en orden y arma lo que se guarda:
/// cada renglón con su costo del catálogo y el total sugerido (suma de
/// cantidad por costo, redondeada por renglón). `normas` trae el nombre
/// normalizado de cada renglón; el catálogo, (id, nombre normalizado,
/// costo) de cada producto. El primer renglón inválido es el error.
pub fn preparar_compra(
    catalogo: &Vec<(i64, String, i64)>,
    items: &Vec<ItemCompraRequest>,
    normas: &Vec<String>,
) -> (r: Result<(Vec<RenglonCompra>, i64), String>)
    requires
        normas@.len() == items@.len(),
        sugerido_cabe(catalogo@, items@, normas@.map_values(|s: String| s@)),
    ensures
        match r {
            Ok((rs, total)) => {
                &&& error_renglones(catalogo@, items@) is None
                &&& rs@.len() == items@.len()
                &&& forall|i: int|
                    0 <= i < rs@.len() ==> renglon_de(#[trigger] rs@[i], items@[i], catalogo@, normas@[i]@)
                &&& total == total_sugerido(catalogo@, items@, normas@.map_values(|s: String| s@))
            },
            Err(e) => error_renglones(catalogo@, items@) == Some(e@),
        },
{
    let ghost nv = normas@.map_values(|s: String| s@);
    let mut rs: Vec<RenglonCompra> = Vec::new();
    let mut total: i128 = 0;
    let mut k: usize = 0;
    assert(items@.take(0) =~= Seq::<ItemCompraRequest>::empty());
    while k < items.len()
        invariant
            k <= items.len(),
            normas@.len() == items@.len(),
            nv == normas@.map_values(|s: String| s@),
            sugerido_cabe(catalogo@, items@, nv),
            error_renglones(catalogo@, items@.take(k as int)) is None,
            rs@.len() == k,
            forall|i: int| 0 <= i < k ==> renglon_de(#[trigger] rs@[i], items@[i], catalogo@, normas@[i]@),
            total == total_sugerido(catalogo@, items@.take(k as int), nv.take(k as int)),
            i64::MIN <= total <= i64::MAX,
        decreases items.len() - k,
    {
        let it = &items[k];
        let ghost pre = items@.take(k as int);
        let ghost pre1 = items@.take(k + 1);
        assert(pre1.drop_last() =~= pre);
        assert(pre1.last() == items@[k as int]);
        assert(nv.take(k + 1).drop_last() =~= nv.take(k as int));
        assert(nv.take(k + 1).last() == normas@[k as int]@);
        let (nombre, cantidad) = match validar_item(it) {
            Ok(v) => v,
            Err(e) => {
                proof {
                    lema_error_prefijo(catalogo@, items@, k as int + 1);
                }
                return Err(e);
            },
        };
        let costo = costo_de(catalogo, it.producto_id, normas[k].as_str());
        match it.producto_id {
            Some(id) => {
                if !existe_id(catalogo, id) {
                    let mut e: Vec<char> = Vec::new();
                    anexar_str(&mut e, "El producto '");
                    anexar(&mut e, &chars_de(nombre.as_str()));
                    anexar_str(&mut e, "' ya no existe en inventario.");
                    proof {
                        lema_error_prefijo(catalogo@, items@, k as int + 1);
                    }
                    return Err(string_de(&e));
                }
            },
            None => {},
        }
        let sug = sugerido_renglon(cantidad, costo);
        proof {
            assert(error_renglones(catalogo@, pre1) is None);
            assert(0 <= k + 1 <= items@.len());
            assert(i64::MIN <= total_sugerido(catalogo@, items@.take(k + 1), nv.take(k + 1)) <= i64::MAX);
            assert(total_sugerido(catalogo@, pre1, nv.take(k + 1)) == total + sug);
        }
        total = total + sug;
        rs.push(
            RenglonCompra {
                producto_id: it.producto_id,
                nombre,
                presentacion: it.presentacion.clone(),
                cantidad,
                costo,
            },
        );
        k = k + 1;
    }
    assert(items@.take(items@.len() as int) =~= items@);
    assert(nv.take(items@.len() as int) =~= nv);
    Ok((rs, total as i64))
}

/// Un error en un prefijo es el error de toda la lista.
proof fn lema_error_prefijo(cat: Seq<(i64, String, i64)>, items: Seq<ItemCompraRequest>, k: int)
    requires
        0 <= k <= items.len(),
        error_renglones(cat, items.take(k)) is Some,
    ensures
        error_renglones(cat, items) == error_renglones(cat, items.take(k)),
    decreases items.len() - k,
{
    if k < items.len() {
        assert(items.take(k + 1).drop_last() =~= items.take(k));
        lema_error_prefijo(cat, items, k + 1);
    } else {
        assert(items.take(k) =~= items);
    }
}

/// Entradas a stock de la compra: por cada renglón con producto, en orden,
/// (id del producto, milésimas que entran).
pub open spec fn spec_entradas(rs: Seq<RenglonCompra>) -> Seq<(i64, i64)>
    decreases rs.len(),
{
    if rs.len() == 0 {
        Seq::empty()
    } else {
        let previas = spec_entradas(rs.drop_last());
        match rs.last().producto_id {
            Some(id) => previas.push((id, rs.last().cantidad)),
            None => previas,
        }
    }
}

/// Lo que la compra suma al stock de cada producto del inventario.
pub fn entradas_stock(rs: &Vec<RenglonCompra>) -> (r: Vec<(i64, i64)>)
    ensures
        r@ == spec_entradas(rs@),
{
    let mut out: Vec<(i64, i64)> = Vec::new();
    let mut k: usize = 0;
    while k < rs.len()
        invariant
            k <= rs.len(),
            out@ == spec_entradas(rs@.take(k as int)),
        decreases rs.len() - k,
    {
        assert(rs@.take(k + 1).drop_last() =~= rs@.take(k as int));
        assert(rs@.take(k + 1).last() == rs@[k as int]);
        match rs[k].producto_id {
            Some(id) => {
                out.push((id, rs[k].cantidad));
            },
            None => {},
        }
        k = k + 1;
    }
    assert(rs@.take(rs@.len() as int) =~= rs@);
    out
}

} // verus!
