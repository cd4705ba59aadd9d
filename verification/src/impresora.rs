//! Reglas de los comandos de impresión: destinos, validación de lo que
//! manda el frontend y el spooler fuera de Windows (que en esta fase
//! responde con un error claro).

use vstd::prelude::*;
use crate::texto::{anexar, anexar_str, chars_de, recortado, string_de};
use crate::formato::{dec, dec_exec};
use crate::termica::{FilaConciliacion, FilaStockBajo, MAX_FILAS};
use crate::ticket_venta::{limpiar, max0, opcional_recortado, vista_opcion};

verus! {

/// Una impresora instalada en el sistema.
pub struct ImpresoraSistema {
    pub nombre: String,
    pub predeterminada: bool,
}

/// Lo que el frontend recibe de cada impresora.
pub struct ImpresoraInfo {
    pub nombre: String,
    pub predeterminada: bool,
}

/// Destino de un trabajo: el spooler del sistema o TCP directo a la térmica.
pub enum Destino {
    Spooler { nombre: String },
    Red { ip: String, puerto: u16 },
}

pub open spec fn msg_sin_raw() -> Seq<char> {
    "Impresion RAW solo disponible en Windows en Fase 1."@
}

/// Fuera de Windows, esta fase no lista impresoras: error claro.
pub fn listar_impresoras_sistema() -> (r: Result<Vec<ImpresoraSistema>, String>)
    ensures
        match r {
            Ok(_) => false,
            Err(e) => e@ == msg_sin_raw(),
        },
{
    Err("Impresion RAW solo disponible en Windows en Fase 1.".to_owned())
}

/// Fuera de Windows, esta fase no manda bytes al spooler: error claro.
pub fn enviar_bytes_raw(_nombre: &str, _bytes: &[u8]) -> (r: Result<(), String>)
    ensures
        match r {
            Ok(_) => false,
            Err(e) => e@ == msg_sin_raw(),
        },
{
    Err("Impresion RAW solo disponible en Windows en Fase 1.".to_owned())
}

/// Copia para el frontend.
pub fn a_info(i: ImpresoraSistema) -> (r: ImpresoraInfo)
    ensures
        r.nombre == i.nombre,
        r.predeterminada == i.predeterminada,
{
    ImpresoraInfo { nombre: i.nombre, predeterminada: i.predeterminada }
}

/// Nombre de impresora del spooler, recortado; vacío es error.
pub fn validar_spooler(nombre: &str) -> (r: Result<String, String>)
    ensures
        match r {
            Ok(n) => recortado(nombre@).len() > 0 && n@ == recortado(nombre@),
            Err(e) => recortado(nombre@).len() == 0 && e@ == "Elige una impresora instalada."@,
        },
{
    let n = limpiar(nombre);
    if n.as_str().is_empty() {
        Err("Elige una impresora instalada.".to_owned())
    } else {
        Ok(n)
    }
}

/// Tope de bytes de un trabajo RAW al spooler (512 KB).
pub const MAX_BYTES_RAW: usize = 524288;

/// Lo que se revisa antes de abrir el spooler de Windows, en este orden:
/// impresora elegida (nombre recortado no vacío), algo que imprimir y no
/// más de `MAX_BYTES_RAW` bytes. Devuelve el nombre recortado.
pub fn validar_envio_raw(nombre: &str, n_bytes: usize) -> (r: Result<String, String>)
    ensures
        match r {
            Ok(n) => recortado(nombre@).len() > 0 && 0 < n_bytes <= MAX_BYTES_RAW && n@ == recortado(nombre@),
            Err(e) => if recortado(nombre@).len() == 0 {
                e@ == "Elige una impresora instalada."@
            } else if n_bytes == 0 {
                e@ == "Nada que imprimir: el ticket viene vacio."@
            } else {
                n_bytes > MAX_BYTES_RAW && e@ == "Ticket demasiado grande para Fase 1 (limite 512KB)."@
            },
        },
{
    let n = validar_spooler(nombre)?;
    if n_bytes == 0 {
        return Err("Nada que imprimir: el ticket viene vacio.".to_owned());
    }
    if n_bytes > MAX_BYTES_RAW {
        return Err("Ticket demasiado grande para Fase 1 (limite 512KB).".to_owned());
    }
    Ok(n)
}

/// IP (recortada) y puerto de una térmica de red; sin IP o con puerto
/// cero es error.
pub fn validar_red(ip: &str, puerto: u16) -> (r: Result<String, String>)
    ensures
        match r {
            Ok(s) => recortado(ip@).len() > 0 && puerto != 0 && s@ == recortado(ip@),
            Err(e) => if recortado(ip@).len() == 0 {
                e@ == "Escribe la IP de la impresora de red."@
            } else {
                puerto == 0 && e@ == "Puerto invalido (tipico: 9100)."@
            },
        },
{
    let s = limpiar(ip);
    if s.as_str().is_empty() {
        return Err("Escribe la IP de la impresora de red.".to_owned());
    }
    if puerto == 0 {
        return Err("Puerto invalido (tipico: 9100).".to_owned());
    }
    Ok(s)
}

pub open spec fn error_filas(n: nat) -> Seq<char> {
    "Demasiadas filas ("@ + dec(n) + "). Limite Fase 1: "@ + dec(MAX_FILAS as nat) + ". Filtra la lista."@
}

/// Revisa un trabajo de lista: impresora elegida y entre 1 y `MAX_FILAS`
/// filas. Devuelve el nombre de la impresora recortado.
pub fn validar_lista(nombre_impresora: &str, n_filas: usize) -> (r: Result<String, String>)
    ensures
        match r {
            Ok(n) => recortado(nombre_impresora@).len() > 0 && 0 < n_filas <= MAX_FILAS && n@ == recortado(
                nombre_impresora@,
            ),
            Err(e) => if recortado(nombre_impresora@).len() == 0 {
                e@ == "Elige una impresora instalada."@
            } else if n_filas == 0 {
                e@ == "No hay filas que imprimir."@
            } else {
                n_filas > MAX_FILAS && e@ == error_filas(n_filas as nat)
            },
        },
{
    let n = limpiar(nombre_impresora);
    if n.as_str().is_empty() {
        return Err("Elige una impresora instalada.".to_owned());
    }
    if n_filas == 0 {
        return Err("No hay filas que imprimir.".to_owned());
    }
    if n_filas > MAX_FILAS {
        let mut e: Vec<char> = Vec::new();
        anexar_str(&mut e, "Demasiadas filas (");
        anexar(&mut e, &dec_exec(n_filas as u128));
        anexar_str(&mut e, "). Limite Fase 1: ");
        anexar(&mut e, &dec_exec(MAX_FILAS as u128));
        anexar_str(&mut e, ". Filtra la lista.");
        return Err(string_de(&e));
    }
    Ok(n)
}

/// Nombre de tienda del encabezado: el dado, recortado, o "MI TIENDA".
pub fn tienda_o_defecto(tienda: &Option<String>) -> (r: String)
    ensures
        r@ == (match opcional_recortado(*tienda) {
            Some(t) => t,
            None => "MI TIENDA"@,
        }),
{
    match tienda {
        Some(t) => {
            let s = limpiar(t.as_str());
            if s.as_str().is_empty() {
                "MI TIENDA".to_owned()
            } else {
                s
            }
        },
        None => "MI TIENDA".to_owned(),
    }
}

/// Fila de conciliación tal como la manda el frontend (precio en centavos).
pub struct FilaConciliacionPayload {
    pub nombre: String,
    pub fisico: i32,
    pub sistema: i32,
    pub precio_venta: i64,
}

/// Lo físico y el precio nunca negativos; el sistema se deja tal cual
/// (un negativo es la señal de sobreventa).
pub fn normalizar_filas_conciliacion(filas: Vec<FilaConciliacionPayload>) -> (r: Vec<FilaConciliacion>)
    ensures
        r@.len() == filas@.len(),
        forall|i: int| 0 <= i < filas@.len() ==> {
            &&& (#[trigger] r@[i]).nombre == filas@[i].nombre
            &&& r@[i].fisico == max0(filas@[i].fisico as int)
            &&& r@[i].sistema == filas@[i].sistema
            &&& r@[i].precio_venta == max0(filas@[i].precio_venta as int)
        },
{
    let mut out: Vec<FilaConciliacion> = Vec::new();
    let mut resto = filas;
    let ghost original = resto@;
    let mut entrada: Vec<FilaConciliacionPayload> = Vec::new();
    while resto.len() > 0
        invariant
            resto@ == original.subrange(0, original.len() - entrada@.len()),
            entrada@.len() + resto@.len() == original.len(),
            entrada@ == original.subrange(resto@.len() as int, original.len() as int).reverse(),
        decreases resto.len(),
    {
        let f = resto.pop().unwrap();
        proof {
            let k = resto@.len() as int;
            assert(original.subrange(k, original.len() as int).reverse() =~= original.subrange(k + 1, original.len() as int).reverse().push(f));
        }
        entrada.push(f);
    }
    let ghost entrada0 = entrada@;
    assert(entrada0 =~= original.reverse());
    while entrada.len() > 0
        invariant
            entrada@ == entrada0.subrange(0, entrada@.len() as int),
            entrada0 == original.reverse(),
            out@.len() + entrada@.len() == original.len(),
            forall|k: int| 0 <= k < out@.len() ==> {
                &&& (#[trigger] out@[k]).nombre == original[k].nombre
                &&& out@[k].fisico == max0(original[k].fisico as int)
                &&& out@[k].sistema == original[k].sistema
                &&& out@[k].precio_venta == max0(original[k].precio_venta as int)
            },
        decreases entrada.len(),
    {
        let f = entrada.pop().unwrap();
        let k = out.len();
        assert(f == original[k as int]);
        let fisico = if f.fisico < 0 {
            0
        } else {
            f.fisico
        };
        let precio = if f.precio_venta < 0 {
            0
        } else {
            f.precio_venta
        };
        out.push(FilaConciliacion { nombre: f.nombre, fisico, sistema: f.sistema, precio_venta: precio });
    }
    out
}

/// Fila de stock bajo tal como la manda el frontend (centésimas).
pub struct FilaStockBajoPayload {
    pub nombre: String,
    pub stock: i64,
    pub minimo: i64,
}

/// El mínimo nunca negativo; el stock se deja tal cual (un negativo es
/// la señal de reabastecer).
pub fn normalizar_filas_stock(filas: Vec<FilaStockBajoPayload>) -> (r: Vec<FilaStockBajo>)
    ensures
        r@.len() == filas@.len(),
        forall|i: int| 0 <= i < filas@.len() ==> {
            &&& (#[trigger] r@[i]).nombre == filas@[i].nombre
            &&& r@[i].stock == filas@[i].stock
            &&& r@[i].minimo == max0(filas@[i].minimo as int)
        },
{
    let mut out: Vec<FilaStockBajo> = Vec::new();
    let mut resto = filas;
    let ghost original = resto@;
    let mut entrada: Vec<FilaStockBajoPayload> = Vec::new();
    while resto.len() > 0
        invariant
            resto@ == original.subrange(0, original.len() - entrada@.len()),
            entrada@.len() + resto@.len() == original.len(),
            entrada@ == original.subrange(resto@.len() as int, original.len() as int).reverse(),
        decreases resto.len(),
    {
        let f = resto.pop().unwrap();
        proof {
            let k = resto@.len() as int;
            assert(original.subrange(k, original.len() as int).reverse() =~= original.subrange(k + 1, original.len() as int).reverse().push(f));
        }
        entrada.push(f);
    }
    let ghost entrada0 = entrada@;
    assert(entrada0 =~= original.reverse());
    while entrada.len() > 0
        invariant
            entrada@ == entrada0.subrange(0, entrada@.len() as int),
            entrada0 == original.reverse(),
            out@.len() + entrada@.len() == original.len(),
            forall|k: int| 0 <= k < out@.len() ==> {
                &&& (#[trigger] out@[k]).nombre == original[k].nombre
                &&& out@[k].stock == original[k].stock
                &&& out@[k].minimo == max0(original[k].minimo as int)
            },
        decreases entrada.len(),
    {
        let f = entrada.pop().unwrap();
        let k = out.len();
        assert(f == original[k as int]);
        let minimo = if f.minimo < 0 {
            0
        } else {
            f.minimo
        };
        out.push(FilaStockBajo { nombre: f.nombre, stock: f.stock, minimo });
    }
    out
}

} // verus!
