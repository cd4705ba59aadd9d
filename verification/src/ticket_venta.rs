//! Ticket de venta: qué se imprime, renglón por renglón.
//!
//! El ticket se describe como una lista de operaciones de impresión
//! (justificar, negrita, tamaño, renglón, QR, avance, corte) que el
//! controlador ESC/POS ejecuta. Montos: precios y pagos en centavos,
//! cantidades en milésimas, importes de línea en milésimas de centavo
//! (cantidad × precio, exacto) y redondeados al centavo al imprimirse.

use vstd::prelude::*;
use crate::texto::{anexar, anexar_str, chars_de, recortado, recortar_espacios, string_de, subrango};
use crate::formato::{dec, dec_exec, digito, dinero_centavos, repetido};
use crate::termica::{ancho_de, sanitizado, sanitizar_chars, AnchoPapel};

verus! {

/// Tope de líneas por ticket.
pub const MAX_LINEAS: usize = 500;

/// Una línea del ticket: cantidad × producto, importe NETO.
pub struct LineaVenta {
    pub nombre: String,
    /// Cantidad en milésimas de unidad.
    pub cantidad: i32,
    /// Precio unitario en centavos.
    pub precio_unitario: i64,
    /// Descuento de esta línea en milésimas de centavo (0 = sin descuento).
    pub descuento: i128,
}

/// Todo lo que necesita el ticket de venta (montos en centavos).
pub struct TicketVenta {
    pub tienda: String,
    pub ubicacion: Option<String>,
    pub folio: String,
    pub fecha: String,
    pub lineas: Vec<LineaVenta>,
    pub descuento_global: i64,
    pub total: i64,
    pub pagos: Vec<(String, i64)>,
    pub cambio: i128,
    pub qr: Option<String>,
}

#[derive(PartialEq, Eq, Structural)]
pub enum Justificado {
    Izquierda,
    Centro,
}

/// Una operación del controlador de la térmica.
pub enum OpTicket {
    Inicio,
    Justificar(Justificado),
    Negrita(bool),
    Tamano(u8, u8),
    Renglon(String),
    Avanzar,
    Qr(String, u8),
    CortarParcial,
}

/// La operación con sus textos como secuencias.
pub enum OpV {
    Inicio,
    Justificar(Justificado),
    Negrita(bool),
    Tamano(u8, u8),
    Renglon(Seq<char>),
    Avanzar,
    Qr(Seq<char>, u8),
    CortarParcial,
}

pub open spec fn vista_op(op: OpTicket) -> OpV {
    match op {
        OpTicket::Inicio => OpV::Inicio,
        OpTicket::Justificar(j) => OpV::Justificar(j),
        OpTicket::Negrita(b) => OpV::Negrita(b),
        OpTicket::Tamano(a, b) => OpV::Tamano(a, b),
        OpTicket::Renglon(s) => OpV::Renglon(s@),
        OpTicket::Avanzar => OpV::Avanzar,
        OpTicket::Qr(s, n) => OpV::Qr(s@, n),
        OpTicket::CortarParcial => OpV::CortarParcial,
    }
}

pub open spec fn vista_ops(ops: Seq<OpTicket>) -> Seq<OpV> {
    ops.map_values(|o: OpTicket| vista_op(o))
}

pub open spec fn max0(x: int) -> int {
    if x < 0 {
        0
    } else {
        x
    }
}

/// Importe bruto de una línea en milésimas de centavo.
pub open spec fn bruto_mc(l: LineaVenta) -> int {
    max0(l.cantidad as int) * max0(l.precio_unitario as int)
}

/// Descuento efectivo de una línea: nunca negativo ni mayor que el bruto.
pub open spec fn desc_mc(l: LineaVenta) -> int {
    let d = max0(l.descuento as int);
    if d < bruto_mc(l) {
        d
    } else {
        bruto_mc(l)
    }
}

/// `$X.XX` de un monto en milésimas de centavo (redondeo al centavo;
/// negativos como `$0.00`).
pub open spec fn dinero_mc(m: int) -> Seq<char> {
    dinero_centavos((max0(m) + 500) / 1000)
}

/// Decimales de una fracción de milésimas, sin ceros sobrantes.
pub open spec fn fraccion_txt(f: nat) -> Seq<char> {
    if f % 100 == 0 {
        seq![digito(f / 100)]
    } else if f % 10 == 0 {
        seq![digito(f / 100), digito((f / 10) % 10)]
    } else {
        seq![digito(f / 100), digito((f / 10) % 10), digito(f % 10)]
    }
}

/// Cantidad en milésimas como `2x` o `0.5x`.
pub open spec fn cantidad_txt(m: int) -> Seq<char> {
    let v: nat = if m < 0 {
        (-m) as nat
    } else {
        m as nat
    };
    let signo: Seq<char> = if m < 0 {
        seq!['-']
    } else {
        Seq::empty()
    };
    let frac: Seq<char> = if v % 1000 == 0 {
        Seq::empty()
    } else {
        seq!['.'] + fraccion_txt(v % 1000)
    };
    signo + dec(v / 1000) + frac + seq!['x']
}

/// Fila monoespaciada: izquierda recortada y el importe a la derecha.
pub open spec fn fila_txt(importe: Seq<char>, izquierda: Seq<char>, cols: nat) -> Seq<char> {
    let max_izq: nat = if cols >= importe.len() + 1 {
        (cols - importe.len() - 1) as nat
    } else {
        0
    };
    let izq = if izquierda.len() < max_izq {
        izquierda
    } else {
        izquierda.take(max_izq as int)
    };
    let relleno: nat = if izq.len() + importe.len() < cols {
        (cols - izq.len() - importe.len()) as nat
    } else {
        0
    };
    izq + repetido(' ', relleno) + importe
}

fn repetir(c: char, n: usize) -> (r: Vec<char>)
    ensures
        r@ == repetido(c, n as nat),
{
    let mut r: Vec<char> = Vec::new();
    let mut i: usize = 0;
    while i < n
        invariant
            i <= n,
            r@ == repetido(c, i as nat),
        decreases n - i,
    {
        r.push(c);
        i = i + 1;
        assert(r@ =~= repetido(c, i as nat));
    }
    r
}

pub fn fila_chars(importe: &Vec<char>, izquierda: &Vec<char>, cols: usize) -> (r: Vec<char>)
    ensures
        r@ == fila_txt(importe@, izquierda@, cols as nat),
{
    let der = importe.len();
    let max_izq: usize = if cols >= der && cols - der >= 1 {
        cols - der - 1
    } else {
        0
    };
    let mut izq = if izquierda.len() < max_izq {
        subrango(izquierda, 0, izquierda.len())
    } else {
        subrango(izquierda, 0, max_izq)
    };
    assert(izquierda@.subrange(0, izquierda@.len() as int) =~= izquierda@);
    let relleno: usize = if izq.len() < cols && der < cols - izq.len() {
        cols - izq.len() - der
    } else {
        0
    };
    anexar(&mut izq, &repetir(' ', relleno));
    anexar(&mut izq, importe);
    izq
}

/// Fila monoespaciada de `cols` columnas: `izquierda` recortada y
/// `importe` pegado a la derecha.
pub fn fila(importe: &str, izquierda: &str, cols: usize) -> (r: String)
    ensures
        r@ == fila_txt(importe@, izquierda@, cols as nat),
{
    let a = chars_de(importe);
    let b = chars_de(izquierda);
    string_de(&fila_chars(&a, &b, cols))
}

/// Una fila cuyo importe cabe ocupa exactamente el ancho del papel.
pub proof fn ley_fila_ocupa_el_ancho(importe: Seq<char>, izquierda: Seq<char>, cols: nat)
    requires
        importe.len() < cols,
    ensures
        fila_txt(importe, izquierda, cols).len() == cols,
        fila_txt(importe, izquierda, cols).skip(cols - importe.len()) == importe,
{
    let f = fila_txt(importe, izquierda, cols);
    let max_izq = (cols - importe.len() - 1) as nat;
    let izq = if izquierda.len() < max_izq {
        izquierda
    } else {
        izquierda.take(max_izq as int)
    };
    let relleno = (cols - izq.len() - importe.len()) as nat;
    assert(f == izq + repetido(' ', relleno) + importe);
    assert(f.skip(cols - importe.len()) =~= importe);
}

fn dinero_u128(c: u128) -> (r: Vec<char>)
    ensures
        r@ == dinero_centavos(c as int),
{
    let mut r = vec!['$'];
    anexar(&mut r, &dec_exec(c / 100));
    r.push('.');
    let d1 = (((c % 100) / 10) as u8 + 48) as char;
    let d2 = ((c % 10) as u8 + 48) as char;
    assert(d1 == digito(((c % 100) / 10) as nat));
    assert(d2 == digito((c % 10) as nat));
    r.push(d1);
    r.push(d2);
    assert(r@ =~= dinero_centavos(c as int));
    r
}

/// `$X.XX` de un monto en milésimas de centavo.
pub fn dinero_mc_exec(m: i128) -> (r: Vec<char>)
    ensures
        r@ == dinero_mc(m as int),
{
    let v: u128 = if m < 0 {
        0
    } else {
        m as u128
    };
    let c: u128 = v / 1000 + (if v % 1000 >= 500 { 1u128 } else { 0u128 });
    assert(c == (v + 500) / 1000);
    dinero_u128(c)
}

/// `$X.XX` de un monto en centavos (negativos como `$0.00`).
pub fn dinero_c_exec(c: i64) -> (r: Vec<char>)
    ensures
        r@ == dinero_centavos(c as int),
{
    let v: u128 = if c < 0 {
        0
    } else {
        c as u128
    };
    dinero_u128(v)
}

pub fn cantidad_exec(m: i32) -> (r: Vec<char>)
    ensures
        r@ == cantidad_txt(m as int),
{
    let v: u128 = if m < 0 {
        (0i64 - m as i64) as u128
    } else {
        m as u128
    };
    let mut r: Vec<char> = Vec::new();
    if m < 0 {
        r.push('-');
    }
    let ghost signo = r@;
    anexar(&mut r, &dec_exec(v / 1000));
    let ghost con_entero = r@;
    let f = v % 1000;
    if f != 0 {
        r.push('.');
        let a = ((f / 100) as u8 + 48) as char;
        let b = (((f / 10) % 10) as u8 + 48) as char;
        let c = ((f % 10) as u8 + 48) as char;
        assert(a == digito((f / 100) as nat));
        assert(b == digito(((f / 10) % 10) as nat));
        assert(c == digito((f % 10) as nat));
        r.push(a);
        if f % 100 != 0 {
            r.push(b);
            if f % 10 != 0 {
                r.push(c);
            }
        }
        assert(r@ =~= con_entero + (seq!['.'] + fraccion_txt(f as nat)));
    }
    r.push('x');
    proof {
        if m < 0 {
            assert(signo =~= seq!['-']);
        } else {
            assert(signo =~= Seq::<char>::empty());
        }
        assert(r@ =~= cantidad_txt(m as int));
    }
    r
}

/// Renglones de una línea: el importe neto y, si hubo, su descuento.
pub open spec fn ops_linea(l: LineaVenta, cols: nat) -> Seq<OpV> {
    let b = bruto_mc(l);
    let d = desc_mc(l);
    let principal = OpV::Renglon(
        fila_txt(dinero_mc(b - d), cantidad_txt(l.cantidad as int) + " "@ + sanitizado(l.nombre@), cols),
    );
    if d > 0 {
        seq![principal, OpV::Renglon(fila_txt("-"@ + dinero_mc(d), "  Desc:"@, cols))]
    } else {
        seq![principal]
    }
}

pub open spec fn ops_lineas(ls: Seq<LineaVenta>, cols: nat) -> Seq<OpV>
    decreases ls.len(),
{
    if ls.len() == 0 {
        Seq::empty()
    } else {
        ops_lineas(ls.drop_last(), cols) + ops_linea(ls.last(), cols)
    }
}

pub open spec fn subtotal_mc(ls: Seq<LineaVenta>) -> int
    decreases ls.len(),
{
    if ls.len() == 0 {
        0
    } else {
        subtotal_mc(ls.drop_last()) + bruto_mc(ls.last())
    }
}

pub open spec fn desc_lineas_mc(ls: Seq<LineaVenta>) -> int
    decreases ls.len(),
{
    if ls.len() == 0 {
        0
    } else {
        desc_lineas_mc(ls.drop_last()) + desc_mc(ls.last())
    }
}

/// Pagos con monto positivo, uno por renglón.
pub open spec fn ops_pagos(ps: Seq<(String, i64)>, cols: nat) -> Seq<OpV>
    decreases ps.len(),
{
    if ps.len() == 0 {
        Seq::empty()
    } else {
        let p = ps.last();
        ops_pagos(ps.drop_last(), cols) + if p.1 > 0 {
            seq![OpV::Renglon(fila_txt(dinero_centavos(p.1 as int), sanitizado(p.0@), cols))]
        } else {
            Seq::empty()
        }
    }
}

pub open spec fn ops_ubicacion(u: Option<String>) -> Seq<OpV> {
    match u {
        Some(s) => if recortado(sanitizado(s@)).len() > 0 {
            seq![OpV::Renglon(recortado(sanitizado(s@)))]
        } else {
            Seq::empty()
        },
        None => Seq::empty(),
    }
}

pub open spec fn ops_qr(q: Option<String>, tamano: u8) -> Seq<OpV> {
    match q {
        Some(s) => if recortado(s@).len() > 0 {
            seq![OpV::Qr(recortado(s@), tamano), OpV::Avanzar]
        } else {
            Seq::empty()
        },
        None => Seq::empty(),
    }
}

/// Módulo del QR: más chico en 58mm.
pub open spec fn tamano_qr(ancho: AnchoPapel) -> u8 {
    match ancho {
        AnchoPapel::Mm80 => 5,
        AnchoPapel::Mm58 => 3,
    }
}

pub open spec fn encabezado_ops(t: TicketVenta, cols: nat) -> Seq<OpV> {
    seq![
        OpV::Inicio,
        OpV::Justificar(Justificado::Centro),
        OpV::Negrita(true),
        OpV::Tamano(2, 2),
        OpV::Renglon(sanitizado(t.tienda@)),
        OpV::Negrita(false),
        OpV::Tamano(1, 1),
    ] + ops_ubicacion(t.ubicacion) + seq![
        OpV::Renglon("Folio "@ + sanitizado(t.folio@) + "  "@ + sanitizado(t.fecha@)),
        OpV::Renglon(repetido('-', cols)),
        OpV::Justificar(Justificado::Izquierda),
    ]
}

/// Descuento total impreso: el de las líneas más el global.
pub open spec fn desc_total_mc(t: TicketVenta) -> int {
    desc_lineas_mc(t.lineas@) + max0(t.descuento_global as int) * 1000
}

pub open spec fn totales_ops(t: TicketVenta, cols: nat) -> Seq<OpV> {
    let dt = desc_total_mc(t);
    let resumen = if dt > 0 {
        seq![
            OpV::Renglon(fila_txt(dinero_mc(subtotal_mc(t.lineas@)), "SUBTOTAL"@, cols)),
            OpV::Renglon(fila_txt("-"@ + dinero_mc(dt), "DESCUENTO"@, cols)),
            OpV::Renglon(repetido('-', cols)),
        ]
    } else {
        Seq::empty()
    };
    seq![OpV::Renglon(repetido('-', cols))] + resumen + seq![
        OpV::Negrita(true),
        OpV::Tamano(2, 1),
        OpV::Renglon(fila_txt(dinero_centavos(t.total as int), "TOTAL"@, cols)),
        OpV::Negrita(false),
        OpV::Tamano(1, 1),
    ]
}

pub open spec fn cierre_ops(t: TicketVenta, cols: nat, ancho: AnchoPapel) -> Seq<OpV> {
    ops_pagos(t.pagos@, cols) + (if t.cambio > 0 {
        seq![OpV::Renglon(fila_txt(dinero_centavos(t.cambio as int), "CAMBIO"@, cols))]
    } else {
        Seq::empty()
    }) + seq![OpV::Justificar(Justificado::Centro), OpV::Avanzar] + ops_qr(t.qr, tamano_qr(ancho)) + seq![
        OpV::Renglon("Gracias por su compra"@),
        OpV::Avanzar,
        OpV::CortarParcial,
    ]
}

/// Todas las operaciones del ticket de venta.
pub open spec fn plan_ticket(t: TicketVenta, ancho: AnchoPapel) -> Seq<OpV> {
    let cols = ancho.spec_cols();
    encabezado_ops(t, cols) + ops_lineas(t.lineas@, cols) + totales_ops(t, cols) + cierre_ops(t, cols, ancho)
}

pub open spec fn error_lineas(n: nat) -> Seq<char> {
    "Demasiadas lineas ("@ + dec(n) + "). Limite Fase 2: "@ + dec(MAX_LINEAS as nat) + "."@
}

/// Resultado de armar el ticket: error claro si no hay líneas o sobran.
pub open spec fn spec_construir_ticket(t: TicketVenta, ancho: AnchoPapel) -> Result<Seq<OpV>, Seq<char>> {
    if t.lineas@.len() == 0 {
        Err("El ticket no trae productos."@)
    } else if t.lineas@.len() > MAX_LINEAS {
        Err(error_lineas(t.lineas@.len()))
    } else {
        Ok(plan_ticket(t, ancho))
    }
}

fn agregar(ops: &mut Vec<OpTicket>, op: OpTicket)
    ensures
        vista_ops(final(ops)@) == vista_ops(old(ops)@).push(vista_op(op)),
{
    let ghost antes = ops@;
    ops.push(op);
    assert(vista_ops(ops@) =~= vista_ops(antes).push(vista_op(op)));
}

fn renglon(v: &Vec<char>) -> (r: OpTicket)
    ensures
        vista_op(r) == OpV::Renglon(v@),
{
    OpTicket::Renglon(string_de(v))
}

fn escribir_encabezado(ops: &mut Vec<OpTicket>, t: &TicketVenta, cols: usize)
    ensures
        vista_ops(final(ops)@) == vista_ops(old(ops)@) + encabezado_ops(*t, cols as nat),
{
    let ghost inicio = vista_ops(ops@);
    agregar(ops, OpTicket::Inicio);
    agregar(ops, OpTicket::Justificar(Justificado::Centro));
    agregar(ops, OpTicket::Negrita(true));
    agregar(ops, OpTicket::Tamano(2, 2));
    let tienda = sanitizar_chars(&chars_de(t.tienda.as_str()));
    agregar(ops, renglon(&tienda));
    agregar(ops, OpTicket::Negrita(false));
    agregar(ops, OpTicket::Tamano(1, 1));
    let ghost tras_cabeza = vista_ops(ops@);
    match &t.ubicacion {
        Some(u) => {
            let us = recortar_espacios(&sanitizar_chars(&chars_de(u.as_str())));
            if us.len() > 0 {
                agregar(ops, renglon(&us));
            }
        },
        None => {},
    }
    assert(vista_ops(ops@) =~= tras_cabeza + ops_ubicacion(t.ubicacion));
    let mut folio: Vec<char> = Vec::new();
    anexar_str(&mut folio, "Folio ");
    anexar(&mut folio, &sanitizar_chars(&chars_de(t.folio.as_str())));
    anexar_str(&mut folio, "  ");
    anexar(&mut folio, &sanitizar_chars(&chars_de(t.fecha.as_str())));
    agregar(ops, renglon(&folio));
    agregar(ops, renglon(&repetir('-', cols)));
    agregar(ops, OpTicket::Justificar(Justificado::Izquierda));
    assert(vista_ops(ops@) =~= inicio + encabezado_ops(*t, cols as nat));
}

proof fn lema_bruto_acotado(l: LineaVenta)
    ensures
        0 <= bruto_mc(l) <= 0x4000_0000_0000_0000_0000_0000,
        0 <= desc_mc(l) <= bruto_mc(l),
{
    let a = max0(l.cantidad as int);
    let b = max0(l.precio_unitario as int);
    assert(0 <= a * b <= 0x4000_0000_0000_0000_0000_0000) by (nonlinear_arith)
        requires
            0 <= a <= 0x7fff_ffff,
            0 <= b <= 0x7fff_ffff_ffff_ffff,
    ;
}

/// Escribe los renglones de las líneas; devuelve (subtotal, descuentos) en
/// milésimas de centavo.
fn escribir_lineas(ops: &mut Vec<OpTicket>, lineas: &Vec<LineaVenta>, cols: usize) -> (r: (i128, i128))
    requires
        lineas.len() <= MAX_LINEAS,
    ensures
        vista_ops(final(ops)@) == vista_ops(old(ops)@) + ops_lineas(lineas@, cols as nat),
        r.0 == subtotal_mc(lineas@),
        r.1 == desc_lineas_mc(lineas@),
        0 <= r.1 <= r.0 <= 0x4000_0000_0000_0000_0000_0000 * MAX_LINEAS,
{
    let ghost inicio = vista_ops(ops@);
    let mut subtotal: i128 = 0;
    let mut descs: i128 = 0;
    let mut i: usize = 0;
    assert(lineas@.take(0) =~= Seq::<LineaVenta>::empty());
    while i < lineas.len()
        invariant
            i <= lineas.len() <= MAX_LINEAS,
            vista_ops(ops@) == inicio + ops_lineas(lineas@.take(i as int), cols as nat),
            subtotal == subtotal_mc(lineas@.take(i as int)),
            descs == desc_lineas_mc(lineas@.take(i as int)),
            0 <= descs <= subtotal <= 0x4000_0000_0000_0000_0000_0000 * i,
        decreases lineas.len() - i,
    {
        let l = &lineas[i];
        assert(lineas@.take(i + 1).drop_last() =~= lineas@.take(i as int));
        assert(lineas@.take(i + 1).last() == *l);
        proof {
            lema_bruto_acotado(*l);
        }
        let cant: i128 = if l.cantidad < 0 {
            0
        } else {
            l.cantidad as i128
        };
        let precio: i128 = if l.precio_unitario < 0 {
            0
        } else {
            l.precio_unitario as i128
        };
        let bruto = cant * precio;
        let d0: i128 = if l.descuento < 0 {
            0
        } else {
            l.descuento
        };
        let d = if d0 < bruto {
            d0
        } else {
            bruto
        };
        subtotal = subtotal + bruto;
        descs = descs + d;
        let ghost antes = vista_ops(ops@);
        let mut izq = cantidad_exec(l.cantidad);
        anexar_str(&mut izq, " ");
        anexar(&mut izq, &sanitizar_chars(&chars_de(l.nombre.as_str())));
        let imp = dinero_mc_exec(bruto - d);
        agregar(ops, renglon(&fila_chars(&imp, &izq, cols)));
        if d > 0 {
            let mut menos: Vec<char> = Vec::new();
            anexar_str(&mut menos, "-");
            anexar(&mut menos, &dinero_mc_exec(d));
            let etiqueta = chars_de("  Desc:");
            agregar(ops, renglon(&fila_chars(&menos, &etiqueta, cols)));
        }
        assert(vista_ops(ops@) =~= antes + ops_linea(*l, cols as nat));
        i = i + 1;
        assert(vista_ops(ops@) =~= inicio + ops_lineas(lineas@.take(i as int), cols as nat));
    }
    assert(lineas@.take(lineas.len() as int) =~= lineas@);
    (subtotal, descs)
}

fn escribir_totales(ops: &mut Vec<OpTicket>, t: &TicketVenta, subtotal: i128, descs: i128, cols: usize)
    requires
        subtotal == subtotal_mc(t.lineas@),
        descs == desc_lineas_mc(t.lineas@),
        0 <= descs <= subtotal <= 0x4000_0000_0000_0000_0000_0000 * MAX_LINEAS,
    ensures
        vista_ops(final(ops)@) == vista_ops(old(ops)@) + totales_ops(*t, cols as nat),
{
    let ghost inicio = vista_ops(ops@);
    agregar(ops, renglon(&repetir('-', cols)));
    let dg: i128 = if t.descuento_global < 0 {
        0
    } else {
        t.descuento_global as i128
    };
    let desc_total = descs + dg * 1000;
    assert(desc_total == desc_total_mc(*t));
    if desc_total > 0 {
        agregar(ops, renglon(&fila_chars(&dinero_mc_exec(subtotal), &chars_de("SUBTOTAL"), cols)));
        let mut menos: Vec<char> = Vec::new();
        anexar_str(&mut menos, "-");
        anexar(&mut menos, &dinero_mc_exec(desc_total));
        agregar(ops, renglon(&fila_chars(&menos, &chars_de("DESCUENTO"), cols)));
        agregar(ops, renglon(&repetir('-', cols)));
    }
    agregar(ops, OpTicket::Negrita(true));
    agregar(ops, OpTicket::Tamano(2, 1));
    agregar(ops, renglon(&fila_chars(&dinero_c_exec(t.total), &chars_de("TOTAL"), cols)));
    agregar(ops, OpTicket::Negrita(false));
    agregar(ops, OpTicket::Tamano(1, 1));
    assert(vista_ops(ops@) =~= inicio + totales_ops(*t, cols as nat));
}

fn escribir_pagos(ops: &mut Vec<OpTicket>, pagos: &Vec<(String, i64)>, cols: usize)
    ensures
        vista_ops(final(ops)@) == vista_ops(old(ops)@) + ops_pagos(pagos@, cols as nat),
{
    let ghost inicio = vista_ops(ops@);
    let mut i: usize = 0;
    assert(pagos@.take(0) =~= Seq::<(String, i64)>::empty());
    while i < pagos.len()
        invariant
            i <= pagos.len(),
            vista_ops(ops@) == inicio + ops_pagos(pagos@.take(i as int), cols as nat),
        decreases pagos.len() - i,
    {
        let p = &pagos[i];
        assert(pagos@.take(i + 1).drop_last() =~= pagos@.take(i as int));
        assert(pagos@.take(i + 1).last() == *p);
        let ghost antes = vista_ops(ops@);
        if p.1 > 0 {
            let metodo = sanitizar_chars(&chars_de(p.0.as_str()));
            agregar(ops, renglon(&fila_chars(&dinero_c_exec(p.1), &metodo, cols)));
        }
        i = i + 1;
        assert(vista_ops(ops@) =~= inicio + ops_pagos(pagos@.take(i as int), cols as nat));
    }
    assert(pagos@.take(pagos.len() as int) =~= pagos@);
}

fn escribir_qr(ops: &mut Vec<OpTicket>, qr: &Option<String>, ancho: AnchoPapel)
    ensures
        vista_ops(final(ops)@) == vista_ops(old(ops)@) + ops_qr(*qr, tamano_qr(ancho)),
{
    let ghost inicio = vista_ops(ops@);
    let tamano: u8 = match ancho {
        AnchoPapel::Mm80 => 5,
        AnchoPapel::Mm58 => 3,
    };
    match qr {
        Some(q) => {
            let qs = recortar_espacios(&chars_de(q.as_str()));
            if qs.len() > 0 {
                agregar(ops, OpTicket::Qr(string_de(&qs), tamano));
                agregar(ops, OpTicket::Avanzar);
            }
        },
        None => {},
    }
    assert(vista_ops(ops@) =~= inicio + ops_qr(*qr, tamano_qr(ancho)));
}

fn escribir_cierre(ops: &mut Vec<OpTicket>, t: &TicketVenta, cols: usize, ancho: AnchoPapel)
    requires
        cols == ancho.spec_cols(),
    ensures
        vista_ops(final(ops)@) == vista_ops(old(ops)@) + cierre_ops(*t, cols as nat, ancho),
{
    let ghost inicio = vista_ops(ops@);
    escribir_pagos(ops, &t.pagos, cols);
    if t.cambio > 0 {
        agregar(ops, renglon(&fila_chars(&dinero_u128(t.cambio as u128), &chars_de("CAMBIO"), cols)));
    }
    agregar(ops, OpTicket::Justificar(Justificado::Centro));
    agregar(ops, OpTicket::Avanzar);
    escribir_qr(ops, &t.qr, ancho);
    agregar(ops, renglon(&chars_de("Gracias por su compra")));
    agregar(ops, OpTicket::Avanzar);
    agregar(ops, OpTicket::CortarParcial);
    assert(vista_ops(ops@) =~= inicio + cierre_ops(*t, cols as nat, ancho));
}

/// Arma las operaciones del ticket de venta, o el error claro si no trae
/// productos o trae demasiados.
pub fn construir_ticket_venta(t: &TicketVenta, ancho: AnchoPapel) -> (r: Result<Vec<OpTicket>, String>)
    ensures
        match r {
            Ok(ops) => spec_construir_ticket(*t, ancho) == Ok::<Seq<OpV>, Seq<char>>(vista_ops(ops@)),
            Err(e) => spec_construir_ticket(*t, ancho) == Err::<Seq<OpV>, Seq<char>>(e@),
        },
{
    if t.lineas.len() == 0 {
        return Err("El ticket no trae productos.".to_owned());
    }
    if t.lineas.len() > MAX_LINEAS {
        let mut e: Vec<char> = Vec::new();
        anexar_str(&mut e, "Demasiadas lineas (");
        anexar(&mut e, &dec_exec(t.lineas.len() as u128));
        anexar_str(&mut e, "). Limite Fase 2: ");
        anexar(&mut e, &dec_exec(MAX_LINEAS as u128));
        anexar_str(&mut e, ".");
        assert(e@ =~= error_lineas(t.lineas@.len()));
        return Err(string_de(&e));
    }
    let cols = ancho.cols();
    let mut ops: Vec<OpTicket> = Vec::new();
    assert(vista_ops(ops@) =~= Seq::<OpV>::empty());
    escribir_encabezado(&mut ops, t, cols);
    let (subtotal, descs) = escribir_lineas(&mut ops, &t.lineas, cols);
    escribir_totales(&mut ops, t, subtotal, descs, cols);
    escribir_cierre(&mut ops, t, cols, ancho);
    assert(vista_ops(ops@) =~= plan_ticket(*t, ancho));
    Ok(ops)
}

/// Línea tal como llega del modal de venta.
pub struct LineaVentaPayload {
    pub nombre: String,
    /// Milésimas de unidad.
    pub cantidad: i32,
    /// Centavos.
    pub precio_unitario: i64,
    /// Descuento de la línea en centavos.
    pub descuento: i64,
}

pub struct PagoPayload {
    pub metodo: String,
    /// Centavos.
    pub monto: i64,
}

/// Ticket tal como lo manda el modal de venta (montos en centavos).
pub struct TicketVentaPayload {
    pub tienda: String,
    pub ubicacion: Option<String>,
    pub folio: String,
    pub fecha: Option<String>,
    pub lineas: Vec<LineaVentaPayload>,
    pub descuento_global: i64,
    pub ancho_mm: Option<u8>,
    pub total: i64,
    pub pagos: Vec<PagoPayload>,
    pub qr: Option<String>,
}

/// Caracteres máximos del QR.
pub const QR_MAX_CHARS: usize = 500;

pub open spec fn bruto_payload(l: LineaVentaPayload) -> int {
    max0(l.cantidad as int) * max0(l.precio_unitario as int)
}

/// Descuento efectivo de una línea del payload, en milésimas de centavo.
pub open spec fn desc_payload(l: LineaVentaPayload) -> int {
    let d = max0(l.descuento as int) * 1000;
    if d < bruto_payload(l) {
        d
    } else {
        bruto_payload(l)
    }
}

pub open spec fn subtotal_payload(ls: Seq<LineaVentaPayload>) -> int
    decreases ls.len(),
{
    if ls.len() == 0 {
        0
    } else {
        subtotal_payload(ls.drop_last()) + bruto_payload(ls.last())
    }
}

pub open spec fn desc_lineas_payload(ls: Seq<LineaVentaPayload>) -> int
    decreases ls.len(),
{
    if ls.len() == 0 {
        0
    } else {
        desc_lineas_payload(ls.drop_last()) + desc_payload(ls.last())
    }
}

/// Pagos con monto positivo: (método recortado, monto).
pub open spec fn pagos_validos(ps: Seq<PagoPayload>) -> Seq<(Seq<char>, int)>
    decreases ps.len(),
{
    if ps.len() == 0 {
        Seq::empty()
    } else {
        pagos_validos(ps.drop_last()) + if ps.last().monto > 0 {
            seq![(recortado(ps.last().metodo@), ps.last().monto as int)]
        } else {
            Seq::empty()
        }
    }
}

pub open spec fn suma_pagos(ps: Seq<(Seq<char>, int)>) -> int
    decreases ps.len(),
{
    if ps.len() == 0 {
        0
    } else {
        suma_pagos(ps.drop_last()) + ps.last().1
    }
}

/// Texto opcional recortado; vacío = ausente.
pub open spec fn opcional_recortado(o: Option<String>) -> Option<Seq<char>> {
    match o {
        Some(s) => if recortado(s@).len() > 0 {
            Some(recortado(s@))
        } else {
            None
        },
        None => None,
    }
}

pub open spec fn error_qr_largo(n: nat) -> Seq<char> {
    "QR demasiado largo ("@ + dec(n) + " caracteres, maximo "@ + dec(QR_MAX_CHARS as nat)
        + "). Usa un folio corto o URL corta."@
}

/// El primer motivo por el que el ticket se rechaza, en el orden en que
/// se revisan; ninguno si el ticket es imprimible.
pub open spec fn error_preparar(p: TicketVentaPayload) -> Option<Seq<char>> {
    let n = p.lineas@.len();
    let qr = opcional_recortado(p.qr);
    if n == 0 {
        Some("El ticket no trae productos."@)
    } else if n > MAX_LINEAS {
        Some("Demasiadas lineas ("@ + dec(n) + "). Limite: "@ + dec(MAX_LINEAS as nat) + "."@)
    } else if p.total < 0 {
        Some("Total invalido."@)
    } else if recortado(p.tienda@).len() == 0 {
        Some("Falta el nombre de la tienda."@)
    } else if recortado(p.folio@).len() == 0 {
        Some("Falta el folio del ticket."@)
    } else if desc_lineas_payload(p.lineas@) + max0(p.descuento_global as int) * 1000 > subtotal_payload(p.lineas@) {
        Some("Descuentos mayores al subtotal del ticket."@)
    } else if qr is Some && qr->0.len() > QR_MAX_CHARS {
        Some(error_qr_largo(qr->0.len()))
    } else {
        None
    }
}

/// La línea del ticket que sale de una línea del payload.
pub open spec fn linea_preparada(l: LineaVenta, lp: LineaVentaPayload) -> bool {
    &&& l.nombre@ == recortado(lp.nombre@)
    &&& l.cantidad == max0(lp.cantidad as int)
    &&& l.precio_unitario == max0(lp.precio_unitario as int)
    &&& l.descuento == desc_payload(lp)
}

pub open spec fn vista_opcion(o: Option<String>) -> Option<Seq<char>> {
    match o {
        Some(s) => Some(s@),
        None => None,
    }
}

/// El texto sin espacios al inicio ni al final.
pub fn limpiar(s: &str) -> (r: String)
    ensures
        r@ == recortado(s@),
{
    string_de(&recortar_espacios(&chars_de(s)))
}

fn limpiar_opcion(o: &Option<String>) -> (r: Option<String>)
    ensures
        vista_opcion(r) == opcional_recortado(*o),
{
    match o {
        Some(s) => {
            let t = recortar_espacios(&chars_de(s.as_str()));
            if t.len() > 0 {
                Some(string_de(&t))
            } else {
                None
            }
        },
        None => None,
    }
}

fn preparar_lineas(ls: &Vec<LineaVentaPayload>) -> (r: (Vec<LineaVenta>, i128, i128))
    requires
        ls.len() <= MAX_LINEAS,
    ensures
        r.0@.len() == ls@.len(),
        forall|i: int| 0 <= i < ls@.len() ==> linea_preparada(#[trigger] r.0@[i], ls@[i]),
        r.1 == subtotal_payload(ls@),
        r.2 == desc_lineas_payload(ls@),
        0 <= r.2 <= r.1 <= 0x4000_0000_0000_0000_0000_0000 * MAX_LINEAS,
{
    let mut out: Vec<LineaVenta> = Vec::new();
    let mut subtotal: i128 = 0;
    let mut descs: i128 = 0;
    let mut i: usize = 0;
    assert(ls@.take(0) =~= Seq::<LineaVentaPayload>::empty());
    while i < ls.len()
        invariant
            i <= ls.len() <= MAX_LINEAS,
            out@.len() == i,
            forall|k: int| 0 <= k < i ==> linea_preparada(#[trigger] out@[k], ls@[k]),
            subtotal == subtotal_payload(ls@.take(i as int)),
            descs == desc_lineas_payload(ls@.take(i as int)),
            0 <= descs <= subtotal <= 0x4000_0000_0000_0000_0000_0000 * i,
        decreases ls.len() - i,
    {
        let l = &ls[i];
        assert(ls@.take(i + 1).drop_last() =~= ls@.take(i as int));
        assert(ls@.take(i + 1).last() == *l);
        let cant: i32 = if l.cantidad < 0 {
            0
        } else {
            l.cantidad
        };
        let precio: i64 = if l.precio_unitario < 0 {
            0
        } else {
            l.precio_unitario
        };
        assert(0 <= (cant as int) * (precio as int) <= 0x4000_0000_0000_0000_0000_0000) by (nonlinear_arith)
            requires
                0 <= cant <= 0x7fff_ffff,
                0 <= precio <= 0x7fff_ffff_ffff_ffff,
        ;
        let bruto: i128 = (cant as i128) * (precio as i128);
        let d0: i128 = if l.descuento < 0 {
            0
        } else {
            (l.descuento as i128) * 1000
        };
        let d = if d0 < bruto {
            d0
        } else {
            bruto
        };
        subtotal = subtotal + bruto;
        descs = descs + d;
        out.push(LineaVenta { nombre: limpiar(l.nombre.as_str()), cantidad: cant, precio_unitario: precio, descuento: d });
        i = i + 1;
    }
    assert(ls@.take(ls.len() as int) =~= ls@);
    (out, subtotal, descs)
}

fn preparar_pagos(ps: &Vec<PagoPayload>) -> (r: (Vec<(String, i64)>, i128))
    ensures
        r.0@.map_values(|q: (String, i64)| (q.0@, q.1 as int)) == pagos_validos(ps@),
        r.1 == suma_pagos(pagos_validos(ps@)),
        0 <= r.1 <= 0x8000_0000_0000_0000 * ps@.len(),
{
    let mut out: Vec<(String, i64)> = Vec::new();
    let mut suma: i128 = 0;
    let mut i: usize = 0;
    assert(ps@.take(0) =~= Seq::<PagoPayload>::empty());
    assert(out@.map_values(|q: (String, i64)| (q.0@, q.1 as int)) =~= Seq::<(Seq<char>, int)>::empty());
    while i < ps.len()
        invariant
            i <= ps.len(),
            out@.map_values(|q: (String, i64)| (q.0@, q.1 as int)) == pagos_validos(ps@.take(i as int)),
            suma == suma_pagos(pagos_validos(ps@.take(i as int))),
            0 <= suma <= 0x8000_0000_0000_0000 * i,
        decreases ps.len() - i,
    {
        let p = &ps[i];
        assert(ps@.take(i + 1).drop_last() =~= ps@.take(i as int));
        assert(ps@.take(i + 1).last() == *p);
        let ghost antes = out@.map_values(|q: (String, i64)| (q.0@, q.1 as int));
        if p.monto > 0 {
            let metodo = limpiar(p.metodo.as_str());
            let ghost par = (metodo@, p.monto as int);
            out.push((metodo, p.monto));
            assert(out@.map_values(|q: (String, i64)| (q.0@, q.1 as int)) =~= antes.push(par));
            assert(antes.push(par).drop_last() =~= antes);
            assert(pagos_validos(ps@.take(i + 1)) =~= antes.push(par));
            assert(suma_pagos(antes.push(par)) == suma_pagos(antes) + par.1);
            suma = suma + p.monto as i128;
        } else {
            assert(antes + Seq::<(Seq<char>, int)>::empty() =~= antes);
            assert(pagos_validos(ps@.take(i + 1)) =~= antes);
        }
        i = i + 1;
    }
    assert(ps@.take(ps.len() as int) =~= ps@);
    (out, suma)
}

/// Revisa el ticket del modal de venta y lo deja listo para imprimir
/// (montos saneados, textos recortados, pagos en cero fuera, cambio
/// calculado). `fecha_ahora` se usa si el ticket no trae fecha.
pub fn preparar_ticket_venta(p: &TicketVentaPayload, fecha_ahora: &str) -> (r: Result<(TicketVenta, AnchoPapel), String>)
    ensures
        match r {
            Err(e) => error_preparar(*p) == Some(e@),
            Ok((t, a)) => {
                &&& error_preparar(*p) is None
                &&& t.tienda@ == recortado(p.tienda@)
                &&& t.folio@ == recortado(p.folio@)
                &&& vista_opcion(t.ubicacion) == opcional_recortado(p.ubicacion)
                &&& t.fecha@ == (match opcional_recortado(p.fecha) {
                    Some(f) => f,
                    None => fecha_ahora@,
                })
                &&& t.lineas@.len() == p.lineas@.len()
                &&& forall|i: int| 0 <= i < p.lineas@.len() ==> linea_preparada(#[trigger] t.lineas@[i], p.lineas@[i])
                &&& t.descuento_global == max0(p.descuento_global as int)
                &&& t.total == p.total
                &&& t.pagos@.map_values(|q: (String, i64)| (q.0@, q.1 as int)) == pagos_validos(p.pagos@)
                &&& t.cambio == max0(suma_pagos(pagos_validos(p.pagos@)) - p.total)
                &&& vista_opcion(t.qr) == opcional_recortado(p.qr)
                &&& a == (if p.ancho_mm == Some(58u8) { AnchoPapel::Mm58 } else { AnchoPapel::Mm80 })
            },
        },
{
    if p.lineas.len() == 0 {
        return Err("El ticket no trae productos.".to_owned());
    }
    if p.lineas.len() > MAX_LINEAS {
        let mut e: Vec<char> = Vec::new();
        anexar_str(&mut e, "Demasiadas lineas (");
        anexar(&mut e, &dec_exec(p.lineas.len() as u128));
        anexar_str(&mut e, "). Limite: ");
        anexar(&mut e, &dec_exec(MAX_LINEAS as u128));
        anexar_str(&mut e, ".");
        return Err(string_de(&e));
    }
    if p.total < 0 {
        return Err("Total invalido.".to_owned());
    }
    let tienda = limpiar(p.tienda.as_str());
    if tienda.as_str().is_empty() {
        return Err("Falta el nombre de la tienda.".to_owned());
    }
    let folio = limpiar(p.folio.as_str());
    if folio.as_str().is_empty() {
        return Err("Falta el folio del ticket.".to_owned());
    }
    let (lineas, subtotal, descs) = preparar_lineas(&p.lineas);
    let dg: i64 = if p.descuento_global < 0 {
        0
    } else {
        p.descuento_global
    };
    if descs + (dg as i128) * 1000 > subtotal {
        return Err("Descuentos mayores al subtotal del ticket.".to_owned());
    }
    let (pagos, pagado) = preparar_pagos(&p.pagos);
    let cambio: i128 = if pagado - (p.total as i128) > 0 {
        pagado - (p.total as i128)
    } else {
        0
    };
    let fecha = match limpiar_opcion(&p.fecha) {
        Some(f) => f,
        None => fecha_ahora.to_owned(),
    };
    let qr = limpiar_opcion(&p.qr);
    match &qr {
        Some(q) => {
            let n = chars_de(q.as_str()).len();
            if n > QR_MAX_CHARS {
                let mut e: Vec<char> = Vec::new();
                anexar_str(&mut e, "QR demasiado largo (");
                anexar(&mut e, &dec_exec(n as u128));
                anexar_str(&mut e, " caracteres, maximo ");
                anexar(&mut e, &dec_exec(QR_MAX_CHARS as u128));
                anexar_str(&mut e, "). Usa un folio corto o URL corta.");
                assert(e@ =~= error_qr_largo(n as nat));
                return Err(string_de(&e));
            }
        },
        None => {},
    }
    let ubicacion = limpiar_opcion(&p.ubicacion);
    let venta = TicketVenta {
        tienda,
        ubicacion,
        folio,
        fecha,
        lineas,
        descuento_global: dg,
        total: p.total,
        pagos,
        cambio,
        qr,
    };
    Ok((venta, ancho_de(p.ancho_mm)))
}

proof fn lema_sumas_preparadas(ts: Seq<LineaVenta>, ps: Seq<LineaVentaPayload>)
    requires
        ts.len() == ps.len(),
        forall|i: int| 0 <= i < ps.len() ==> linea_preparada(#[trigger] ts[i], ps[i]),
    ensures
        subtotal_mc(ts) == subtotal_payload(ps),
        desc_lineas_mc(ts) == desc_lineas_payload(ps),
    decreases ps.len(),
{
    if ps.len() > 0 {
        let n = ps.len() - 1;
        assert(linea_preparada(ts[n], ps[n]));
        assert forall|i: int| 0 <= i < ps.drop_last().len() implies linea_preparada(#[trigger] ts.drop_last()[i], ps.drop_last()[i]) by {
            assert(linea_preparada(ts[i], ps[i]));
        }
        lema_sumas_preparadas(ts.drop_last(), ps.drop_last());
        assert(0 <= desc_payload(ps[n]) <= bruto_payload(ps[n])) by {
            assert(0 <= max0(ps[n].cantidad as int) * max0(ps[n].precio_unitario as int)) by (nonlinear_arith);
        }
    }
}

/// Un ticket que pasó la revisión siempre se puede imprimir, y el
/// descuento que muestra nunca supera su subtotal.
pub proof fn ley_ticket_preparado_se_imprime(p: TicketVentaPayload, t: TicketVenta, ancho: AnchoPapel)
    requires
        error_preparar(p) is None,
        t.lineas@.len() == p.lineas@.len(),
        forall|i: int| 0 <= i < p.lineas@.len() ==> linea_preparada(#[trigger] t.lineas@[i], p.lineas@[i]),
        t.descuento_global == max0(p.descuento_global as int),
    ensures
        spec_construir_ticket(t, ancho) == Ok::<Seq<OpV>, Seq<char>>(plan_ticket(t, ancho)),
        desc_total_mc(t) <= subtotal_mc(t.lineas@),
{
    lema_sumas_preparadas(t.lineas@, p.lineas@);
}


/// Posición de los renglones de la línea `i` dentro de los de todas las
/// líneas: tras los de las líneas anteriores.
proof fn lema_renglones_de_linea(ls: Seq<LineaVenta>, cols: nat, i: int)
    requires
        0 <= i < ls.len(),
    ensures
        ops_lineas(ls.take(i), cols).len() + ops_linea(ls[i], cols).len() <= ops_lineas(ls, cols).len(),
        forall|j: int|
            0 <= j < ops_linea(ls[i], cols).len() ==> ops_lineas(ls, cols)[ops_lineas(ls.take(i), cols).len() + j]
                == #[trigger] ops_linea(ls[i], cols)[j],
    decreases ls.len(),
{
    let n = ls.len() as int;
    let previas = ops_lineas(ls.drop_last(), cols);
    assert(ops_lineas(ls, cols) == previas + ops_linea(ls.last(), cols));
    if i == n - 1 {
        assert(ls.take(i) =~= ls.drop_last());
    } else {
        assert(ls.take(i) =~= ls.drop_last().take(i));
        assert(ls.drop_last()[i] == ls[i]);
        lema_renglones_de_linea(ls.drop_last(), cols, i);
        assert forall|j: int| 0 <= j < ops_linea(ls[i], cols).len() implies ops_lineas(ls, cols)[ops_lineas(
            ls.take(i),
            cols,
        ).len() + j] == #[trigger] ops_linea(ls[i], cols)[j] by {
            assert(previas[ops_lineas(ls.drop_last().take(i), cols).len() + j] == ops_linea(ls.drop_last()[i], cols)[j]);
        }
    }
}

/// Los renglones de la línea `i` aparecen en el plan del ticket, uno tras otro.
proof fn lema_linea_en_plan(t: TicketVenta, ancho: AnchoPapel, i: int) -> (k: int)
    requires
        spec_construir_ticket(t, ancho) is Ok,
        0 <= i < t.lineas@.len(),
    ensures
        0 <= k,
        k + ops_linea(t.lineas@[i], ancho.spec_cols()).len() <= spec_construir_ticket(t, ancho)->Ok_0.len(),
        forall|j: int|
            0 <= j < ops_linea(t.lineas@[i], ancho.spec_cols()).len() ==> spec_construir_ticket(t, ancho)->Ok_0[k
                + j] == #[trigger] ops_linea(t.lineas@[i], ancho.spec_cols())[j],
{
    let cols = ancho.spec_cols();
    let ls = t.lineas@;
    let enc = encabezado_ops(t, cols);
    let cuerpo = ops_lineas(ls, cols);
    let resto = totales_ops(t, cols) + cierre_ops(t, cols, ancho);
    lema_renglones_de_linea(ls, cols, i);
    let j0: int = ops_lineas(ls.take(i), cols).len() as int;
    assert(spec_construir_ticket(t, ancho)->Ok_0 =~= enc + cuerpo + resto);
    assert forall|j: int| 0 <= j < ops_linea(ls[i], cols).len() implies (enc + cuerpo + resto)[enc.len() + j0 + j]
        == #[trigger] ops_linea(ls[i], cols)[j] by {
        lema_indice_en_medio(enc, cuerpo, resto, j0 + j);
    }
    enc.len() + j0
}

/// Importe neto y descuento de una línea, escritos desde sus campos.
proof fn lema_neto(l: LineaVenta, bruto: int, desc: int)
    requires
        bruto == (if l.cantidad < 0 { 0int } else { l.cantidad as int }) * (if l.precio_unitario < 0 {
            0int
        } else {
            l.precio_unitario as int
        }),
        desc == (if (if l.descuento < 0 { 0int } else { l.descuento as int }) < bruto {
            if l.descuento < 0 { 0int } else { l.descuento as int }
        } else {
            bruto
        }),
    ensures
        bruto_mc(l) == bruto,
        desc_mc(l) == desc,
{
}

/// Cada línea de venta se imprime con su importe NETO: cantidad por
/// precio (sin negativos) menos su descuento (sin negativos y sin pasar
/// del bruto), junto a la cantidad y el nombre; si hubo descuento, el
/// renglón siguiente lo muestra en negativo.
pub proof fn ley_linea_con_importe_neto(t: TicketVenta, ancho: AnchoPapel, i: int)
    requires
        spec_construir_ticket(t, ancho) is Ok,
        0 <= i < t.lineas@.len(),
    ensures
        ({
            let plan = spec_construir_ticket(t, ancho)->Ok_0;
            let l = t.lineas@[i];
            let cols = ancho.spec_cols();
            let cant = if l.cantidad < 0 { 0int } else { l.cantidad as int };
            let precio = if l.precio_unitario < 0 { 0int } else { l.precio_unitario as int };
            let bruto = cant * precio;
            let pedido = if l.descuento < 0 { 0int } else { l.descuento as int };
            let desc = if pedido < bruto { pedido } else { bruto };
            exists|k: int|
                0 <= k < plan.len() && #[trigger] plan[k] == OpV::Renglon(
                    fila_txt(
                        dinero_mc(bruto - desc),
                        cantidad_txt(l.cantidad as int) + " "@ + sanitizado(l.nombre@),
                        cols,
                    ),
                ) && (desc > 0 ==> k + 1 < plan.len() && plan[k + 1] == OpV::Renglon(
                    fila_txt("-"@ + dinero_mc(desc), "  Desc:"@, cols),
                ))
        }),
{
    let l = t.lineas@[i];
    let cols = ancho.spec_cols();
    let cant = if l.cantidad < 0 { 0int } else { l.cantidad as int };
    let precio = if l.precio_unitario < 0 { 0int } else { l.precio_unitario as int };
    let bruto = cant * precio;
    let pedido = if l.descuento < 0 { 0int } else { l.descuento as int };
    let desc = if pedido < bruto { pedido } else { bruto };
    lema_neto(l, bruto, desc);
    let k = lema_linea_en_plan(t, ancho, i);
    let plan = spec_construir_ticket(t, ancho)->Ok_0;
    assert(plan[k + 0] == ops_linea(l, cols)[0]);
    if desc > 0 {
        assert(plan[k + 1] == ops_linea(l, cols)[1]);
    }
}

/// Un índice de la parte de en medio de `a + b + c`.
proof fn lema_indice_en_medio(a: Seq<OpV>, b: Seq<OpV>, c: Seq<OpV>, j: int)
    requires
        0 <= j < b.len(),
    ensures
        (a + b + c)[a.len() + j] == b[j],
        a.len() + j < (a + b + c).len(),
{
}

} // verus!
