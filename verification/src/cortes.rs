//! Cortes de caja X/Z: ventana del turno, permisos de reimpresión y el
//! texto que sale en la térmica (80mm, 48 columnas). Montos en
//! centavos; cantidades de producto en milésimas.

use vstd::prelude::*;
use crate::texto::{anexar, anexar_str, chars_de, string_de};
use crate::formato::{dec, dec_entero, dec_exec, dinero_centavos, entero_exec, repetido};
use crate::ticket_venta::{
    cantidad_txt, cantidad_exec, dinero_c_exec, fila_chars, fila_txt, vista_op, vista_ops, Justificado, OpTicket,
    OpV,
};

verus! {

/// Ancho útil de la térmica de 80mm en fuente A.
pub const COLS_CORTE: usize = 48;
/// Tope de renglones por corte.
pub const MAX_LINEAS_CORTE: usize = 500;

/// Lo que devuelve `str::to_uppercase` para un texto.
pub uninterp spec fn mayusculas(s: Seq<char>) -> Seq<char>;

/// `str::to_uppercase`: el equivalente en mayúsculas según la propiedad
/// Unicode `Uppercase`. El contrato sólo lo nombra.
#[verifier::external_body]
fn a_mayusculas(s: &str) -> (r: String)
    ensures
        r@ == mayusculas(s@),
{
    s.to_uppercase()
}

/// Un ticket de la ventana del turno.
pub struct TicketResumen {
    pub venta_id: i64,
    pub folio: String,
    pub fecha: String,
    /// Centavos.
    pub total: i64,
    pub metodo_pago: String,
}

/// Un producto vendido en la ventana, agregado.
pub struct ProductoAgregado {
    pub producto_nombre: String,
    /// Milésimas de unidad.
    pub cantidad: i32,
    /// Centavos.
    pub monto: i64,
}

/// Totales de la ventana por método de pago (centavos).
pub struct TotalesVentana {
    pub total_ventas: i64,
    pub total_efectivo: i64,
    pub total_tarjeta: i64,
    pub total_transferencia: i64,
    pub num_tickets: i64,
}

/// Datos guardados de un corte.
pub struct DatosCorte {
    pub tipo: String,
    pub cajero_id: i64,
    pub cajero_nombre: String,
    pub tienda: String,
    pub apertura: String,
    pub cierre: String,
    pub numero: i64,
}

/// Ancla del turno: el cierre del último Z; si nunca hubo, el primer
/// login de hoy; si tampoco, el inicio del día.
pub fn elegir_ancla(cierre_z: Option<String>, primer_login: Option<String>, inicio_dia: String) -> (r: String)
    ensures
        r == (match cierre_z {
            Some(c) => c,
            None => match primer_login {
                Some(p) => p,
                None => inicio_dia,
            },
        }),
{
    match cierre_z {
        Some(c) => c,
        None => match primer_login {
            Some(p) => p,
            None => inicio_dia,
        },
    }
}

pub open spec fn folio_remision(folio: Option<Seq<char>>, id: int) -> Seq<char> {
    match folio {
        Some(f) => f,
        None => "REM-"@ + dec_entero(id),
    }
}

/// Folio del ticket o, si no tiene, `REM-<id>`.
pub fn folio_o_remision(folio: Option<String>, id: i64) -> (r: String)
    ensures
        r@ == folio_remision(
            match folio {
                Some(f) => Some(f@),
                None => None,
            },
            id as int,
        ),
{
    match folio {
        Some(f) => f,
        None => {
            let mut v: Vec<char> = Vec::new();
            anexar_str(&mut v, "REM-");
            anexar(&mut v, &entero_exec(id));
            string_de(&v)
        },
    }
}

/// ¿Puede esta sesión reimprimir el corte? El empleado sólo los suyos;
/// y sólo existen cortes X y Z.
pub fn autorizar_corte(es_empleado: bool, usuario_id: i64, cajero_id: i64, tipo: &str) -> (r: Result<(), String>)
    ensures
        match r {
            Ok(_) => !(es_empleado && cajero_id != usuario_id) && (tipo@ == "X"@ || tipo@ == "Z"@),
            Err(e) => if es_empleado && cajero_id != usuario_id {
                e@ == "Solo puedes imprimir tus propios cortes."@
            } else {
                !(tipo@ == "X"@ || tipo@ == "Z"@) && e@ == "Tipo de corte desconocido."@
            },
        },
{
    if es_empleado && cajero_id != usuario_id {
        return Err("Solo puedes imprimir tus propios cortes.".to_owned());
    }
    let v = chars_de(tipo);
    if !crate::texto::es_texto(&v, "X") && !crate::texto::es_texto(&v, "Z") {
        return Err("Tipo de corte desconocido.".to_owned());
    }
    Ok(())
}

/// ¿Es separador de fecha? (`-`, espacio o `:`)
pub open spec fn sep_fecha(c: char) -> bool {
    c == '-' || c == ' ' || c == ':'
}

/// Los pedazos de `s` entre separadores de fecha (lo que da
/// `str::split(&['-', ' ', ':'][..])`).
pub open spec fn pedazos_fecha(s: Seq<char>) -> Seq<Seq<char>>
    decreases s.len(),
{
    if s.len() == 0 {
        seq![Seq::empty()]
    } else {
        let prev = pedazos_fecha(s.drop_last());
        if sep_fecha(s.last()) {
            prev.push(Seq::empty())
        } else {
            prev.update(prev.len() - 1, prev.last().push(s.last()))
        }
    }
}

pub proof fn lema_pedazos_no_vacio(s: Seq<char>)
    ensures
        pedazos_fecha(s).len() >= 1,
    decreases s.len(),
{
    if s.len() > 0 {
        lema_pedazos_no_vacio(s.drop_last());
    }
}

fn pedazos_fecha_exec(v: &Vec<char>) -> (r: Vec<Vec<char>>)
    ensures
        r@.map_values(|p: Vec<char>| p@) == pedazos_fecha(v@),
{
    let mut r: Vec<Vec<char>> = Vec::new();
    r.push(Vec::new());
    let mut i: usize = 0;
    assert(v@.take(0) =~= Seq::<char>::empty());
    assert(r@.map_values(|p: Vec<char>| p@) =~= pedazos_fecha(v@.take(0)));
    while i < v.len()
        invariant
            i <= v.len(),
            r@.len() >= 1,
            r@.map_values(|p: Vec<char>| p@) == pedazos_fecha(v@.take(i as int)),
        decreases v.len() - i,
    {
        let c = v[i];
        assert(v@.take(i + 1).drop_last() =~= v@.take(i as int));
        assert(v@.take(i + 1).last() == c);
        let ghost prev = r@.map_values(|p: Vec<char>| p@);
        if c == '-' || c == ' ' || c == ':' {
            r.push(Vec::new());
            assert(r@.map_values(|p: Vec<char>| p@) =~= prev.push(Seq::empty()));
        } else {
            let k = r.len() - 1;
            let mut ultimo = r.pop().unwrap();
            assert(ultimo@ == prev[k as int]);
            ultimo.push(c);
            r.push(ultimo);
            assert(r@.map_values(|p: Vec<char>| p@) =~= prev.update(prev.len() - 1, prev.last().push(c)));
        }
        i = i + 1;
    }
    assert(v@.take(v.len() as int) =~= v@);
    r
}

/// "YYYY-MM-DD HH:MM:SS" como "DD/MM/YYYY HH:MM"; si no trae cinco
/// pedazos, se deja igual.
pub open spec fn spec_fmt_fecha(s: Seq<char>) -> Seq<char> {
    let p = pedazos_fecha(s);
    if p.len() >= 5 {
        p[2] + "/"@ + p[1] + "/"@ + p[0] + " "@ + p[3] + ":"@ + p[4]
    } else {
        s
    }
}

/// "YYYY-MM-DD HH:MM:SS" -> "DD/MM/YYYY HH:MM".
pub fn fmt_fecha(s: &str) -> (r: String)
    ensures
        r@ == spec_fmt_fecha(s@),
{
    let v = chars_de(s);
    let p = pedazos_fecha_exec(&v);
    let ghost pv = p@.map_values(|x: Vec<char>| x@);
    if p.len() >= 5 {
        assert(pv[0] == p@[0]@ && pv[1] == p@[1]@ && pv[2] == p@[2]@ && pv[3] == p@[3]@ && pv[4] == p@[4]@);
        let mut r: Vec<char> = Vec::new();
        anexar(&mut r, &p[2]);
        anexar_str(&mut r, "/");
        anexar(&mut r, &p[1]);
        anexar_str(&mut r, "/");
        anexar(&mut r, &p[0]);
        anexar_str(&mut r, " ");
        anexar(&mut r, &p[3]);
        anexar_str(&mut r, ":");
        anexar(&mut r, &p[4]);
        string_de(&r)
    } else {
        s.to_owned()
    }
}

/// Renglón de guiones del corte.
pub open spec fn spec_linea_corte() -> Seq<char> {
    repetido('-', COLS_CORTE as nat)
}

pub fn linea_corte() -> (r: String)
    ensures
        r@ == spec_linea_corte(),
{
    let mut v: Vec<char> = Vec::new();
    let mut i: usize = 0;
    while i < COLS_CORTE
        invariant
            i <= COLS_CORTE,
            v@ == repetido('-', i as nat),
        decreases COLS_CORTE - i,
    {
        v.push('-');
        i = i + 1;
        assert(v@ =~= repetido('-', i as nat));
    }
    string_de(&v)
}

/// Fila monoespaciada de 48 columnas: izquierda recortada, importe a la derecha.
pub fn fila(importe: &str, izquierda: &str) -> (r: String)
    ensures
        r@ == fila_txt(importe@, izquierda@, COLS_CORTE as nat),
{
    string_de(&fila_chars(&chars_de(importe), &chars_de(izquierda), COLS_CORTE))
}

pub open spec fn vista_lineas(v: Seq<String>) -> Seq<Seq<char>> {
    v.map_values(|s: String| s@)
}

pub open spec fn spec_encabezado(d: DatosCorte) -> Seq<Seq<char>> {
    seq![
        "*** CORTE "@ + d.tipo@ + " EN MONEDA:MXN ***"@,
        d.tienda@,
        "Cajero: "@ + mayusculas(d.cajero_nombre@),
        spec_linea_corte(),
        "Corte "@ + d.tipo@ + " #"@ + dec_entero(d.numero as int),
        spec_fmt_fecha(d.apertura@) + " - "@ + spec_fmt_fecha(d.cierre@),
        spec_linea_corte(),
        "** VENTAS DEL TURNO **"@,
    ]
}

fn texto_de(v: Vec<char>) -> (r: String)
    ensures
        r@ == v@,
{
    string_de(&v)
}

/// Los ocho renglones del encabezado del corte.
pub fn encabezado(d: &DatosCorte) -> (r: Vec<String>)
    ensures
        vista_lineas(r@) == spec_encabezado(*d),
{
    let mut r: Vec<String> = Vec::new();
    let mut l0: Vec<char> = Vec::new();
    anexar_str(&mut l0, "*** CORTE ");
    anexar(&mut l0, &chars_de(d.tipo.as_str()));
    anexar_str(&mut l0, " EN MONEDA:MXN ***");
    r.push(texto_de(l0));
    r.push(d.tienda.clone());
    let mut l2: Vec<char> = Vec::new();
    anexar_str(&mut l2, "Cajero: ");
    anexar(&mut l2, &chars_de(a_mayusculas(d.cajero_nombre.as_str()).as_str()));
    r.push(texto_de(l2));
    r.push(linea_corte());
    let mut l4: Vec<char> = Vec::new();
    anexar_str(&mut l4, "Corte ");
    anexar(&mut l4, &chars_de(d.tipo.as_str()));
    anexar_str(&mut l4, " #");
    anexar(&mut l4, &entero_exec(d.numero));
    r.push(texto_de(l4));
    let mut l5: Vec<char> = Vec::new();
    anexar(&mut l5, &chars_de(fmt_fecha(d.apertura.as_str()).as_str()));
    anexar_str(&mut l5, " - ");
    anexar(&mut l5, &chars_de(fmt_fecha(d.cierre.as_str()).as_str()));
    r.push(texto_de(l5));
    r.push(linea_corte());
    r.push("** VENTAS DEL TURNO **".to_owned());
    assert(vista_lineas(r@) =~= spec_encabezado(*d));
    r
}

pub open spec fn spec_pie_totales(t: TotalesVentana) -> Seq<Seq<char>> {
    let cols = COLS_CORTE as nat;
    seq![
        spec_linea_corte(),
        fila_txt(dinero_centavos(t.total_ventas as int), "Total ventas"@, cols),
        fila_txt(dinero_centavos(t.total_efectivo as int), "Efectivo"@, cols),
        fila_txt(dinero_centavos(t.total_tarjeta as int), "Tarjeta"@, cols),
        fila_txt(dinero_centavos(t.total_transferencia as int), "Transferencia"@, cols),
        spec_linea_corte(),
        "Tickets: "@ + dec_entero(t.num_tickets as int),
        spec_linea_corte(),
    ]
}

fn fila_dinero(monto: i64, izquierda: &str) -> (r: String)
    ensures
        r@ == fila_txt(dinero_centavos(monto as int), izquierda@, COLS_CORTE as nat),
{
    string_de(&fila_chars(&dinero_c_exec(monto), &chars_de(izquierda), COLS_CORTE))
}

/// Los renglones de totales por método.
pub fn pie_totales(t: &TotalesVentana) -> (r: Vec<String>)
    ensures
        vista_lineas(r@) == spec_pie_totales(*t),
{
    let mut r: Vec<String> = Vec::new();
    r.push(linea_corte());
    r.push(fila_dinero(t.total_ventas, "Total ventas"));
    r.push(fila_dinero(t.total_efectivo, "Efectivo"));
    r.push(fila_dinero(t.total_tarjeta, "Tarjeta"));
    r.push(fila_dinero(t.total_transferencia, "Transferencia"));
    r.push(linea_corte());
    let mut l: Vec<char> = Vec::new();
    anexar_str(&mut l, "Tickets: ");
    anexar(&mut l, &entero_exec(t.num_tickets));
    r.push(texto_de(l));
    r.push(linea_corte());
    assert(vista_lineas(r@) =~= spec_pie_totales(*t));
    r
}

/// Cada método de pago del pie del corte lleva su propio total: hay un
/// renglón "Total ventas" con el total vendido, uno "Efectivo" con lo
/// cobrado en efectivo, uno "Tarjeta" con lo de tarjeta y uno
/// "Transferencia" con lo de transferencia, y cierra con el número de
/// tickets.
pub proof fn ley_pie_cada_metodo_con_su_total(t: TotalesVentana)
    ensures
        ({
            let p = spec_pie_totales(t);
            let cols = COLS_CORTE as nat;
            &&& exists|k: int|
                0 <= k < p.len() && #[trigger] p[k] == fila_txt(
                    dinero_centavos(t.total_ventas as int),
                    "Total ventas"@,
                    cols,
                )
            &&& exists|k: int|
                0 <= k < p.len() && #[trigger] p[k] == fila_txt(
                    dinero_centavos(t.total_efectivo as int),
                    "Efectivo"@,
                    cols,
                )
            &&& exists|k: int|
                0 <= k < p.len() && #[trigger] p[k] == fila_txt(
                    dinero_centavos(t.total_tarjeta as int),
                    "Tarjeta"@,
                    cols,
                )
            &&& exists|k: int|
                0 <= k < p.len() && #[trigger] p[k] == fila_txt(
                    dinero_centavos(t.total_transferencia as int),
                    "Transferencia"@,
                    cols,
                )
            &&& exists|k: int|
                0 <= k < p.len() && #[trigger] p[k] == "Tickets: "@ + dec_entero(t.num_tickets as int)
        }),
{
    let p = spec_pie_totales(t);
    assert(p[1] == fila_txt(dinero_centavos(t.total_ventas as int), "Total ventas"@, COLS_CORTE as nat));
    assert(p[2] == fila_txt(dinero_centavos(t.total_efectivo as int), "Efectivo"@, COLS_CORTE as nat));
    assert(p[3] == fila_txt(dinero_centavos(t.total_tarjeta as int), "Tarjeta"@, COLS_CORTE as nat));
    assert(p[4] == fila_txt(dinero_centavos(t.total_transferencia as int), "Transferencia"@, COLS_CORTE as nat));
    assert(p[6] == "Tickets: "@ + dec_entero(t.num_tickets as int));
}

/// Operaciones de un corte: título centrado en negrita, cuerpo a la
/// izquierda, avance y corte; error si pasa del tope de renglones.
pub open spec fn spec_ops_corte(titulo: Seq<Seq<char>>, cuerpo: Seq<Seq<char>>) -> Result<Seq<OpV>, Seq<char>> {
    let total = titulo.len() + cuerpo.len();
    if total > MAX_LINEAS_CORTE {
        Err("Corte demasiado largo ("@ + dec(total) + " lineas)."@)
    } else {
        Ok(seq![OpV::Inicio, OpV::Justificar(Justificado::Centro), OpV::Negrita(true)] + titulo.map_values(
            |l: Seq<char>| OpV::Renglon(l),
        ) + seq![OpV::Negrita(false), OpV::Justificar(Justificado::Izquierda)] + cuerpo.map_values(
            |l: Seq<char>| OpV::Renglon(l),
        ) + seq![OpV::Justificar(Justificado::Centro), OpV::Avanzar, OpV::CortarParcial])
    }
}

fn agregar_op(ops: &mut Vec<OpTicket>, op: OpTicket)
    ensures
        vista_ops(final(ops)@) == vista_ops(old(ops)@).push(vista_op(op)),
{
    let ghost antes = ops@;
    ops.push(op);
    assert(vista_ops(ops@) =~= vista_ops(antes).push(vista_op(op)));
}

fn agregar_renglones(ops: &mut Vec<OpTicket>, lineas: &Vec<String>)
    ensures
        vista_ops(final(ops)@) == vista_ops(old(ops)@) + vista_lineas(lineas@).map_values(
            |l: Seq<char>| OpV::Renglon(l),
        ),
{
    let ghost inicio = vista_ops(ops@);
    let mut i: usize = 0;
    while i < lineas.len()
        invariant
            i <= lineas.len(),
            vista_ops(ops@) == inicio + vista_lineas(lineas@.take(i as int)).map_values(
                |l: Seq<char>| OpV::Renglon(l),
            ),
        decreases lineas.len() - i,
    {
        agregar_op(ops, OpTicket::Renglon(lineas[i].clone()));
        i = i + 1;
        assert(vista_lineas(lineas@.take(i as int)).map_values(|l: Seq<char>| OpV::Renglon(l)) =~= vista_lineas(
            lineas@.take(i - 1),
        ).map_values(|l: Seq<char>| OpV::Renglon(l)).push(OpV::Renglon(lineas@[i - 1]@)));
    }
    assert(lineas@.take(lineas.len() as int) =~= lineas@);
}

/// Arma las operaciones de impresión de un corte.
pub fn a_ops(titulo: &Vec<String>, cuerpo: &Vec<String>) -> (r: Result<Vec<OpTicket>, String>)
    ensures
        match r {
            Ok(ops) => spec_ops_corte(vista_lineas(titulo@), vista_lineas(cuerpo@)) == Ok::<Seq<OpV>, Seq<char>>(
                vista_ops(ops@),
            ),
            Err(e) => spec_ops_corte(vista_lineas(titulo@), vista_lineas(cuerpo@)) == Err::<Seq<OpV>, Seq<char>>(
                e@,
            ),
        },
{
    if titulo.len() > MAX_LINEAS_CORTE || cuerpo.len() > MAX_LINEAS_CORTE - titulo.len() {
        let total: u128 = titulo.len() as u128 + cuerpo.len() as u128;
        let mut e: Vec<char> = Vec::new();
        anexar_str(&mut e, "Corte demasiado largo (");
        anexar(&mut e, &dec_exec(total));
        anexar_str(&mut e, " lineas).");
        return Err(string_de(&e));
    }
    let mut ops: Vec<OpTicket> = Vec::new();
    assert(vista_ops(ops@) =~= Seq::<OpV>::empty());
    agregar_op(&mut ops, OpTicket::Inicio);
    agregar_op(&mut ops, OpTicket::Justificar(Justificado::Centro));
    agregar_op(&mut ops, OpTicket::Negrita(true));
    agregar_renglones(&mut ops, titulo);
    agregar_op(&mut ops, OpTicket::Negrita(false));
    agregar_op(&mut ops, OpTicket::Justificar(Justificado::Izquierda));
    agregar_renglones(&mut ops, cuerpo);
    agregar_op(&mut ops, OpTicket::Justificar(Justificado::Centro));
    agregar_op(&mut ops, OpTicket::Avanzar);
    agregar_op(&mut ops, OpTicket::CortarParcial);
    assert(vista_ops(ops@) =~= spec_ops_corte(vista_lineas(titulo@), vista_lineas(cuerpo@))->Ok_0);
    Ok(ops)
}

pub open spec fn filas_tickets(ts: Seq<TicketResumen>) -> Seq<Seq<char>> {
    ts.map_values(|t: TicketResumen| fila_txt(dinero_centavos(t.total as int), t.folio@, COLS_CORTE as nat))
}

pub open spec fn filas_productos(ps: Seq<ProductoAgregado>) -> Seq<Seq<char>> {
    ps.map_values(
        |p: ProductoAgregado|
            fila_txt(
                dinero_centavos(p.monto as int),
                p.producto_nombre@ + " "@ + cantidad_txt(p.cantidad as int),
                COLS_CORTE as nat,
            ),
    )
}

/// Corte X: tickets de la ventana, totales y la nota de que no cierra turno.
pub open spec fn spec_corte_x(d: DatosCorte, tickets: Seq<TicketResumen>, totales: TotalesVentana) -> Result<
    Seq<OpV>,
    Seq<char>,
> {
    let enc = spec_encabezado(d);
    spec_ops_corte(
        enc.take(3),
        enc.skip(3) + filas_tickets(tickets) + spec_pie_totales(totales) + seq![
            "X informativo: no cierra tu turno"@,
            spec_linea_corte(),
        ],
    )
}

/// Corte Z: productos vendidos, totales y la constancia del cierre.
pub open spec fn spec_corte_z(d: DatosCorte, productos: Seq<ProductoAgregado>, totales: TotalesVentana) -> Result<
    Seq<OpV>,
    Seq<char>,
> {
    let enc = spec_encabezado(d);
    spec_ops_corte(
        enc.take(3),
        enc.skip(3) + filas_productos(productos) + spec_pie_totales(totales) + seq![
            "*** TURNO CERRADO ***"@,
            "Contador reiniciado a $0.00"@,
            spec_linea_corte(),
        ],
    )
}

fn partir_encabezado(d: &DatosCorte) -> (r: (Vec<String>, Vec<String>))
    ensures
        vista_lineas(r.0@) == spec_encabezado(*d).take(3),
        vista_lineas(r.1@) == spec_encabezado(*d).skip(3),
{
    let head = encabezado(d);
    assert(vista_lineas(head@).len() == head@.len());
    let mut titulo: Vec<String> = Vec::new();
    let mut resto: Vec<String> = Vec::new();
    let mut i: usize = 0;
    while i < head.len()
        invariant
            i <= head.len(),
            head@.len() == 8,
            vista_lineas(head@) == spec_encabezado(*d),
            vista_lineas(titulo@) == vista_lineas(head@).take(if i < 3 { i as int } else { 3 }),
            vista_lineas(resto@) == vista_lineas(head@).subrange(3, if i < 3 { 3 } else { i as int }),
        decreases head.len() - i,
    {
        let x = head[i].clone();
        assert(x@ == vista_lineas(head@)[i as int]);
        let ghost t0 = titulo@;
        let ghost r0 = resto@;
        if i < 3 {
            titulo.push(x);
            assert(vista_lineas(titulo@) =~= vista_lineas(t0).push(x@));
        } else {
            resto.push(x);
            assert(vista_lineas(resto@) =~= vista_lineas(r0).push(x@));
        }
        i = i + 1;
        assert(vista_lineas(titulo@) =~= vista_lineas(head@).take(if i < 3 { i as int } else { 3 }));
        assert(vista_lineas(resto@) =~= vista_lineas(head@).subrange(3, if i < 3 { 3 } else { i as int }));
    }
    assert(vista_lineas(head@).subrange(3, 8) =~= spec_encabezado(*d).skip(3));
    (titulo, resto)
}

fn agregar_lineas(v: &mut Vec<String>, extra: Vec<String>)
    ensures
        vista_lineas(final(v)@) == vista_lineas(old(v)@) + vista_lineas(extra@),
{
    let ghost inicio = vista_lineas(v@);
    let mut i: usize = 0;
    while i < extra.len()
        invariant
            i <= extra.len(),
            vista_lineas(v@) == inicio + vista_lineas(extra@.take(i as int)),
        decreases extra.len() - i,
    {
        let x = extra[i].clone();
        assert(x@ == extra@[i as int]@);
        let ghost antes = v@;
        v.push(x);
        assert(vista_lineas(v@) =~= vista_lineas(antes).push(x@));
        i = i + 1;
        assert(extra@.take(i as int) =~= extra@.take(i - 1).push(extra@[i - 1]));
        assert(vista_lineas(extra@.take(i as int)) =~= vista_lineas(extra@.take(i - 1)).push(extra@[i - 1]@));
        assert(vista_lineas(v@) =~= inicio + vista_lineas(extra@.take(i as int)));
    }
    assert(extra@.take(extra.len() as int) =~= extra@);
}

/// Operaciones del corte X.
pub fn construir_corte_x(d: &DatosCorte, tickets: &Vec<TicketResumen>, totales: &TotalesVentana) -> (r: Result<
    Vec<OpTicket>,
    String,
>)
    ensures
        match r {
            Ok(ops) => spec_corte_x(*d, tickets@, *totales) == Ok::<Seq<OpV>, Seq<char>>(vista_ops(ops@)),
            Err(e) => spec_corte_x(*d, tickets@, *totales) == Err::<Seq<OpV>, Seq<char>>(e@),
        },
{
    let (titulo, mut cuerpo) = partir_encabezado(d);
    let mut filas: Vec<String> = Vec::new();
    let mut i: usize = 0;
    while i < tickets.len()
        invariant
            i <= tickets.len(),
            vista_lineas(filas@) == filas_tickets(tickets@.take(i as int)),
        decreases tickets.len() - i,
    {
        let t = &tickets[i];
        let x = fila_dinero(t.total, t.folio.as_str());
        let ghost f0 = filas@;
        filas.push(x);
        assert(vista_lineas(filas@) =~= vista_lineas(f0).push(x@));
        assert(tickets@.take(i + 1) =~= tickets@.take(i as int).push(*t));
        assert(filas_tickets(tickets@.take(i + 1)) =~= filas_tickets(tickets@.take(i as int)).push(x@));
        i = i + 1;
        assert(vista_lineas(filas@) =~= filas_tickets(tickets@.take(i as int)));
    }
    assert(tickets@.take(tickets.len() as int) =~= tickets@);
    agregar_lineas(&mut cuerpo, filas);
    agregar_lineas(&mut cuerpo, pie_totales(totales));
    let mut cola: Vec<String> = Vec::new();
    cola.push("X informativo: no cierra tu turno".to_owned());
    cola.push(linea_corte());
    assert(vista_lineas(cola@) =~= seq!["X informativo: no cierra tu turno"@, spec_linea_corte()]);
    agregar_lineas(&mut cuerpo, cola);
    a_ops(&titulo, &cuerpo)
}

/// Operaciones del corte Z.
pub fn construir_corte_z(d: &DatosCorte, productos: &Vec<ProductoAgregado>, totales: &TotalesVentana) -> (r: Result<
    Vec<OpTicket>,
    String,
>)
    ensures
        match r {
            Ok(ops) => spec_corte_z(*d, productos@, *totales) == Ok::<Seq<OpV>, Seq<char>>(vista_ops(ops@)),
            Err(e) => spec_corte_z(*d, productos@, *totales) == Err::<Seq<OpV>, Seq<char>>(e@),
        },
{
    let (titulo, mut cuerpo) = partir_encabezado(d);
    let mut filas: Vec<String> = Vec::new();
    let mut i: usize = 0;
    while i < productos.len()
        invariant
            i <= productos.len(),
            vista_lineas(filas@) == filas_productos(productos@.take(i as int)),
        decreases productos.len() - i,
    {
        let p = &productos[i];
        let mut izq: Vec<char> = chars_de(p.producto_nombre.as_str());
        anexar_str(&mut izq, " ");
        anexar(&mut izq, &cantidad_exec(p.cantidad));
        let x = string_de(&fila_chars(&dinero_c_exec(p.monto), &izq, COLS_CORTE));
        let ghost f0 = filas@;
        filas.push(x);
        assert(vista_lineas(filas@) =~= vista_lineas(f0).push(x@));
        assert(productos@.take(i + 1) =~= productos@.take(i as int).push(*p));
        assert(filas_productos(productos@.take(i + 1)) =~= filas_productos(productos@.take(i as int)).push(x@));
        i = i + 1;
        assert(vista_lineas(filas@) =~= filas_productos(productos@.take(i as int)));
    }
    assert(productos@.take(productos.len() as int) =~= productos@);
    agregar_lineas(&mut cuerpo, filas);
    agregar_lineas(&mut cuerpo, pie_totales(totales));
    let mut cola: Vec<String> = Vec::new();
    cola.push("*** TURNO CERRADO ***".to_owned());
    cola.push("Contador reiniciado a $0.00".to_owned());
    cola.push(linea_corte());
    assert(vista_lineas(cola@) =~= seq![
        "*** TURNO CERRADO ***"@,
        "Contador reiniciado a $0.00"@,
        spec_linea_corte(),
    ]);
    agregar_lineas(&mut cuerpo, cola);
    a_ops(&titulo, &cuerpo)
}

/// IP/puerto para reimprimir un corte por red.
pub fn validar_red_corte(ip: &str, puerto: u16) -> (r: Result<String, String>)
    ensures
        match r {
            Ok(s) => crate::texto::recortado(ip@).len() > 0 && puerto != 0 && s@ == crate::texto::recortado(ip@),
            Err(e) => (crate::texto::recortado(ip@).len() == 0 || puerto == 0) && e@ == "IP/puerto de red invalidos."@,
        },
{
    let s = crate::ticket_venta::limpiar(ip);
    if s.as_str().is_empty() || puerto == 0 {
        return Err("IP/puerto de red invalidos.".to_owned());
    }
    Ok(s)
}

} // verus!
