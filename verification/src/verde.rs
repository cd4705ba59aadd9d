//! Semáforo verde: auto-asignación 100% segura de un código de barras a
//! un producto, y la importación del catálogo de códigos.
//!
//! Sólo entra lo indiscutible, en este orden: código normalizado,
//! válido y con dígito verificador correcto; ninguna colisión (código de
//! otro producto, producto con otro código, código en conflicto); nombre
//! base exacto; marca compatible; misma presentación. Las consultas a la
//! base las hace quien llama; aquí se decide con lo que respondió.

use vstd::prelude::*;
use crate::texto::{anexar, anexar_str, chars_de, contiene, contiene_exec, recortado, recortar_espacios, string_de};
use crate::codigos::{
    msg_codigo_invalido, msg_codigo_largo, normalizar_codigo_obligatorio, spec_normalizar_codigo,
    todo_grafico_ascii, validar_codigo_barras, vista_str,
};
use crate::ean::{spec_validar_ean, validar_ean};
use crate::texto::largo_utf8;
use crate::marcas::{marcas_iguales, spec_marcas_iguales};
use crate::modelos::{ResumenImportCatalogo, VeredictoVerde};
use crate::presentacion::{
    extraer_presentacion, minusculas, quitar_presentacion, spec_extraer, spec_quitar_presentacion, Presentacion,
    UnidadBase,
};
use crate::formato::{dec, dec_exec, digito};

verus! {

/// Veredicto en negativo con su motivo.
pub open spec fn rechazo(v: VeredictoVerde, motivo: Seq<char>) -> bool {
    !v.asignado && v.motivo@ == motivo
}

/// Paso del código: el código listo, o el veredicto que lo rechaza.
pub enum PasoEan {
    Listo(String),
    Rechazado(VeredictoVerde),
}

/// Revisa el código crudo: vacío o con formato inválido es error; con
/// dígito verificador incorrecto se rechaza (sin error).
pub fn revisar_ean_verde(ean_crudo: &str) -> (r: Result<PasoEan, String>)
    ensures
        match spec_normalizar_codigo(Some(ean_crudo@)) {
            None => r is Err && r->Err_0@ == "Código de barras vacío."@,
            Some(c) => if largo_utf8(c) > 64 {
                r is Err && r->Err_0@ == msg_codigo_largo()
            } else if !todo_grafico_ascii(c) {
                r is Err && r->Err_0@ == msg_codigo_invalido()
            } else if !spec_validar_ean(c) {
                r is Ok && r->Ok_0 is Rechazado && rechazo(
                    r->Ok_0->Rechazado_0,
                    "ean con dígito verificador inválido"@,
                )
            } else {
                r is Ok && r->Ok_0 is Listo && r->Ok_0->Listo_0@ == c
            },
        },
{
    let ean = match normalizar_codigo_obligatorio(ean_crudo) {
        Some(e) => e,
        None => return Err("Código de barras vacío.".to_owned()),
    };
    let copia = Some(ean.clone());
    match validar_codigo_barras(&copia) {
        Ok(_) => {},
        Err(m) => return Err(m),
    }
    if !validar_ean(ean.as_str()) {
        return Ok(
            PasoEan::Rechazado(
                VeredictoVerde { asignado: false, motivo: "ean con dígito verificador inválido".to_owned() },
            ),
        );
    }
    Ok(PasoEan::Listo(ean))
}

/// Colisiones, en orden: el código es de otro producto, el producto ya
/// tiene otro código, o el código está en conflicto.
pub fn veredicto_colisiones(ocupado_por_otro: bool, codigo_distinto: bool, en_conflicto: bool) -> (r: Option<
    VeredictoVerde,
>)
    ensures
        r is None <==> (!ocupado_por_otro && !codigo_distinto && !en_conflicto),
        ocupado_por_otro ==> rechazo(r->0, "ean reclamado por otro producto"@),
        !ocupado_por_otro && codigo_distinto ==> rechazo(r->0, "el producto ya tiene otro código"@),
        !ocupado_por_otro && !codigo_distinto && en_conflicto ==> rechazo(
            r->0,
            "ean en conflicto (2 productos lo reclaman)"@,
        ),
{
    if ocupado_por_otro {
        return Some(VeredictoVerde { asignado: false, motivo: "ean reclamado por otro producto".to_owned() });
    }
    if codigo_distinto {
        return Some(VeredictoVerde { asignado: false, motivo: "el producto ya tiene otro código".to_owned() });
    }
    if en_conflicto {
        return Some(
            VeredictoVerde { asignado: false, motivo: "ean en conflicto (2 productos lo reclaman)".to_owned() },
        );
    }
    None
}

/// Presentación que se lee de un texto (ausente si no cabe).
pub open spec fn pres_leida(t: Seq<char>) -> Option<Presentacion> {
    match spec_extraer(t) {
        Some((v, u)) => if v <= u128::MAX {
            Some(Presentacion { cantidad_millonesimas: v as u128, unidad_base: u })
        } else {
            None
        },
        None => None,
    }
}

/// Motivo del veredicto por nombres, marca y presentación (vacío = asignar).
pub open spec fn motivo_nombres(
    ticket_norm: Seq<char>,
    producto_norm: Seq<char>,
    marca_ticket: Option<Seq<char>>,
    marca_prod: Option<Seq<char>>,
    pres_producto: Option<Presentacion>,
) -> Option<Seq<char>> {
    if ticket_norm.len() == 0 {
        Some("nombre de ticket vacío"@)
    } else if spec_quitar_presentacion(ticket_norm) != producto_norm {
        Some("nombre base no exacto (va a amarillo/rojo)"@)
    } else if !spec_marcas_iguales(marca_ticket, marca_prod) {
        Some("marca distinta"@)
    } else if !(pres_leida(ticket_norm) is Some && pres_producto is Some && pres_leida(ticket_norm) == pres_producto) {
        Some("presentación distinta o ausente"@)
    } else {
        None
    }
}

/// Veredicto final con nombre base exacto, marca y presentación.
/// `ticket_norm` y `producto_norm` llegan ya normalizados.
pub fn veredicto_nombres(
    ticket_norm: &str,
    producto_norm: &str,
    marca_ticket: Option<&str>,
    marca_prod: Option<&str>,
    pres_producto: Option<Presentacion>,
) -> (r: VeredictoVerde)
    ensures
        match motivo_nombres(ticket_norm@, producto_norm@, vista_str(marca_ticket), vista_str(marca_prod), pres_producto) {
            Some(m) => rechazo(r, m),
            None => r.asignado && r.motivo@ == "auto-verde asignado"@,
        },
{
    if ticket_norm.is_empty() {
        return VeredictoVerde { asignado: false, motivo: "nombre de ticket vacío".to_owned() };
    }
    let base = quitar_presentacion(ticket_norm);
    let pres_ticket = extraer_presentacion(ticket_norm);
    if !crate::texto::iguales(&chars_de(base.as_str()), &chars_de(producto_norm)) {
        return VeredictoVerde { asignado: false, motivo: "nombre base no exacto (va a amarillo/rojo)".to_owned() };
    }
    if !marcas_iguales(marca_ticket, marca_prod) {
        return VeredictoVerde { asignado: false, motivo: "marca distinta".to_owned() };
    }
    let misma = match (pres_ticket, pres_producto) {
        (Some(t), Some(p)) => t.unidad_base == p.unidad_base && t.cantidad_millonesimas == p.cantidad_millonesimas,
        _ => false,
    };
    if !misma {
        return VeredictoVerde { asignado: false, motivo: "presentación distinta o ausente".to_owned() };
    }
    VeredictoVerde { asignado: true, motivo: "auto-verde asignado".to_owned() }
}

/// Nunca se asigna con marca distinta ni con presentación distinta o
/// ausente: el veredicto positivo exige las tres igualdades.
pub proof fn ley_verde_solo_indiscutible(
    ticket_norm: Seq<char>,
    producto_norm: Seq<char>,
    marca_ticket: Option<Seq<char>>,
    marca_prod: Option<Seq<char>>,
    pres_producto: Option<Presentacion>,
)
    requires
        motivo_nombres(ticket_norm, producto_norm, marca_ticket, marca_prod, pres_producto) is None,
    ensures
        spec_quitar_presentacion(ticket_norm) == producto_norm,
        spec_marcas_iguales(marca_ticket, marca_prod),
        pres_producto is Some,
        pres_leida(ticket_norm) == pres_producto,
{
}

/// Una fila del dataset de códigos (cantidad en millonésimas).
pub struct CatalogoRow {
    pub ean: String,
    pub nombre: String,
    pub marca: Option<String>,
    pub cantidad: u128,
    pub unidad: String,
    pub categoria: Option<String>,
}

/// Unidades aceptadas en el dataset.
pub open spec fn unidad_de_catalogo(u: Seq<char>) -> bool {
    u == "ml"@ || u == "l"@ || u == "g"@ || u == "kg"@ || u == "pzs"@
}

/// Un nombre entre comillas simples.
pub open spec fn citado(s: Seq<char>) -> Seq<char> {
    "'"@ + s + "'"@
}

/// Por qué se descarta una fila del dataset (en orden), o nada.
pub open spec fn error_fila_catalogo(f: CatalogoRow) -> Option<Seq<char>> {
    let nombre = f.nombre@;
    match spec_normalizar_codigo(Some(f.ean@)) {
        None => Some("ean vacío para "@ + citado(nombre)),
        Some(c) => if largo_utf8(c) > 64 {
            Some(citado(nombre) + ": "@ + msg_codigo_largo())
        } else if !todo_grafico_ascii(c) {
            Some(citado(nombre) + ": "@ + msg_codigo_invalido())
        } else if !spec_validar_ean(c) {
            Some(citado(nombre) + ": ean "@ + c + " con dígito inválido"@)
        } else if !unidad_de_catalogo(minusculas(recortado(f.unidad@))) {
            Some(citado(nombre) + ": unidad '"@ + f.unidad@ + "' fuera de catálogo"@)
        } else {
            None
        }
    }
}

fn entre_comillas(nombre: &String) -> (r: Vec<char>)
    ensures
        r@ == citado(nombre@),
{
    let mut v: Vec<char> = Vec::new();
    anexar_str(&mut v, "'");
    anexar(&mut v, &chars_de(nombre.as_str()));
    anexar_str(&mut v, "'");
    v
}

/// Revisa una fila del dataset: devuelve el código normalizado y la
/// unidad en minúsculas, o el error que va al resumen.
pub fn revisar_fila_catalogo(f: &CatalogoRow) -> (r: Result<(String, String), String>)
    ensures
        match r {
            Ok((e, u)) => error_fila_catalogo(*f) is None && Some(e@) == spec_normalizar_codigo(Some(f.ean@))
                && u@ == minusculas(recortado(f.unidad@)),
            Err(m) => error_fila_catalogo(*f) == Some(m@),
        },
{
    let ean = match normalizar_codigo_obligatorio(f.ean.as_str()) {
        Some(e) => e,
        None => {
            let mut v: Vec<char> = Vec::new();
            anexar_str(&mut v, "ean vacío para ");
            anexar(&mut v, &entre_comillas(&f.nombre));
            return Err(string_de(&v));
        },
    };
    let copia = Some(ean.clone());
    match validar_codigo_barras(&copia) {
        Ok(_) => {},
        Err(m) => {
            let mut v = entre_comillas(&f.nombre);
            anexar_str(&mut v, ": ");
            anexar(&mut v, &chars_de(m.as_str()));
            return Err(string_de(&v));
        },
    }
    if !validar_ean(ean.as_str()) {
        let mut v = entre_comillas(&f.nombre);
        anexar_str(&mut v, ": ean ");
        anexar(&mut v, &chars_de(ean.as_str()));
        anexar_str(&mut v, " con dígito inválido");
        return Err(string_de(&v));
    }
    let u = crate::presentacion::minusculas_recortadas(f.unidad.as_str());
    let uv = chars_de(u.as_str());
    if !crate::texto::es_texto(&uv, "ml") && !crate::texto::es_texto(&uv, "l") && !crate::texto::es_texto(&uv, "g")
        && !crate::texto::es_texto(&uv, "kg") && !crate::texto::es_texto(&uv, "pzs") {
        let mut v = entre_comillas(&f.nombre);
        anexar_str(&mut v, ": unidad '");
        anexar(&mut v, &chars_de(f.unidad.as_str()));
        anexar_str(&mut v, "' fuera de catálogo");
        return Err(string_de(&v));
    }
    Ok((ean, u))
}

/// ¿Es el producto gemelo de la fila? Sin código, mismo nombre
/// normalizado, marca compatible y misma presentación.
pub fn es_gemelo(
    tiene_codigo: bool,
    producto_norm: &str,
    nombre_norm: &str,
    marca_fila: Option<&str>,
    marca_prod: Option<&str>,
    pres_cat: Option<Presentacion>,
    pres_prod: Option<Presentacion>,
) -> (r: bool)
    ensures
        r == (!tiene_codigo && producto_norm@ == nombre_norm@ && spec_marcas_iguales(
            vista_str(marca_fila),
            vista_str(marca_prod),
        ) && pres_cat is Some && pres_prod is Some && pres_cat == pres_prod),
{
    if tiene_codigo {
        return false;
    }
    if !crate::texto::iguales(&chars_de(producto_norm), &chars_de(nombre_norm)) {
        return false;
    }
    if !marcas_iguales(marca_fila, marca_prod) {
        return false;
    }
    match (pres_cat, pres_prod) {
        (Some(a), Some(b)) => a.unidad_base == b.unidad_base && a.cantidad_millonesimas == b.cantidad_millonesimas,
        _ => false,
    }
}

/// Cómo termina una fila del dataset en el resumen.
#[derive(PartialEq, Eq, Structural)]
pub enum Desenlace {
    Verde,
    Conflicto,
    SinMatch,
}

/// Sin gemelo no hay match; con más de uno es conflicto.
pub fn desenlace_por_gemelos(n: usize) -> (r: Option<Desenlace>)
    ensures
        n == 0 ==> r == Some(Desenlace::SinMatch),
        n == 1 ==> r is None,
        n > 1 ==> r == Some(Desenlace::Conflicto),
{
    if n == 0 {
        Some(Desenlace::SinMatch)
    } else if n == 1 {
        None
    } else {
        Some(Desenlace::Conflicto)
    }
}

/// Desenlace del intento verde con el único gemelo.
pub fn desenlace_de_veredicto(v: &VeredictoVerde) -> (r: Desenlace)
    ensures
        r == (if v.asignado {
            Desenlace::Verde
        } else if contiene(v.motivo@, "conflicto"@) || contiene(v.motivo@, "reclamado"@) {
            Desenlace::Conflicto
        } else {
            Desenlace::SinMatch
        }),
{
    if v.asignado {
        return Desenlace::Verde;
    }
    let m = chars_de(v.motivo.as_str());
    if contiene_exec(&m, &chars_de("conflicto")) || contiene_exec(&m, &chars_de("reclamado")) {
        Desenlace::Conflicto
    } else {
        Desenlace::SinMatch
    }
}

/// Decimales de una fracción de millonésimas, sin ceros sobrantes.
pub open spec fn fraccion_millon(f: nat, k: nat) -> Seq<char>
    decreases k,
{
    if k == 0 || f == 0 {
        Seq::empty()
    } else {
        let p = crate::formato::pot10((k - 1) as nat);
        seq![digito((f / p) % 10)] + fraccion_millon(f % p, (k - 1) as nat)
    }
}

/// Cantidad en millonésimas como la escribe `{}` de un número: entera si
/// es exacta, con sus decimales si no.
pub open spec fn cantidad_millon_txt(v: nat) -> Seq<char> {
    if v % 1_000_000 == 0 {
        dec(v / 1_000_000)
    } else {
        dec(v / 1_000_000) + seq!['.'] + fraccion_millon(v % 1_000_000, 6)
    }
}

fn fraccion_millon_exec(f: u128, k: u32) -> (r: Vec<char>)
    requires
        k <= 6,
        f < crate::formato::pot10(k as nat),
    ensures
        r@ == fraccion_millon(f as nat, k as nat),
    decreases k,
{
    if k == 0 || f == 0 {
        return Vec::new();
    }
    proof {
        reveal_with_fuel(crate::formato::pot10, 7);
    }
    let p: u128 = if k == 1 {
        1
    } else if k == 2 {
        10
    } else if k == 3 {
        100
    } else if k == 4 {
        1000
    } else if k == 5 {
        10000
    } else {
        100000
    };
    assert(p == crate::formato::pot10((k - 1) as nat));
    let d = ((f / p) % 10) as u8;
    let c = (d + 48) as char;
    assert(c == digito(((f / p) % 10) as nat));
    let mut r = vec![c];
    anexar(&mut r, &fraccion_millon_exec(f % p, k - 1));
    r
}

/// Texto de ticket que se reconstruye para el intento verde de una fila:
/// nombre, espacio, cantidad y unidad ("coca cola 600ml").
pub open spec fn texto_ticket_fila(nombre: Seq<char>, cantidad: nat, unidad: Seq<char>) -> Seq<char> {
    nombre + " "@ + cantidad_millon_txt(cantidad) + unidad
}

pub fn texto_ticket_catalogo(nombre: &str, cantidad: u128, unidad: &str) -> (r: String)
    ensures
        r@ == texto_ticket_fila(nombre@, cantidad as nat, unidad@),
{
    let mut v: Vec<char> = chars_de(nombre);
    anexar_str(&mut v, " ");
    anexar(&mut v, &dec_exec(cantidad / 1_000_000));
    let f = cantidad % 1_000_000;
    if f != 0 {
        v.push('.');
        proof {
            reveal_with_fuel(crate::formato::pot10, 7);
        }
        anexar(&mut v, &fraccion_millon_exec(f, 6));
    }
    anexar(&mut v, &chars_de(unidad));
    assert(v@ =~= texto_ticket_fila(nombre@, cantidad as nat, unidad@));
    string_de(&v)
}


/// Cómo terminó una fila de la importación del catálogo.
pub enum ResultadoFila {
    /// La fila no entró al catálogo, con este mensaje.
    Rechazada(String),
    /// La fila entró al catálogo y así terminó su intento verde.
    Registrada(Desenlace),
}

pub open spec fn cuenta_registradas(rs: Seq<ResultadoFila>) -> nat
    decreases rs.len(),
{
    if rs.len() == 0 {
        0
    } else {
        cuenta_registradas(rs.drop_last()) + if rs.last() is Registrada {
            1nat
        } else {
            0nat
        }
    }
}

pub open spec fn cuenta_desenlace(rs: Seq<ResultadoFila>, d: Desenlace) -> nat
    decreases rs.len(),
{
    if rs.len() == 0 {
        0
    } else {
        cuenta_desenlace(rs.drop_last(), d) + if rs.last() == ResultadoFila::Registrada(d) {
            1nat
        } else {
            0nat
        }
    }
}

/// Los mensajes de las filas rechazadas, en orden.
pub open spec fn mensajes_rechazo(rs: Seq<ResultadoFila>) -> Seq<Seq<char>>
    decreases rs.len(),
{
    if rs.len() == 0 {
        Seq::empty()
    } else {
        match rs.last() {
            ResultadoFila::Rechazada(m) => mensajes_rechazo(rs.drop_last()).push(m@),
            ResultadoFila::Registrada(_) => mensajes_rechazo(rs.drop_last()),
        }
    }
}

proof fn lema_sumas(rs: Seq<ResultadoFila>)
    ensures
        cuenta_registradas(rs) == cuenta_desenlace(rs, Desenlace::Verde) + cuenta_desenlace(rs, Desenlace::SinMatch)
            + cuenta_desenlace(rs, Desenlace::Conflicto),
        cuenta_registradas(rs) + mensajes_rechazo(rs).len() == rs.len(),
    decreases rs.len(),
{
    if rs.len() > 0 {
        lema_sumas(rs.drop_last());
    }
}

/// Resumen de la importación a partir del desenlace de cada fila: cuántas
/// entraron al catálogo, cuántas quedaron verdes, sin match o en
/// conflicto, y los errores en orden. Toda fila registrada cae en
/// exactamente uno de los tres desenlaces, y toda fila o se registra o
/// deja su error.
pub fn resumir_importacion(filas: &Vec<ResultadoFila>) -> (r: ResumenImportCatalogo)
    ensures
        r.catalogo_upserts == cuenta_registradas(filas@),
        r.verde_asignados == cuenta_desenlace(filas@, Desenlace::Verde),
        r.sin_match == cuenta_desenlace(filas@, Desenlace::SinMatch),
        r.conflictos == cuenta_desenlace(filas@, Desenlace::Conflicto),
        r.errores@.map_values(|e: String| e@) == mensajes_rechazo(filas@),
        r.catalogo_upserts == r.verde_asignados + r.sin_match + r.conflictos,
        r.catalogo_upserts + r.errores@.len() == filas@.len(),
{
    let mut res = ResumenImportCatalogo {
        catalogo_upserts: 0,
        verde_asignados: 0,
        sin_match: 0,
        conflictos: 0,
        errores: Vec::new(),
    };
    let mut k: usize = 0;
    while k < filas.len()
        invariant
            k <= filas.len(),
            res.catalogo_upserts == cuenta_registradas(filas@.take(k as int)),
            res.verde_asignados == cuenta_desenlace(filas@.take(k as int), Desenlace::Verde),
            res.sin_match == cuenta_desenlace(filas@.take(k as int), Desenlace::SinMatch),
            res.conflictos == cuenta_desenlace(filas@.take(k as int), Desenlace::Conflicto),
            res.errores@.map_values(|e: String| e@) == mensajes_rechazo(filas@.take(k as int)),
            cuenta_registradas(filas@.take(k as int)) <= k,
        decreases filas.len() - k,
    {
        assert(filas@.take(k + 1).drop_last() =~= filas@.take(k as int));
        assert(filas@.take(k + 1).last() == filas@[k as int]);
        proof {
            lema_sumas(filas@.take(k as int));
        }
        match &filas[k] {
            ResultadoFila::Rechazada(m) => {
                let ghost antes = res.errores@.map_values(|e: String| e@);
                res.errores.push(m.clone());
                assert(res.errores@.map_values(|e: String| e@) =~= antes.push(m@));
            },
            ResultadoFila::Registrada(d) => {
                res.catalogo_upserts = res.catalogo_upserts + 1;
                match d {
                    Desenlace::Verde => {
                        res.verde_asignados = res.verde_asignados + 1;
                    },
                    Desenlace::SinMatch => {
                        res.sin_match = res.sin_match + 1;
                    },
                    Desenlace::Conflicto => {
                        res.conflictos = res.conflictos + 1;
                    },
                }
            },
        }
        k = k + 1;
    }
    assert(filas@.take(filas@.len() as int) =~= filas@);
    proof {
        lema_sumas(filas@);
    }
    res
}

} // verus!
