//! Semáforo rojo y confirmaciones: lo que se revisa de un código antes
//! de registrarlo como pendiente o de resolverlo contra un producto, y
//! el conteo de la cola por estado.

use vstd::prelude::*;
use crate::texto::{anexar, anexar_str, chars_de, es_texto, recortado, string_de, largo_utf8};
use crate::codigos::{
    msg_codigo_invalido, msg_codigo_largo, normalizar_codigo_barras, spec_normalizar_codigo, todo_grafico_ascii,
    validar_codigo_barras, vista_str, vista_string,
};
use crate::ean::{spec_validar_ean, validar_ean};
use crate::presentacion::minusculas;
use crate::modelos::ConteosPendientes;
use crate::verde::unidad_de_catalogo;

verus! {

/// Error de formato de un código ya normalizado, si lo tiene.
pub open spec fn error_formato(c: Seq<char>) -> Option<Seq<char>> {
    if largo_utf8(c) > 64 {
        Some(msg_codigo_largo())
    } else if !todo_grafico_ascii(c) {
        Some(msg_codigo_invalido())
    } else {
        None
    }
}

/// Registro de un pendiente rojo: el código (si vino) se normaliza y sólo
/// se le exige formato; el nombre normalizado es obligatorio.
pub open spec fn spec_preparar_pendiente(ean: Option<Seq<char>>, nombre_norm: Seq<char>) -> Result<
    Option<Seq<char>>,
    Seq<char>,
> {
    let e = spec_normalizar_codigo(ean);
    if e is Some && error_formato(e->0) is Some {
        Err(error_formato(e->0)->0)
    } else if nombre_norm.len() == 0 {
        Err("El nombre del ticket es obligatorio."@)
    } else {
        Ok(e)
    }
}

fn revisar_formato(e: &String) -> (r: Result<(), String>)
    ensures
        match r {
            Ok(_) => error_formato(e@) is None,
            Err(m) => error_formato(e@) == Some(m@),
        },
{
    let copia = Some(e.clone());
    validar_codigo_barras(&copia)
}

/// Código y nombre de un pendiente nuevo, o el error que lo impide.
pub fn preparar_pendiente(ean_crudo: Option<&str>, nombre_norm: &str) -> (r: Result<Option<String>, String>)
    ensures
        match r {
            Ok(e) => spec_preparar_pendiente(vista_str(ean_crudo), nombre_norm@) == Ok::<
                Option<Seq<char>>,
                Seq<char>,
            >(vista_string(e)),
            Err(m) => spec_preparar_pendiente(vista_str(ean_crudo), nombre_norm@) == Err::<
                Option<Seq<char>>,
                Seq<char>,
            >(m@),
        },
{
    let ean = normalizar_codigo_barras(ean_crudo);
    match &ean {
        Some(e) => {
            match revisar_formato(e) {
                Ok(_) => {},
                Err(m) => return Err(m),
            }
        },
        None => {},
    }
    if nombre_norm.is_empty() {
        return Err("El nombre del ticket es obligatorio.".to_owned());
    }
    Ok(ean)
}

pub open spec fn msg_checksum(e: Seq<char>) -> Seq<char> {
    "El ean "@ + e + " tiene dígito verificador inválido."@
}

/// Al resolver se exige además el dígito verificador.
pub open spec fn error_resolucion(e: Seq<char>) -> Option<Seq<char>> {
    if error_formato(e) is Some {
        error_formato(e)
    } else if !spec_validar_ean(e) {
        Some(msg_checksum(e))
    } else {
        None
    }
}

/// Revisa un código normalizado antes de pegarlo a un producto.
pub fn revisar_ean_resolucion(e: &String) -> (r: Result<(), String>)
    ensures
        match r {
            Ok(_) => error_resolucion(e@) is None,
            Err(m) => error_resolucion(e@) == Some(m@),
        },
{
    match revisar_formato(e) {
        Ok(_) => {},
        Err(m) => return Err(m),
    }
    if !validar_ean(e.as_str()) {
        let mut v: Vec<char> = Vec::new();
        anexar_str(&mut v, "El ean ");
        anexar(&mut v, &chars_de(e.as_str()));
        anexar_str(&mut v, " tiene dígito verificador inválido.");
        return Err(string_de(&v));
    }
    Ok(())
}

/// Código a asignar al resolver por asignación: el del formulario o el
/// del pendiente; sin ninguno no hay nada que asignar.
pub fn ean_para_asignar(ean_override: Option<&str>, ean_pend: Option<String>) -> (r: Result<String, String>)
    ensures
        match spec_normalizar_codigo(
            match ean_override {
                Some(s) => Some(s@),
                None => vista_string(ean_pend),
            },
        ) {
            None => r is Err && r->Err_0@ == "Sin ean que asignar (el pendiente no trae y no mandaste override)."@,
            Some(c) => match error_resolucion(c) {
                Some(m) => r is Err && r->Err_0@ == m,
                None => r is Ok && r->Ok_0@ == c,
            },
        },
{
    let crudo: Option<String> = match ean_override {
        Some(s) => Some(s.to_owned()),
        None => ean_pend,
    };
    let ean = match &crudo {
        Some(c) => normalizar_codigo_barras(Some(c.as_str())),
        None => normalizar_codigo_barras(None),
    };
    match ean {
        None => Err("Sin ean que asignar (el pendiente no trae y no mandaste override).".to_owned()),
        Some(e) => match revisar_ean_resolucion(&e) {
            Ok(_) => Ok(e),
            Err(m) => Err(m),
        },
    }
}

/// Unidad del alta: recortada y en minúsculas, del catálogo ml|l|g|kg|pzs.
pub fn unidad_del_alta(unidad: Option<&str>) -> (r: Result<Option<String>, String>)
    ensures
        match unidad {
            None => r == Ok::<Option<String>, String>(None),
            Some(u) => if unidad_de_catalogo(minusculas(recortado(u@))) {
                r is Ok && vista_string(r->Ok_0) == Some(minusculas(recortado(u@)))
            } else {
                r is Err && r->Err_0@ == "Unidad '"@ + u@ + "' fuera de catálogo (ml|l|g|kg|pzs)."@
            },
        },
{
    match unidad {
        None => Ok(None),
        Some(u) => {
            let c = crate::presentacion::minusculas_recortadas(u);
            let v = chars_de(c.as_str());
            if es_texto(&v, "ml") || es_texto(&v, "l") || es_texto(&v, "g") || es_texto(&v, "kg") || es_texto(&v, "pzs") {
                Ok(Some(c))
            } else {
                let mut e: Vec<char> = Vec::new();
                anexar_str(&mut e, "Unidad '");
                anexar(&mut e, &chars_de(u));
                anexar_str(&mut e, "' fuera de catálogo (ml|l|g|kg|pzs).");
                Err(string_de(&e))
            }
        },
    }
}

/// Nombre del producto del alta: obligatorio.
pub fn validar_nombre_alta(nombre: &str) -> (r: Result<(), String>)
    ensures
        match r {
            Ok(_) => recortado(nombre@).len() > 0,
            Err(e) => recortado(nombre@).len() == 0 && e@ == "El nombre del producto es obligatorio."@,
        },
{
    let t = crate::texto::recortar_espacios(&chars_de(nombre));
    if t.len() == 0 {
        Err("El nombre del producto es obligatorio.".to_owned())
    } else {
        Ok(())
    }
}

/// Un pendiente resuelto no se vuelve a resolver.
pub fn validar_no_resuelto(estado: &str) -> (r: Result<(), String>)
    ensures
        match r {
            Ok(_) => estado@ != "resuelto"@,
            Err(e) => estado@ == "resuelto"@ && e@ == "Ese pendiente ya está resuelto."@,
        },
{
    if es_texto(&chars_de(estado), "resuelto") {
        Err("Ese pendiente ya está resuelto.".to_owned())
    } else {
        Ok(())
    }
}

/// Si el código ya es de otro producto, el pendiente se va a conflicto.
pub fn va_a_conflicto(ocupado_por: Option<i64>, producto_id: i64) -> (r: bool)
    ensures
        r == (ocupado_por is Some && ocupado_por->0 != producto_id),
{
    match ocupado_por {
        Some(id) => id != producto_id,
        None => false,
    }
}

/// Conteo por estado: cada renglón (estado, n) fija su contador; los
/// estados desconocidos se ignoran.
pub open spec fn spec_conteos(rows: Seq<(String, i64)>) -> (int, int, int, int)
    decreases rows.len(),
{
    if rows.len() == 0 {
        (0, 0, 0, 0)
    } else {
        let c = spec_conteos(rows.drop_last());
        let (e, n) = rows.last();
        if e@ == "rojo"@ {
            (n as int, c.1, c.2, c.3)
        } else if e@ == "amarillo"@ {
            (c.0, n as int, c.2, c.3)
        } else if e@ == "conflicto"@ {
            (c.0, c.1, n as int, c.3)
        } else if e@ == "resuelto"@ {
            (c.0, c.1, c.2, n as int)
        } else {
            c
        }
    }
}

/// Conteos de la cola de pendientes a partir de (estado, cantidad).
pub fn contar_pendientes(rows: &Vec<(String, i64)>) -> (r: ConteosPendientes)
    ensures
        (r.rojo as int, r.amarillo as int, r.conflicto as int, r.resuelto as int) == spec_conteos(rows@),
{
    let mut c = ConteosPendientes { rojo: 0, amarillo: 0, conflicto: 0, resuelto: 0 };
    let mut i: usize = 0;
    assert(rows@.take(0) =~= Seq::<(String, i64)>::empty());
    while i < rows.len()
        invariant
            i <= rows.len(),
            (c.rojo as int, c.amarillo as int, c.conflicto as int, c.resuelto as int) == spec_conteos(
                rows@.take(i as int),
            ),
        decreases rows.len() - i,
    {
        let (e, n) = &rows[i];
        assert(rows@.take(i + 1).drop_last() =~= rows@.take(i as int));
        assert(rows@.take(i + 1).last() == rows@[i as int]);
        let v = chars_de(e.as_str());
        if es_texto(&v, "rojo") {
            c.rojo = *n;
        } else if es_texto(&v, "amarillo") {
            c.amarillo = *n;
        } else if es_texto(&v, "conflicto") {
            c.conflicto = *n;
        } else if es_texto(&v, "resuelto") {
            c.resuelto = *n;
        }
        i = i + 1;
    }
    assert(rows@.take(rows.len() as int) =~= rows@);
    c
}


/// El código crudo del alta: el del formulario o, si no vino, el del
/// pendiente.
pub open spec fn ean_crudo_alta(codigo_form: Option<&str>, ean_pend: Option<String>) -> Option<Seq<char>> {
    match codigo_form {
        Some(s) => Some(s@),
        None => vista_string(ean_pend),
    }
}

/// Primer paso del alta desde un pendiente rojo, en el orden en que se
/// revisa: nombre obligatorio, pendiente existente y no resuelto, y el
/// código (si hay) normalizado, con formato y dígito verificador
/// válidos. `pendiente` es (estado, código) del pendiente si existe.
/// Devuelve el código normalizado que se va a guardar, si hay.
pub open spec fn spec_ean_del_alta(
    nombre: Seq<char>,
    pendiente: Option<(String, Option<String>)>,
    codigo_form: Option<&str>,
) -> Result<Option<Seq<char>>, Seq<char>> {
    if recortado(nombre).len() == 0 {
        Err("El nombre del producto es obligatorio."@)
    } else {
        match pendiente {
            None => Err("Pendiente no existe."@),
            Some((estado, ean_pend)) => if estado@ == "resuelto"@ {
                Err("Ese pendiente ya está resuelto."@)
            } else {
                match spec_normalizar_codigo(ean_crudo_alta(codigo_form, ean_pend)) {
                    None => Ok(None),
                    Some(c) => match error_resolucion(c) {
                        Some(m) => Err(m),
                        None => Ok(Some(c)),
                    },
                }
            },
        }
    }
}

pub fn ean_del_alta(nombre: &str, pendiente: Option<(String, Option<String>)>, codigo_form: Option<&str>) -> (r:
    Result<Option<String>, String>)
    ensures
        match r {
            Ok(e) => spec_ean_del_alta(nombre@, pendiente, codigo_form) == Ok::<Option<Seq<char>>, Seq<char>>(
                vista_string(e),
            ),
            Err(m) => spec_ean_del_alta(nombre@, pendiente, codigo_form) == Err::<Option<Seq<char>>, Seq<char>>(
                m@,
            ),
        },
{
    validar_nombre_alta(nombre)?;
    let (estado, ean_pend) = match pendiente {
        None => return Err("Pendiente no existe.".to_owned()),
        Some(p) => p,
    };
    validar_no_resuelto(estado.as_str())?;
    let crudo: Option<String> = match codigo_form {
        Some(s) => Some(s.to_owned()),
        None => ean_pend,
    };
    let ean = match &crudo {
        Some(c) => normalizar_codigo_barras(Some(c.as_str())),
        None => normalizar_codigo_barras(None),
    };
    match ean {
        None => Ok(None),
        Some(e) => match revisar_ean_resolucion(&e) {
            Ok(_) => Ok(Some(e)),
            Err(m) => Err(m),
        },
    }
}

/// Lo que se da de alta como producto nuevo.
pub struct AltaProducto {
    /// Nombre recortado.
    pub nombre: String,
    /// Código normalizado que queda guardado, si hay.
    pub codigo_barras: Option<String>,
    /// Unidad de la presentación ya canónica, si vino.
    pub unidad: Option<String>,
}

/// Segundo paso del alta, ya con el código del primero y la respuesta de
/// si otro producto lo tiene: un código ocupado es error; luego la unidad
/// tiene que ser del catálogo. El producto guarda el nombre recortado y
/// exactamente el código revisado en el primer paso.
pub fn alta_producto(nombre: &str, ean: Option<String>, ocupado: bool, unidad: Option<&str>) -> (r: Result<
    AltaProducto,
    String,
>)
    ensures
        ean is Some && ocupado ==> r is Err && r->Err_0@ == "El código de barras ya está registrado en otro producto."@,
        !(ean is Some && ocupado) ==> match unidad {
            None => r is Ok && r->Ok_0.unidad is None,
            Some(u) => if unidad_de_catalogo(minusculas(recortado(u@))) {
                r is Ok && vista_string(r->Ok_0.unidad) == Some(minusculas(recortado(u@)))
            } else {
                r is Err && r->Err_0@ == "Unidad '"@ + u@ + "' fuera de catálogo (ml|l|g|kg|pzs)."@
            },
        },
        r matches Ok(a) ==> a.nombre@ == recortado(nombre@) && vista_string(a.codigo_barras) == vista_string(ean),
{
    if ean.is_some() && ocupado {
        return Err("El código de barras ya está registrado en otro producto.".to_owned());
    }
    let u = unidad_del_alta(unidad)?;
    let n = crate::ticket_venta::limpiar(nombre);
    Ok(AltaProducto { nombre: n, codigo_barras: ean, unidad: u })
}

} // verus!
