//! Tipos de datos que viajan entre el backend y el frontend, y el
//! estado del motor de IA tal como se le muestra al usuario.

use vstd::prelude::*;
use crate::texto::{anexar, anexar_str, chars_de, string_de};
use crate::formato::{dec, dec_exec};

verus! {

/// Datos del alta del administrador.
pub struct AdminData {
    pub name: String,
    pub store: String,
    pub pass: String,
}

/// Perfil del administrador.
pub struct AdminProfile {
    pub nombre: String,
    pub tienda: String,
    pub password: String,
    pub ubicacion: Option<String>,
    pub cp: Option<String>,
}

/// Respuesta del servicio de embeddings.
pub struct EmbeddingResponse {
    pub status: String,
    pub dimensions: usize,
    pub blob_b64: String,
}

/// Búsqueda de productos parecidos.
pub struct SimilarSearchRequest {
    pub query: String,
    pub db_path: String,
    pub top_k: u32,
    pub categoria: Option<String>,
}

/// Resultado de registrar una venta.
pub struct VentaResponse {
    pub venta_id: i64,
    pub ticket_number: i64,
    pub mensaje: String,
}

/// Datos de la tienda para los tickets.
pub struct TiendaInfo {
    pub nombre: Option<String>,
    pub ubicacion: Option<String>,
    pub cp: Option<String>,
}

/// Ruta de la base de datos que se expone al frontend.
pub struct DbPath(pub String);

/// Pendientes de códigos de barras por estado.
pub struct ConteosPendientes {
    pub rojo: i64,
    pub amarillo: i64,
    pub conflicto: i64,
    pub resuelto: i64,
}

/// Resumen de una importación de catálogo con auto-asignación verde.
pub struct ResumenImportCatalogo {
    pub catalogo_upserts: usize,
    pub verde_asignados: usize,
    pub sin_match: usize,
    pub conflictos: usize,
    pub errores: Vec<String>,
}

/// Veredicto de UN intento verde (siempre explícito).
pub struct VeredictoVerde {
    pub asignado: bool,
    pub motivo: String,
}

/// Estado del motor de IA.
pub enum AiStatus {
    NotRunning,
    Starting,
    Ready,
    Error(String),
}

/// Estado del motor de IA como lo lee el frontend.
pub struct AiStatusResponse {
    pub status: String,
    pub port: Option<u16>,
    pub message: Option<String>,
}

pub open spec fn texto_opcional(o: Option<String>) -> Option<Seq<char>> {
    match o {
        Some(s) => Some(s@),
        None => None,
    }
}

/// Estado y mensaje que ve el usuario para cada estado del motor.
pub open spec fn spec_estado_ia(status: AiStatus, port: Option<u16>) -> (Seq<char>, Option<Seq<char>>) {
    match status {
        AiStatus::NotRunning => ("not_running"@, None),
        AiStatus::Starting => ("starting"@, Some("El motor de IA está arrancando..."@)),
        AiStatus::Ready => (
            "ready"@,
            Some(
                "Motor listo en puerto "@ + dec(
                    match port {
                        Some(p) => p as nat,
                        None => 0,
                    },
                ),
            ),
        ),
        AiStatus::Error(m) => ("error"@, Some(m@)),
    }
}

impl AiStatusResponse {
    /// Respuesta para el frontend a partir del estado y el puerto.
    pub fn desde_estado(status: AiStatus, port: Option<u16>) -> (r: AiStatusResponse)
        ensures
            r.status@ == spec_estado_ia(status, port).0,
            texto_opcional(r.message) == spec_estado_ia(status, port).1,
            r.port == port,
    {
        match status {
            AiStatus::NotRunning => AiStatusResponse { status: "not_running".to_owned(), port, message: None },
            AiStatus::Starting => AiStatusResponse {
                status: "starting".to_owned(),
                port,
                message: Some("El motor de IA está arrancando...".to_owned()),
            },
            AiStatus::Ready => {
                let p: u16 = match port {
                    Some(p) => p,
                    None => 0,
                };
                let mut m: Vec<char> = Vec::new();
                anexar_str(&mut m, "Motor listo en puerto ");
                anexar(&mut m, &dec_exec(p as u128));
                AiStatusResponse { status: "ready".to_owned(), port, message: Some(string_de(&m)) }
            },
            AiStatus::Error(msg) => AiStatusResponse { status: "error".to_owned(), port, message: Some(msg) },
        }
    }
}


/// Una parte más del texto de un producto: se agrega con un espacio
/// delante solo si existe y no está vacía.
pub open spec fn parte_opcional(p: Option<Seq<char>>) -> Seq<char> {
    match p {
        Some(t) => if t.len() > 0 {
            seq![' '] + t
        } else {
            Seq::empty()
        },
        None => Seq::empty(),
    }
}

pub open spec fn vista_opcional(p: Option<String>) -> Option<Seq<char>> {
    match p {
        Some(t) => Some(t@),
        None => None,
    }
}

/// Texto de un producto para su embedding: nombre, descripción y
/// categoría separados por un espacio, omitiendo las vacías.
pub open spec fn texto_embedding(
    nombre: Seq<char>,
    descripcion: Option<Seq<char>>,
    categoria: Option<Seq<char>>,
) -> Seq<char> {
    nombre + parte_opcional(descripcion) + parte_opcional(categoria)
}

fn anexar_parte(v: &mut Vec<char>, p: &Option<String>)
    ensures
        final(v)@ == old(v)@ + parte_opcional(vista_opcional(*p)),
{
    match p {
        Some(t) => {
            let w = chars_de(t.as_str());
            if w.len() > 0 {
                v.push(' ');
                anexar(v, &w);
                assert(v@ =~= old(v)@ + (seq![' '] + t@));
            } else {
                assert(v@ =~= old(v)@ + Seq::<char>::empty());
            }
        },
        None => {
            assert(v@ =~= old(v)@ + Seq::<char>::empty());
        },
    }
}

/// Texto descriptivo de un producto (nombre + descripción + categoría)
/// con el que se pide su embedding.
pub fn build_embedding_text(nombre: &str, descripcion: &Option<String>, categoria: &Option<String>) -> (r:
    String)
    ensures
        r@ == texto_embedding(nombre@, vista_opcional(*descripcion), vista_opcional(*categoria)),
{
    let mut v: Vec<char> = Vec::new();
    anexar_str(&mut v, nombre);
    assert(v@ =~= nombre@);
    anexar_parte(&mut v, descripcion);
    anexar_parte(&mut v, categoria);
    string_de(&v)
}

} // verus!
