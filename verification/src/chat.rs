//! Reglas del chat que no dependen del modelo: qué herramientas están
//! reservadas al administrador, cómo se recortan los argumentos que se
//! auditan y cómo se trocea una respuesta para emitirla como stream.

use vstd::prelude::*;
use crate::texto::{anexar_str, chars_de, es_texto, string_de, subrango};

verus! {

/// Respuesta del chat a bloqueo.
pub struct ChatResponse {
    pub response: String,
    pub model_used: String,
}

/// Herramientas con métricas financieras globales o SQL libre.
pub open spec fn tools_solo_admin() -> Seq<Seq<char>> {
    seq![
        "query_sales"@,
        "compare_periods"@,
        "get_restock_analysis"@,
        "forecast_sales"@,
        "sql_readonly"@,
    ]
}

/// ¿La herramienta es sólo para el administrador?
pub fn es_tool_solo_admin(nombre: &str) -> (r: bool)
    ensures
        r == tools_solo_admin().contains(nombre@),
{
    let v = chars_de(nombre);
    let ghost lista = tools_solo_admin();
    let r = es_texto(&v, "query_sales") || es_texto(&v, "compare_periods") || es_texto(&v, "get_restock_analysis")
        || es_texto(&v, "forecast_sales") || es_texto(&v, "sql_readonly");
    proof {
        if r {
            if v@ == "query_sales"@ {
                assert(lista[0] == nombre@);
            } else if v@ == "compare_periods"@ {
                assert(lista[1] == nombre@);
            } else if v@ == "get_restock_analysis"@ {
                assert(lista[2] == nombre@);
            } else if v@ == "forecast_sales"@ {
                assert(lista[3] == nombre@);
            } else {
                assert(lista[4] == nombre@);
            }
        } else {
            assert forall|i: int| 0 <= i < lista.len() implies lista[i] != nombre@ by {
            }
        }
    }
    r
}

/// Control de acceso en el punto de ejecución: un empleado no corre
/// herramientas reservadas, diga lo que diga el prompt.
pub fn bloqueada_por_rol(nombre: &str, es_empleado: bool) -> (r: bool)
    ensures
        r == (es_empleado && tools_solo_admin().contains(nombre@)),
{
    es_empleado && es_tool_solo_admin(nombre)
}

/// Etiqueta del rol que queda en la auditoría.
pub fn rol_de_sesion(es_empleado: bool) -> (r: &'static str)
    ensures
        es_empleado ==> r@ == "empleado"@,
        !es_empleado ==> r@ == "admin"@,
{
    if es_empleado {
        "empleado"
    } else {
        "admin"
    }
}

/// Caracteres de argumentos que se guardan en la auditoría.
pub const MAX_ARGS_AUDITORIA: usize = 2000;

/// Los argumentos de una herramienta, recortados a los primeros
/// `MAX_ARGS_AUDITORIA` caracteres.
pub fn recortar_args(args: &str) -> (r: String)
    ensures
        r@ == args@.take(if args@.len() < MAX_ARGS_AUDITORIA { args@.len() as int } else { MAX_ARGS_AUDITORIA as int }),
{
    let v = chars_de(args);
    let n = if v.len() < MAX_ARGS_AUDITORIA {
        v.len()
    } else {
        MAX_ARGS_AUDITORIA
    };
    let w = subrango(&v, 0, n);
    string_de(&w)
}

/// Caracteres por trozo al emitir una respuesta completa como stream.
pub const LARGO_TROZO: usize = 40;

/// Trozos de `LARGO_TROZO` caracteres; el último, con lo que sobre.
pub open spec fn trozos(s: Seq<char>) -> Seq<Seq<char>>
    decreases s.len(),
{
    if s.len() == 0 {
        Seq::empty()
    } else if s.len() <= LARGO_TROZO {
        seq![s]
    } else {
        seq![s.take(LARGO_TROZO as int)] + trozos(s.skip(LARGO_TROZO as int))
    }
}

pub open spec fn pegar(ts: Seq<Seq<char>>) -> Seq<char>
    decreases ts.len(),
{
    if ts.len() == 0 {
        Seq::empty()
    } else {
        ts[0] + pegar(ts.drop_first())
    }
}

/// Trocea una respuesta para emitirla como si llegara por stream.
pub fn trocear(texto: &str) -> (r: Vec<String>)
    ensures
        r@.len() == trozos(texto@).len(),
        forall|i: int| 0 <= i < r@.len() ==> #[trigger] r@[i]@ == trozos(texto@)[i],
{
    let v = chars_de(texto);
    let mut r: Vec<String> = Vec::new();
    let mut i: usize = 0;
    assert(v@.skip(0) =~= v@);
    assert(r@.map_values(|t: String| t@) =~= Seq::<Seq<char>>::empty());
    while i < v.len()
        invariant
            i <= v.len(),
            trozos(v@) =~= r@.map_values(|t: String| t@) + trozos(v@.skip(i as int)),
        decreases v.len() - i,
    {
        let ghost resto = v@.skip(i as int);
        let fin = if v.len() - i <= LARGO_TROZO {
            v.len()
        } else {
            i + LARGO_TROZO
        };
        let w = subrango(&v, i, fin);
        let ghost antes = r@.map_values(|t: String| t@);
        r.push(string_de(&w));
        proof {
            assert(r@.map_values(|t: String| t@) =~= antes.push(w@));
            if resto.len() <= LARGO_TROZO {
                assert(w@ =~= resto);
                assert(v@.skip(fin as int) =~= Seq::<char>::empty());
                assert(trozos(resto) =~= seq![resto]);
            } else {
                assert(w@ =~= resto.take(LARGO_TROZO as int));
                assert(resto.skip(LARGO_TROZO as int) =~= v@.skip(fin as int));
            }
            assert(antes + trozos(resto) =~= antes.push(w@) + trozos(v@.skip(fin as int)));
        }
        i = fin;
    }
    proof {
        assert(v@.skip(i as int) =~= Seq::<char>::empty());
        assert forall|k: int| 0 <= k < r@.len() implies #[trigger] r@[k]@ == trozos(texto@)[k] by {
            assert(r@.map_values(|t: String| t@)[k] == r@[k]@);
        }
    }
    r
}

/// Pegar los trozos devuelve el texto; todos los trozos menos el último
/// tienen exactamente `LARGO_TROZO` caracteres y ninguno está vacío.
pub proof fn ley_trozos(s: Seq<char>)
    ensures
        pegar(trozos(s)) == s,
        forall|i: int| 0 <= i < trozos(s).len() ==> 0 < #[trigger] trozos(s)[i].len() <= LARGO_TROZO,
        forall|i: int| 0 <= i < trozos(s).len() - 1 ==> #[trigger] trozos(s)[i].len() == LARGO_TROZO,
    decreases s.len(),
{
    if s.len() == 0 {
    } else if s.len() <= LARGO_TROZO {
        assert(seq![s].drop_first() =~= Seq::<Seq<char>>::empty());
        assert(pegar(seq![s].drop_first()) == Seq::<char>::empty());
        assert(s + Seq::<char>::empty() =~= s);
    } else {
        let cola = s.skip(LARGO_TROZO as int);
        ley_trozos(cola);
        let ts = trozos(s);
        assert(ts.drop_first() =~= trozos(cola));
        assert(s.take(LARGO_TROZO as int) + cola =~= s);
        assert(ts[0] == s.take(LARGO_TROZO as int));
        assert(pegar(ts) == ts[0] + pegar(ts.drop_first()));
        assert forall|i: int| 0 <= i < ts.len() implies 0 < #[trigger] ts[i].len() <= LARGO_TROZO by {
            if i > 0 {
                assert(ts[i] == trozos(cola)[i - 1]);
            }
        }
        assert forall|i: int| 0 <= i < ts.len() - 1 implies #[trigger] ts[i].len() == LARGO_TROZO by {
            if i > 0 {
                assert(ts[i] == trozos(cola)[i - 1]);
            }
        }
    }
}


// ---------- Ejecución de una herramienta y su auditoría ----------

/// Dígito hexadecimal en minúscula.
pub open spec fn hex_minuscula(v: int) -> char {
    if v < 10 {
        ('0' as int + v) as char
    } else {
        ('a' as int + (v - 10)) as char
    }
}

/// Cómo escribe JSON un carácter dentro de una cadena: comillas y barra
/// invertida se escapan, los controles con nombre corto van como `\b`,
/// `\t`, `\n`, `\f`, `\r`, los demás controles (menores que 0x20) como
/// `\u00XX` en hexadecimal minúsculo, y todo lo demás va tal cual.
pub open spec fn escape_json(c: char) -> Seq<char> {
    let u = c as int;
    if c == '"' {
        seq!['\\', '"']
    } else if c == '\\' {
        seq!['\\', '\\']
    } else if u == 8 {
        seq!['\\', 'b']
    } else if u == 9 {
        seq!['\\', 't']
    } else if u == 10 {
        seq!['\\', 'n']
    } else if u == 12 {
        seq!['\\', 'f']
    } else if u == 13 {
        seq!['\\', 'r']
    } else if u < 32 {
        seq!['\\', 'u', '0', '0', hex_minuscula(u / 16), hex_minuscula(u % 16)]
    } else {
        seq![c]
    }
}

/// Los caracteres de una cadena, cada uno escrito como en JSON.
pub open spec fn escapado_json(s: Seq<char>) -> Seq<char>
    decreases s.len(),
{
    if s.len() == 0 {
        Seq::empty()
    } else {
        escapado_json(s.drop_last()) + escape_json(s.last())
    }
}

/// El literal JSON de una cadena: entre comillas y escapada.
pub open spec fn cadena_json(s: Seq<char>) -> Seq<char> {
    seq!['"'] + escapado_json(s) + seq!['"']
}

/// `serde_json::to_string` de un `&str`: la cadena como literal JSON
/// (`format_escaped_str` con su tabla `ESCAPE`, ver `escape_json`); para
/// un `&str` nunca da error.
#[verifier::external_body]
fn a_cadena_json(s: &str) -> (r: String)
    ensures
        r@ == cadena_json(s@),
{
    match serde_json::to_string(s) {
        Ok(t) => t,
        Err(_) => String::new(),
    }
}

/// ¿El texto es un JSON con un campo `error`?
pub uninterp spec fn json_trae_error(s: Seq<char>) -> bool;

/// `serde_json::from_str::<serde_json::Value>` y luego `get("error")`:
/// verdadero si el texto es JSON y trae ese campo. Qué JSON se acepta
/// no se enuncia.
#[verifier::external_body]
fn trae_campo_error(s: &str) -> (r: bool)
    ensures
        r == json_trae_error(s@),
{
    match serde_json::from_str::<serde_json::Value>(s) {
        Ok(v) => v.get("error").is_some(),
        Err(_) => false,
    }
}

pub open spec fn spec_json_error(msg: Seq<char>) -> Seq<char> {
    "{\"error\":"@ + cadena_json(msg) + "}"@
}

/// El objeto JSON `{"error": msg}` en forma compacta, que es como se le
/// informa al modelo que una herramienta no dio resultado.
pub fn json_error(msg: &str) -> (r: String)
    ensures
        r@ == spec_json_error(msg@),
{
    let mut v: Vec<char> = Vec::new();
    anexar_str(&mut v, "{\"error\":");
    let c = a_cadena_json(msg);
    anexar_str(&mut v, c.as_str());
    anexar_str(&mut v, "}");
    string_de(&v)
}

/// Lo que se le responde al modelo cuando el rol no permite la herramienta.
pub open spec fn msg_permiso_denegado() -> Seq<char> {
    "Permiso denegado: esta consulta financiera solo está disponible para el administrador."@
}

/// Lo que se le responde al modelo cuando la herramienta rebasa el tope de espera.
pub open spec fn msg_tool_vencida() -> Seq<char> {
    "La consulta tardó demasiado y se canceló."@
}

/// Lo que queda en la bitácora cuando la herramienta rebasa el tope de espera.
pub open spec fn error_tool_vencida() -> Seq<char> {
    "timeout 20s"@
}

/// Cómo terminó la ejecución de una herramienta.
pub enum SalidaTool {
    /// La herramienta respondió este texto.
    Respuesta(String),
    /// La herramienta devolvió este error.
    ErrorTool(String),
    /// La tarea que la corría no terminó bien (pánico o cancelación).
    ErrorTarea(String),
    /// Rebasó el tope de espera.
    Vencida,
}

/// Un renglón de la bitácora de herramientas (sin la duración, que mide
/// quien ejecuta).
pub struct AuditoriaTool {
    pub tool: String,
    /// Los argumentos recortados a `MAX_ARGS_AUDITORIA` caracteres.
    pub args: String,
    pub usuario_id: i64,
    pub rol: String,
    pub ok: bool,
    pub error: Option<String>,
}

pub open spec fn args_recortados(args: Seq<char>) -> Seq<char> {
    args.take(if args.len() < MAX_ARGS_AUDITORIA { args.len() as int } else { MAX_ARGS_AUDITORIA as int })
}

pub open spec fn spec_rol(es_empleado: bool) -> Seq<char> {
    if es_empleado {
        "empleado"@
    } else {
        "admin"@
    }
}

/// El renglón de auditoría trae la herramienta, los argumentos
/// recortados, el usuario y el rol de la sesión.
pub open spec fn auditoria_de(
    a: AuditoriaTool,
    nombre: Seq<char>,
    args: Seq<char>,
    usuario_id: i64,
    es_empleado: bool,
) -> bool {
    &&& a.tool@ == nombre
    &&& a.args@ == args_recortados(args)
    &&& a.usuario_id == usuario_id
    &&& a.rol@ == spec_rol(es_empleado)
}

fn auditoria(nombre: &str, args: &str, usuario_id: i64, es_empleado: bool, ok: bool, error: Option<String>) -> (r:
    AuditoriaTool)
    ensures
        auditoria_de(r, nombre@, args@, usuario_id, es_empleado),
        r.ok == ok,
        r.error == error,
{
    let rol = rol_de_sesion(es_empleado);
    AuditoriaTool {
        tool: nombre.to_string(),
        args: recortar_args(args),
        usuario_id,
        rol: rol.to_string(),
        ok,
        error,
    }
}

/// Antes de ejecutar: si el rol no permite la herramienta, no se ejecuta
/// y se devuelven la respuesta de permiso denegado y su renglón de
/// auditoría (que cuenta como atendido); si la permite, `None`.
pub fn antes_de_ejecutar(nombre: &str, args: &str, es_empleado: bool, usuario_id: i64) -> (r: Option<
    (String, AuditoriaTool),
>)
    ensures
        r is Some <==> (es_empleado && tools_solo_admin().contains(nombre@)),
        match r {
            Some((texto, a)) => {
                &&& texto@ == spec_json_error(msg_permiso_denegado())
                &&& auditoria_de(a, nombre@, args@, usuario_id, es_empleado)
                &&& a.ok
                &&& a.error is None
            },
            None => true,
        },
{
    if bloqueada_por_rol(nombre, es_empleado) {
        let texto = json_error("Permiso denegado: esta consulta financiera solo está disponible para el administrador.");
        Some((texto, auditoria(nombre, args, usuario_id, es_empleado, true, None)))
    } else {
        None
    }
}

/// Lo que se le responde al modelo según cómo terminó la herramienta.
pub open spec fn texto_de_salida(salida: SalidaTool) -> Seq<char> {
    match salida {
        SalidaTool::Respuesta(t) => t@,
        SalidaTool::ErrorTool(e) => spec_json_error(e@),
        SalidaTool::ErrorTarea(e) => spec_json_error(e@),
        SalidaTool::Vencida => spec_json_error(msg_tool_vencida()),
    }
}

/// Después de ejecutar: el texto para el modelo y el renglón de
/// auditoría. La ejecución cuenta como correcta si la herramienta
/// respondió y su respuesta no es un JSON con campo `error`; sólo el
/// vencimiento deja un error en la bitácora.
pub fn despues_de_ejecutar(nombre: &str, args: &str, es_empleado: bool, usuario_id: i64, salida: SalidaTool) -> (r: (
    String,
    AuditoriaTool,
))
    ensures
        r.0@ == texto_de_salida(salida),
        auditoria_de(r.1, nombre@, args@, usuario_id, es_empleado),
        r.1.ok == (salida is Respuesta && !json_trae_error(texto_de_salida(salida))),
        match r.1.error {
            Some(e) => salida is Vencida && e@ == error_tool_vencida(),
            None => !(salida is Vencida),
        },
{
    let ghost esperado = texto_de_salida(salida);
    let (texto, ok, error) = match salida {
        SalidaTool::Respuesta(t) => (t, true, None),
        SalidaTool::ErrorTool(e) => (json_error(e.as_str()), false, None),
        SalidaTool::ErrorTarea(e) => (json_error(e.as_str()), false, None),
        SalidaTool::Vencida => (json_error("La consulta tardó demasiado y se canceló."), false, Some("timeout 20s".to_string())),
    };
    let fallo_negocio = trae_campo_error(texto.as_str());
    let a = auditoria(nombre, args, usuario_id, es_empleado, ok && !fallo_negocio, error);
    (texto, a)
}

} // verus!
