//! Cuenta OpenCode del dueño vinculada por OAuth (PKCE + loopback).
//!
//! Aquí vive lo que decide: la URL de autorización, la lectura del
//! `code` del callback, la vigencia de la sesión (con 5 minutos de
//! margen), los tokens de la respuesta y el email del JWT. La red, el
//! navegador y el archivo de sesión quedan fuera.

use vstd::prelude::*;
use base64::engine::Engine;
use rand::RngCore;
use sha2::Digest;
use crate::formato::{dec, dec_exec};
use crate::texto::{
    anexar, anexar_str, es_texto, buscar_char, buscar_char_exec, campos, chars_de, lema_buscar_char,
    lema_campos_resto, palabra_n, palabras, recortado, recortar_espacios, string_de, subrango,
};

verus! {

/// Sesión guardada en disco. `email` es informativo (del JWT).
#[derive(Debug, Clone, PartialEq)]
pub struct SesionZen {
    pub access_token: String,
    pub refresh_token: Option<String>,
    pub expira_epoch: u64,
    pub email: String,
}

/// Lo que el frontend puede ver de la sesión: solo estado y email.
#[derive(Debug, Clone)]
pub struct EstadoZen {
    pub vinculado: bool,
    pub email: String,
}

pub open spec fn spec_url_autorizacion(puerto: u16, challenge: Seq<char>, estado: Seq<char>) -> Seq<char> {
    "https://auth.opencode.ai/authorize?client_id=app&redirect_uri=http://localhost:"@ + dec(
        puerto as nat,
    ) + "/callback&response_type=code&code_challenge="@ + challenge
        + "&code_challenge_method=S256&state="@ + estado
}

/// URL de login para abrir en el navegador del dueño.
pub fn url_autorizacion(puerto: u16, challenge: &str, estado: &str) -> (r: String)
    ensures
        r@ == spec_url_autorizacion(puerto, challenge@, estado@),
{
    let mut v: Vec<char> = Vec::new();
    anexar_str(&mut v, "https://auth.opencode.ai/authorize?client_id=app&redirect_uri=http://localhost:");
    let p = dec_exec(puerto as u128);
    anexar(&mut v, &p);
    anexar_str(&mut v, "/callback&response_type=code&code_challenge=");
    anexar_str(&mut v, challenge);
    anexar_str(&mut v, "&code_challenge_method=S256&state=");
    anexar_str(&mut v, estado);
    string_de(&v)
}

/// Primera línea de un texto como la da `str::lines` (sin `\n`, y sin el
/// `\r` de un `\r\n`); nada si el texto está vacío.
pub open spec fn primera_linea(s: Seq<char>) -> Option<Seq<char>> {
    if s.len() == 0 {
        None
    } else {
        let p = buscar_char(s, '\n', 0);
        if p < s.len() {
            let l = s.subrange(0, p);
            Some(
                if l.len() > 0 && l.last() == '\r' {
                    l.drop_last()
                } else {
                    l
                },
            )
        } else {
            Some(s)
        }
    }
}

pub open spec fn prefijo_code() -> Seq<char> {
    seq!['c', 'o', 'd', 'e', '=']
}

/// Primer parámetro `code=...` de una lista de parámetros.
pub open spec fn primer_code(ps: Seq<Seq<char>>) -> Option<Seq<char>>
    decreases ps.len(),
{
    if ps.len() == 0 {
        None
    } else if ps[0].len() >= 5 && ps[0].subrange(0, 5) == prefijo_code() {
        Some(ps[0].subrange(5, ps[0].len() as int))
    } else {
        primer_code(ps.drop_first())
    }
}

/// El `code` del request HTTP crudo: primera línea, segunda palabra (la
/// URI), lo que sigue al primer `?`, y el primer parámetro `code=`.
pub open spec fn spec_extraer_code(req: Seq<char>) -> Option<Seq<char>> {
    match primera_linea(req) {
        None => None,
        Some(l) => {
            let ws = palabras(l);
            if ws.len() < 2 {
                None
            } else {
                let uri = ws[1];
                let q = buscar_char(uri, '?', 0);
                if q >= uri.len() {
                    None
                } else {
                    primer_code(campos(uri.subrange(q + 1, uri.len() as int), '&'))
                }
            }
        },
    }
}

fn empieza_con_code(v: &Vec<char>) -> (b: bool)
    ensures
        b == (v@.len() >= 5 && v@.subrange(0, 5) == prefijo_code()),
{
    if v.len() < 5 {
        return false;
    }
    let r = v[0] == 'c' && v[1] == 'o' && v[2] == 'd' && v[3] == 'e' && v[4] == '=';
    proof {
        if r {
            assert(v@.subrange(0, 5) =~= prefijo_code());
        } else {
            if v@.subrange(0, 5) == prefijo_code() {
                assert(v@.subrange(0, 5)[0] == v@[0]);
                assert(v@.subrange(0, 5)[1] == v@[1]);
                assert(v@.subrange(0, 5)[2] == v@[2]);
                assert(v@.subrange(0, 5)[3] == v@[3]);
                assert(v@.subrange(0, 5)[4] == v@[4]);
            }
        }
    }
    r
}

proof fn lema_primer_code_concat(a: Seq<Seq<char>>, b: Seq<Seq<char>>)
    requires
        primer_code(a) is None,
    ensures
        primer_code(a + b) == primer_code(b),
    decreases a.len(),
{
    if a.len() > 0 {
        assert((a + b).drop_first() =~= a.drop_first() + b);
        assert((a + b)[0] == a[0]);
        lema_primer_code_concat(a.drop_first(), b);
    } else {
        assert(a + b =~= b);
    }
}

proof fn lema_buscar_desde(v: Seq<char>, c: char, inicio: int, k: int)
    requires
        0 <= inicio <= v.len(),
        0 <= k <= v.len() - inicio,
    ensures
        buscar_char(v.subrange(inicio, v.len() as int), c, k) + inicio == buscar_char(v, c, inicio + k),
    decreases v.len() - inicio - k,
{
    if k < v.len() - inicio {
        assert(v.subrange(inicio, v.len() as int)[k] == v[inicio + k]);
        lema_buscar_desde(v, c, inicio, k + 1);
    }
}

/// Primer `code=` entre los parámetros `v` separados por `&`.
fn buscar_code(v: &Vec<char>) -> (r: Option<Vec<char>>)
    ensures
        match r {
            Some(w) => primer_code(campos(v@, '&')) == Some(w@),
            None => primer_code(campos(v@, '&')) is None,
        },
{
    let mut inicio: usize = 0;
    let ghost mut vistos: Seq<Seq<char>> = Seq::empty();
    assert(v@.subrange(0, v@.len() as int) =~= v@);
    loop
        invariant
            inicio <= v.len(),
            campos(v@, '&') == vistos + campos(v@.subrange(inicio as int, v@.len() as int), '&'),
            primer_code(vistos) is None,
        decreases v.len() - inicio,
    {
        let ghost resto = v@.subrange(inicio as int, v@.len() as int);
        proof {
            lema_buscar_char(resto, '&', 0);
            lema_buscar_desde(v@, '&', inicio as int, 0);
        }
        let p = buscar_char_exec(v, '&', inicio);
        let campo = subrango(v, inicio, p);
        assert(campo@ =~= resto.subrange(0, p - inicio));
        let ghost todos_resto = campos(resto, '&');
        proof {
            if p < v.len() {
                lema_campos_resto(resto, '&', p - inicio);
            }
            assert(todos_resto[0] == campo@);
            lema_primer_code_concat(vistos, todos_resto);
        }
        if empieza_con_code(&campo) {
            let w = subrango(&campo, 5, campo.len());
            return Some(w);
        }
        if p >= v.len() {
            proof {
                assert(todos_resto =~= seq![campo@]);
                assert(primer_code(todos_resto.drop_first()) is None);
            }
            return None;
        }
        proof {
            assert(resto.subrange(p - inicio + 1, resto.len() as int) =~= v@.subrange(p + 1, v@.len() as int));
            assert(todos_resto.drop_first() == campos(v@.subrange(p + 1, v@.len() as int), '&'));
            assert(vistos.push(campo@) + todos_resto.drop_first() =~= vistos + todos_resto);
            assert(seq![campo@].drop_first() =~= Seq::<Seq<char>>::empty());
            assert(seq![campo@][0] == campo@);
            assert(primer_code(Seq::<Seq<char>>::empty()) is None);
            assert(primer_code(seq![campo@]) is None);
            lema_primer_code_concat(vistos, seq![campo@]);
            assert(vistos.push(campo@) =~= vistos + seq![campo@]);
            vistos = vistos.push(campo@);
        }
        inicio = p + 1;
    }
}

/// Extrae el `code` del request HTTP crudo del loopback.
pub fn extraer_code(request: &str) -> (r: Option<String>)
    ensures
        match r {
            Some(c) => spec_extraer_code(request@) == Some(c@),
            None => spec_extraer_code(request@) is None,
        },
{
    let s = chars_de(request);
    if s.len() == 0 {
        return None;
    }
    proof {
        lema_buscar_char(s@, '\n', 0);
    }
    let p = buscar_char_exec(&s, '\n', 0);
    let linea = if p < s.len() {
        let l = subrango(&s, 0, p);
        if l.len() > 0 && l[l.len() - 1] == '\r' {
            let r = subrango(&l, 0, l.len() - 1);
            assert(r@ =~= l@.drop_last());
            r
        } else {
            l
        }
    } else {
        s
    };
    let uri = match palabra_n(&linea, 1) {
        None => {
            return None;
        },
        Some(u) => u,
    };
    proof {
        lema_buscar_char(uri@, '?', 0);
    }
    let q = buscar_char_exec(&uri, '?', 0);
    if q >= uri.len() {
        return None;
    }
    let consulta = subrango(&uri, q + 1, uri.len());
    match buscar_code(&consulta) {
        None => None,
        Some(c) => Some(string_de(&c)),
    }
}

pub open spec fn spec_sesion_vigente(access: Seq<char>, expira: int, ahora: int) -> bool {
    recortado(access).len() != 0 && ahora + 300 < expira
}

/// ¿Sigue vigente? Con 5 min de margen para no morir a mitad de stream.
pub fn sesion_vigente(sesion: &SesionZen, ahora: u64) -> (b: bool)
    requires
        ahora <= u64::MAX - 300,
    ensures
        b == spec_sesion_vigente(sesion.access_token@, sesion.expira_epoch as int, ahora as int),
{
    let v = chars_de(sesion.access_token.as_str());
    let t = recortar_espacios(&v);
    t.len() != 0 && ahora + 300 < sesion.expira_epoch
}

/// Sesión leída del disco: solo vale si trae access token no vacío.
pub fn sesion_cargada(sesion: SesionZen) -> (r: Option<SesionZen>)
    ensures
        recortado(sesion.access_token@).len() == 0 ==> r is None,
        recortado(sesion.access_token@).len() != 0 ==> r == Some(sesion),
{
    let v = chars_de(sesion.access_token.as_str());
    let t = recortar_espacios(&v);
    if t.len() == 0 {
        None
    } else {
        Some(sesion)
    }
}

/// Estado visible de una sesión (o de su ausencia).
pub fn estado_de(sesion: &Option<SesionZen>) -> (r: EstadoZen)
    ensures
        match sesion {
            Some(s) => r.vinculado && r.email@ == s.email@,
            None => !r.vinculado && r.email@.len() == 0,
        },
{
    match sesion {
        Some(s) => EstadoZen { vinculado: true, email: s.email.clone() },
        None => EstadoZen { vinculado: false, email: String::new() },
    }
}

// ---------- base64url, SHA-256 y bytes aleatorios ----------

/// Carácter del alfabeto base64 URL-safe (RFC 4648, sección 5) para un
/// valor de 0 a 63: `A`-`Z`, `a`-`z`, `0`-`9`, `-` y `_`.
pub open spec fn car_b64url(v: int) -> char {
    if v < 26 {
        ('A' as int + v) as char
    } else if v < 52 {
        ('a' as int + (v - 26)) as char
    } else if v < 62 {
        ('0' as int + (v - 52)) as char
    } else if v == 62 {
        '-'
    } else {
        '_'
    }
}

/// Codificación base64 URL-safe sin relleno: cada 3 bytes dan 4
/// caracteres de 6 bits; un último grupo de 1 o 2 bytes da 2 o 3
/// caracteres, con los bits que faltan en cero.
pub open spec fn base64url(d: Seq<u8>) -> Seq<char>
    decreases d.len(),
{
    let a = d[0] as int;
    let b = d[1] as int;
    let c = d[2] as int;
    if d.len() == 0 {
        Seq::empty()
    } else if d.len() == 1 {
        seq![car_b64url(a / 4), car_b64url((a % 4) * 16)]
    } else if d.len() == 2 {
        seq![car_b64url(a / 4), car_b64url((a % 4) * 16 + b / 16), car_b64url((b % 16) * 4)]
    } else {
        seq![
            car_b64url(a / 4),
            car_b64url((a % 4) * 16 + b / 16),
            car_b64url((b % 16) * 4 + c / 64),
            car_b64url(c % 64),
        ] + base64url(d.skip(3))
    }
}

/// `n` bytes dan `(4n + 2) / 3` caracteres.
pub proof fn lema_largo_base64url(d: Seq<u8>)
    ensures
        base64url(d).len() == (4 * d.len() + 2) / 3,
    decreases d.len(),
{
    if d.len() >= 3 {
        lema_largo_base64url(d.skip(3));
    }
}

/// Decodificación base64 URL-safe sin relleno (nada si no es válida).
pub uninterp spec fn base64url_decodificado(texto: Seq<char>) -> Option<Seq<u8>>;

/// SHA-256 de unos bytes.
pub uninterp spec fn sha256(data: Seq<u8>) -> Seq<u8>;

/// `base64::engine::general_purpose::URL_SAFE_NO_PAD.encode`: el texto
/// base64 URL-safe sin `=` de los bytes (ver `base64url`). El crate entra
/// en pánico si el largo del resultado no cabe en `usize`; eso queda
/// fuera por `requires`.
#[verifier::external_body]
fn b64url(data: &[u8]) -> (r: String)
    requires
        data@.len() <= usize::MAX / 4,
    ensures
        r@ == base64url(data@),
{
    base64::engine::general_purpose::URL_SAFE_NO_PAD.encode(data)
}

/// `base64::engine::general_purpose::URL_SAFE_NO_PAD.decode`; `None` si el
/// texto no es base64url válido. Qué textos son válidos no se enuncia.
#[verifier::external_body]
fn b64url_decodificar(texto: &str) -> (r: Option<Vec<u8>>)
    ensures
        match r {
            Some(b) => base64url_decodificado(texto@) == Some(b@),
            None => base64url_decodificado(texto@) is None,
        },
{
    match base64::engine::general_purpose::URL_SAFE_NO_PAD.decode(texto) {
        Ok(b) => Some(b),
        Err(_) => None,
    }
}

/// `sha2::Sha256::digest`: el resumen siempre mide 32 bytes.
#[verifier::external_body]
fn sha256_de(data: &[u8]) -> (r: Vec<u8>)
    ensures
        r@ == sha256(data@),
        r@.len() == 32,
{
    sha2::Sha256::digest(data).to_vec()
}

/// `rand::thread_rng().fill_bytes` sobre `n` bytes: solo se promete el
/// largo. Si la fuente de azar del sistema operativo falla, `rand` entra
/// en pánico; eso depende de la máquina, no de `n`, y no se enuncia.
#[verifier::external_body]
fn bytes_aleatorios(n: usize) -> (r: Vec<u8>)
    ensures
        r@.len() == n,
{
    let mut buf = vec![0u8; n];
    rand::thread_rng().fill_bytes(&mut buf);
    buf
}

/// Par PKCE: (verifier para el intercambio, challenge para el authorize).
/// El verifier son 32 bytes aleatorios en base64url (43 caracteres); el
/// challenge es el base64url del SHA-256 de los bytes UTF-8 del verifier.
pub fn generar_pkce() -> (r: (String, String))
    ensures
        exists|b: Seq<u8>| b.len() == 32 && r.0@ == #[trigger] base64url(b),
        r.0@.len() == 43,
        r.1@ == base64url(sha256(vstd::utf8::encode_utf8(r.0@))),
        r.1@.len() == 43,
{
    let verif = bytes_aleatorios(32);
    let verifier = b64url(verif.as_slice());
    let bytes = verifier.as_str().as_bytes();
    let resumen = sha256_de(bytes);
    let challenge = b64url(resumen.as_slice());
    proof {
        lema_largo_base64url(verif@);
        lema_largo_base64url(resumen@);
        assert(verif@.len() == 32 && verifier@ == base64url(verif@));
    }
    (verifier, challenge)
}

/// Estado anti-CSRF del login: 16 bytes aleatorios en base64url.
pub fn generar_estado() -> (r: String)
    ensures
        exists|b: Seq<u8>| b.len() == 16 && r@ == #[trigger] base64url(b),
        r@.len() == 22,
{
    let b = bytes_aleatorios(16);
    let r = b64url(b.as_slice());
    proof {
        lema_largo_base64url(b@);
        assert(b@.len() == 16 && r@ == base64url(b@));
    }
    r
}

// ---------- JWT y respuesta de tokens ----------

/// El claim `email` (texto) del JSON dado, si el JSON es válido y lo trae.
pub uninterp spec fn email_en_json(json: Seq<u8>) -> Option<Seq<char>>;

/// `serde_json::from_slice::<serde_json::Value>` y luego
/// `get("email").and_then(as_str)`: el email si los bytes son un JSON con
/// ese campo de texto. Qué JSON se acepta no se enuncia.
#[verifier::external_body]
fn email_de_json(json: &[u8]) -> (r: Option<String>)
    ensures
        match r {
            Some(e) => email_en_json(json@) == Some(e@),
            None => email_en_json(json@) is None,
        },
{
    match serde_json::from_slice::<serde_json::Value>(json) {
        Ok(v) => v.get("email").and_then(|e| e.as_str()).map(|e| e.to_string()),
        Err(_) => None,
    }
}

pub open spec fn spec_email_de_jwt(token: Seq<char>) -> Seq<char> {
    let partes = campos(token, '.');
    if partes.len() != 3 {
        Seq::empty()
    } else {
        match base64url_decodificado(partes[1]) {
            None => Seq::empty(),
            Some(cuerpo) => match email_en_json(cuerpo) {
                None => Seq::empty(),
                Some(e) => e,
            },
        }
    }
}

proof fn lema_campos_largo(s: Seq<char>, c: char)
    ensures
        campos(s, c).len() >= 1,
    decreases s.len(),
{
    let p = buscar_char(s, c, 0);
    lema_buscar_char(s, c, 0);
    if 0 <= p < s.len() {
        lema_campos_largo(s.subrange(p + 1, s.len() as int), c);
    }
}

/// Email del payload del JWT (access token de OpenAuth): el token debe
/// tener exactamente tres partes separadas por `.`; la segunda se decodifica
/// en base64url y se lee su claim `email`. Cualquier falla da cadena vacía.
pub fn email_de_jwt(token: &str) -> (r: String)
    ensures
        r@ == spec_email_de_jwt(token@),
{
    let v = chars_de(token);
    proof {
        lema_buscar_char(v@, '.', 0);
    }
    let a = buscar_char_exec(&v, '.', 0);
    if a >= v.len() {
        return String::new();
    }
    let ghost r1 = v@.subrange(a + 1, v@.len() as int);
    proof {
        lema_campos_resto(v@, '.', a as int);
        lema_buscar_char(r1, '.', 0);
        lema_buscar_desde(v@, '.', a + 1, 0);
        lema_buscar_char(v@, '.', a + 1);
    }
    let b = buscar_char_exec(&v, '.', a + 1);
    if b >= v.len() {
        proof {
            assert(campos(r1, '.') =~= seq![r1]);
        }
        return String::new();
    }
    let ghost r2 = v@.subrange(b + 1, v@.len() as int);
    proof {
        lema_campos_resto(r1, '.', b - a - 1);
        assert(r1.subrange(b - a - 1 + 1, r1.len() as int) =~= r2);
        lema_buscar_desde(v@, '.', b + 1, 0);
        lema_buscar_char(v@, '.', b + 1);
        lema_campos_largo(r2, '.');
    }
    let c = buscar_char_exec(&v, '.', b + 1);
    if c < v.len() {
        proof {
            lema_buscar_char(r2, '.', 0);
            lema_campos_resto(r2, '.', c - b - 1);
            lema_campos_largo(v@.subrange(c + 1, v@.len() as int), '.');
        }
        return String::new();
    }
    proof {
        assert(campos(r2, '.') =~= seq![r2]);
    }
    let medio = subrango(&v, a + 1, b);
    assert(medio@ =~= r1.subrange(0, b - a - 1));
    let medio_s = string_de(&medio);
    match b64url_decodificar(medio_s.as_str()) {
        None => String::new(),
        Some(cuerpo) => match email_de_json(cuerpo.as_slice()) {
            None => String::new(),
            Some(e) => e,
        },
    }
}

/// Campos de una respuesta de token de OpenAuth, ya leídos del JSON.
#[derive(Debug, Clone)]
pub struct RespuestaToken {
    /// `access_token` si es texto.
    pub access_token: Option<String>,
    /// `refresh_token` si es texto.
    pub refresh_token: Option<String>,
    /// `expires_in` si es entero no negativo.
    pub expires_in: Option<u64>,
    /// La respuesta completa como JSON compacto (para el mensaje de error).
    pub json: String,
}

/// Lo que `serde_json` lee de una respuesta de token, o nada si no es JSON.
pub uninterp spec fn respuesta_token_de(json: Seq<char>) -> Option<
    (Option<Seq<char>>, Option<Seq<char>>, Option<u64>, Seq<char>),
>;

/// `serde_json::from_str::<serde_json::Value>` y luego `get(..)` con
/// `as_str` / `as_u64` para cada campo, más `to_string()` del valor. El
/// contrato solo liga el resultado al texto de entrada.
#[verifier::external_body]
fn leer_respuesta_token(json: &str) -> (r: Option<RespuestaToken>)
    ensures
        match r {
            Some(t) => respuesta_token_de(json@) == Some(
                (
                    match t.access_token {
                        Some(a) => Some(a@),
                        None => None,
                    },
                    match t.refresh_token {
                        Some(a) => Some(a@),
                        None => None,
                    },
                    t.expires_in,
                    t.json@,
                ),
            ),
            None => respuesta_token_de(json@) is None,
        },
{
    match serde_json::from_str::<serde_json::Value>(json) {
        Ok(v) => Some(RespuestaToken {
            access_token: v.get("access_token").and_then(|x| x.as_str()).map(|x| x.to_string()),
            refresh_token: v.get("refresh_token").and_then(|x| x.as_str()).map(|x| x.to_string()),
            expires_in: v.get("expires_in").and_then(|x| x.as_u64()),
            json: v.to_string(),
        }),
        Err(_) => None,
    }
}

pub open spec fn vista_opt(o: Option<String>) -> Option<Seq<char>> {
    match o {
        Some(s) => Some(s@),
        None => None,
    }
}

/// Segundos de vida que se asumen si la respuesta no trae `expires_in`.
pub const EXPIRA_POR_DEFECTO: u64 = 3600;

pub open spec fn segundos_de(resp: RespuestaToken) -> int {
    match resp.expires_in {
        Some(s) => s as int,
        None => 3600,
    }
}

/// (access, refresh, expira) de una respuesta de token: el access debe
/// venir y no estar vacío; sin `expires_in` se asume una hora.
pub fn extraer_tokens(resp: &RespuestaToken, ahora: u64) -> (r: Result<(String, Option<String>, u64), String>)
    requires
        ahora + segundos_de(*resp) <= u64::MAX,
    ensures
        match resp.access_token {
            Some(a) if a@.len() != 0 => (r matches Ok(t) && t.0@ == a@ && vista_opt(t.1) == vista_opt(
                resp.refresh_token,
            ) && t.2 == ahora + segundos_de(*resp)),
            _ => (r matches Err(e) && e@ == "OpenCode no devolvió access_token: "@ + resp.json@),
        },
{
    let access = match &resp.access_token {
        Some(a) if !a.as_str().is_empty() => a.clone(),
        _ => {
            let mut m = chars_de("OpenCode no devolvió access_token: ");
            anexar_str(&mut m, resp.json.as_str());
            return Err(string_de(&m));
        },
    };
    let expira = match resp.expires_in {
        Some(s) => s,
        None => EXPIRA_POR_DEFECTO,
    };
    Ok((access, resp.refresh_token.clone(), ahora + expira))
}

/// Tokens de la respuesta JSON del servidor, al momento `ahora`. Un texto
/// que no es JSON da el error de respuesta inválida.
pub fn extraer_tokens_json(json: &str, ahora: u64) -> (r: Result<(String, Option<String>, u64), String>)
    ensures
        match respuesta_token_de(json@) {
            None => (r matches Err(e) && e@ == "Respuesta de tokens inválida."@),
            Some((acc, refr, exp, js)) => {
                let seg: int = match exp {
                    Some(x) => x as int,
                    None => 3600,
                };
                if ahora + seg > u64::MAX {
                    (r matches Err(e) && e@ == "Respuesta de tokens inválida."@)
                } else {
                    match acc {
                        Some(a) if a.len() != 0 => (r matches Ok(t) && t.0@ == a && vista_opt(t.1)
                            == refr && t.2 == ahora + seg),
                        _ => (r matches Err(e) && e@ == "OpenCode no devolvió access_token: "@ + js),
                    }
                }
            },
        },
{
    match leer_respuesta_token(json) {
        None => Err("Respuesta de tokens inválida.".to_owned()),
        Some(resp) => {
            let segundos = match resp.expires_in {
                Some(s) => s,
                None => EXPIRA_POR_DEFECTO,
            };
            if segundos > u64::MAX - ahora {
                return Err("Respuesta de tokens inválida.".to_owned());
            }
            extraer_tokens(&resp, ahora)
        },
    }
}

/// Qué hacer con la sesión guardada para conseguir un token de Zen.
pub enum PasoToken {
    /// El access token sigue vigente.
    Usar(String),
    /// Vencido, pero hay refresh token con qué renovarlo.
    Refrescar(String),
    /// No hay sesión utilizable.
    SinSesion,
}

/// Decide entre usar el token guardado, refrescarlo o no tener sesión.
pub fn paso_token(sesion: &Option<SesionZen>, ahora: u64) -> (r: PasoToken)
    requires
        ahora <= u64::MAX - 300,
    ensures
        match sesion {
            None => r is SinSesion,
            Some(s) => if spec_sesion_vigente(s.access_token@, s.expira_epoch as int, ahora as int) {
                r is Usar && r->Usar_0@ == s.access_token@
            } else {
                match s.refresh_token {
                    Some(t) => r is Refrescar && r->Refrescar_0@ == t@,
                    None => r is SinSesion,
                }
            },
        },
{
    match sesion {
        None => PasoToken::SinSesion,
        Some(s) => {
            if sesion_vigente(s, ahora) {
                PasoToken::Usar(s.access_token.clone())
            } else {
                match &s.refresh_token {
                    Some(t) => PasoToken::Refrescar(t.clone()),
                    None => PasoToken::SinSesion,
                }
            }
        },
    }
}

/// La sesión con los tokens renovados: el refresh nuevo sólo reemplaza
/// al anterior si vino.
pub fn sesion_refrescada(sesion: SesionZen, access: String, nuevo_refresh: Option<String>, expira: u64) -> (r: SesionZen)
    ensures
        r.access_token == access,
        r.refresh_token == (match nuevo_refresh {
            Some(t) => Some(t),
            None => sesion.refresh_token,
        }),
        r.expira_epoch == expira,
        r.email == sesion.email,
{
    let refresh = match nuevo_refresh {
        Some(t) => Some(t),
        None => sesion.refresh_token,
    };
    SesionZen { access_token: access, refresh_token: refresh, expira_epoch: expira, email: sesion.email }
}

/// Clave para el proveedor: con Zen vinculado, el token de la sesión del
/// dueño; si no, la key que mandó el frontend.
pub fn clave_para_proveedor(proveedor: &str, token_zen: Option<String>, api_key: String) -> (r: String)
    ensures
        r == (if proveedor@ == "opencode"@ && token_zen is Some {
            token_zen->0
        } else {
            api_key
        }),
{
    if es_texto(&chars_de(proveedor), "opencode") {
        match token_zen {
            Some(t) => t,
            None => api_key,
        }
    } else {
        api_key
    }
}

} // verus!
