use base64::engine::Engine;
use sha2::Digest;
use yarvis_app::zen::{
    clave_para_proveedor, email_de_jwt, estado_de, extraer_code, paso_token, sesion_refrescada, PasoToken, extraer_tokens, extraer_tokens_json, generar_estado,
    generar_pkce, sesion_cargada, sesion_vigente, url_autorizacion, RespuestaToken, SesionZen,
};

#[test]
fn pkce_challenge_deriva_del_verifier() {
    let (verifier, challenge) = generar_pkce();
    assert_eq!(verifier.len(), 43, "32 bytes en b64url sin pad");
    let esperado = base64::engine::general_purpose::URL_SAFE_NO_PAD
        .encode(sha2::Sha256::digest(verifier.as_bytes()));
    assert_eq!(challenge, esperado);
    assert_eq!(generar_estado().len(), 22);
}

#[test]
fn url_autorizacion_lleva_pkce_y_loopback() {
    let url = url_autorizacion(18721, "RETO", "ESTADO");
    assert!(url.starts_with("https://auth.opencode.ai/authorize?"));
    assert!(url.contains("client_id=app"));
    assert!(url.contains("redirect_uri=http://localhost:18721/callback"));
    assert!(url.contains("code_challenge=RETO"));
    assert!(url.contains("code_challenge_method=S256"));
}

#[test]
fn url_autorizacion_completa() {
    assert_eq!(
        url_autorizacion(0, "c", "e"),
        "https://auth.opencode.ai/authorize?client_id=app&redirect_uri=http://localhost:0/callback&response_type=code&code_challenge=c&code_challenge_method=S256&state=e"
    );
}

#[test]
fn extraer_code_agarra_el_code_e_ignora_ruido() {
    let req = "GET /callback?code=ABC123&state=xyz HTTP/1.1\r\nHost: x\r\n\r\n";
    assert_eq!(extraer_code(req).as_deref(), Some("ABC123"));
    assert!(extraer_code("GET /callback HTTP/1.1\r\n\r\n").is_none());
    assert!(extraer_code("basura").is_none());
}

#[test]
fn extraer_code_casos_de_borde() {
    assert_eq!(extraer_code("GET /cb?state=1&code=Z HTTP/1.1").as_deref(), Some("Z"));
    assert_eq!(extraer_code("GET /cb?code=&code=Z HTTP/1.1").as_deref(), Some(""));
    assert_eq!(extraer_code("  GET\t/cb?code=Q\r\n"), Some("Q".to_string()));
    assert_eq!(extraer_code(""), None);
    assert_eq!(extraer_code("GET /cb?xcode=1 HTTP/1.1"), None);
    // Solo la primera línea cuenta.
    assert_eq!(extraer_code("GET / HTTP/1.1\nGET /cb?code=1 HTTP/1.1"), None);
}

fn resp(access: Option<&str>, refresh: Option<&str>, expires: Option<u64>) -> RespuestaToken {
    RespuestaToken {
        access_token: access.map(|s| s.to_string()),
        refresh_token: refresh.map(|s| s.to_string()),
        expires_in: expires,
        json: "{}".into(),
    }
}

#[test]
fn extraer_tokens_saca_todo_y_expira_a_futuro() {
    let antes = 1_000_000;
    let (a, r, e) = extraer_tokens(&resp(Some("ACC"), Some("REF"), Some(3600)), antes).unwrap();
    assert_eq!(a, "ACC");
    assert_eq!(r.as_deref(), Some("REF"));
    assert!(e > antes + 3500 && e <= antes + 3600);
    let (a, r, e) = extraer_tokens_json(
        r#"{"access_token":"ACC","refresh_token":"REF","expires_in":3600}"#,
        antes,
    )
    .unwrap();
    assert_eq!((a.as_str(), r.as_deref(), e), ("ACC", Some("REF"), antes + 3600));
}

#[test]
fn extraer_tokens_sin_expires_in_asume_una_hora() {
    let antes = 5;
    let (a, r, e) = extraer_tokens(&resp(Some("ACC"), None, None), antes).unwrap();
    assert_eq!(a, "ACC");
    assert!(r.is_none());
    assert!(e >= antes + 3590);
    let (_, _, e) = extraer_tokens_json(r#"{ "access_token": "ACC" }"#, antes).unwrap();
    assert_eq!(e, antes + 3600);
}

#[test]
fn extraer_tokens_sin_access_es_error() {
    let e = extraer_tokens_json(r#"{ "error": "invalid_grant" }"#, 0).unwrap_err();
    assert_eq!(e, r#"OpenCode no devolvió access_token: {"error":"invalid_grant"}"#);
    assert!(extraer_tokens(&resp(Some(""), None, None), 0).is_err());
    assert!(extraer_tokens_json("no es json", 0).is_err());
    assert!(extraer_tokens_json(r#"{"access_token":"A","expires_in":18446744073709551615}"#, 1).is_err());
}

#[test]
fn sesion_vigente_respeta_margen_de_5_min() {
    let ahora = 1_000_000;
    let ok = SesionZen {
        access_token: "x".into(),
        refresh_token: None,
        expira_epoch: ahora + 301,
        email: String::new(),
    };
    assert!(sesion_vigente(&ok, ahora));
    let casi = SesionZen { expira_epoch: ahora + 299, ..ok.clone() };
    assert!(!sesion_vigente(&casi, ahora), "a <5 min ya toca refrescar");
    let vacia = SesionZen { access_token: "  ".into(), expira_epoch: ahora + 9999, ..ok };
    assert!(!sesion_vigente(&vacia, ahora));
}

#[test]
fn sesion_vacia_no_se_carga() {
    let s = SesionZen {
        access_token: " \t".into(),
        refresh_token: None,
        expira_epoch: 1,
        email: "a@b.c".into(),
    };
    assert!(sesion_cargada(s.clone()).is_none());
    let buena = SesionZen { access_token: "T".into(), ..s };
    assert_eq!(sesion_cargada(buena.clone()), Some(buena.clone()));
    let e = estado_de(&Some(buena));
    assert!(e.vinculado);
    assert_eq!(e.email, "a@b.c");
    let e = estado_de(&None);
    assert!(!e.vinculado && e.email.is_empty());
}

#[test]
fn email_de_jwt_lee_claim_o_vacio() {
    let payload = base64::engine::general_purpose::URL_SAFE_NO_PAD
        .encode(r#"{"sub":"1","email":"a@b.c"}"#);
    assert_eq!(email_de_jwt(&format!("h.{payload}.s")), "a@b.c");
    assert_eq!(email_de_jwt("no-es-jwt"), "");
    assert_eq!(email_de_jwt("h.e30.s"), "", "payload sin email");
    assert_eq!(email_de_jwt(&format!("h.{payload}.s.x")), "", "cuatro partes");
}

fn sesion(access: &str, refresh: Option<&str>, expira: u64) -> SesionZen {
    SesionZen {
        access_token: access.into(),
        refresh_token: refresh.map(|r| r.to_string()),
        expira_epoch: expira,
        email: "a@b.c".into(),
    }
}

#[test]
fn token_vigente_refresco_o_nada() {
    assert!(matches!(paso_token(&None, 100), PasoToken::SinSesion));
    match paso_token(&Some(sesion("tok", Some("ref"), 10_000)), 1_000) {
        PasoToken::Usar(t) => assert_eq!(t, "tok"),
        _ => panic!("debía usarse"),
    }
    match paso_token(&Some(sesion("tok", Some("ref"), 1_200)), 1_000) {
        PasoToken::Refrescar(r) => assert_eq!(r, "ref"),
        _ => panic!("debía refrescarse"),
    }
    assert!(matches!(paso_token(&Some(sesion("tok", None, 1_200)), 1_000), PasoToken::SinSesion));
}

#[test]
fn refresco_conserva_lo_que_no_vino() {
    let s = sesion_refrescada(sesion("viejo", Some("r1"), 5), "nuevo".into(), None, 99);
    assert_eq!(s.access_token, "nuevo");
    assert_eq!(s.refresh_token, Some("r1".to_string()));
    assert_eq!(s.expira_epoch, 99);
    let s = sesion_refrescada(s, "otro".into(), Some("r2".into()), 100);
    assert_eq!(s.refresh_token, Some("r2".to_string()));
    assert_eq!(clave_para_proveedor("opencode", Some("zen".into()), "sk-1".into()), "zen");
    assert_eq!(clave_para_proveedor("opencode", None, "sk-1".into()), "sk-1");
    assert_eq!(clave_para_proveedor("gemini", Some("zen".into()), "sk-1".into()), "sk-1");
}

#[test]
fn pkce_y_estado_solo_usan_el_alfabeto_base64url() {
    let alfabeto = |c: char| c.is_ascii_alphanumeric() || c == '-' || c == '_';
    let (verifier, challenge) = generar_pkce();
    assert!(verifier.chars().all(alfabeto));
    assert!(challenge.chars().all(alfabeto));
    let estado = generar_estado();
    assert!(estado.chars().all(alfabeto));
    // 16 bytes: el último carácter sólo lleva 2 bits de datos (los otros 4 en cero).
    let ultimo = estado.chars().last().unwrap();
    assert!("AQgw".contains(ultimo));
}
