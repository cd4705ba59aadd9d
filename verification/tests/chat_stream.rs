use yarvis_app::chat::{
    antes_de_ejecutar, bloqueada_por_rol, despues_de_ejecutar, es_tool_solo_admin, json_error, recortar_args,
    rol_de_sesion, trocear, SalidaTool,
};
use yarvis_app::supresor::SupresorToolCall;

fn correr(frags: &[&str]) -> String {
    let mut s = SupresorToolCall::new();
    let mut out = String::new();
    for f in frags {
        out.push_str(&s.procesar(f));
    }
    out.push_str(&s.finalizar());
    out
}

#[test]
fn texto_sin_bloques_pasa_igual() {
    assert_eq!(correr(&["Hola, ", "¿cómo ", "estás?"]), "Hola, ¿cómo estás?");
}

#[test]
fn bloque_completo_se_suprime() {
    assert_eq!(correr(&["antes <tool_call>{\"x\":1}</tool_call> despues"]), "antes  despues");
}

#[test]
fn apertura_partida_entre_fragmentos_se_reconoce() {
    assert_eq!(
        correr(&["antes <tool", "_call>{\"x\":1}</tool_call> despues"]),
        "antes  despues"
    );
    assert_eq!(correr(&["a<", "t", "o", "o", "l", "_", "c", "a", "l", "l", ">b</tool_call>c"]), "ac");
}

#[test]
fn bloque_sin_cerrar_se_lleva_el_resto() {
    assert_eq!(correr(&["visible <tool_call>{\"x\":", "1} y mas"]), "visible ");
}

#[test]
fn retiene_cola_corta_sin_perderla() {
    let mut s = SupresorToolCall::new();
    // Menos de 10 bytes: todo se retiene hasta saber qué es.
    assert_eq!(s.procesar("hola"), "");
    assert_eq!(s.finalizar(), "hola");
    let mut s = SupresorToolCall::new();
    // 14 bytes: se sueltan 4, se retienen 10.
    assert_eq!(s.procesar("abcdefghijklmn"), "abcd");
    assert_eq!(s.finalizar(), "efghijklmn");
}

#[test]
fn retencion_corta_en_frontera_de_caracter() {
    let mut s = SupresorToolCall::new();
    // "ñ" ocupa 2 bytes: 12 bytes totales, el corte cae en frontera.
    let out = s.procesar("ñabcdefghij");
    assert_eq!(out, "ñ");
    assert_eq!(s.finalizar(), "abcdefghij");
}

#[test]
fn tools_financieras_solo_admin() {
    assert!(es_tool_solo_admin("query_sales"));
    assert!(es_tool_solo_admin("sql_readonly"));
    assert!(!es_tool_solo_admin("buscar_producto"));
    assert!(bloqueada_por_rol("forecast_sales", true));
    assert!(!bloqueada_por_rol("forecast_sales", false));
    assert!(!bloqueada_por_rol("buscar_producto", true));
    assert_eq!(rol_de_sesion(true), "empleado");
    assert_eq!(rol_de_sesion(false), "admin");
}

#[test]
fn args_de_auditoria_se_recortan_por_caracteres() {
    let largo = "é".repeat(2500);
    let r = recortar_args(&largo);
    assert_eq!(r.chars().count(), 2000);
    assert_eq!(recortar_args("{}"), "{}");
}

#[test]
fn trozos_de_cuarenta_caracteres() {
    let texto = "x".repeat(85);
    let t = trocear(&texto);
    assert_eq!(t.len(), 3);
    assert_eq!(t[0].chars().count(), 40);
    assert_eq!(t[1].chars().count(), 40);
    assert_eq!(t[2], "xxxxx");
    assert_eq!(t.concat(), texto);
    assert!(trocear("").is_empty());
    assert_eq!(trocear(&"a".repeat(80)).len(), 2);
}

#[test]
fn json_error_es_un_objeto_compacto() {
    assert_eq!(json_error("x"), "{\"error\":\"x\"}");
    assert_eq!(json_error("di \"hola\""), "{\"error\":\"di \\\"hola\\\"\"}");
}

#[test]
fn empleado_no_ejecuta_tools_de_admin() {
    let (texto, a) = antes_de_ejecutar("sql_readonly", "{\"q\":1}", true, 7).expect("debe bloquearse");
    assert_eq!(
        texto,
        "{\"error\":\"Permiso denegado: esta consulta financiera solo está disponible para el administrador.\"}"
    );
    assert_eq!(a.tool, "sql_readonly");
    assert_eq!(a.args, "{\"q\":1}");
    assert_eq!(a.usuario_id, 7);
    assert_eq!(a.rol, "empleado");
    assert!(a.ok);
    assert!(a.error.is_none());
    assert!(antes_de_ejecutar("sql_readonly", "{}", false, 1).is_none());
    assert!(antes_de_ejecutar("get_inventory", "{}", true, 7).is_none());
}

#[test]
fn desenlace_de_una_tool_y_su_bitacora() {
    let (t, a) = despues_de_ejecutar("get_inventory", "{}", false, 1, SalidaTool::Respuesta("[1,2]".to_string()));
    assert_eq!(t, "[1,2]");
    assert!(a.ok);
    assert_eq!(a.rol, "admin");
    let (t, a) = despues_de_ejecutar(
        "get_inventory",
        "{}",
        true,
        2,
        SalidaTool::Respuesta("{\"error\":\"sin datos\"}".to_string()),
    );
    assert_eq!(t, "{\"error\":\"sin datos\"}");
    assert!(!a.ok);
    assert!(a.error.is_none());
    let (t, a) = despues_de_ejecutar("x", "{}", true, 2, SalidaTool::ErrorTool("fallo".to_string()));
    assert_eq!(t, "{\"error\":\"fallo\"}");
    assert!(!a.ok);
    let (t, a) = despues_de_ejecutar("x", "{}", true, 2, SalidaTool::Vencida);
    assert_eq!(t, "{\"error\":\"La consulta tardó demasiado y se canceló.\"}");
    assert!(!a.ok);
    assert_eq!(a.error.as_deref(), Some("timeout 20s"));
    let largo = "a".repeat(2500);
    let (_, a) = despues_de_ejecutar("x", &largo, true, 2, SalidaTool::ErrorTarea("p".to_string()));
    assert_eq!(a.args.chars().count(), 2000);
}

#[test]
fn cierre_partido_entre_fragmentos_no_pierde_texto() {
    assert_eq!(correr(&["a<tool_call>x</tool_", "call>b"]), "ab");
    assert_eq!(correr(&["a<tool_call>x", "y</tool_call>b"]), "ab");
    assert_eq!(correr(&["a<tool_call>", "x<", "/", "tool_call", ">", "b"]), "ab");
    let texto = "uno <tool_call>{\"q\":\"ventas\"}</tool_call> dos <tool_call>x</tool_call>tres";
    let completo = correr(&[texto]);
    assert_eq!(completo, "uno  dos tres");
    // Parta como se parta, sale lo mismo.
    let chars: Vec<char> = texto.chars().collect();
    for corte in 0..=chars.len() {
        let a: String = chars[..corte].iter().collect();
        let b: String = chars[corte..].iter().collect();
        assert_eq!(correr(&[&a, &b]), completo, "corte en {corte}");
    }
}

#[test]
fn dentro_de_bloque_solo_se_guarda_la_cola_del_cierre() {
    let mut s = SupresorToolCall::new();
    assert_eq!(s.procesar("a<tool_call>0123456789abcdef"), "a");
    assert_eq!(s.procesar("</tool_call>z"), "");
    assert_eq!(s.finalizar(), "z");
}

#[test]
fn json_error_escapa_controles() {
    assert_eq!(json_error("a\nb\tc\u{1}\u{1f}ñ\\"), "{\"error\":\"a\\nb\\tc\\u0001\\u001fñ\\\\\"}");
}
