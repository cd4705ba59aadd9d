use yarvis_app::modelos::build_embedding_text;
use yarvis_app::compras::{mensaje_error_proveedor, validar_nombre_proveedor};
use yarvis_app::compras::{
    concepto_compra, costo_de, decidir_egreso, entradas_stock, paginacion, preparar_compra, sugerido_renglon,
    sugerir_pago, validar_compra, validar_item, Egreso, ItemCompraRequest,
};
use yarvis_app::filtros::{
    acotar_dias, hash_password_placeholder, limpiar_opt, normalizar_dias, split_csv_line, validar_horizonte_prediccion,
    DIAS_TODOS,
};
use yarvis_app::importacion::{
    coincidencia_exacta, fecha_iso, mensaje_importacion, metodo_o_efectivo, vincular_producto, Coincidencia,
};
use yarvis_app::modelos::{AiStatus, AiStatusResponse};
use yarvis_app::venta::{metodo_pago, siguiente_ticket, validar_venta};

fn item(nombre: &str, pres: &str, cant: i64) -> ItemCompraRequest {
    ItemCompraRequest { producto_id: None, nombre: nombre.into(), presentacion: pres.into(), cantidad: cant }
}

#[test]
fn renglones_de_compra_se_validan() {
    assert_eq!(validar_item(&item("  ", "unidad", 1)).err(), Some("Hay un renglón sin producto.".to_string()));
    assert_eq!(
        validar_item(&item(" Pan ", "caja", 1)).err(),
        Some("Presentación inválida en 'Pan': usa unidad o paquete.".to_string())
    );
    assert_eq!(validar_item(&item("Pan", "paquete", 0)).err(), Some("Cantidad inválida en 'Pan'.".to_string()));
    assert_eq!(validar_item(&item(" Pan ", "unidad", 2500)).ok(), Some(("Pan".to_string(), 2500)));
    assert_eq!(validar_compra(0, 10).err(), Some("La compra no trae productos.".to_string()));
    assert_eq!(validar_compra(1, -1).err(), Some("Monto pagado inválido.".to_string()));
    assert!(validar_compra(1, 0).is_ok());
}

#[test]
fn costo_sugerido_por_id_o_nombre_no_ambiguo() {
    let cat = vec![(1, "pan".to_string(), 500), (2, "leche".to_string(), 2000), (3, "leche".to_string(), 2100)];
    assert_eq!(costo_de(&cat, Some(2), "x"), 2000);
    assert_eq!(costo_de(&cat, Some(9), "pan"), 500);
    assert_eq!(costo_de(&cat, None, "leche"), 0);
    assert_eq!(costo_de(&cat, None, "queso"), 0);
    assert_eq!(sugerido_renglon(2500, 500), 1250);
    assert_eq!(sugerido_renglon(1, 500), 1);
    assert_eq!(sugerido_renglon(1, 499), 0);
    assert_eq!(sugerido_renglon(1, -500), -1);
}

#[test]
fn egreso_solo_con_corte_abierto() {
    assert!(decidir_egreso(0, Some(4)) == Egreso::Ninguno);
    assert!(decidir_egreso(100, Some(4)) == Egreso::Retiro(4));
    assert!(decidir_egreso(100, None) == Egreso::Pendiente);
    assert_eq!(concepto_compra(7, "Bimbo"), "Compra #7 · Bimbo");
    assert_eq!(paginacion(0, -5), (1, 0));
    assert_eq!(paginacion(900, 10), (500, 10));
}

#[test]
fn sugerencia_de_pago() {
    let cat = vec![(1, "pan".to_string(), 500)];
    assert_eq!(sugerir_pago(&cat, "pan", 2000).ok(), Some((Some(1_000_000), 500)));
    assert_eq!(sugerir_pago(&cat, "queso", 2000).ok(), Some((None, 0)));
    assert_eq!(sugerir_pago(&cat, "pan", 0).err(), Some("Cantidad inválida.".to_string()));
}

#[test]
fn metodo_de_pago_de_la_venta() {
    assert_eq!(metodo_pago(100, 100, 100), "mixto");
    assert_eq!(metodo_pago(100, 100, 0), "efectivo/tarjeta");
    assert_eq!(metodo_pago(100, 0, 100), "efectivo/transferencia");
    assert_eq!(metodo_pago(0, 100, 100), "tarjeta/transferencia");
    assert_eq!(metodo_pago(0, 100, 0), "tarjeta");
    assert_eq!(metodo_pago(0, 0, 100), "transferencia");
    assert_eq!(metodo_pago(0, 0, 0), "efectivo");
    assert_eq!(validar_venta(0, 1, 0, 0, 1).err(), Some("No hay productos en la venta".to_string()));
    assert_eq!(validar_venta(2, 500, 0, 0, 501).err(), Some("El monto pagado es menor al total".to_string()));
    assert_eq!(validar_venta(2, 300, 201, 0, 501).ok(), Some("efectivo/tarjeta"));
    assert_eq!(siguiente_ticket(None), 1);
    assert_eq!(siguiente_ticket(Some(41)), 42);
}

#[test]
fn dias_y_horizontes() {
    assert_eq!(validar_horizonte_prediccion(30), Ok(30));
    assert!(validar_horizonte_prediccion(0).is_err());
    assert!(validar_horizonte_prediccion(366).is_err());
    assert_eq!(normalizar_dias(None), 1);
    assert_eq!(normalizar_dias(Some(-3)), 1);
    assert_eq!(normalizar_dias(Some(999_999)), DIAS_TODOS);
    assert_eq!(acotar_dias(7), 7);
    assert_eq!(limpiar_opt(Some("  ".into())), None);
    assert_eq!(limpiar_opt(Some(" a ".into())), Some("a".to_string()));
    assert_eq!(hash_password_placeholder("secreto"), "secreto");
}

#[test]
fn csv_respeta_comillas() {
    assert_eq!(split_csv_line("a, b ;c"), vec!["a", "b", "c"]);
    assert_eq!(split_csv_line("\"x,y\",2"), vec!["x,y", "2"]);
    assert_eq!(split_csv_line(",,a,,b"), vec!["a", "", "b"]);
    assert_eq!(split_csv_line("a,  "), vec!["a", ""]);
    assert!(split_csv_line("").is_empty());
}

#[test]
fn importacion_de_ticket() {
    assert_eq!(fecha_iso(Some("2026-01-02".into()), Some("10:30".into())), Some("2026-01-02 10:30:00".to_string()));
    assert_eq!(fecha_iso(Some("2026-01-02".into()), Some("".into())), Some("2026-01-02 00:00:00".to_string()));
    assert_eq!(fecha_iso(Some("".into()), Some("10:30".into())), None);
    assert_eq!(fecha_iso(None, Some("10:30".into())), None);
    assert_eq!(metodo_o_efectivo(None), "efectivo");
    assert!(coincidencia_exacta(&vec![]) == Coincidencia::Ninguna);
    assert!(coincidencia_exacta(&vec![5]) == Coincidencia::Unica(5));
    assert!(coincidencia_exacta(&vec![5, 6]) == Coincidencia::Ambigua);
    assert_eq!(mensaje_importacion(3, 0), "Ticket importado correctamente");
    assert_eq!(
        mensaje_importacion(3, 1),
        "Ticket importado (2/3 items vinculados al inventario; 1 sin coincidencia por nombre)"
    );
}

#[test]
fn vinculo_por_parecido_solo_si_gana_claro() {
    let claro = vec![(1, 9000), (2, 4000)];
    assert_eq!(vincular_producto(Coincidencia::Ninguna, Some(&claro)), Some(1));
    let renido = vec![(1, 9000), (2, 5300)];
    assert_eq!(vincular_producto(Coincidencia::Ninguna, Some(&renido)), None);
    let empate = vec![(1, 9000), (2, 9000)];
    assert_eq!(vincular_producto(Coincidencia::Ninguna, Some(&empate)), None);
    let bajo = vec![(1, 5400)];
    assert_eq!(vincular_producto(Coincidencia::Ninguna, Some(&bajo)), None);
    assert_eq!(vincular_producto(Coincidencia::Ambigua, Some(&claro)), None);
    assert_eq!(vincular_producto(Coincidencia::Unica(8), None), Some(8));
    assert_eq!(vincular_producto(Coincidencia::Ninguna, None), None);
}

#[test]
fn estado_del_motor_ia() {
    let r = AiStatusResponse::desde_estado(AiStatus::Ready, Some(8765));
    assert_eq!(r.status, "ready");
    assert_eq!(r.message, Some("Motor listo en puerto 8765".to_string()));
    let r = AiStatusResponse::desde_estado(AiStatus::NotRunning, None);
    assert_eq!(r.status, "not_running");
    assert_eq!(r.message, None);
    let r = AiStatusResponse::desde_estado(AiStatus::Error("boom".into()), None);
    assert_eq!((r.status.as_str(), r.message), ("error", Some("boom".to_string())));
}

#[test]
fn proveedores_nombre_y_duplicado() {
    assert_eq!(validar_nombre_proveedor("  "), Err("Escribe el nombre del proveedor.".to_string()));
    assert_eq!(validar_nombre_proveedor(" Bimbo "), Ok("Bimbo".to_string()));
    assert_eq!(
        mensaje_error_proveedor("UNIQUE constraint failed: proveedores.nombre"),
        "Ese proveedor ya está registrado."
    );
    assert_eq!(mensaje_error_proveedor("disk full"), "disk full");
}

#[test]
fn texto_de_embedding_omite_partes_vacias() {
    assert_eq!(
        build_embedding_text("Coca Cola 600ml", &Some("Refresco".to_string()), &Some("Bebidas".to_string())),
        "Coca Cola 600ml Refresco Bebidas"
    );
    assert_eq!(build_embedding_text("Sabritas", &Some(String::new()), &Some("Botanas".to_string())), "Sabritas Botanas");
    assert_eq!(build_embedding_text("Pan", &None, &None), "Pan");
}

fn item_con_id(pid: Option<i64>, nombre: &str, pres: &str, cantidad: i64) -> ItemCompraRequest {
    ItemCompraRequest { producto_id: pid, nombre: nombre.to_string(), presentacion: pres.to_string(), cantidad }
}

#[test]
fn compra_completa_suma_sugerido_y_entradas() {
    let cat = vec![(1, "coca".to_string(), 1500), (2, "pan".to_string(), 300)];
    let items = vec![item_con_id(Some(1), " Coca ", "unidad", 2000), item_con_id(None, "Pan", "paquete", 500)];
    let normas = vec!["coca".to_string(), "pan".to_string()];
    let (rs, total) = preparar_compra(&cat, &items, &normas).expect("compra válida");
    assert_eq!(total, 3000 + 150);
    assert_eq!(rs.len(), 2);
    assert_eq!(rs[0].nombre, "Coca");
    assert_eq!(rs[0].costo, 1500);
    assert_eq!(rs[1].costo, 300);
    assert_eq!(entradas_stock(&rs), vec![(1, 2000)]);
}

#[test]
fn compra_se_detiene_en_el_primer_renglon_malo() {
    let cat = vec![(1, "coca".to_string(), 1500)];
    let items = vec![item_con_id(Some(9), "Fanta", "unidad", 1000), item_con_id(None, "  ", "unidad", 1000)];
    let normas = vec!["fanta".to_string(), "".to_string()];
    assert_eq!(
        preparar_compra(&cat, &items, &normas).err(),
        Some("El producto 'Fanta' ya no existe en inventario.".to_string())
    );
    let items = vec![item_con_id(None, "  ", "unidad", 1000), item_con_id(Some(9), "Fanta", "unidad", 1000)];
    assert_eq!(preparar_compra(&cat, &items, &normas).err(), Some("Hay un renglón sin producto.".to_string()));
}
