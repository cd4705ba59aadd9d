use yarvis_app::termica::AnchoPapel;
use yarvis_app::ticket_venta::{
    construir_ticket_venta, fila, limpiar, preparar_ticket_venta, Justificado, LineaVenta, LineaVentaPayload,
    OpTicket, PagoPayload, TicketVenta, TicketVentaPayload,
};

fn demo() -> TicketVenta {
    TicketVenta {
        tienda: "Abarrotes Demo".into(),
        ubicacion: Some("Calle 1".into()),
        folio: "#42".into(),
        fecha: "2026-09-10 12:00".into(),
        lineas: vec![LineaVenta {
            nombre: "Coca-Cola 600ml".into(),
            cantidad: 2000,
            precio_unitario: 2000,
            descuento: 0,
        }],
        descuento_global: 0,
        total: 4000,
        pagos: vec![("Efectivo".into(), 5000)],
        cambio: 1000,
        qr: Some("YARVIS-42".into()),
    }
}

fn texto(ops: &[OpTicket]) -> String {
    let mut s = String::new();
    for op in ops {
        if let OpTicket::Renglon(r) = op {
            s.push_str(r);
            s.push('\n');
        }
    }
    s
}

#[test]
fn ticket_arranca_con_init_y_trae_folio() {
    let ops = construir_ticket_venta(&demo(), AnchoPapel::Mm80).ok().expect("render");
    assert!(matches!(ops[0], OpTicket::Inicio), "sin INIT");
    let txt = texto(&ops);
    assert!(txt.contains("Abarrotes Demo"));
    assert!(txt.contains("#42"));
    assert!(txt.contains("CAMBIO"));
    assert!(ops.iter().any(|o| matches!(o, OpTicket::Qr(q, 5) if q == "YARVIS-42")));
}

#[test]
fn ticket_sin_qr_tambien_corta() {
    let mut t = demo();
    t.qr = None;
    t.ubicacion = None;
    let ops = construir_ticket_venta(&t, AnchoPapel::Mm80).ok().expect("render");
    assert!(matches!(ops[ops.len() - 1], OpTicket::CortarParcial), "sin corte");
    assert!(!ops.iter().any(|o| matches!(o, OpTicket::Qr(_, _))));
}

#[test]
fn ticket_vacio_da_error_claro() {
    let mut t = demo();
    t.lineas.clear();
    assert_eq!(construir_ticket_venta(&t, AnchoPapel::Mm80).err(), Some("El ticket no trae productos.".to_string()));
}

#[test]
fn ticket_con_descuento_muestra_subtotal_y_desc() {
    let mut t = demo();
    t.lineas[0].descuento = 500_000; // $5.00 en milésimas de centavo
    t.descuento_global = 300;
    t.total = 3200;
    let ops = construir_ticket_venta(&t, AnchoPapel::Mm80).ok().expect("render");
    let txt = texto(&ops);
    assert!(txt.contains("SUBTOTAL"), "falta SUBTOTAL");
    assert!(txt.contains("DESCUENTO"), "falta DESCUENTO");
    assert!(txt.contains("Desc:"), "falta renglon de linea");
    assert!(txt.contains("$40.00"), "falta bruto");
    assert!(txt.contains("-$8.00"), "falta descuento total 5+3");
    assert!(txt.contains("$32.00"), "falta neto");
}

#[test]
fn ticket_sin_descuento_no_muestra_subtotal() {
    let ops = construir_ticket_venta(&demo(), AnchoPapel::Mm80).ok().expect("render");
    let txt = texto(&ops);
    assert!(!txt.contains("SUBTOTAL"), "sin descuento no debe salir SUBTOTAL");
    assert!(!txt.contains("DESCUENTO"), "sin descuento no debe salir DESCUENTO");
}

#[test]
fn ticket_translitera_tildes_en_papel() {
    let mut t = demo();
    t.tienda = "Abarrotes Hernández".into();
    t.lineas[0].nombre = "Café 500g".into();
    let ops = construir_ticket_venta(&t, AnchoPapel::Mm80).ok().expect("render");
    let txt = texto(&ops);
    assert!(txt.contains("Hernandez"), "tienda sin transliterar");
    assert!(txt.contains("Cafe 500g"), "producto sin transliterar");
    assert!(!txt.contains('é'), "quedo UTF-8 crudo en el papel");
}

#[test]
fn ticket_58mm_usa_separadores_de_32() {
    let ops = construir_ticket_venta(&demo(), AnchoPapel::Mm58).ok().expect("render");
    assert!(matches!(ops[0], OpTicket::Inicio));
    let txt = texto(&ops);
    assert!(txt.contains(&"-".repeat(32)), "sin separador de 32");
    assert!(!txt.contains(&"-".repeat(33)), "se colo un separador de 80mm");
    assert!(ops.iter().any(|o| matches!(o, OpTicket::Qr(_, 3))));
}

#[test]
fn renglon_de_linea_con_cantidad_fraccionaria() {
    let mut t = demo();
    t.lineas[0].cantidad = 500; // 0.5 unidades
    let ops = construir_ticket_venta(&t, AnchoPapel::Mm80).ok().expect("render");
    let txt = texto(&ops);
    let esperado = fila("$10.00", "0.5x Coca-Cola 600ml", 48);
    assert!(txt.contains(&esperado), "{txt}");
    assert!(matches!(ops[1], OpTicket::Justificar(Justificado::Centro)));
}

#[test]
fn fila_monoespaciada() {
    assert_eq!(fila("$5.00", "Coca", 12), "Coca   $5.00");
    assert_eq!(fila("$5.00", "Un nombre muy largo", 12), "Un nom $5.00");
    assert_eq!(fila("$5.00", "x", 3), "$5.00");
    assert_eq!(fila("$5.00", "Coca", 12).chars().count(), 12);
}

fn payload() -> TicketVentaPayload {
    TicketVentaPayload {
        tienda: " Abarrotes ".into(),
        ubicacion: Some("  ".into()),
        folio: " 7 ".into(),
        fecha: None,
        lineas: vec![LineaVentaPayload {
            nombre: " Pan ".into(),
            cantidad: 3000,
            precio_unitario: 1000,
            descuento: 200,
        }],
        descuento_global: 0,
        ancho_mm: Some(58),
        total: 2800,
        pagos: vec![
            PagoPayload { metodo: " Efectivo ".into(), monto: 5000 },
            PagoPayload { metodo: "Tarjeta".into(), monto: 0 },
        ],
        qr: Some("  ".into()),
    }
}

#[test]
fn payload_de_venta_se_prepara() {
    let (t, a) = preparar_ticket_venta(&payload(), "2026-01-01 10:00").ok().expect("valido");
    assert_eq!(a, AnchoPapel::Mm58);
    assert_eq!(t.tienda, "Abarrotes");
    assert_eq!(t.folio, "7");
    assert_eq!(t.fecha, "2026-01-01 10:00");
    assert!(t.ubicacion.is_none());
    assert!(t.qr.is_none());
    assert_eq!(t.lineas[0].nombre, "Pan");
    assert_eq!(t.lineas[0].descuento, 200_000);
    assert_eq!(t.pagos, vec![("Efectivo".to_string(), 5000)]);
    assert_eq!(t.cambio, 2200);
}

#[test]
fn payload_de_venta_errores_en_orden() {
    let mut p = payload();
    p.lineas.clear();
    assert_eq!(preparar_ticket_venta(&p, "f").err(), Some("El ticket no trae productos.".to_string()));
    let mut p = payload();
    p.total = -1;
    assert_eq!(preparar_ticket_venta(&p, "f").err(), Some("Total invalido.".to_string()));
    let mut p = payload();
    p.tienda = " ".into();
    assert_eq!(preparar_ticket_venta(&p, "f").err(), Some("Falta el nombre de la tienda.".to_string()));
    let mut p = payload();
    p.folio = "".into();
    assert_eq!(preparar_ticket_venta(&p, "f").err(), Some("Falta el folio del ticket.".to_string()));
    let mut p = payload();
    p.descuento_global = 2900;
    assert_eq!(
        preparar_ticket_venta(&p, "f").err(),
        Some("Descuentos mayores al subtotal del ticket.".to_string())
    );
    let mut p = payload();
    p.qr = Some("q".repeat(501));
    assert_eq!(
        preparar_ticket_venta(&p, "f").err(),
        Some("QR demasiado largo (501 caracteres, maximo 500). Usa un folio corto o URL corta.".to_string())
    );
    let mut p = payload();
    p.lineas = (0..501)
        .map(|_| LineaVentaPayload { nombre: "a".into(), cantidad: 1000, precio_unitario: 1, descuento: 0 })
        .collect();
    assert_eq!(preparar_ticket_venta(&p, "f").err(), Some("Demasiadas lineas (501). Limite: 500.".to_string()));
    assert_eq!(limpiar("  x y  "), "x y");
}
