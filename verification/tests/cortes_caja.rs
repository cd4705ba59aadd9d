use yarvis_app::cortes::{
    a_ops, autorizar_corte, construir_corte_x, construir_corte_z, elegir_ancla, encabezado, fila, fmt_fecha,
    folio_o_remision, linea_corte, pie_totales, validar_red_corte, DatosCorte, ProductoAgregado, TicketResumen,
    TotalesVentana,
};
use yarvis_app::ticket_venta::OpTicket;

fn datos(tipo: &str) -> DatosCorte {
    DatosCorte {
        tipo: tipo.into(),
        cajero_id: 3,
        cajero_nombre: "ana".into(),
        tienda: "MI TIENDA".into(),
        apertura: "2026-03-01 08:05:00".into(),
        cierre: "2026-03-01 16:30:00".into(),
        numero: 12,
    }
}

fn totales() -> TotalesVentana {
    TotalesVentana {
        total_ventas: 12550,
        total_efectivo: 10000,
        total_tarjeta: 2550,
        total_transferencia: 0,
        num_tickets: 2,
    }
}

fn renglones(ops: &[OpTicket]) -> Vec<String> {
    ops.iter()
        .filter_map(|o| match o {
            OpTicket::Renglon(s) => Some(s.clone()),
            _ => None,
        })
        .collect()
}

#[test]
fn fecha_de_sqlite_a_dia_mes_anio() {
    assert_eq!(fmt_fecha("2026-03-01 08:05:00"), "01/03/2026 08:05");
    assert_eq!(fmt_fecha("sin fecha"), "sin fecha");
    assert_eq!(fmt_fecha(""), "");
}

#[test]
fn encabezado_del_corte() {
    let e = encabezado(&datos("Z"));
    assert_eq!(e.len(), 8);
    assert_eq!(e[0], "*** CORTE Z EN MONEDA:MXN ***");
    assert_eq!(e[2], "Cajero: ANA");
    assert_eq!(e[4], "Corte Z #12");
    assert_eq!(e[5], "01/03/2026 08:05 - 01/03/2026 16:30");
    assert_eq!(e[3], "-".repeat(48));
}

#[test]
fn pie_con_totales_por_metodo() {
    let p = pie_totales(&totales());
    assert_eq!(p.len(), 8);
    assert_eq!(p[1], fila("$125.50", "Total ventas"));
    assert_eq!(p[1].chars().count(), 48);
    assert_eq!(p[6], "Tickets: 2");
    assert_eq!(linea_corte(), "-".repeat(48));
}

#[test]
fn corte_x_lista_tickets_y_nota() {
    let tickets = vec![TicketResumen {
        venta_id: 1,
        folio: "A-1".into(),
        fecha: "2026-03-01 09:00:00".into(),
        total: 2550,
        metodo_pago: "tarjeta".into(),
    }];
    let ops = construir_corte_x(&datos("X"), &tickets, &totales()).ok().expect("corte");
    assert!(matches!(ops[0], OpTicket::Inicio));
    assert!(matches!(ops[ops.len() - 1], OpTicket::CortarParcial));
    let r = renglones(&ops);
    assert!(r.contains(&fila("$25.50", "A-1")));
    assert!(r.contains(&"X informativo: no cierra tu turno".to_string()));
}

#[test]
fn corte_z_lista_productos_y_cierre() {
    let productos = vec![ProductoAgregado { producto_nombre: "Pan".into(), cantidad: 1500, monto: 3000 }];
    let ops = construir_corte_z(&datos("Z"), &productos, &totales()).ok().expect("corte");
    let r = renglones(&ops);
    assert!(r.contains(&fila("$30.00", "Pan 1.5x")));
    assert!(r.contains(&"*** TURNO CERRADO ***".to_string()));
    assert!(r.contains(&"Contador reiniciado a $0.00".to_string()));
}

#[test]
fn corte_demasiado_largo_da_error() {
    let titulo: Vec<String> = vec!["t".into(); 3];
    let cuerpo: Vec<String> = vec!["c".into(); 498];
    assert_eq!(a_ops(&titulo, &cuerpo).err(), Some("Corte demasiado largo (501 lineas).".to_string()));
    let cuerpo: Vec<String> = vec!["c".into(); 497];
    assert!(a_ops(&titulo, &cuerpo).is_ok());
}

#[test]
fn permisos_para_reimprimir() {
    assert_eq!(autorizar_corte(true, 3, 4, "X").err(), Some("Solo puedes imprimir tus propios cortes.".to_string()));
    assert!(autorizar_corte(true, 3, 3, "Z").is_ok());
    assert!(autorizar_corte(false, 1, 9, "X").is_ok());
    assert_eq!(autorizar_corte(false, 1, 9, "Y").err(), Some("Tipo de corte desconocido.".to_string()));
    assert_eq!(validar_red_corte(" ", 9100).err(), Some("IP/puerto de red invalidos.".to_string()));
    assert_eq!(validar_red_corte("1.2.3.4", 0).err(), Some("IP/puerto de red invalidos.".to_string()));
}

#[test]
fn ancla_y_folio() {
    assert_eq!(elegir_ancla(Some("z".into()), Some("p".into()), "d".into()), "z");
    assert_eq!(elegir_ancla(None, Some("p".into()), "d".into()), "p");
    assert_eq!(elegir_ancla(None, None, "d".into()), "d");
    assert_eq!(folio_o_remision(None, 17), "REM-17");
    assert_eq!(folio_o_remision(Some("F-1".into()), 17), "F-1");
}
