//! Núcleo verificado de Y.A.R.V.I.S. POS: reglas de códigos de barras,
//! texto de tickets térmicos, turnos y asistencia, sesión OAuth y
//! filtrado del stream del chat.

pub mod texto;
pub mod codigos;
pub mod ean;
pub mod presentacion;
pub mod formato;
pub mod asistencia;
pub mod zen;
pub mod fuzzy;
pub mod marcas;
pub mod supresor;
pub mod chat;
pub mod termica;
pub mod ticket_venta;
pub mod impresora;
pub mod cortes;
pub mod modelos;
pub mod filtros;
pub mod compras;
pub mod venta;
pub mod importacion;
pub mod verde;
pub mod rojo;
pub mod respaldos;
pub mod amarillo;
