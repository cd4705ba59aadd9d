# yarvis_app

Reglas verificadas de un punto de venta de escritorio: códigos de barras
(semáforos verde, amarillo y rojo), tickets y listas para impresora
térmica, cortes de caja, compras, asistencia y horas extra, y el filtro y
control de acceso del chat con herramientas.

- `src/` es la biblioteca, escrita en Verus: cada función pública lleva su
  contrato (`requires` / `ensures`) sobre funciones `spec`, y las leyes que
  relacionan varias funciones son funciones `proof` públicas (`ley_*`).
  El dinero va en centavos y las cantidades en milésimas, centésimas o
  millonésimas: nada de punto flotante.
- Las llamadas a otras bibliotecas (base64, sha2, rand, serde_json,
  chrono y `str::to_lowercase`/`to_uppercase`) pasan por funciones
  `#[verifier::external_body]` pequeñas, cada una con su contrato
  documentado.
- `tests/` prueba la biblioteca con valores concretos.
- `app/` es el programa alrededor: conversión de montos en punto flotante,
  tipos con `serde`, el controlador ESC/POS (`escpos`), la red y el
  archivo de sesión.
