//! Generador ESC/POS de las listas impresas en la térmica (80mm/48
//! columnas o 58mm/32 columnas).
//!
//! Todo texto humano se translitera a ASCII imprimible antes de ir al
//! papel: la térmica genérica no entiende UTF-8. Comandos usados:
//! `1B 40` inicio, `1B 61 n` alineación, `1B 45 n` negrita, `0A` salto
//! de línea, `1D 56 00` corte total y `1B 70 00 19 FA` pulso de cajón.

use vstd::prelude::*;
use crate::texto::{anexar, anexar_str, chars_de, es_grafico_ascii, string_de, subrango};
use crate::formato::{
    a_la_derecha, a_la_derecha_exec, a_la_izquierda, a_la_izquierda_exec, dec, dec_con_signo,
    dec_entero, dec_exec, digito, entero_con_signo_exec, entero_exec, lema_dec_largo, pot10, repetido,
};

verus! {

/// Columnas de una térmica de 80mm con fuente A.
pub const ANCHO_80MM_COLS: usize = 48;
/// Columnas de una térmica de 58mm con fuente A.
pub const ANCHO_58MM_COLS: usize = 32;
/// Tope de filas por trabajo.
pub const MAX_FILAS: usize = 2000;

/// Ancho de papel soportado; cualquier otro valor cae a 80mm.
#[derive(Debug, Clone, Copy, PartialEq, Eq, Structural)]
pub enum AnchoPapel {
    Mm80,
    Mm58,
}

impl AnchoPapel {
    /// 58 es 58mm; cualquier otro valor, 80mm.
    pub fn desde_mm(mm: u8) -> (r: AnchoPapel)
        ensures
            r == (if mm == 58 { AnchoPapel::Mm58 } else { AnchoPapel::Mm80 }),
    {
        if mm == 58 {
            AnchoPapel::Mm58
        } else {
            AnchoPapel::Mm80
        }
    }

    pub open spec fn spec_cols(self) -> nat {
        match self {
            AnchoPapel::Mm80 => ANCHO_80MM_COLS as nat,
            AnchoPapel::Mm58 => ANCHO_58MM_COLS as nat,
        }
    }

    /// Columnas del ancho.
    pub fn cols(self) -> (r: usize)
        ensures
            r == self.spec_cols(),
    {
        match self {
            AnchoPapel::Mm80 => ANCHO_80MM_COLS,
            AnchoPapel::Mm58 => ANCHO_58MM_COLS,
        }
    }
}

impl Default for AnchoPapel {
    fn default() -> (r: Self)
        ensures
            r == AnchoPapel::Mm80,
    {
        AnchoPapel::Mm80
    }
}

/// Ancho del payload: sin dato, 80mm.
pub fn ancho_de(mm: Option<u8>) -> (r: AnchoPapel)
    ensures
        r == (if mm == Some(58u8) { AnchoPapel::Mm58 } else { AnchoPapel::Mm80 }),
{
    match mm {
        Some(v) => AnchoPapel::desde_mm(v),
        None => AnchoPapel::desde_mm(80),
    }
}

pub open spec fn cmd_init() -> Seq<u8> {
    seq![0x1Bu8, 0x40u8]
}

pub open spec fn cmd_izquierda() -> Seq<u8> {
    seq![0x1Bu8, 0x61u8, 0x00u8]
}

pub open spec fn cmd_centro() -> Seq<u8> {
    seq![0x1Bu8, 0x61u8, 0x01u8]
}

pub open spec fn cmd_negrita_on() -> Seq<u8> {
    seq![0x1Bu8, 0x45u8, 0x01u8]
}

pub open spec fn cmd_negrita_off() -> Seq<u8> {
    seq![0x1Bu8, 0x45u8, 0x00u8]
}

pub open spec fn cmd_corte() -> Seq<u8> {
    seq![0x1Du8, 0x56u8, 0x00u8]
}

/// ESC p m t1 t2: cajón 0, 50ms encendido, 500ms apagado.
pub open spec fn cmd_abrir_cajon() -> Seq<u8> {
    seq![0x1Bu8, 0x70u8, 0x00u8, 0x19u8, 0xFAu8]
}

/// Agrega bytes al final.
pub fn extender(out: &mut Vec<u8>, extra: &Vec<u8>)
    ensures
        final(out)@ == old(out)@ + extra@,
{
    let ghost inicio = out@;
    let mut i: usize = 0;
    while i < extra.len()
        invariant
            i <= extra.len(),
            out@ == inicio + extra@.subrange(0, i as int),
        decreases extra.len() - i,
    {
        out.push(extra[i]);
        i = i + 1;
        assert(out@ =~= inicio + extra@.subrange(0, i as int));
    }
    assert(extra@.subrange(0, extra@.len() as int) =~= extra@);
}

fn agregar_init(out: &mut Vec<u8>)
    ensures
        final(out)@ == old(out)@ + cmd_init(),
{
    let v: Vec<u8> = vec![0x1B, 0x40];
    assert(v@ =~= cmd_init());
    extender(out, &v);
}

fn agregar_izquierda(out: &mut Vec<u8>)
    ensures
        final(out)@ == old(out)@ + cmd_izquierda(),
{
    let v: Vec<u8> = vec![0x1B, 0x61, 0x00];
    assert(v@ =~= cmd_izquierda());
    extender(out, &v);
}

fn agregar_centro(out: &mut Vec<u8>)
    ensures
        final(out)@ == old(out)@ + cmd_centro(),
{
    let v: Vec<u8> = vec![0x1B, 0x61, 0x01];
    assert(v@ =~= cmd_centro());
    extender(out, &v);
}

fn agregar_negrita(out: &mut Vec<u8>, on: bool)
    ensures
        final(out)@ == old(out)@ + (if on { cmd_negrita_on() } else { cmd_negrita_off() }),
{
    let v: Vec<u8> = if on {
        vec![0x1B, 0x45, 0x01]
    } else {
        vec![0x1B, 0x45, 0x00]
    };
    assert(v@ =~= (if on { cmd_negrita_on() } else { cmd_negrita_off() }));
    extender(out, &v);
}

fn agregar_corte(out: &mut Vec<u8>)
    ensures
        final(out)@ == old(out)@ + cmd_corte(),
{
    let v: Vec<u8> = vec![0x1D, 0x56, 0x00];
    assert(v@ =~= cmd_corte());
    extender(out, &v);
}

/// Inicio más pulso de cajón, listo para spooler o red.
pub fn construir_apertura_cajon() -> (r: Vec<u8>)
    ensures
        r@ == cmd_init() + cmd_abrir_cajon(),
{
    let mut out: Vec<u8> = Vec::new();
    agregar_init(&mut out);
    let v: Vec<u8> = vec![0x1B, 0x70, 0x00, 0x19, 0xFA];
    assert(v@ =~= cmd_abrir_cajon());
    extender(&mut out, &v);
    assert(out@ =~= cmd_init() + cmd_abrir_cajon());
    out
}

/// Transliteración de un carácter a ASCII imprimible.
pub open spec fn sanitizar_char(c: char) -> char {
    if c == 'á' || c == 'à' || c == 'ä' || c == 'â' || c == 'Á' || c == 'À' || c == 'Ä' || c == 'Â' {
        'a'
    } else if c == 'é' || c == 'è' || c == 'ë' || c == 'ê' || c == 'É' || c == 'È' || c == 'Ë' || c == 'Ê' {
        'e'
    } else if c == 'í' || c == 'ì' || c == 'ï' || c == 'î' || c == 'Í' || c == 'Ì' || c == 'Ï' || c == 'Î' {
        'i'
    } else if c == 'ó' || c == 'ò' || c == 'ö' || c == 'ô' || c == 'Ó' || c == 'Ò' || c == 'Ö' || c == 'Ô' {
        'o'
    } else if c == 'ú' || c == 'ù' || c == 'ü' || c == 'û' || c == 'Ú' || c == 'Ù' || c == 'Ü' || c == 'Û' {
        'u'
    } else if c == 'ñ' || c == 'Ñ' {
        'n'
    } else if c == 'ç' || c == 'Ç' {
        'c'
    } else if es_grafico_ascii(c) || c == ' ' {
        c
    } else {
        '?'
    }
}

pub open spec fn sanitizado(s: Seq<char>) -> Seq<char> {
    s.map_values(|c: char| sanitizar_char(c))
}

/// ¿Se imprime tal cual en la térmica? (ASCII gráfico o espacio)
pub open spec fn imprimible(c: char) -> bool {
    es_grafico_ascii(c) || c == ' '
}

fn sanitizar_char_exec(c: char) -> (r: char)
    ensures
        r == sanitizar_char(c),
{
    match c {
        'á' | 'à' | 'ä' | 'â' | 'Á' | 'À' | 'Ä' | 'Â' => 'a',
        'é' | 'è' | 'ë' | 'ê' | 'É' | 'È' | 'Ë' | 'Ê' => 'e',
        'í' | 'ì' | 'ï' | 'î' | 'Í' | 'Ì' | 'Ï' | 'Î' => 'i',
        'ó' | 'ò' | 'ö' | 'ô' | 'Ó' | 'Ò' | 'Ö' | 'Ô' => 'o',
        'ú' | 'ù' | 'ü' | 'û' | 'Ú' | 'Ù' | 'Ü' | 'Û' => 'u',
        'ñ' | 'Ñ' => 'n',
        'ç' | 'Ç' => 'c',
        _ => {
            if ('!' <= c && c <= '~') || c == ' ' {
                c
            } else {
                '?'
            }
        },
    }
}

pub fn sanitizar_chars(v: &Vec<char>) -> (r: Vec<char>)
    ensures
        r@ == sanitizado(v@),
{
    let mut r: Vec<char> = Vec::new();
    let mut i: usize = 0;
    while i < v.len()
        invariant
            i <= v.len(),
            r@ == sanitizado(v@.subrange(0, i as int)),
        decreases v.len() - i,
    {
        r.push(sanitizar_char_exec(v[i]));
        i = i + 1;
        assert(r@ =~= sanitizado(v@.subrange(0, i as int)));
    }
    assert(v@.subrange(0, v@.len() as int) =~= v@);
    r
}

/// Translitera a ASCII imprimible (tildes, ñ, ç; lo demás, `?`).
pub fn sanitizar(texto: &str) -> (r: String)
    ensures
        r@ == sanitizado(texto@),
{
    let v = chars_de(texto);
    let w = sanitizar_chars(&v);
    string_de(&w)
}

/// Lo que sale de `sanitizar` siempre es imprimible, con el mismo número
/// de caracteres; y sanitizar dos veces es sanitizar una.
pub proof fn ley_sanitizar(s: Seq<char>)
    ensures
        sanitizado(s).len() == s.len(),
        forall|i: int| 0 <= i < s.len() ==> imprimible(#[trigger] sanitizado(s)[i]),
        sanitizado(sanitizado(s)) == sanitizado(s),
        (forall|i: int| 0 <= i < s.len() ==> imprimible(#[trigger] s[i])) ==> sanitizado(s) == s,
{
    assert(sanitizado(sanitizado(s)) =~= sanitizado(s));
    if forall|i: int| 0 <= i < s.len() ==> imprimible(#[trigger] s[i]) {
        assert(sanitizado(s) =~= s);
    }
}

/// Bytes de un texto ASCII.
pub open spec fn ascii_bytes(s: Seq<char>) -> Seq<u8> {
    s.map_values(|c: char| (c as u32) as u8)
}

/// Un renglón: el texto sanitizado y un salto de línea.
pub open spec fn linea_b(s: Seq<char>) -> Seq<u8> {
    ascii_bytes(sanitizado(s)).push(0x0Au8)
}

/// Un renglón de guiones del ancho dado.
pub open spec fn separador_b(cols: nat) -> Seq<u8> {
    Seq::new(cols, |i: int| 0x2Du8).push(0x0Au8)
}

/// Un renglón centrado; la alineación vuelve a la izquierda.
pub open spec fn centrada_b(s: Seq<char>) -> Seq<u8> {
    cmd_centro() + linea_b(s) + cmd_izquierda()
}

pub fn linea_chars(out: &mut Vec<u8>, v: &Vec<char>)
    ensures
        final(out)@ == old(out)@ + linea_b(v@),
{
    let w = sanitizar_chars(v);
    let ghost inicio = out@;
    let mut i: usize = 0;
    while i < w.len()
        invariant
            i <= w.len(),
            w@ == sanitizado(v@),
            out@ == inicio + ascii_bytes(w@.subrange(0, i as int)),
        decreases w.len() - i,
    {
        let c = w[i];
        out.push((c as u32) as u8);
        i = i + 1;
        assert(out@ =~= inicio + ascii_bytes(w@.subrange(0, i as int)));
    }
    assert(w@.subrange(0, w@.len() as int) =~= w@);
    out.push(0x0A);
    assert(out@ =~= inicio + linea_b(v@));
}

/// Escribe un renglón sanitizado.
pub fn linea(out: &mut Vec<u8>, texto: &str)
    ensures
        final(out)@ == old(out)@ + linea_b(texto@),
{
    let v = chars_de(texto);
    linea_chars(out, &v);
}

/// Escribe un renglón de guiones de `cols` columnas.
pub fn separador(out: &mut Vec<u8>, cols: usize)
    ensures
        final(out)@ == old(out)@ + separador_b(cols as nat),
{
    let ghost inicio = out@;
    let mut i: usize = 0;
    while i < cols
        invariant
            i <= cols,
            out@ == inicio + Seq::new(i as nat, |k: int| 0x2Du8),
        decreases cols - i,
    {
        out.push(0x2D);
        i = i + 1;
        assert(out@ =~= inicio + Seq::new(i as nat, |k: int| 0x2Du8));
    }
    out.push(0x0A);
    assert(out@ =~= inicio + separador_b(cols as nat));
}

/// Los primeros `max_chars` caracteres (nunca corta un carácter a la mitad).
pub fn recortar(texto: &str, max_chars: usize) -> (r: String)
    ensures
        r@ == texto@.take(if texto@.len() < max_chars { texto@.len() as int } else { max_chars as int }),
{
    let v = chars_de(texto);
    let n = if v.len() < max_chars {
        v.len()
    } else {
        max_chars
    };
    let w = subrango(&v, 0, n);
    string_de(&w)
}

pub fn centrada_chars(out: &mut Vec<u8>, v: &Vec<char>)
    ensures
        final(out)@ == old(out)@ + centrada_b(v@),
{
    let ghost inicio = out@;
    agregar_centro(out);
    linea_chars(out, v);
    agregar_izquierda(out);
    assert(out@ =~= inicio + centrada_b(v@));
}

/// Escribe un renglón centrado.
pub fn centrada(out: &mut Vec<u8>, texto: &str)
    ensures
        final(out)@ == old(out)@ + centrada_b(texto@),
{
    let v = chars_de(texto);
    centrada_chars(out, &v);
}

/// Una fila de la conciliación físico contra sistema.
pub struct FilaConciliacion {
    pub nombre: String,
    pub fisico: i32,
    pub sistema: i32,
    /// Precio de venta en centavos.
    pub precio_venta: i64,
}

pub open spec fn dif_conc(f: FilaConciliacion) -> int {
    f.fisico - f.sistema
}

/// Estado de una fila de conciliación.
#[derive(PartialEq, Eq, Structural)]
pub enum EstadoConc {
    Concil,
    Cuadra,
    Sobra,
    Falta,
}

/// Estado de una fila: un sistema negativo (sobreventa) nunca es OK.
pub open spec fn estado_conc(f: FilaConciliacion) -> EstadoConc {
    if f.sistema < 0 {
        EstadoConc::Concil
    } else if dif_conc(f) == 0 {
        EstadoConc::Cuadra
    } else if dif_conc(f) > 0 {
        EstadoConc::Sobra
    } else {
        EstadoConc::Falta
    }
}

pub open spec fn estado_txt(e: EstadoConc) -> Seq<char> {
    match e {
        EstadoConc::Concil => "CONCIL"@,
        EstadoConc::Cuadra => "OK"@,
        EstadoConc::Sobra => "SOBRA"@,
        EstadoConc::Falta => "FALTA"@,
    }
}

/// Columnas del nombre según el ancho.
pub open spec fn ancho_nombre(ancho: AnchoPapel) -> nat {
    match ancho {
        AnchoPapel::Mm80 => 20,
        AnchoPapel::Mm58 => 12,
    }
}

/// Los primeros `n` caracteres (o todos).
pub open spec fn primeros(s: Seq<char>, n: nat) -> Seq<char> {
    if s.len() < n {
        s
    } else {
        s.take(n as int)
    }
}

pub open spec fn nombre_corto(nombre: Seq<char>, ancho: AnchoPapel) -> Seq<char> {
    primeros(sanitizado(nombre), ancho_nombre(ancho))
}

/// Texto de una fila de conciliación, monoespaciado.
pub open spec fn fila_conc_txt(f: FilaConciliacion, ancho: AnchoPapel) -> Seq<char> {
    let nom = nombre_corto(f.nombre@, ancho);
    match ancho {
        AnchoPapel::Mm80 => a_la_izquierda(nom, 20) + " "@ + a_la_derecha(dec_entero(f.fisico as int), 5) + " "@
            + a_la_derecha(dec_entero(f.sistema as int), 5) + " "@ + a_la_derecha(dec_con_signo(dif_conc(f)), 5)
            + "  "@ + a_la_izquierda(estado_txt(estado_conc(f)), 8),
        AnchoPapel::Mm58 => a_la_izquierda(nom, 12) + " "@ + a_la_derecha(dec_entero(f.fisico as int), 3) + " "@
            + a_la_derecha(dec_entero(f.sistema as int), 3) + " "@ + a_la_derecha(dec_con_signo(dif_conc(f)), 4)
            + " "@ + a_la_izquierda(estado_txt(estado_conc(f)), 6),
    }
}

pub open spec fn filas_conc_b(fs: Seq<FilaConciliacion>, ancho: AnchoPapel) -> Seq<u8>
    decreases fs.len(),
{
    if fs.len() == 0 {
        Seq::empty()
    } else {
        filas_conc_b(fs.drop_last(), ancho) + linea_b(fila_conc_txt(fs.last(), ancho))
    }
}

/// Filas con el estado dado.
pub open spec fn contar_estado(fs: Seq<FilaConciliacion>, estado: EstadoConc) -> nat
    decreases fs.len(),
{
    if fs.len() == 0 {
        0
    } else {
        contar_estado(fs.drop_last(), estado) + if estado_conc(fs.last()) == estado {
            1nat
        } else {
            0nat
        }
    }
}

/// Pérdida estimada en centavos: faltante por precio en las filas FALTA.
pub open spec fn perdida(fs: Seq<FilaConciliacion>) -> int
    decreases fs.len(),
{
    if fs.len() == 0 {
        0
    } else {
        perdida(fs.drop_last()) + if estado_conc(fs.last()) == EstadoConc::Falta {
            (-dif_conc(fs.last())) * fs.last().precio_venta
        } else {
            0
        }
    }
}

/// `${:.2}` de un monto en centavos, con su signo.
pub open spec fn dinero_signado(c: int) -> Seq<char> {
    let v: nat = if c < 0 {
        (-c) as nat
    } else {
        c as nat
    };
    seq!['$'] + (if c < 0 {
        seq!['-']
    } else {
        Seq::<char>::empty()
    }) + dec(v / 100) + seq!['.', digito((v % 100) / 10), digito(v % 10)]
}

pub open spec fn cabecera_conc(ancho: AnchoPapel) -> Seq<char> {
    match ancho {
        AnchoPapel::Mm80 => "NOMBRE               FIS   SIS   DIF  ESTADO"@,
        AnchoPapel::Mm58 => "NOMBRE       FIS SIS  DIF ESTADO"@,
    }
}

pub open spec fn resumen_conc(n: nat, fs: Seq<FilaConciliacion>, ancho: AnchoPapel) -> Seq<char> {
    let fal = contar_estado(fs, EstadoConc::Falta);
    let sob = contar_estado(fs, EstadoConc::Sobra);
    let con = contar_estado(fs, EstadoConc::Concil);
    match ancho {
        AnchoPapel::Mm80 => "Items:"@ + dec(n) + " Faltan:"@ + dec(fal) + " Sobran:"@ + dec(sob) + " Concil:"@ + dec(con),
        AnchoPapel::Mm58 => "It:"@ + dec(n) + " F:"@ + dec(fal) + " S:"@ + dec(sob) + " C:"@ + dec(con),
    }
}

pub open spec fn perdida_txt(fs: Seq<FilaConciliacion>, ancho: AnchoPapel) -> Seq<char> {
    match ancho {
        AnchoPapel::Mm80 => "Perdida est.: "@ + dinero_signado(perdida(fs)),
        AnchoPapel::Mm58 => "Perd:"@ + dinero_signado(perdida(fs)),
    }
}

/// Filas que entran al trabajo.
pub open spec fn filas_impresas<T>(fs: Seq<T>) -> Seq<T> {
    if fs.len() < MAX_FILAS {
        fs
    } else {
        fs.take(MAX_FILAS as int)
    }
}

pub open spec fn pie_b() -> Seq<u8> {
    seq![0x0Au8, 0x0Au8] + centrada_b("Y.A.R.V.I.S. POS"@) + seq![0x0Au8, 0x0Au8] + cmd_corte()
}

pub open spec fn encabezado_conc_b(tienda: Seq<char>, fecha: Seq<char>, ancho: AnchoPapel) -> Seq<u8> {
    let cols = ancho.spec_cols();
    cmd_init() + cmd_izquierda() + cmd_negrita_on() + centrada_b(tienda) + cmd_negrita_off()
        + centrada_b("Conciliacion de inventario"@) + centrada_b("Fisico vs Sistema"@) + centrada_b(fecha)
        + separador_b(cols) + linea_b(cabecera_conc(ancho)) + separador_b(cols)
}

pub open spec fn cierre_conc_b(fs: Seq<FilaConciliacion>, ancho: AnchoPapel) -> Seq<u8> {
    separador_b(ancho.spec_cols()) + cmd_negrita_on() + linea_b(resumen_conc(fs.len(), fs, ancho))
        + linea_b(perdida_txt(fs, ancho)) + cmd_negrita_off() + pie_b()
}

/// Ticket completo de conciliación de inventario.
pub open spec fn lista_conciliacion_b(
    tienda: Seq<char>,
    fecha: Seq<char>,
    filas: Seq<FilaConciliacion>,
    ancho: AnchoPapel,
) -> Seq<u8> {
    let fs = filas_impresas(filas);
    encabezado_conc_b(tienda, fecha, ancho) + filas_conc_b(fs, ancho) + cierre_conc_b(fs, ancho)
}

fn nombre_corto_exec(nombre: &String, ancho: AnchoPapel) -> (r: Vec<char>)
    ensures
        r@ == nombre_corto(nombre@, ancho),
{
    let v = chars_de(nombre.as_str());
    let w = sanitizar_chars(&v);
    let n: usize = match ancho {
        AnchoPapel::Mm80 => 20,
        AnchoPapel::Mm58 => 12,
    };
    if w.len() < n {
        w
    } else {
        subrango(&w, 0, n)
    }
}

fn estado_conc_exec(f: &FilaConciliacion) -> (r: &'static str)
    ensures
        r@ == estado_txt(estado_conc(*f)),
{
    let dif: i64 = f.fisico as i64 - f.sistema as i64;
    if f.sistema < 0 {
        "CONCIL"
    } else if dif == 0 {
        "OK"
    } else if dif > 0 {
        "SOBRA"
    } else {
        "FALTA"
    }
}

fn fila_conc_exec(f: &FilaConciliacion, ancho: AnchoPapel) -> (r: Vec<char>)
    ensures
        r@ == fila_conc_txt(*f, ancho),
{
    let nom = nombre_corto_exec(&f.nombre, ancho);
    let dif: i64 = f.fisico as i64 - f.sistema as i64;
    let estado = chars_de(estado_conc_exec(f));
    let fis = entero_exec(f.fisico as i64);
    let sis = entero_exec(f.sistema as i64);
    let d = entero_con_signo_exec(dif);
    let (wn, w3, w4, we, sep) = match ancho {
        AnchoPapel::Mm80 => (20usize, 5usize, 5usize, 8usize, "  "),
        AnchoPapel::Mm58 => (12usize, 3usize, 4usize, 6usize, " "),
    };
    let mut r = a_la_izquierda_exec(&nom, wn);
    anexar_str(&mut r, " ");
    anexar(&mut r, &a_la_derecha_exec(&fis, w3));
    anexar_str(&mut r, " ");
    anexar(&mut r, &a_la_derecha_exec(&sis, w3));
    anexar_str(&mut r, " ");
    anexar(&mut r, &a_la_derecha_exec(&d, w4));
    anexar_str(&mut r, sep);
    anexar(&mut r, &a_la_izquierda_exec(&estado, we));
    proof {
        match ancho {
            AnchoPapel::Mm80 => {
                assert(r@ =~= fila_conc_txt(*f, ancho));
            },
            AnchoPapel::Mm58 => {
                assert(r@ =~= fila_conc_txt(*f, ancho));
            },
        }
    }
    r
}

fn dec_nat_exec(n: usize) -> (r: Vec<char>)
    ensures
        r@ == dec(n as nat),
{
    dec_exec(n as u128)
}

fn dinero_signado_exec(c: i128) -> (r: Vec<char>)
    requires
        c > i128::MIN,
    ensures
        r@ == dinero_signado(c as int),
{
    let v: u128 = if c < 0 {
        (0 - c) as u128
    } else {
        c as u128
    };
    let mut r = vec!['$'];
    if c < 0 {
        r.push('-');
    }
    let ghost previo = r@;
    anexar(&mut r, &dec_exec(v / 100));
    r.push('.');
    let d1 = (((v % 100) / 10) as u8 + 48) as char;
    let d2 = ((v % 10) as u8 + 48) as char;
    assert(d1 == digito(((v % 100) / 10) as nat));
    assert(d2 == digito((v % 10) as nat));
    r.push(d1);
    r.push(d2);
    proof {
        if c < 0 {
            assert(previo =~= seq!['$'] + seq!['-']);
        } else {
            assert(previo =~= seq!['$'] + Seq::<char>::empty());
        }
        assert(r@ =~= dinero_signado(c as int));
    }
    r
}

proof fn lema_termino_perdida(d: int, p: int)
    requires
        -0x1_0000_0000 <= d <= 0x1_0000_0000,
        -0x8000_0000_0000_0000 <= p <= 0x7fff_ffff_ffff_ffff,
    ensures
        -0x1_0000_0000_0000_0000_0000_0000 <= d * p <= 0x1_0000_0000_0000_0000_0000_0000,
{
    assert(-0x1_0000_0000_0000_0000_0000_0000 <= d * p <= 0x1_0000_0000_0000_0000_0000_0000) by (nonlinear_arith)
        requires
            -0x1_0000_0000 <= d <= 0x1_0000_0000,
            -0x8000_0000_0000_0000 <= p <= 0x7fff_ffff_ffff_ffff,
    ;
}

fn escribir_encabezado_conc(out: &mut Vec<u8>, tienda: &str, fecha_str: &str, ancho: AnchoPapel)
    ensures
        final(out)@ == old(out)@ + encabezado_conc_b(tienda@, fecha_str@, ancho),
{
    let ghost inicio = out@;
    let cols = ancho.cols();
    agregar_init(out);
    agregar_izquierda(out);
    agregar_negrita(out, true);
    centrada(out, tienda);
    agregar_negrita(out, false);
    centrada(out, "Conciliacion de inventario");
    centrada(out, "Fisico vs Sistema");
    centrada(out, fecha_str);
    separador(out, cols);
    match ancho {
        AnchoPapel::Mm80 => linea(out, "NOMBRE               FIS   SIS   DIF  ESTADO"),
        AnchoPapel::Mm58 => linea(out, "NOMBRE       FIS SIS  DIF ESTADO"),
    }
    separador(out, cols);
    assert(out@ =~= inicio + encabezado_conc_b(tienda@, fecha_str@, ancho));
}

/// Escribe las primeras `n` filas; devuelve (faltan, sobran, por conciliar, pérdida).
fn escribir_filas_conc(out: &mut Vec<u8>, filas: &Vec<FilaConciliacion>, n: usize, ancho: AnchoPapel) -> (r: (
    usize,
    usize,
    usize,
    i128,
))
    requires
        n <= filas.len(),
        n <= MAX_FILAS,
    ensures
        final(out)@ == old(out)@ + filas_conc_b(filas@.take(n as int), ancho),
        r.0 == contar_estado(filas@.take(n as int), EstadoConc::Falta),
        r.1 == contar_estado(filas@.take(n as int), EstadoConc::Sobra),
        r.2 == contar_estado(filas@.take(n as int), EstadoConc::Concil),
        r.3 == perdida(filas@.take(n as int)),
        r.0 <= n && r.1 <= n && r.2 <= n,
        -0x1_0000_0000_0000_0000_0000_0000 * MAX_FILAS <= r.3 <= 0x1_0000_0000_0000_0000_0000_0000 * MAX_FILAS,
{
    let ghost cabeza = out@;
    let ghost fs = filas@.take(n as int);
    let mut faltantes: usize = 0;
    let mut sobrantes: usize = 0;
    let mut por_conciliar: usize = 0;
    let mut perdida_total: i128 = 0;
    let mut i: usize = 0;
    assert(fs.take(0) =~= Seq::<FilaConciliacion>::empty());
    while i < n
        invariant
            i <= n,
            n <= filas.len(),
            n <= MAX_FILAS,
            fs == filas@.take(n as int),
            out@ == cabeza + filas_conc_b(fs.take(i as int), ancho),
            faltantes == contar_estado(fs.take(i as int), EstadoConc::Falta),
            sobrantes == contar_estado(fs.take(i as int), EstadoConc::Sobra),
            por_conciliar == contar_estado(fs.take(i as int), EstadoConc::Concil),
            perdida_total == perdida(fs.take(i as int)),
            faltantes <= i,
            sobrantes <= i,
            por_conciliar <= i,
            -0x1_0000_0000_0000_0000_0000_0000 * i <= perdida_total <= 0x1_0000_0000_0000_0000_0000_0000 * i,
        decreases n - i,
    {
        let f = &filas[i];
        assert(fs.take(i + 1).drop_last() =~= fs.take(i as int));
        assert(fs.take(i + 1).last() == *f);
        let dif: i64 = f.fisico as i64 - f.sistema as i64;
        if f.sistema < 0 {
            por_conciliar = por_conciliar + 1;
        } else if dif == 0 {
        } else if dif > 0 {
            sobrantes = sobrantes + 1;
        } else {
            faltantes = faltantes + 1;
            proof {
                lema_termino_perdida(-dif as int, f.precio_venta as int);
            }
            perdida_total = perdida_total + (0 - dif as i128) * (f.precio_venta as i128);
        }
        let txt = fila_conc_exec(f, ancho);
        linea_chars(out, &txt);
        i = i + 1;
        assert(out@ =~= cabeza + filas_conc_b(fs.take(i as int), ancho));
    }
    assert(fs.take(n as int) =~= fs);
    (faltantes, sobrantes, por_conciliar, perdida_total)
}

fn escribir_cierre_conc(
    out: &mut Vec<u8>,
    fs: Ghost<Seq<FilaConciliacion>>,
    n: usize,
    conteos: (usize, usize, usize, i128),
    ancho: AnchoPapel,
)
    requires
        n == fs@.len(),
        conteos.0 == contar_estado(fs@, EstadoConc::Falta),
        conteos.1 == contar_estado(fs@, EstadoConc::Sobra),
        conteos.2 == contar_estado(fs@, EstadoConc::Concil),
        conteos.3 == perdida(fs@),
        conteos.3 > i128::MIN,
    ensures
        final(out)@ == old(out)@ + cierre_conc_b(fs@, ancho),
{
    let ghost inicio = out@;
    let (faltantes, sobrantes, por_conciliar, perdida_total) = conteos;
    separador(out, ancho.cols());
    agregar_negrita(out, true);
    let mut resumen: Vec<char> = Vec::new();
    match ancho {
        AnchoPapel::Mm80 => {
            anexar_str(&mut resumen, "Items:");
            anexar(&mut resumen, &dec_nat_exec(n));
            anexar_str(&mut resumen, " Faltan:");
            anexar(&mut resumen, &dec_nat_exec(faltantes));
            anexar_str(&mut resumen, " Sobran:");
            anexar(&mut resumen, &dec_nat_exec(sobrantes));
            anexar_str(&mut resumen, " Concil:");
            anexar(&mut resumen, &dec_nat_exec(por_conciliar));
        },
        AnchoPapel::Mm58 => {
            anexar_str(&mut resumen, "It:");
            anexar(&mut resumen, &dec_nat_exec(n));
            anexar_str(&mut resumen, " F:");
            anexar(&mut resumen, &dec_nat_exec(faltantes));
            anexar_str(&mut resumen, " S:");
            anexar(&mut resumen, &dec_nat_exec(sobrantes));
            anexar_str(&mut resumen, " C:");
            anexar(&mut resumen, &dec_nat_exec(por_conciliar));
        },
    }
    assert(resumen@ =~= resumen_conc(fs@.len(), fs@, ancho));
    linea_chars(out, &resumen);
    let mut per: Vec<char> = Vec::new();
    match ancho {
        AnchoPapel::Mm80 => anexar_str(&mut per, "Perdida est.: "),
        AnchoPapel::Mm58 => anexar_str(&mut per, "Perd:"),
    }
    anexar(&mut per, &dinero_signado_exec(perdida_total));
    assert(per@ =~= perdida_txt(fs@, ancho));
    linea_chars(out, &per);
    agregar_negrita(out, false);
    out.push(0x0A);
    out.push(0x0A);
    centrada(out, "Y.A.R.V.I.S. POS");
    out.push(0x0A);
    out.push(0x0A);
    agregar_corte(out);
    assert(out@ =~= inicio + cierre_conc_b(fs@, ancho));
}

/// Construye el ticket de conciliación de inventario. `fecha_str` ya
/// viene formateada del llamador; los precios, en centavos.
pub fn construir_lista_conciliacion(
    tienda: &str,
    fecha_str: &str,
    filas: &Vec<FilaConciliacion>,
    ancho: AnchoPapel,
) -> (r: Vec<u8>)
    ensures
        r@ == lista_conciliacion_b(tienda@, fecha_str@, filas@, ancho),
{
    let mut out: Vec<u8> = Vec::new();
    escribir_encabezado_conc(&mut out, tienda, fecha_str, ancho);
    let n: usize = if filas.len() < MAX_FILAS {
        filas.len()
    } else {
        MAX_FILAS
    };
    let ghost fs = filas_impresas(filas@);
    assert(fs =~= filas@.take(n as int));
    let conteos = escribir_filas_conc(&mut out, filas, n, ancho);
    escribir_cierre_conc(&mut out, Ghost(fs), n, conteos, ancho);
    assert(out@ =~= lista_conciliacion_b(tienda@, fecha_str@, filas@, ancho));
    out
}

/// Una fila de la alerta de stock bajo; cantidades en centésimas.
pub struct FilaStockBajo {
    pub nombre: String,
    pub stock: i64,
    pub minimo: i64,
}

/// Cantidad en centésimas como se lee en papel: entera si es exacta,
/// con dos decimales si no.
pub open spec fn fmt_cant(c: int) -> Seq<char> {
    let v: nat = if c < 0 {
        (-c) as nat
    } else {
        c as nat
    };
    let signo: Seq<char> = if c < 0 {
        seq!['-']
    } else {
        Seq::empty()
    };
    if v % 100 == 0 {
        signo + dec(v / 100)
    } else {
        signo + dec(v / 100) + seq!['.', digito((v % 100) / 10), digito(v % 10)]
    }
}

pub fn fmt_cant_exec(c: i64) -> (r: Vec<char>)
    ensures
        r@ == fmt_cant(c as int),
{
    let v: u128 = if c < 0 {
        (0i128 - c as i128) as u128
    } else {
        c as u128
    };
    let mut r: Vec<char> = Vec::new();
    if c < 0 {
        r.push('-');
    }
    let ghost signo = r@;
    anexar(&mut r, &dec_exec(v / 100));
    if v % 100 != 0 {
        r.push('.');
        let d1 = (((v % 100) / 10) as u8 + 48) as char;
        let d2 = ((v % 10) as u8 + 48) as char;
        assert(d1 == digito(((v % 100) / 10) as nat));
        assert(d2 == digito((v % 10) as nat));
        r.push(d1);
        r.push(d2);
    }
    proof {
        if c < 0 {
            assert(signo =~= seq!['-']);
        } else {
            assert(signo =~= Seq::<char>::empty());
        }
        assert(r@ =~= fmt_cant(c as int));
    }
    r
}

pub open spec fn fila_stock_txt(f: FilaStockBajo, ancho: AnchoPapel) -> Seq<char> {
    a_la_izquierda(nombre_corto(f.nombre@, ancho), ancho_nombre(ancho)) + " "@
        + a_la_derecha(fmt_cant(f.stock as int), 7) + " "@ + a_la_derecha(fmt_cant(f.minimo as int), 5)
}

pub open spec fn filas_stock_b(fs: Seq<FilaStockBajo>, ancho: AnchoPapel) -> Seq<u8>
    decreases fs.len(),
{
    if fs.len() == 0 {
        Seq::empty()
    } else {
        filas_stock_b(fs.drop_last(), ancho) + linea_b(fila_stock_txt(fs.last(), ancho))
    }
}

pub open spec fn cabecera_stock(ancho: AnchoPapel) -> Seq<char> {
    match ancho {
        AnchoPapel::Mm80 => "NOMBRE               STOCK   MIN"@,
        AnchoPapel::Mm58 => "NOMBRE         STOCK   MIN"@,
    }
}

pub open spec fn encabezado_stock_b(tienda: Seq<char>, fecha: Seq<char>, ancho: AnchoPapel) -> Seq<u8> {
    let cols = ancho.spec_cols();
    cmd_init() + cmd_izquierda() + cmd_negrita_on() + centrada_b(tienda) + cmd_negrita_off()
        + centrada_b("Alerta de stock bajo"@) + centrada_b(fecha) + separador_b(cols)
        + linea_b(cabecera_stock(ancho)) + separador_b(cols)
}

pub open spec fn cierre_stock_b(n: nat, ancho: AnchoPapel) -> Seq<u8> {
    separador_b(ancho.spec_cols()) + cmd_negrita_on() + linea_b("Criticos:"@ + dec(n)) + cmd_negrita_off() + pie_b()
}

/// Ticket completo de alerta de stock bajo (el stock negativo se imprime tal cual).
pub open spec fn lista_stock_bajo_b(
    tienda: Seq<char>,
    fecha: Seq<char>,
    filas: Seq<FilaStockBajo>,
    ancho: AnchoPapel,
) -> Seq<u8> {
    let fs = filas_impresas(filas);
    encabezado_stock_b(tienda, fecha, ancho) + filas_stock_b(fs, ancho) + cierre_stock_b(fs.len(), ancho)
}

fn fila_stock_exec(f: &FilaStockBajo, ancho: AnchoPapel) -> (r: Vec<char>)
    ensures
        r@ == fila_stock_txt(*f, ancho),
{
    let nom = nombre_corto_exec(&f.nombre, ancho);
    let wn: usize = match ancho {
        AnchoPapel::Mm80 => 20,
        AnchoPapel::Mm58 => 12,
    };
    let mut r = a_la_izquierda_exec(&nom, wn);
    anexar_str(&mut r, " ");
    anexar(&mut r, &a_la_derecha_exec(&fmt_cant_exec(f.stock), 7));
    anexar_str(&mut r, " ");
    anexar(&mut r, &a_la_derecha_exec(&fmt_cant_exec(f.minimo), 5));
    assert(r@ =~= fila_stock_txt(*f, ancho));
    r
}

fn escribir_encabezado_stock(out: &mut Vec<u8>, tienda: &str, fecha_str: &str, ancho: AnchoPapel)
    ensures
        final(out)@ == old(out)@ + encabezado_stock_b(tienda@, fecha_str@, ancho),
{
    let ghost inicio = out@;
    let cols = ancho.cols();
    agregar_init(out);
    agregar_izquierda(out);
    agregar_negrita(out, true);
    centrada(out, tienda);
    agregar_negrita(out, false);
    centrada(out, "Alerta de stock bajo");
    centrada(out, fecha_str);
    separador(out, cols);
    match ancho {
        AnchoPapel::Mm80 => linea(out, "NOMBRE               STOCK   MIN"),
        AnchoPapel::Mm58 => linea(out, "NOMBRE         STOCK   MIN"),
    }
    separador(out, cols);
    assert(out@ =~= inicio + encabezado_stock_b(tienda@, fecha_str@, ancho));
}

fn escribir_filas_stock(out: &mut Vec<u8>, filas: &Vec<FilaStockBajo>, n: usize, ancho: AnchoPapel)
    requires
        n <= filas.len(),
    ensures
        final(out)@ == old(out)@ + filas_stock_b(filas@.take(n as int), ancho),
{
    let ghost cabeza = out@;
    let ghost fs = filas@.take(n as int);
    let mut i: usize = 0;
    assert(fs.take(0) =~= Seq::<FilaStockBajo>::empty());
    while i < n
        invariant
            i <= n,
            n <= filas.len(),
            fs == filas@.take(n as int),
            out@ == cabeza + filas_stock_b(fs.take(i as int), ancho),
        decreases n - i,
    {
        let f = &filas[i];
        assert(fs.take(i + 1).drop_last() =~= fs.take(i as int));
        assert(fs.take(i + 1).last() == *f);
        let txt = fila_stock_exec(f, ancho);
        linea_chars(out, &txt);
        i = i + 1;
        assert(out@ =~= cabeza + filas_stock_b(fs.take(i as int), ancho));
    }
    assert(fs.take(n as int) =~= fs);
}

fn escribir_cierre_stock(out: &mut Vec<u8>, n: usize, ancho: AnchoPapel)
    ensures
        final(out)@ == old(out)@ + cierre_stock_b(n as nat, ancho),
{
    let ghost inicio = out@;
    separador(out, ancho.cols());
    agregar_negrita(out, true);
    let mut crit: Vec<char> = Vec::new();
    anexar_str(&mut crit, "Criticos:");
    anexar(&mut crit, &dec_nat_exec(n));
    linea_chars(out, &crit);
    agregar_negrita(out, false);
    out.push(0x0A);
    out.push(0x0A);
    centrada(out, "Y.A.R.V.I.S. POS");
    out.push(0x0A);
    out.push(0x0A);
    agregar_corte(out);
    assert(out@ =~= inicio + cierre_stock_b(n as nat, ancho));
}

/// Construye el ticket de alerta de stock bajo (cantidades en centésimas).
pub fn construir_lista_stock_bajo(
    tienda: &str,
    fecha_str: &str,
    filas: &Vec<FilaStockBajo>,
    ancho: AnchoPapel,
) -> (r: Vec<u8>)
    ensures
        r@ == lista_stock_bajo_b(tienda@, fecha_str@, filas@, ancho),
{
    let mut out: Vec<u8> = Vec::new();
    escribir_encabezado_stock(&mut out, tienda, fecha_str, ancho);
    let n: usize = if filas.len() < MAX_FILAS {
        filas.len()
    } else {
        MAX_FILAS
    };
    let ghost fs = filas_impresas(filas@);
    assert(fs =~= filas@.take(n as int));
    escribir_filas_stock(&mut out, filas, n, ancho);
    escribir_cierre_stock(&mut out, n, ancho);
    assert(out@ =~= lista_stock_bajo_b(tienda@, fecha_str@, filas@, ancho));
    out
}

/// Toda lista de conciliación arranca con el inicio de la térmica y
/// termina con el corte.
pub proof fn ley_conciliacion_inicio_y_corte(
    tienda: Seq<char>,
    fecha: Seq<char>,
    filas: Seq<FilaConciliacion>,
    ancho: AnchoPapel,
)
    ensures
        lista_conciliacion_b(tienda, fecha, filas, ancho).len() >= 5,
        lista_conciliacion_b(tienda, fecha, filas, ancho).take(2) == cmd_init(),
        lista_conciliacion_b(tienda, fecha, filas, ancho).skip(
            lista_conciliacion_b(tienda, fecha, filas, ancho).len() - 3,
        ) == cmd_corte(),
{
    let fs = filas_impresas(filas);
    let l = lista_conciliacion_b(tienda, fecha, filas, ancho);
    let resto = l.skip(2);
    assert(encabezado_conc_b(tienda, fecha, ancho) =~= cmd_init() + encabezado_conc_b(tienda, fecha, ancho).skip(2));
    assert(l =~= cmd_init() + (encabezado_conc_b(tienda, fecha, ancho).skip(2) + filas_conc_b(fs, ancho) + cierre_conc_b(fs, ancho)));
    let sin_corte = encabezado_conc_b(tienda, fecha, ancho) + filas_conc_b(fs, ancho) + (separador_b(ancho.spec_cols())
        + cmd_negrita_on() + linea_b(resumen_conc(fs.len(), fs, ancho)) + linea_b(perdida_txt(fs, ancho))
        + cmd_negrita_off() + seq![0x0Au8, 0x0Au8] + centrada_b("Y.A.R.V.I.S. POS"@) + seq![0x0Au8, 0x0Au8]);
    assert(l =~= sin_corte + cmd_corte());
}

/// Toda alerta de stock bajo arranca con el inicio y termina con el corte.
pub proof fn ley_stock_bajo_inicio_y_corte(
    tienda: Seq<char>,
    fecha: Seq<char>,
    filas: Seq<FilaStockBajo>,
    ancho: AnchoPapel,
)
    ensures
        lista_stock_bajo_b(tienda, fecha, filas, ancho).len() >= 5,
        lista_stock_bajo_b(tienda, fecha, filas, ancho).take(2) == cmd_init(),
        lista_stock_bajo_b(tienda, fecha, filas, ancho).skip(
            lista_stock_bajo_b(tienda, fecha, filas, ancho).len() - 3,
        ) == cmd_corte(),
{
    let fs = filas_impresas(filas);
    let l = lista_stock_bajo_b(tienda, fecha, filas, ancho);
    assert(l =~= cmd_init() + (encabezado_stock_b(tienda, fecha, ancho).skip(2) + filas_stock_b(fs, ancho)
        + cierre_stock_b(fs.len(), ancho)));
    let sin_corte = encabezado_stock_b(tienda, fecha, ancho) + filas_stock_b(fs, ancho) + (separador_b(
        ancho.spec_cols(),
    ) + cmd_negrita_on() + linea_b("Criticos:"@ + dec(fs.len())) + cmd_negrita_off() + seq![0x0Au8, 0x0Au8]
        + centrada_b("Y.A.R.V.I.S. POS"@) + seq![0x0Au8, 0x0Au8]);
    assert(l =~= sin_corte + cmd_corte());
}

proof fn lema_ancho_entero(n: int, w: nat)
    requires
        w >= 2,
        -pot10((w - 1) as nat) < n < pot10(w),
    ensures
        dec_entero(n).len() <= w,
{
    if n < 0 {
        lema_dec_largo((-n) as nat, (w - 1) as nat);
    } else {
        lema_dec_largo(n as nat, w);
    }
}

proof fn lema_ancho_signo(n: int, w: nat)
    requires
        w >= 2,
        -pot10((w - 1) as nat) < n < pot10((w - 1) as nat),
    ensures
        dec_con_signo(n).len() <= w,
{
    if n < 0 {
        lema_dec_largo((-n) as nat, (w - 1) as nat);
    } else {
        lema_dec_largo(n as nat, (w - 1) as nat);
    }
}

/// En 58mm una fila de conciliación ocupa exactamente las 32 columnas
/// mientras las cantidades quepan en su columna (los números nunca se
/// truncan; con cantidades enormes la fila se alarga).
pub proof fn ley_fila_58mm_cabe(f: FilaConciliacion)
    requires
        -100 < f.fisico < 1000,
        -100 < f.sistema < 1000,
        -1000 < dif_conc(f) < 1000,
    ensures
        fila_conc_txt(f, AnchoPapel::Mm58).len() == ANCHO_58MM_COLS,
{
    reveal_with_fuel(pot10, 4);
    reveal_strlit(" ");
    reveal_strlit("CONCIL");
    reveal_strlit("OK");
    reveal_strlit("SOBRA");
    reveal_strlit("FALTA");
    lema_ancho_entero(f.fisico as int, 3);
    lema_ancho_entero(f.sistema as int, 3);
    lema_ancho_signo(dif_conc(f), 4);
}

/// En 80mm una fila de conciliación ocupa exactamente las 48 columnas
/// mientras las cantidades quepan en sus cinco posiciones.
pub proof fn ley_fila_80mm_cabe(f: FilaConciliacion)
    requires
        -10000 < f.fisico < 100000,
        -10000 < f.sistema < 100000,
        -10000 < dif_conc(f) < 10000,
    ensures
        fila_conc_txt(f, AnchoPapel::Mm80).len() == ANCHO_80MM_COLS,
{
    reveal_with_fuel(pot10, 6);
    reveal_strlit(" ");
    reveal_strlit("  ");
    reveal_strlit("CONCIL");
    reveal_strlit("OK");
    reveal_strlit("SOBRA");
    reveal_strlit("FALTA");
    lema_ancho_entero(f.fisico as int, 5);
    lema_ancho_entero(f.sistema as int, 5);
    lema_ancho_signo(dif_conc(f), 5);
}

/// Los separadores miden exactamente el ancho del papel.
pub proof fn ley_separador_exacto(ancho: AnchoPapel)
    ensures
        separador_b(ancho.spec_cols()).len() == ancho.spec_cols() + 1,
        forall|i: int| 0 <= i < ancho.spec_cols() ==> #[trigger] separador_b(ancho.spec_cols())[i] == 0x2Du8,
{
}

} // verus!
