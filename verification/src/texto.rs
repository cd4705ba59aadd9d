//! Piezas de texto compartidas: clasificación de caracteres y paso
//! entre `&str`/`String` y vectores de `char`.

use vstd::prelude::*;

verus! {

/// Propiedad Unicode White_Space (la que usa `char::is_whitespace`).
pub open spec fn es_espacio(c: char) -> bool {
    let u = c as u32;
    ||| 0x09 <= u <= 0x0D
    ||| u == 0x20
    ||| u == 0x85
    ||| u == 0xA0
    ||| u == 0x1680
    ||| 0x2000 <= u <= 0x200A
    ||| u == 0x2028
    ||| u == 0x2029
    ||| u == 0x202F
    ||| u == 0x205F
    ||| u == 0x3000
}

pub fn es_espacio_exec(c: char) -> (b: bool)
    ensures
        b == es_espacio(c),
{
    let u = c as u32;
    (0x09 <= u && u <= 0x0D) || u == 0x20 || u == 0x85 || u == 0xA0 || u == 0x1680 || (0x2000 <= u
        && u <= 0x200A) || u == 0x2028 || u == 0x2029 || u == 0x202F || u == 0x205F || u == 0x3000
}

pub open spec fn es_minuscula_ascii(c: char) -> bool {
    'a' <= c && c <= 'z'
}

pub open spec fn es_mayuscula_ascii(c: char) -> bool {
    'A' <= c && c <= 'Z'
}

pub open spec fn es_digito_ascii(c: char) -> bool {
    '0' <= c && c <= '9'
}

pub open spec fn es_letra_ascii(c: char) -> bool {
    es_minuscula_ascii(c) || es_mayuscula_ascii(c)
}

/// `char::is_ascii_graphic`: de '!' a '~'.
pub open spec fn es_grafico_ascii(c: char) -> bool {
    '!' <= c && c <= '~'
}

/// `char::to_ascii_uppercase`.
pub open spec fn mayus_ascii(c: char) -> char {
    if es_minuscula_ascii(c) {
        ((c as u32) - 32) as char
    } else {
        c
    }
}

pub fn mayus_ascii_exec(c: char) -> (r: char)
    ensures
        r == mayus_ascii(c),
{
    if 'a' <= c && c <= 'z' {
        let u: u8 = (c as u32 - 32) as u8;
        u as char
    } else {
        c
    }
}

/// Los caracteres de un `&str`.
pub(crate) fn chars_de(s: &str) -> (r: Vec<char>)
    ensures
        r@ == s@,
{
    broadcast use vstd::string::axiom_spec_iter;

    let mut v: Vec<char> = Vec::new();
    for c in it: s.chars()
        invariant
            v@.len() == it.index(),
            forall|i: int| 0 <= i < v@.len() ==> v@[i] == it.seq()[i],
    {
        v.push(c);
    }
    assert(v@ =~= s@);
    v
}

/// Un `String` con los caracteres dados.
#[verifier::external_body]
pub(crate) fn string_de(v: &Vec<char>) -> (r: String)
    ensures
        r@ == v@,
{
    v.iter().collect()
}

/// `pat` aparece como bloque contiguo dentro de `s`.
pub open spec fn contiene(s: Seq<char>, pat: Seq<char>) -> bool {
    exists|i: int| 0 <= i && i + pat.len() <= s.len() && #[trigger] s.subrange(i, i + pat.len()) == pat
}

/// ¿`pat` coincide con `s` a partir de la posición `i`?
pub open spec fn coincide_en(s: Seq<char>, pat: Seq<char>, i: int) -> bool {
    0 <= i && i + pat.len() <= s.len() && s.subrange(i, i + pat.len()) == pat
}

pub fn coincide_en_exec(s: &Vec<char>, pat: &Vec<char>, i: usize) -> (b: bool)
    ensures
        b == coincide_en(s@, pat@, i as int),
{
    if i > s.len() || pat.len() > s.len() - i {
        return false;
    }
    let mut k: usize = 0;
    while k < pat.len()
        invariant
            i + pat.len() <= s.len(),
            k <= pat.len(),
            forall|j: int| 0 <= j < k ==> s@[i + j] == pat@[j],
        decreases pat.len() - k,
    {
        if s[i + k] != pat[k] {
            assert(s@.subrange(i as int, i + pat.len())[k as int] != pat@[k as int]);
            return false;
        }
        k = k + 1;
    }
    assert(s@.subrange(i as int, i + pat.len()) =~= pat@);
    true
}

/// Búsqueda de subcadena (lo que hace `str::contains` con un patrón `&str`).
pub fn contiene_exec(s: &Vec<char>, pat: &Vec<char>) -> (b: bool)
    ensures
        b == contiene(s@, pat@),
{
    if pat.len() > s.len() {
        return false;
    }
    if pat.len() == 0 {
        assert(s@.subrange(0int, 0int + pat@.len()) =~= pat@);
        return true;
    }
    let mut i: usize = 0;
    while i <= s.len() - pat.len()
        invariant
            0 < pat.len() <= s.len(),
            i <= s.len() - pat.len() + 1,
            forall|j: int| 0 <= j < i ==> !coincide_en(s@, pat@, j),
        decreases s.len() - pat.len() + 1 - i,
    {
        if coincide_en_exec(s, pat, i) {
            assert(s@.subrange(i as int, i + pat@.len()) == pat@);
            return true;
        }
        i = i + 1;
    }
    assert forall|j: int| 0 <= j && j + pat@.len() <= s@.len() implies #[trigger] s@.subrange(j, j + pat@.len()) != pat@ by {
        assert(!coincide_en(s@, pat@, j));
    }
    false
}

/// Bytes que ocupa un carácter en UTF-8.
pub open spec fn bytes_utf8(c: char) -> nat {
    let u = c as u32;
    if u < 0x80 {
        1
    } else if u < 0x800 {
        2
    } else if u < 0x10000 {
        3
    } else {
        4
    }
}

/// Largo en bytes UTF-8 de una secuencia de caracteres (lo que mide `str::len`).
pub open spec fn largo_utf8(s: Seq<char>) -> nat
    decreases s.len(),
{
    if s.len() == 0 {
        0
    } else {
        largo_utf8(s.drop_last()) + bytes_utf8(s.last())
    }
}

pub proof fn lema_largo_utf8_crece(s: Seq<char>, i: int, j: int)
    requires
        0 <= i <= j <= s.len(),
    ensures
        largo_utf8(s.subrange(0, i)) <= largo_utf8(s.subrange(0, j)),
    decreases j - i,
{
    if i < j {
        lema_largo_utf8_crece(s, i, j - 1);
        assert(s.subrange(0, j).drop_last() =~= s.subrange(0, j - 1));
    }
}

/// ¿Pasa de `tope` bytes UTF-8? (sin desbordar aunque el texto sea enorme)
pub fn excede_bytes_utf8(v: &Vec<char>, tope: usize) -> (b: bool)
    ensures
        b == (largo_utf8(v@) > tope),
{
    let mut total: u128 = 0;
    let mut i: usize = 0;
    while i < v.len()
        invariant
            i <= v.len(),
            total == largo_utf8(v@.subrange(0, i as int)),
            total <= tope,
        decreases v.len() - i,
    {
        let u = v[i] as u32;
        let n: u128 = if u < 0x80 {
            1
        } else if u < 0x800 {
            2
        } else if u < 0x10000 {
            3
        } else {
            4
        };
        assert(v@.subrange(0, i + 1).drop_last() =~= v@.subrange(0, i as int));
        total = total + n;
        i = i + 1;
        if total > tope as u128 {
            proof {
                lema_largo_utf8_crece(v@, i as int, v@.len() as int);
                assert(v@.subrange(0, v@.len() as int) =~= v@);
            }
            return true;
        }
    }
    assert(v@.subrange(0, v@.len() as int) =~= v@);
    false
}

/// `char::to_ascii_lowercase`.
pub open spec fn minus_ascii(c: char) -> char {
    if es_mayuscula_ascii(c) {
        ((c as u32) + 32) as char
    } else {
        c
    }
}

pub fn minus_ascii_exec(c: char) -> (r: char)
    ensures
        r == minus_ascii(c),
{
    if 'A' <= c && c <= 'Z' {
        let u: u8 = (c as u32 + 32) as u8;
        u as char
    } else {
        c
    }
}

/// `str::trim_start`: sin espacios Unicode al inicio.
pub open spec fn sin_espacios_inicio(s: Seq<char>) -> Seq<char>
    decreases s.len(),
{
    if s.len() > 0 && es_espacio(s[0]) {
        sin_espacios_inicio(s.drop_first())
    } else {
        s
    }
}

/// `str::trim_end`: sin espacios Unicode al final.
pub open spec fn sin_espacios_fin(s: Seq<char>) -> Seq<char>
    decreases s.len(),
{
    if s.len() > 0 && es_espacio(s.last()) {
        sin_espacios_fin(s.drop_last())
    } else {
        s
    }
}

/// `str::trim`.
pub open spec fn recortado(s: Seq<char>) -> Seq<char> {
    sin_espacios_inicio(sin_espacios_fin(s))
}

/// Índice del primer carácter que no es espacio (o el largo).
pub open spec fn primer_no_espacio(s: Seq<char>) -> int
    decreases s.len(),
{
    if s.len() > 0 && es_espacio(s[0]) {
        1 + primer_no_espacio(s.drop_first())
    } else {
        0
    }
}

/// Índice tras el último carácter que no es espacio (o 0).
pub open spec fn ultimo_no_espacio(s: Seq<char>) -> int
    decreases s.len(),
{
    if s.len() > 0 && es_espacio(s.last()) {
        ultimo_no_espacio(s.drop_last())
    } else {
        s.len() as int
    }
}

pub proof fn lema_sin_espacios_inicio(s: Seq<char>)
    ensures
        0 <= primer_no_espacio(s) <= s.len(),
        sin_espacios_inicio(s) == s.subrange(primer_no_espacio(s), s.len() as int),
        forall|i: int| 0 <= i < primer_no_espacio(s) ==> es_espacio(#[trigger] s[i]),
        primer_no_espacio(s) < s.len() ==> !es_espacio(s[primer_no_espacio(s)]),
    decreases s.len(),
{
    if s.len() > 0 && es_espacio(s[0]) {
        lema_sin_espacios_inicio(s.drop_first());
        assert(s.drop_first().subrange(primer_no_espacio(s.drop_first()), s.len() - 1)
            =~= s.subrange(primer_no_espacio(s), s.len() as int));
        assert forall|i: int| 0 <= i < primer_no_espacio(s) implies es_espacio(#[trigger] s[i]) by {
            if i > 0 {
                assert(s[i] == s.drop_first()[i - 1]);
            }
        }
    } else {
        assert(s.subrange(0, s.len() as int) =~= s);
    }
}

pub proof fn lema_sin_espacios_fin(s: Seq<char>)
    ensures
        0 <= ultimo_no_espacio(s) <= s.len(),
        sin_espacios_fin(s) == s.subrange(0, ultimo_no_espacio(s)),
        forall|i: int| ultimo_no_espacio(s) <= i < s.len() ==> es_espacio(#[trigger] s[i]),
        ultimo_no_espacio(s) > 0 ==> !es_espacio(s[ultimo_no_espacio(s) - 1]),
    decreases s.len(),
{
    if s.len() > 0 && es_espacio(s.last()) {
        lema_sin_espacios_fin(s.drop_last());
        assert(s.drop_last().subrange(0, ultimo_no_espacio(s.drop_last()))
            =~= s.subrange(0, ultimo_no_espacio(s)));
        assert forall|i: int| ultimo_no_espacio(s) <= i < s.len() implies es_espacio(#[trigger] s[i]) by {
            if i < s.len() - 1 {
                assert(s[i] == s.drop_last()[i]);
            }
        }
    } else {
        assert(s.subrange(0, s.len() as int) =~= s);
    }
}

/// Copia de `v[a..b]`.
pub fn subrango(v: &Vec<char>, a: usize, b: usize) -> (r: Vec<char>)
    requires
        a <= b <= v.len(),
    ensures
        r@ == v@.subrange(a as int, b as int),
{
    let mut r: Vec<char> = Vec::new();
    let mut i = a;
    while i < b
        invariant
            a <= i <= b <= v.len(),
            r@ == v@.subrange(a as int, i as int),
        decreases b - i,
    {
        r.push(v[i]);
        i = i + 1;
        assert(r@ =~= v@.subrange(a as int, i as int));
    }
    r
}

pub fn inicio_sin_espacios(v: &Vec<char>) -> (i: usize)
    ensures
        i == primer_no_espacio(v@),
        i <= v.len(),
{
    proof {
        lema_sin_espacios_inicio(v@);
    }
    let mut i: usize = 0;
    while i < v.len() && es_espacio_exec(v[i])
        invariant
            i <= v.len(),
            0 <= primer_no_espacio(v@) <= v@.len(),
            forall|j: int| 0 <= j < primer_no_espacio(v@) ==> es_espacio(#[trigger] v@[j]),
            primer_no_espacio(v@) < v@.len() ==> !es_espacio(v@[primer_no_espacio(v@)]),
            i <= primer_no_espacio(v@),
        decreases v.len() - i,
    {
        i = i + 1;
    }
    i
}

pub fn fin_sin_espacios(v: &Vec<char>) -> (i: usize)
    ensures
        i == ultimo_no_espacio(v@),
        i <= v.len(),
{
    proof {
        lema_sin_espacios_fin(v@);
    }
    let mut i: usize = v.len();
    while i > 0 && es_espacio_exec(v[i - 1])
        invariant
            i <= v.len(),
            0 <= ultimo_no_espacio(v@) <= v@.len(),
            forall|j: int| ultimo_no_espacio(v@) <= j < v@.len() ==> es_espacio(#[trigger] v@[j]),
            ultimo_no_espacio(v@) > 0 ==> !es_espacio(v@[ultimo_no_espacio(v@) - 1]),
            i >= ultimo_no_espacio(v@),
        decreases i,
    {
        i = i - 1;
    }
    i
}

/// `trim` sobre un vector de caracteres.
pub fn recortar_espacios(v: &Vec<char>) -> (r: Vec<char>)
    ensures
        r@ == recortado(v@),
{
    let f = fin_sin_espacios(v);
    let medio = subrango(v, 0, f);
    proof {
        lema_sin_espacios_fin(v@);
    }
    let i = inicio_sin_espacios(&medio);
    proof {
        lema_sin_espacios_inicio(medio@);
    }
    subrango(&medio, i, medio.len())
}

/// `trim_start` sobre un vector de caracteres.
pub fn recortar_inicio(v: &Vec<char>) -> (r: Vec<char>)
    ensures
        r@ == sin_espacios_inicio(v@),
{
    let i = inicio_sin_espacios(v);
    proof {
        lema_sin_espacios_inicio(v@);
    }
    subrango(v, i, v.len())
}

/// `trim_end` sobre un vector de caracteres.
pub fn recortar_fin(v: &Vec<char>) -> (r: Vec<char>)
    ensures
        r@ == sin_espacios_fin(v@),
{
    let f = fin_sin_espacios(v);
    proof {
        lema_sin_espacios_fin(v@);
    }
    subrango(v, 0, f)
}

/// Igualdad de dos vectores de caracteres.
pub fn iguales(a: &Vec<char>, b: &Vec<char>) -> (r: bool)
    ensures
        r == (a@ == b@),
{
    if a.len() != b.len() {
        return false;
    }
    let mut i: usize = 0;
    while i < a.len()
        invariant
            a.len() == b.len(),
            i <= a.len(),
            forall|j: int| 0 <= j < i ==> a@[j] == b@[j],
        decreases a.len() - i,
    {
        if a[i] != b[i] {
            return false;
        }
        i = i + 1;
    }
    assert(a@ =~= b@);
    true
}

/// ¿`v` es exactamente el texto `lit`?
pub fn es_texto(v: &Vec<char>, lit: &str) -> (r: bool)
    ensures
        r == (v@ == lit@),
{
    let w = chars_de(lit);
    iguales(v, &w)
}

/// Agrega al final los caracteres de `extra`.
pub fn anexar(v: &mut Vec<char>, extra: &Vec<char>)
    ensures
        final(v)@ == old(v)@ + extra@,
{
    let mut i: usize = 0;
    let ghost inicio = v@;
    while i < extra.len()
        invariant
            i <= extra.len(),
            v@ == inicio + extra@.subrange(0, i as int),
        decreases extra.len() - i,
    {
        v.push(extra[i]);
        i = i + 1;
        assert(v@ =~= inicio + extra@.subrange(0, i as int));
    }
    assert(extra@.subrange(0, extra@.len() as int) =~= extra@);
}

/// Agrega al final los caracteres de un `&str`.
pub fn anexar_str(v: &mut Vec<char>, extra: &str)
    ensures
        final(v)@ == old(v)@ + extra@,
{
    let w = chars_de(extra);
    anexar(v, &w);
}

/// Valor decimal de una cadena de dígitos ASCII.
pub open spec fn valor_decimal(s: Seq<char>) -> nat
    decreases s.len(),
{
    if s.len() == 0 {
        0
    } else {
        valor_decimal(s.drop_last()) * 10 + ((s.last() as u32) - ('0' as u32)) as nat
    }
}

pub open spec fn solo_digitos(s: Seq<char>) -> bool {
    forall|i: int| 0 <= i < s.len() ==> es_digito_ascii(#[trigger] s[i])
}

/// Lo que acepta `str::parse` para un entero con signo: signo opcional
/// (`+` o `-`), al menos un dígito y nada más; fuera de [`min`, `max`] es error.
pub open spec fn parse_entero(s: Seq<char>, min: int, max: int) -> Option<int> {
    if s.len() == 0 {
        None
    } else {
        let neg = s[0] == '-';
        let ds = if s[0] == '-' || s[0] == '+' {
            s.drop_first()
        } else {
            s
        };
        if ds.len() == 0 || !solo_digitos(ds) {
            None
        } else {
            let v: int = if neg {
                -valor_decimal(ds)
            } else {
                valor_decimal(ds) as int
            };
            if min <= v <= max {
                Some(v)
            } else {
                None
            }
        }
    }
}

proof fn lema_valor_decimal_crece(s: Seq<char>, i: int, j: int)
    requires
        0 <= i <= j <= s.len(),
    ensures
        valor_decimal(s.subrange(0, i)) <= valor_decimal(s.subrange(0, j)),
    decreases j - i,
{
    if i < j {
        lema_valor_decimal_crece(s, i, j - 1);
        assert(s.subrange(0, j).drop_last() =~= s.subrange(0, j - 1));
    }
}

/// `str::parse::<i64>()` (sobre caracteres), acotado a [`min`, `max`].
#[verifier::loop_isolation(false)]
pub fn parse_entero_exec(v: &Vec<char>, min: i64, max: i64) -> (r: Option<i64>)
    ensures
        match r {
            Some(x) => parse_entero(v@, min as int, max as int) == Some(x as int),
            None => parse_entero(v@, min as int, max as int) is None,
        },
{
    if v.len() == 0 {
        return None;
    }
    let neg = v[0] == '-';
    let ini: usize = if v[0] == '-' || v[0] == '+' {
        1
    } else {
        0
    };
    if ini >= v.len() {
        return None;
    }
    let ds = subrango(v, ini, v.len());
    assert(ds@ =~= if v@[0] == '-' || v@[0] == '+' { v@.drop_first() } else { v@ });
    let mut acc: u128 = 0;
    let mut i: usize = 0;
    let tope: u128 = 0x1_0000_0000_0000_0000;
    while i < ds.len()
        invariant
            i <= ds.len(),
            acc == valor_decimal(ds@.subrange(0, i as int)),
            acc <= tope,
            forall|j: int| 0 <= j < i ==> es_digito_ascii(#[trigger] ds@[j]),
        decreases ds.len() - i,
    {
        let c = ds[i];
        if !('0' <= c && c <= '9') {
            assert(!es_digito_ascii(ds@[i as int]));
            return None;
        }
        assert(ds@.subrange(0, i + 1).drop_last() =~= ds@.subrange(0, i as int));
        acc = acc * 10 + (c as u32 - '0' as u32) as u128;
        i = i + 1;
        if acc > tope {
            // ya no cabe en ningún entero de 64 bits; pero los dígitos
            // restantes también deben ser dígitos para decidir el error
            let mut k = i;
            while k < ds.len()
                invariant
                    i <= k <= ds.len(),
                    forall|j: int| 0 <= j < k ==> es_digito_ascii(#[trigger] ds@[j]),
                decreases ds.len() - k,
            {
                if !('0' <= ds[k] && ds[k] <= '9') {
                    assert(!es_digito_ascii(ds@[k as int]));
                    return None;
                }
                k = k + 1;
            }
            proof {
                lema_valor_decimal_crece(ds@, i as int, ds@.len() as int);
                assert(ds@.subrange(0, ds@.len() as int) =~= ds@);
            }
            return None;
        }
    }
    assert(ds@.subrange(0, ds@.len() as int) =~= ds@);
    let x: i128 = if neg {
        0 - (acc as i128)
    } else {
        acc as i128
    };
    if (min as i128) <= x && x <= (max as i128) {
        Some(x as i64)
    } else {
        None
    }
}

/// Posición de la primera aparición de `c` desde `desde` (o el largo).
pub open spec fn buscar_char(s: Seq<char>, c: char, desde: int) -> int
    decreases s.len() - desde,
{
    if desde < 0 || desde >= s.len() {
        s.len() as int
    } else if s[desde] == c {
        desde
    } else {
        buscar_char(s, c, desde + 1)
    }
}

pub proof fn lema_buscar_char(s: Seq<char>, c: char, desde: int)
    requires
        0 <= desde <= s.len(),
    ensures
        desde <= buscar_char(s, c, desde) <= s.len(),
        buscar_char(s, c, desde) < s.len() ==> s[buscar_char(s, c, desde)] == c,
        forall|i: int| desde <= i < buscar_char(s, c, desde) ==> s[i] != c,
    decreases s.len() - desde,
{
    if desde < s.len() && s[desde] != c {
        lema_buscar_char(s, c, desde + 1);
    }
}

pub fn buscar_char_exec(v: &Vec<char>, c: char, desde: usize) -> (r: usize)
    requires
        desde <= v.len(),
    ensures
        r == buscar_char(v@, c, desde as int),
        desde <= r <= v.len(),
{
    let mut i = desde;
    while i < v.len() && v[i] != c
        invariant
            desde <= i <= v.len(),
            buscar_char(v@, c, i as int) == buscar_char(v@, c, desde as int),
        decreases v.len() - i,
    {
        i = i + 1;
    }
    i
}

/// Los campos de `s` separados por `c` (lo que entrega `str::split`).
pub open spec fn campos(s: Seq<char>, c: char) -> Seq<Seq<char>>
    decreases s.len(),
{
    let p = buscar_char(s, c, 0);
    if p >= s.len() || p < 0 {
        seq![s]
    } else {
        proof {
            lema_buscar_char(s, c, 0);
        }
        seq![s.subrange(0, p)] + campos(s.subrange(p + 1, s.len() as int), c)
    }
}

pub proof fn lema_campos_resto(s: Seq<char>, c: char, p: int)
    requires
        0 <= p < s.len(),
        p == buscar_char(s, c, 0),
    ensures
        campos(s, c) == seq![s.subrange(0, p)] + campos(s.subrange(p + 1, s.len() as int), c),
{
    lema_buscar_char(s, c, 0);
}

/// Índice tras la palabra que empieza en `i` (primer espacio o el largo).
pub open spec fn fin_palabra(s: Seq<char>, i: int) -> int
    decreases s.len() - i,
{
    if 0 <= i < s.len() && !es_espacio(s[i]) {
        fin_palabra(s, i + 1)
    } else {
        i
    }
}

pub proof fn lema_fin_palabra(s: Seq<char>, i: int)
    requires
        0 <= i <= s.len(),
    ensures
        i <= fin_palabra(s, i) <= s.len(),
        i < s.len() && !es_espacio(s[i]) ==> i < fin_palabra(s, i),
        forall|k: int| i <= k < fin_palabra(s, i) ==> !es_espacio(#[trigger] s[k]),
        fin_palabra(s, i) < s.len() ==> es_espacio(s[fin_palabra(s, i)]),
    decreases s.len() - i,
{
    if 0 <= i < s.len() && !es_espacio(s[i]) {
        lema_fin_palabra(s, i + 1);
    }
}

/// Las palabras de `s` (lo que entrega `str::split_whitespace`).
pub open spec fn palabras(s: Seq<char>) -> Seq<Seq<char>>
    decreases s.len(),
{
    let a = primer_no_espacio(s);
    proof {
        lema_sin_espacios_inicio(s);
    }
    if a >= s.len() {
        Seq::empty()
    } else {
        let e = fin_palabra(s, a);
        proof {
            lema_fin_palabra(s, a);
        }
        seq![s.subrange(a, e)] + palabras(s.subrange(e, s.len() as int))
    }
}

proof fn lema_primer_no_espacio_exacto(s: Seq<char>, a: int)
    requires
        0 <= a <= s.len(),
        forall|j: int| 0 <= j < a ==> es_espacio(#[trigger] s[j]),
        a < s.len() ==> !es_espacio(s[a]),
    ensures
        primer_no_espacio(s) == a,
    decreases s.len(),
{
    if a > 0 {
        assert(es_espacio(s[0]));
        assert forall|j: int| 0 <= j < a - 1 implies es_espacio(#[trigger] s.drop_first()[j]) by {
            assert(s.drop_first()[j] == s[j + 1]);
        }
        if a - 1 < s.len() - 1 {
            assert(s.drop_first()[a - 1] == s[a]);
        }
        lema_primer_no_espacio_exacto(s.drop_first(), a - 1);
    }
}

proof fn lema_fin_palabra_desde(v: Seq<char>, inicio: int, i: int)
    requires
        0 <= inicio <= i <= v.len(),
    ensures
        fin_palabra(v.subrange(inicio, v.len() as int), i - inicio) + inicio == fin_palabra(v, i),
    decreases v.len() - i,
{
    if i < v.len() {
        assert(v.subrange(inicio, v.len() as int)[i - inicio] == v[i]);
        lema_fin_palabra_desde(v, inicio, i + 1);
    }
}

/// La palabra número `n` (desde 0) de `v`, si la hay.
pub fn palabra_n(v: &Vec<char>, n: usize) -> (r: Option<Vec<char>>)
    ensures
        match r {
            Some(w) => n < palabras(v@).len() && w@ == palabras(v@)[n as int],
            None => n >= palabras(v@).len(),
        },
{
    let mut inicio: usize = 0;
    let mut vistas: usize = 0;
    assert(v@.subrange(0, v@.len() as int) =~= v@);
    loop
        invariant
            inicio <= v.len(),
            vistas <= n,
            palabras(v@).len() >= vistas,
            forall|k: int|
                0 <= k < palabras(v@.subrange(inicio as int, v@.len() as int)).len() ==> #[trigger] palabras(
                    v@.subrange(inicio as int, v@.len() as int),
                )[k] == palabras(v@)[vistas + k],
            palabras(v@).len() == vistas + palabras(v@.subrange(inicio as int, v@.len() as int)).len(),
        decreases v.len() - inicio,
    {
        let ghost resto = v@.subrange(inicio as int, v@.len() as int);
        let mut a = inicio;
        while a < v.len() && es_espacio_exec(v[a])
            invariant
                inicio <= a <= v.len(),
                forall|j: int| inicio <= j < a ==> es_espacio(#[trigger] v@[j]),
            decreases v.len() - a,
        {
            a = a + 1;
        }
        proof {
            lema_sin_espacios_inicio(resto);
            assert forall|j: int| 0 <= j < a - inicio implies es_espacio(#[trigger] resto[j]) by {
                assert(resto[j] == v@[inicio + j]);
            }
            if a < v.len() {
                assert(resto[a - inicio] == v@[a as int]);
            }
            lema_primer_no_espacio_exacto(resto, a - inicio);
        }
        if a >= v.len() {
            return None;
        }
        let mut e = a;
        while e < v.len() && !es_espacio_exec(v[e])
            invariant
                a <= e <= v.len(),
                fin_palabra(v@, e as int) == fin_palabra(v@, a as int),
            decreases v.len() - e,
        {
            e = e + 1;
        }
        proof {
            lema_fin_palabra_desde(v@, inicio as int, a as int);
            lema_fin_palabra(resto, a - inicio);
            assert(resto.subrange(a - inicio, e - inicio) =~= v@.subrange(a as int, e as int));
            assert(resto.subrange(e - inicio, resto.len() as int) =~= v@.subrange(e as int, v@.len() as int));
            assert(palabras(resto) == seq![v@.subrange(a as int, e as int)] + palabras(
                v@.subrange(e as int, v@.len() as int),
            ));
            assert(palabras(resto)[0] == v@.subrange(a as int, e as int));
        }
        if vistas == n {
            return Some(subrango(v, a, e));
        }
        proof {
            let sig = v@.subrange(e as int, v@.len() as int);
            assert forall|k: int| 0 <= k < palabras(sig).len() implies #[trigger] palabras(sig)[k]
                == palabras(v@)[vistas + 1 + k] by {
                assert(palabras(resto)[k + 1] == palabras(sig)[k]);
            }
        }
        vistas = vistas + 1;
        inicio = e;
    }
}

/// Todas las palabras de `v`, en orden.
pub fn todas_palabras(v: &Vec<char>) -> (r: Vec<Vec<char>>)
    ensures
        r@.len() == palabras(v@).len(),
        forall|i: int| 0 <= i < r@.len() ==> #[trigger] r@[i]@ == palabras(v@)[i],
{
    let mut out: Vec<Vec<char>> = Vec::new();
    let mut inicio: usize = 0;
    assert(v@.subrange(0, v@.len() as int) =~= v@);
    loop
        invariant
            inicio <= v.len(),
            palabras(v@).len() == out@.len() + palabras(v@.subrange(inicio as int, v@.len() as int)).len(),
            forall|i: int| 0 <= i < out@.len() ==> #[trigger] out@[i]@ == palabras(v@)[i],
            forall|k: int|
                0 <= k < palabras(v@.subrange(inicio as int, v@.len() as int)).len() ==> #[trigger] palabras(
                    v@.subrange(inicio as int, v@.len() as int),
                )[k] == palabras(v@)[out@.len() + k],
        decreases v.len() - inicio,
    {
        let ghost resto = v@.subrange(inicio as int, v@.len() as int);
        let mut a = inicio;
        while a < v.len() && es_espacio_exec(v[a])
            invariant
                inicio <= a <= v.len(),
                forall|j: int| inicio <= j < a ==> es_espacio(#[trigger] v@[j]),
            decreases v.len() - a,
        {
            a = a + 1;
        }
        proof {
            lema_sin_espacios_inicio(resto);
            assert forall|j: int| 0 <= j < a - inicio implies es_espacio(#[trigger] resto[j]) by {
                assert(resto[j] == v@[inicio + j]);
            }
            if a < v.len() {
                assert(resto[a - inicio] == v@[a as int]);
            }
            lema_primer_no_espacio_exacto(resto, a - inicio);
        }
        if a >= v.len() {
            return out;
        }
        let mut e = a;
        while e < v.len() && !es_espacio_exec(v[e])
            invariant
                a <= e <= v.len(),
                fin_palabra(v@, e as int) == fin_palabra(v@, a as int),
            decreases v.len() - e,
        {
            e = e + 1;
        }
        proof {
            lema_fin_palabra_desde(v@, inicio as int, a as int);
            lema_fin_palabra(resto, a - inicio);
            assert(resto.subrange(a - inicio, e - inicio) =~= v@.subrange(a as int, e as int));
            assert(resto.subrange(e - inicio, resto.len() as int) =~= v@.subrange(e as int, v@.len() as int));
            assert(palabras(resto) == seq![v@.subrange(a as int, e as int)] + palabras(
                v@.subrange(e as int, v@.len() as int),
            ));
            assert(palabras(resto)[0] == v@.subrange(a as int, e as int));
            let sig = v@.subrange(e as int, v@.len() as int);
            assert forall|k: int| 0 <= k < palabras(sig).len() implies #[trigger] palabras(sig)[k]
                == palabras(v@)[out@.len() + 1 + k] by {
                assert(palabras(resto)[k + 1] == palabras(sig)[k]);
            }
        }
        let w = subrango(v, a, e);
        out.push(w);
        inicio = e;
    }
}

} // verus!
