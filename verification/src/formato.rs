//! Formateo de números a texto (lo que hacen `{}`, `{:>5}`, `{:<20}`,
//! `{:02}`, `{:+}` y el `$X.XX` de los tickets), con su especificación.

use vstd::prelude::*;

verus! {

pub open spec fn digito(d: nat) -> char {
    (('0' as u32) + d) as char
}

/// Dígitos decimales de `n`, sin ceros a la izquierda ("0" para cero).
pub open spec fn dec(n: nat) -> Seq<char>
    decreases n,
{
    if n < 10 {
        seq![digito(n)]
    } else {
        dec(n / 10).push(digito(n % 10))
    }
}

/// `{}` de un entero con signo.
pub open spec fn dec_entero(n: int) -> Seq<char> {
    if n < 0 {
        seq!['-'] + dec((-n) as nat)
    } else {
        dec(n as nat)
    }
}

/// `{:+}`: el signo siempre se escribe.
pub open spec fn dec_con_signo(n: int) -> Seq<char> {
    if n < 0 {
        seq!['-'] + dec((-n) as nat)
    } else {
        seq!['+'] + dec(n as nat)
    }
}

/// `n` copias de `c`.
pub open spec fn repetido(c: char, n: nat) -> Seq<char> {
    Seq::new(n, |i: int| c)
}

/// `{:>w}`: alineado a la derecha con espacios.
pub open spec fn a_la_derecha(s: Seq<char>, w: nat) -> Seq<char> {
    if s.len() >= w {
        s
    } else {
        repetido(' ', (w - s.len()) as nat) + s
    }
}

/// `{:<w}`: alineado a la izquierda con espacios.
pub open spec fn a_la_izquierda(s: Seq<char>, w: nat) -> Seq<char> {
    if s.len() >= w {
        s
    } else {
        s + repetido(' ', (w - s.len()) as nat)
    }
}

/// `{:0w}` de un entero: ceros entre el signo y los dígitos.
pub open spec fn con_ceros(n: int, w: nat) -> Seq<char> {
    let d = dec(if n < 0 {
        (-n) as nat
    } else {
        n as nat
    });
    let signo: Seq<char> = if n < 0 {
        seq!['-']
    } else {
        Seq::empty()
    };
    if signo.len() + d.len() >= w {
        signo + d
    } else {
        signo + repetido('0', (w - signo.len() - d.len()) as nat) + d
    }
}

/// `$X.XX` de un monto en centavos; los negativos se imprimen como `$0.00`.
pub open spec fn dinero_centavos(c: int) -> Seq<char> {
    let v: nat = if c < 0 {
        0
    } else {
        c as nat
    };
    seq!['$'] + dec(v / 100) + seq!['.', digito((v % 100) / 10), digito(v % 10)]
}

pub open spec fn pot10(k: nat) -> nat
    decreases k,
{
    if k == 0 {
        1
    } else {
        10 * pot10((k - 1) as nat)
    }
}

/// Un número menor que 10^k (k >= 1) se escribe con a lo más k dígitos.
pub proof fn lema_dec_largo(n: nat, k: nat)
    requires
        k >= 1,
        n < pot10(k),
    ensures
        1 <= dec(n).len() <= k,
    decreases n,
{
    if n >= 10 {
        assert(k >= 2) by {
            if k == 1 {
                assert(pot10(1) == 10 * pot10(0));
            }
        }
        assert(n / 10 < pot10((k - 1) as nat));
        lema_dec_largo(n / 10, (k - 1) as nat);
    }
}

proof fn lema_u128_cabe(n: u128)
    ensures
        dec(n as nat).len() <= 40,
{
    reveal_with_fuel(pot10, 41);
    assert(pot10(40) == 10_000_000_000_000_000_000_000_000_000_000_000_000_000);
    lema_dec_largo(n as nat, 40);
}

/// Dígitos decimales de un `u128`.
pub fn dec_exec(n: u128) -> (r: Vec<char>)
    ensures
        r@ == dec(n as nat),
    decreases n,
{
    if n < 10 {
        let c = (n as u8 + 48) as char;
        assert(c == digito(n as nat));
        vec![c]
    } else {
        let mut v = dec_exec(n / 10);
        let d = n % 10;
        let c = (d as u8 + 48) as char;
        assert(c == digito(d as nat));
        v.push(c);
        v
    }
}

/// `{}` de un `i64`.
pub fn entero_exec(n: i64) -> (r: Vec<char>)
    ensures
        r@ == dec_entero(n as int),
{
    if n < 0 {
        let abs: u128 = (0i128 - n as i128) as u128;
        let mut r = vec!['-'];
        let d = dec_exec(abs);
        let mut i: usize = 0;
        while i < d.len()
            invariant
                i <= d.len(),
                r@ == seq!['-'] + d@.subrange(0, i as int),
            decreases d.len() - i,
        {
            r.push(d[i]);
            i = i + 1;
            assert(r@ =~= seq!['-'] + d@.subrange(0, i as int));
        }
        assert(d@.subrange(0, d@.len() as int) =~= d@);
        r
    } else {
        dec_exec(n as u128)
    }
}

/// `{:+}` de un `i64`.
pub fn entero_con_signo_exec(n: i64) -> (r: Vec<char>)
    ensures
        r@ == dec_con_signo(n as int),
{
    if n < 0 {
        entero_exec(n)
    } else {
        let d = dec_exec(n as u128);
        let mut r = vec!['+'];
        let mut i: usize = 0;
        while i < d.len()
            invariant
                i <= d.len(),
                r@ == seq!['+'] + d@.subrange(0, i as int),
            decreases d.len() - i,
        {
            r.push(d[i]);
            i = i + 1;
            assert(r@ =~= seq!['+'] + d@.subrange(0, i as int));
        }
        assert(d@.subrange(0, d@.len() as int) =~= d@);
        r
    }
}

/// `{:>w}`.
pub fn a_la_derecha_exec(s: &Vec<char>, w: usize) -> (r: Vec<char>)
    ensures
        r@ == a_la_derecha(s@, w as nat),
{
    if s.len() >= w {
        return s.clone();
    }
    let mut r: Vec<char> = Vec::new();
    let faltan = w - s.len();
    let mut i: usize = 0;
    while i < faltan
        invariant
            i <= faltan,
            r@ == repetido(' ', i as nat),
        decreases faltan - i,
    {
        r.push(' ');
        i = i + 1;
        assert(r@ =~= repetido(' ', i as nat));
    }
    let mut k: usize = 0;
    while k < s.len()
        invariant
            k <= s.len(),
            r@ == repetido(' ', faltan as nat) + s@.subrange(0, k as int),
        decreases s.len() - k,
    {
        r.push(s[k]);
        k = k + 1;
        assert(r@ =~= repetido(' ', faltan as nat) + s@.subrange(0, k as int));
    }
    assert(s@.subrange(0, s@.len() as int) =~= s@);
    r
}

/// `{:<w}`.
pub fn a_la_izquierda_exec(s: &Vec<char>, w: usize) -> (r: Vec<char>)
    ensures
        r@ == a_la_izquierda(s@, w as nat),
{
    let mut r = s.clone();
    if s.len() >= w {
        return r;
    }
    let faltan = w - s.len();
    let mut i: usize = 0;
    while i < faltan
        invariant
            i <= faltan,
            r@ == s@ + repetido(' ', i as nat),
        decreases faltan - i,
    {
        r.push(' ');
        i = i + 1;
        assert(r@ =~= s@ + repetido(' ', i as nat));
    }
    r
}

/// `{:0w}` de un `i64`.
pub fn con_ceros_exec(n: i64, w: usize) -> (r: Vec<char>)
    ensures
        r@ == con_ceros(n as int, w as nat),
{
    let abs: u128 = if n < 0 {
        (0i128 - n as i128) as u128
    } else {
        n as u128
    };
    let d = dec_exec(abs);
    let mut r: Vec<char> = Vec::new();
    if n < 0 {
        r.push('-');
    }
    proof {
        lema_u128_cabe(abs);
    }
    let ghost signo = r@;
    if r.len() + d.len() < w {
        let faltan = w - r.len() - d.len();
        let mut i: usize = 0;
        while i < faltan
            invariant
                i <= faltan,
                r@ == signo + repetido('0', i as nat),
            decreases faltan - i,
        {
            r.push('0');
            i = i + 1;
            assert(r@ =~= signo + repetido('0', i as nat));
        }
    }
    let ghost antes = r@;
    let mut k: usize = 0;
    while k < d.len()
        invariant
            k <= d.len(),
            r@ == antes + d@.subrange(0, k as int),
        decreases d.len() - k,
    {
        r.push(d[k]);
        k = k + 1;
        assert(r@ =~= antes + d@.subrange(0, k as int));
    }
    assert(d@.subrange(0, d@.len() as int) =~= d@);
    proof {
        if n < 0 {
            assert(signo =~= seq!['-']);
        } else {
            assert(signo =~= Seq::<char>::empty());
        }
    }
    r
}

/// `$X.XX` de un monto en centavos (negativos como `$0.00`).
pub fn dinero_exec(centavos: i64) -> (r: Vec<char>)
    ensures
        r@ == dinero_centavos(centavos as int),
{
    let v: u128 = if centavos < 0 {
        0
    } else {
        centavos as u128
    };
    let mut r = vec!['$'];
    let d = dec_exec(v / 100);
    let mut k: usize = 0;
    while k < d.len()
        invariant
            k <= d.len(),
            r@ == seq!['$'] + d@.subrange(0, k as int),
        decreases d.len() - k,
    {
        r.push(d[k]);
        k = k + 1;
        assert(r@ =~= seq!['$'] + d@.subrange(0, k as int));
    }
    assert(d@.subrange(0, d@.len() as int) =~= d@);
    r.push('.');
    let dec1 = (((v % 100) / 10) as u8 + 48) as char;
    let dec2 = ((v % 10) as u8 + 48) as char;
    assert(dec1 == digito(((v % 100) / 10) as nat));
    assert(dec2 == digito((v % 10) as nat));
    r.push(dec1);
    r.push(dec2);
    r
}

} // verus!
