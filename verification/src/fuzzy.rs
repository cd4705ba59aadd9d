//! Parecido de texto por trigramas (Jaccard): tolera typos y pegados
//! ("cocacola" vs "coca cola"). El texto llega ya normalizado.
//!
//! El parecido se da como fracción exacta (numerador, denominador).

use vstd::prelude::*;
use crate::texto::{chars_de, iguales, palabras, string_de, subrango, todas_palabras};

verus! {

/// Trigramas de una palabra; las de menos de 3 caracteres entran enteras.
pub open spec fn trigramas_palabra(w: Seq<char>) -> Seq<Seq<char>> {
    if w.len() < 3 {
        seq![w]
    } else {
        Seq::new((w.len() - 2) as nat, |i: int| w.subrange(i, i + 3))
    }
}

/// Trigramas de una lista de palabras, en orden.
pub open spec fn trigramas_de(ws: Seq<Seq<char>>) -> Seq<Seq<char>>
    decreases ws.len(),
{
    if ws.len() == 0 {
        Seq::empty()
    } else {
        trigramas_de(ws.drop_last()) + trigramas_palabra(ws.last())
    }
}

/// Trigramas por palabra ("coca" -> coc, oca). Palabras cortas entran
/// enteras ("3l").
pub fn trigramas(norm: &str) -> (r: Vec<String>)
    ensures
        r@.len() == trigramas_de(palabras(norm@)).len(),
        forall|i: int| 0 <= i < r@.len() ==> #[trigger] r@[i]@ == trigramas_de(palabras(norm@))[i],
{
    let v = chars_de(norm);
    let ws = todas_palabras(&v);
    let ghost pw = palabras(norm@);
    let mut out: Vec<String> = Vec::new();
    let mut k: usize = 0;
    while k < ws.len()
        invariant
            k <= ws.len(),
            ws@.len() == pw.len(),
            pw == palabras(norm@),
            forall|i: int| 0 <= i < ws@.len() ==> #[trigger] ws@[i]@ == pw[i],
            out@.len() == trigramas_de(pw.subrange(0, k as int)).len(),
            forall|i: int|
                0 <= i < out@.len() ==> #[trigger] out@[i]@ == trigramas_de(pw.subrange(0, k as int))[i],
        decreases ws.len() - k,
    {
        let w = &ws[k];
        let ghost antes = trigramas_de(pw.subrange(0, k as int));
        assert(pw.subrange(0, k + 1).drop_last() =~= pw.subrange(0, k as int));
        assert(pw.subrange(0, k + 1).last() == pw[k as int]);
        assert(w@ == pw[k as int]);
        let ghost tri = trigramas_palabra(w@);
        let ghost n0 = out@.len();
        if w.len() < 3 {
            out.push(string_de(w));
            assert(out@[n0 as int]@ == tri[0]);
        } else {
            let mut i: usize = 0;
            while i < w.len() - 2
                invariant
                    i <= w.len() - 2,
                    w.len() >= 3,
                    tri == trigramas_palabra(w@),
                    out@.len() == n0 + i,
                    forall|j: int| 0 <= j < n0 ==> #[trigger] out@[j]@ == antes[j],
                    forall|j: int| 0 <= j < i ==> #[trigger] out@[n0 + j]@ == tri[j],
                decreases w.len() - i,
            {
                let t = subrango(w, i, i + 3);
                out.push(string_de(&t));
                i = i + 1;
            }
        }
        proof {
            let nuevo = trigramas_de(pw.subrange(0, k + 1));
            assert(nuevo == antes + tri);
            assert forall|j: int| 0 <= j < out@.len() implies #[trigger] out@[j]@ == nuevo[j] by {
                if j < n0 {
                } else {
                    let jj = j - n0;
                    assert(out@[n0 + jj]@ == tri[jj]);
                }
            }
        }
        k = k + 1;
    }
    assert(pw.subrange(0, ws@.len() as int) =~= pw);
    out
}

/// Primera posición de `x` en `b`, o -1.
pub open spec fn posicion(b: Seq<Seq<char>>, x: Seq<char>) -> int
    decreases b.len(),
{
    if b.len() == 0 {
        -1
    } else if b[0] == x {
        0
    } else {
        let r = posicion(b.drop_first(), x);
        if r < 0 {
            -1
        } else {
            r + 1
        }
    }
}

proof fn lema_posicion(b: Seq<Seq<char>>, x: Seq<char>)
    ensures
        -1 <= posicion(b, x) < b.len(),
        posicion(b, x) >= 0 ==> b[posicion(b, x)] == x,
        posicion(b, x) < 0 ==> !b.contains(x),
        forall|j: int| 0 <= j < posicion(b, x) ==> b[j] != x,
    decreases b.len(),
{
    if b.len() > 0 && b[0] != x {
        lema_posicion(b.drop_first(), x);
        if posicion(b, x) < 0 {
            assert forall|j: int| 0 <= j < b.len() implies b[j] != x by {
                if j > 0 {
                    assert(b[j] == b.drop_first()[j - 1]);
                }
            }
        }
        assert forall|j: int| 0 <= j < posicion(b, x) implies b[j] != x by {
            if j > 0 {
                assert(b[j] == b.drop_first()[j - 1]);
            }
        }
    }
}

/// Intersección de multiconjuntos: cada elemento de `a` se empareja con
/// una copia aún libre e igual de `b`, así que cada trigrama cuenta tantas
/// veces como el mínimo de sus repeticiones en las dos listas.
pub open spec fn en_comun(a: Seq<Seq<char>>, b: Seq<Seq<char>>) -> nat
    decreases a.len(),
{
    if a.len() == 0 {
        0
    } else {
        let j = posicion(b, a[0]);
        if 0 <= j < b.len() {
            1 + en_comun(a.drop_first(), b.remove(j))
        } else {
            en_comun(a.drop_first(), b)
        }
    }
}

/// Jaccard entre multiconjuntos (intersección / unión) como fracción;
/// la unión cuenta cada trigrama el máximo de sus repeticiones. Una
/// lista vacía da 0/1.
pub open spec fn spec_jaccard(a: Seq<Seq<char>>, b: Seq<Seq<char>>) -> (nat, nat) {
    if a.len() == 0 || b.len() == 0 {
        (0, 1)
    } else {
        let inter = en_comun(a, b);
        (inter, (a.len() + b.len() - inter) as nat)
    }
}

/// La intersección no pasa del tamaño de ninguna de las dos listas.
proof fn lema_en_comun_cota(a: Seq<Seq<char>>, b: Seq<Seq<char>>)
    ensures
        en_comun(a, b) <= a.len(),
        en_comun(a, b) <= b.len(),
    decreases a.len(),
{
    if a.len() > 0 {
        let j = posicion(b, a[0]);
        lema_posicion(b, a[0]);
        if 0 <= j < b.len() {
            lema_en_comun_cota(a.drop_first(), b.remove(j));
        } else {
            lema_en_comun_cota(a.drop_first(), b);
        }
    }
}

fn posicion_exec(b: &Vec<String>, x: &Vec<char>) -> (r: Option<usize>)
    ensures
        match r {
            Some(j) => j as int == posicion(b@.map_values(|s: String| s@), x@),
            None => posicion(b@.map_values(|s: String| s@), x@) < 0,
        },
{
    let ghost vb = b@.map_values(|s: String| s@);
    proof {
        lema_posicion(vb, x@);
    }
    let mut i: usize = 0;
    while i < b.len()
        invariant
            i <= b.len(),
            vb == b@.map_values(|s: String| s@),
            forall|j: int| 0 <= j < i ==> vb[j] != x@,
            -1 <= posicion(vb, x@) < vb.len(),
            posicion(vb, x@) >= 0 ==> vb[posicion(vb, x@)] == x@,
            posicion(vb, x@) < 0 ==> !vb.contains(x@),
            forall|j: int| 0 <= j < posicion(vb, x@) ==> vb[j] != x@,
        decreases b.len() - i,
    {
        let bv = chars_de(b[i].as_str());
        if iguales(&bv, x) {
            assert(vb[i as int] == x@);
            return Some(i);
        }
        i = i + 1;
    }
    proof {
        if posicion(vb, x@) >= 0 {
            assert(vb[posicion(vb, x@)] == x@);
        }
    }
    None
}

/// Jaccard entre multiconjuntos de trigramas, como (intersección, unión):
/// cada trigrama cuenta el mínimo de sus repeticiones en la intersección
/// y el máximo en la unión, así que el cociente va de 0 a 1.
pub fn jaccard(a: &Vec<String>, b: &Vec<String>) -> (r: (u128, u128))
    ensures
        (r.0 as nat, r.1 as nat) == spec_jaccard(
            a@.map_values(|s: String| s@),
            b@.map_values(|s: String| s@),
        ),
        r.1 >= 1,
        r.0 <= r.1,
        (a@.len() == 0 || b@.len() == 0) ==> r.0 == 0,
{
    let ghost va = a@.map_values(|s: String| s@);
    let ghost vb = b@.map_values(|s: String| s@);
    if a.len() == 0 || b.len() == 0 {
        return (0, 1);
    }
    let mut libres: Vec<String> = b.clone();
    proof {
        assert(libres@.map_values(|s: String| s@) =~= vb) by {
            assert forall|k: int| 0 <= k < libres@.len() implies #[trigger] libres@[k]@ == b@[k]@ by {}
        }
    }
    let mut inter: usize = 0;
    let mut i: usize = 0;
    assert(va.skip(0) =~= va);
    while i < a.len()
        invariant
            i <= a.len(),
            va == a@.map_values(|s: String| s@),
            vb == b@.map_values(|s: String| s@),
            inter + en_comun(va.skip(i as int), libres@.map_values(|s: String| s@)) == en_comun(va, vb),
            inter <= i,
        decreases a.len() - i,
    {
        let ghost vl = libres@.map_values(|s: String| s@);
        let ghost resto = va.skip(i as int);
        assert(resto[0] == a@[i as int]@);
        assert(resto.drop_first() =~= va.skip(i + 1));
        let x = chars_de(a[i].as_str());
        match posicion_exec(&libres, &x) {
            Some(j) => {
                proof {
                    lema_posicion(vl, x@);
                }
                libres.remove(j);
                assert(libres@.map_values(|s: String| s@) =~= vl.remove(j as int));
                inter = inter + 1;
            },
            None => {},
        }
        i = i + 1;
    }
    proof {
        lema_en_comun_cota(va, vb);
    }
    (inter as u128, a.len() as u128 + b.len() as u128 - inter as u128)
}

/// Parecido como fracción: 0/1 si alguno está vacío, 1/1 si son iguales,
/// Jaccard de trigramas en otro caso.
pub open spec fn spec_similitud(a: Seq<char>, b: Seq<char>) -> (nat, nat) {
    if a.len() == 0 || b.len() == 0 {
        (0, 1)
    } else if a == b {
        (1, 1)
    } else {
        spec_jaccard(trigramas_de(palabras(a)), trigramas_de(palabras(b)))
    }
}

/// 1 si iguales, 0 si vacío, Jaccard de trigramas en otro caso; como
/// fracción (numerador, denominador).
pub fn similitud_fuzzy(a_norm: &str, b_norm: &str) -> (r: (u128, u128))
    ensures
        (r.0 as nat, r.1 as nat) == spec_similitud(a_norm@, b_norm@),
        r.1 >= 1,
{
    let av = chars_de(a_norm);
    let bv = chars_de(b_norm);
    if av.len() == 0 || bv.len() == 0 {
        return (0, 1);
    }
    if iguales(&av, &bv) {
        return (1, 1);
    }
    let ta = trigramas(a_norm);
    let tb = trigramas(b_norm);
    proof {
        assert(ta@.map_values(|s: String| s@) =~= trigramas_de(palabras(a_norm@)));
        assert(tb@.map_values(|s: String| s@) =~= trigramas_de(palabras(b_norm@)));
    }
    jaccard(&ta, &tb)
}

proof fn lema_en_comun_propio(a: Seq<Seq<char>>)
    ensures
        en_comun(a, a) == a.len(),
    decreases a.len(),
{
    if a.len() > 0 {
        lema_posicion(a, a[0]);
        assert(posicion(a, a[0]) == 0);
        assert(a.remove(0) =~= a.drop_first());
        lema_en_comun_propio(a.drop_first());
    }
}

/// Una lista comparada consigo misma da Jaccard 1 (unión = intersección).
pub proof fn ley_jaccard_reflexivo(a: Seq<Seq<char>>)
    ensures
        a.len() > 0 ==> spec_jaccard(a, a).0 == spec_jaccard(a, a).1,
{
    lema_en_comun_propio(a);
}

/// El parecido va de 0 a 1: la intersección nunca pasa de la unión ni del
/// tamaño de cualquiera de las listas, la unión nunca es cero y una lista
/// vacía da 0.
pub proof fn ley_jaccard_entre_0_y_1(a: Seq<Seq<char>>, b: Seq<Seq<char>>)
    ensures
        spec_jaccard(a, b).1 >= 1,
        spec_jaccard(a, b).0 <= spec_jaccard(a, b).1,
        spec_jaccard(a, b).0 <= a.len(),
        spec_jaccard(a, b).0 <= b.len(),
        (a.len() == 0 || b.len() == 0) ==> spec_jaccard(a, b).0 == 0,
{
    lema_en_comun_cota(a, b);
}

} // verus!
