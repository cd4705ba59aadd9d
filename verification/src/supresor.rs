//! Filtrado del stream del chat: los bloques `<tool_call>…</tool_call>`
//! que pide el modelo nunca llegan a la pantalla.
//!
//! El texto llega en fragmentos arbitrarios. Fuera de un bloque, una cola
//! que podría ser el comienzo del marcador de apertura se retiene (al
//! menos diez bytes, cortando en frontera de carácter) hasta saber qué
//! es; dentro de un bloque se descarta todo salvo los últimos once
//! caracteres, que podrían ser el comienzo del marcador de cierre. Así lo
//! que se muestra no depende de cómo se partió el texto.

use vstd::prelude::*;
use crate::texto::{anexar, anexar_str, bytes_utf8, coincide_en, coincide_en_exec, largo_utf8, string_de, subrango};

verus! {

/// `<tool_call>`
pub open spec fn apertura() -> Seq<char> {
    seq!['<', 't', 'o', 'o', 'l', '_', 'c', 'a', 'l', 'l', '>']
}

/// `</tool_call>`
pub open spec fn cierre() -> Seq<char> {
    seq!['<', '/', 't', 'o', 'o', 'l', '_', 'c', 'a', 'l', 'l', '>']
}

/// Bytes que se retienen como máximo sin decidir: el largo del marcador
/// de apertura menos uno.
pub open spec fn max_retencion() -> nat {
    10
}

/// Primera posición `>= i` donde aparece `pat` en `s`, o -1.
pub open spec fn primera_desde(s: Seq<char>, pat: Seq<char>, i: int) -> int
    decreases s.len() + 1 - i,
{
    if i < 0 || i + pat.len() > s.len() {
        -1
    } else if coincide_en(s, pat, i) {
        i
    } else {
        primera_desde(s, pat, i + 1)
    }
}

/// Primera aparición de `pat` en `s` (lo que da `str::find`), o -1.
pub open spec fn primera(s: Seq<char>, pat: Seq<char>) -> int {
    primera_desde(s, pat, 0)
}

pub proof fn lema_primera_desde(s: Seq<char>, pat: Seq<char>, i: int)
    requires
        0 <= i,
    ensures
        primera_desde(s, pat, i) == -1 || (i <= primera_desde(s, pat, i) && primera_desde(s, pat, i) + pat.len() <= s.len()),
        primera_desde(s, pat, i) >= 0 ==> coincide_en(s, pat, primera_desde(s, pat, i)),
        primera_desde(s, pat, i) == -1 ==> forall|j: int| i <= j ==> !coincide_en(s, pat, j),
        forall|j: int| i <= j < primera_desde(s, pat, i) ==> !coincide_en(s, pat, j),
    decreases s.len() + 1 - i,
{
    if i + pat.len() <= s.len() && !coincide_en(s, pat, i) {
        lema_primera_desde(s, pat, i + 1);
        assert forall|j: int| i <= j < primera_desde(s, pat, i) implies !coincide_en(s, pat, j) by {
            if j > i {
            }
        }
        if primera_desde(s, pat, i) == -1 {
            assert forall|j: int| i <= j implies !coincide_en(s, pat, j) by {
                if j > i {
                }
            }
        }
    }
}

pub proof fn lema_primera(s: Seq<char>, pat: Seq<char>)
    ensures
        primera(s, pat) == -1 || (0 <= primera(s, pat) && primera(s, pat) + pat.len() <= s.len()),
        primera(s, pat) >= 0 ==> coincide_en(s, pat, primera(s, pat)),
        primera(s, pat) == -1 ==> forall|j: int| 0 <= j ==> !coincide_en(s, pat, j),
        forall|j: int| 0 <= j < primera(s, pat) ==> !coincide_en(s, pat, j),
{
    lema_primera_desde(s, pat, 0);
}

/// Mayor prefijo (desde `k`) cuyo largo en bytes no pasa de `tope`.
pub open spec fn corte_hasta(s: Seq<char>, k: int, tope: int) -> int
    decreases s.len() - k,
{
    if 0 <= k < s.len() && largo_utf8(s.take(k + 1)) <= tope {
        corte_hasta(s, k + 1, tope)
    } else {
        k
    }
}

/// Cuántos caracteres se pueden soltar sin decidir: todos menos una cola
/// de al menos diez bytes (o ninguno si el texto es más corto).
pub open spec fn corte(s: Seq<char>) -> int {
    if largo_utf8(s) <= max_retencion() {
        0
    } else {
        corte_hasta(s, 0, largo_utf8(s) - max_retencion())
    }
}

pub proof fn lema_corte_hasta(s: Seq<char>, k: int, tope: int)
    requires
        0 <= k <= s.len(),
        largo_utf8(s.take(k)) <= tope,
    ensures
        k <= corte_hasta(s, k, tope) <= s.len(),
        largo_utf8(s.take(corte_hasta(s, k, tope))) <= tope,
    decreases s.len() - k,
{
    if k < s.len() && largo_utf8(s.take(k + 1)) <= tope {
        lema_corte_hasta(s, k + 1, tope);
    }
}

/// Caracteres que se guardan dentro de un bloque: el largo del marcador
/// de cierre menos uno.
pub open spec fn max_cola_cierre() -> nat {
    11
}

/// Desde dónde se guarda la cola dentro de un bloque.
pub open spec fn inicio_cola(s: Seq<char>) -> int {
    if s.len() <= max_cola_cierre() {
        0
    } else {
        s.len() - max_cola_cierre()
    }
}

/// Lo que se guarda dentro de un bloque sin cierre: los últimos once
/// caracteres, que podrían ser el comienzo de `</tool_call>`.
pub open spec fn cola_cierre(s: Seq<char>) -> Seq<char> {
    s.skip(inicio_cola(s))
}

/// Un paso del filtro sobre lo retenido más el fragmento nuevo:
/// (lo que se emite, lo que queda retenido, si se sigue dentro de un bloque).
pub open spec fn recorrer(s: Seq<char>, en_bloque: bool) -> (Seq<char>, Seq<char>, bool)
    decreases s.len(),
{
    if en_bloque {
        let k = primera(s, cierre());
        if k < 0 {
            (Seq::empty(), cola_cierre(s), true)
        } else {
            proof {
                lema_primera(s, cierre());
            }
            recorrer(s.subrange(k + cierre().len(), s.len() as int), false)
        }
    } else {
        let i = primera(s, apertura());
        if i < 0 {
            let c = corte(s);
            (s.take(c), s.skip(c), false)
        } else {
            proof {
                lema_primera(s, apertura());
            }
            let r = recorrer(s.subrange(i + apertura().len(), s.len() as int), true);
            (s.take(i) + r.0, r.1, r.2)
        }
    }
}

/// Lo que queda al cerrar el stream.
pub open spec fn al_finalizar(retenido: Seq<char>, en_bloque: bool) -> Seq<char> {
    if en_bloque {
        Seq::empty()
    } else {
        retenido
    }
}

/// El texto sin sus bloques `<tool_call>…</tool_call>`; un bloque que
/// nunca se cierra se lleva el resto del texto.
pub open spec fn filtrado(s: Seq<char>, en_bloque: bool) -> Seq<char>
    decreases s.len(),
{
    if en_bloque {
        let k = primera(s, cierre());
        if k < 0 {
            Seq::empty()
        } else {
            proof {
                lema_primera(s, cierre());
            }
            filtrado(s.subrange(k + cierre().len(), s.len() as int), false)
        }
    } else {
        let i = primera(s, apertura());
        if i < 0 {
            s
        } else {
            proof {
                lema_primera(s, apertura());
            }
            s.take(i) + filtrado(s.subrange(i + apertura().len(), s.len() as int), true)
        }
    }
}

pub proof fn lema_largo_concat(a: Seq<char>, b: Seq<char>)
    ensures
        largo_utf8(a + b) == largo_utf8(a) + largo_utf8(b),
    decreases b.len(),
{
    if b.len() > 0 {
        lema_largo_concat(a, b.drop_last());
        assert((a + b).drop_last() =~= a + b.drop_last());
    } else {
        assert(a + b =~= a);
    }
}

pub proof fn lema_largo_al_menos(x: Seq<char>)
    ensures
        largo_utf8(x) >= x.len(),
    decreases x.len(),
{
    if x.len() > 0 {
        lema_largo_al_menos(x.drop_last());
    }
}

/// Un texto de caracteres de un byte mide en bytes lo que tiene de largo.
pub proof fn lema_largo_ascii(x: Seq<char>)
    requires
        forall|k: int| 0 <= k < x.len() ==> bytes_utf8(#[trigger] x[k]) == 1,
    ensures
        largo_utf8(x) == x.len(),
    decreases x.len(),
{
    if x.len() > 0 {
        let y = x.drop_last();
        assert forall|k: int| 0 <= k < y.len() implies bytes_utf8(#[trigger] y[k]) == 1 by {
            assert(y[k] == x[k]);
        }
        lema_largo_ascii(y);
    }
}

/// Lo que aparece dentro de `s` aparece igual en `s + t`.
pub proof fn lema_coincide_prefijo(s: Seq<char>, t: Seq<char>, pat: Seq<char>, j: int)
    requires
        0 <= j,
        j + pat.len() <= s.len(),
    ensures
        coincide_en(s + t, pat, j) == coincide_en(s, pat, j),
{
    assert((s + t).subrange(j, j + pat.len()) =~= s.subrange(j, j + pat.len()));
}

/// La primera aparición dentro de `s` sigue siendo la primera en `s + t`.
pub proof fn lema_primera_prefijo(s: Seq<char>, t: Seq<char>, pat: Seq<char>, i: int)
    requires
        0 <= i,
        primera_desde(s, pat, i) >= 0,
    ensures
        primera_desde(s + t, pat, i) == primera_desde(s, pat, i),
    decreases s.len() + 1 - i,
{
    lema_primera_desde(s, pat, i);
    lema_coincide_prefijo(s, t, pat, i);
    if !coincide_en(s, pat, i) {
        lema_primera_prefijo(s, t, pat, i + 1);
    }
}

/// Buscar en `p + w` a partir del final de `p` es buscar en `w`.
pub proof fn lema_primera_desplazada(p: Seq<char>, w: Seq<char>, pat: Seq<char>, j: int)
    requires
        0 <= j,
    ensures
        primera_desde(p + w, pat, p.len() + j) == (if primera_desde(w, pat, j) < 0 {
            -1
        } else {
            primera_desde(w, pat, j) + p.len()
        }),
    decreases w.len() + 1 - j,
{
    if j + pat.len() <= w.len() {
        assert((p + w).subrange(p.len() + j, p.len() + j + pat.len()) =~= w.subrange(j, j + pat.len()));
        if !coincide_en(w, pat, j) {
            lema_primera_desplazada(p, w, pat, j + 1);
            assert(p.len() + j + 1 == p.len() + (j + 1));
        }
    }
}

/// Saltar posiciones donde no hay aparición no cambia la búsqueda.
pub proof fn lema_saltar(u: Seq<char>, pat: Seq<char>, i: int, m: int)
    requires
        0 <= i <= m,
        forall|j: int| i <= j < m ==> !coincide_en(u, pat, j),
    ensures
        primera_desde(u, pat, i) == primera_desde(u, pat, m),
    decreases m - i,
{
    if i < m {
        if i + pat.len() <= u.len() {
            lema_saltar(u, pat, i + 1, m);
        } else {
            assert(primera_desde(u, pat, m) == -1);
        }
    }
}

pub proof fn lema_apertura_un_byte()
    ensures
        forall|k: int| 0 <= k < apertura().len() ==> bytes_utf8(#[trigger] apertura()[k]) == 1,
{
    assert forall|k: int| 0 <= k < apertura().len() implies bytes_utf8(#[trigger] apertura()[k]) == 1 by {
        let c = apertura()[k];
        assert(c == '<' || c == 't' || c == 'o' || c == 'l' || c == '_' || c == 'c' || c == 'a' || c == '>');
    }
}

/// Sin apertura en `s`, ninguna apertura de `s + t` empieza antes del
/// corte: la cola retenida alcanza para reconocer un marcador partido.
pub proof fn lema_nada_antes_del_corte(s: Seq<char>, t: Seq<char>, j: int)
    requires
        primera(s, apertura()) < 0,
        0 <= j < corte(s),
    ensures
        !coincide_en(s + t, apertura(), j),
{
    lema_primera(s, apertura());
    let c = corte(s);
    let tope = largo_utf8(s) - max_retencion();
    assert(s.take(0) =~= Seq::<char>::empty());
    lema_corte_hasta(s, 0, tope);
    if coincide_en(s + t, apertura(), j) {
        if j + apertura().len() <= s.len() {
            lema_coincide_prefijo(s, t, apertura(), j);
        } else {
            let w0 = s.subrange(j, s.len() as int);
            assert forall|k: int| 0 <= k < w0.len() implies bytes_utf8(#[trigger] w0[k]) == 1 by {
                assert(w0[k] == (s + t).subrange(j, j + apertura().len())[k]);
                lema_apertura_un_byte();
            }
            lema_largo_ascii(w0);
            let mid = s.subrange(j, c);
            lema_largo_al_menos(mid);
            assert(s =~= s.take(j) + w0);
            lema_largo_concat(s.take(j), w0);
            assert(s.take(c) =~= s.take(j) + mid);
            lema_largo_concat(s.take(j), mid);
        }
    }
}

/// Si `pat` no aparece en `s`, tampoco aparece en ningún sufijo de `s`.
pub proof fn lema_sin_patron_sufijo(s: Seq<char>, pat: Seq<char>, off: int)
    requires
        primera(s, pat) < 0,
        0 <= off <= s.len(),
    ensures
        primera(s.skip(off), pat) < 0,
{
    lema_primera(s, pat);
    let u = s.skip(off);
    lema_primera(u, pat);
    let r = primera(u, pat);
    if r >= 0 {
        assert(u.subrange(r, r + pat.len()) =~= s.subrange(r + off, r + off + pat.len()));
        assert(coincide_en(s, pat, r + off));
    }
}

/// Dentro de un bloque sin cierre, guardar sólo la cola no cambia lo que
/// el resto del texto deja ver: un cierre que empiece antes de la cola
/// cabría entero en lo ya recibido.
pub proof fn lema_cola_cierre(s: Seq<char>, t: Seq<char>)
    requires
        primera(s, cierre()) < 0,
    ensures
        filtrado(s + t, true) == filtrado(cola_cierre(s) + t, true),
{
    let ci = cierre();
    let m = inicio_cola(s);
    lema_primera(s, ci);
    if m == 0 {
        assert(cola_cierre(s) =~= s);
    } else {
        let p = s.take(m);
        let w = cola_cierre(s) + t;
        assert(s + t =~= p + w);
        assert forall|j: int| 0 <= j < m implies !coincide_en(s + t, ci, j) by {
            lema_coincide_prefijo(s, t, ci, j);
        }
        lema_saltar(s + t, ci, 0, m);
        lema_primera_desplazada(p, w, ci, 0);
        let r = primera(w, ci);
        if r >= 0 {
            lema_primera(w, ci);
            assert((s + t).subrange(r + m + ci.len(), (s + t).len() as int) =~= w.subrange(
                r + ci.len(),
                w.len() as int,
            ));
        }
    }
}

/// Un paso no pierde ni inventa nada: lo emitido más el filtrado de lo
/// retenido con cualquier continuación es el filtrado de todo.
pub proof fn lema_paso(s: Seq<char>, en_bloque: bool, t: Seq<char>)
    ensures
        filtrado(s + t, en_bloque) == recorrer(s, en_bloque).0 + filtrado(
            recorrer(s, en_bloque).1 + t,
            recorrer(s, en_bloque).2,
        ),
    decreases s.len(),
{
    if en_bloque {
        let ci = cierre();
        let k = primera(s, ci);
        lema_primera(s, ci);
        if k < 0 {
            lema_cola_cierre(s, t);
            assert(recorrer(s, true) == (Seq::<char>::empty(), cola_cierre(s), true));
            assert(Seq::<char>::empty() + filtrado(cola_cierre(s) + t, true) =~= filtrado(cola_cierre(s) + t, true));
        } else {
            let y = s.subrange(k + ci.len(), s.len() as int);
            lema_primera_prefijo(s, t, ci, 0);
            assert((s + t).subrange(k + ci.len(), (s + t).len() as int) =~= y + t);
            lema_paso(y, false, t);
            assert(filtrado(s + t, true) == filtrado(y + t, false));
        }
    } else {
        let ap = apertura();
        let i = primera(s, ap);
        lema_primera(s, ap);
        if i < 0 {
            let c = corte(s);
            if largo_utf8(s) > max_retencion() {
                assert(s.take(0) =~= Seq::<char>::empty());
                lema_corte_hasta(s, 0, largo_utf8(s) - max_retencion());
            }
            let p = s.take(c);
            let w = s.skip(c) + t;
            assert(s + t =~= p + w);
            assert forall|j: int| 0 <= j < c implies !coincide_en(s + t, ap, j) by {
                lema_nada_antes_del_corte(s, t, j);
            }
            lema_saltar(s + t, ap, 0, c);
            lema_primera_desplazada(p, w, ap, 0);
            let r = primera(w, ap);
            if r >= 0 {
                lema_primera(w, ap);
                assert((s + t).take(r + c) =~= p + w.take(r));
                assert((s + t).subrange(r + c + ap.len(), (s + t).len() as int) =~= w.subrange(
                    r + ap.len(),
                    w.len() as int,
                ));
                assert(filtrado(w, false) == w.take(r) + filtrado(w.subrange(r + ap.len(), w.len() as int), true));
                assert(filtrado(s + t, false) == (s + t).take(r + c) + filtrado(
                    (s + t).subrange(r + c + ap.len(), (s + t).len() as int),
                    true,
                ));
                assert(filtrado(s + t, false) =~= p + filtrado(w, false));
            } else {
                assert(filtrado(s + t, false) == s + t);
            }
            assert(recorrer(s, false) == (p, s.skip(c), false));
        } else {
            let x = s.subrange(i + ap.len(), s.len() as int);
            lema_primera_prefijo(s, t, ap, 0);
            assert((s + t).take(i) =~= s.take(i));
            assert((s + t).subrange(i + ap.len(), (s + t).len() as int) =~= x + t);
            let rx = recorrer(x, true);
            assert(recorrer(s, false) == (s.take(i) + rx.0, rx.1, rx.2));
            lema_paso(x, true, t);
            assert(filtrado(s + t, false) == s.take(i) + filtrado(x + t, true));
            assert(s.take(i) + rx.0 + filtrado(rx.1 + t, rx.2) =~= s.take(i) + (rx.0 + filtrado(rx.1 + t, rx.2)));
        }
    }
}

/// Lo retenido no esconde nada: filtrarlo da lo mismo que soltarlo al
/// cerrar el stream.
pub open spec fn limpio(retenido: Seq<char>, en_bloque: bool) -> bool {
    filtrado(retenido, en_bloque) == al_finalizar(retenido, en_bloque)
}

/// Todo paso deja un estado limpio.
pub proof fn lema_limpio(s: Seq<char>, en_bloque: bool)
    ensures
        limpio(recorrer(s, en_bloque).1, recorrer(s, en_bloque).2),
    decreases s.len(),
{
    if en_bloque {
        let ci = cierre();
        let k = primera(s, ci);
        lema_primera(s, ci);
        if k < 0 {
            lema_sin_patron_sufijo(s, ci, inicio_cola(s));
        } else {
            lema_limpio(s.subrange(k + ci.len(), s.len() as int), false);
        }
    } else {
        let ap = apertura();
        let i = primera(s, ap);
        lema_primera(s, ap);
        if i < 0 {
            let c = corte(s);
            if largo_utf8(s) > max_retencion() {
                assert(s.take(0) =~= Seq::<char>::empty());
                lema_corte_hasta(s, 0, largo_utf8(s) - max_retencion());
            }
            lema_sin_patron_sufijo(s, ap, c);
        } else {
            lema_limpio(s.subrange(i + ap.len(), s.len() as int), true);
        }
    }
}

/// Procesar todo el texto de una vez y cerrar da exactamente el filtrado.
pub proof fn lema_paso_y_cierre(s: Seq<char>, en_bloque: bool)
    ensures
        recorrer(s, en_bloque).0 + al_finalizar(recorrer(s, en_bloque).1, recorrer(s, en_bloque).2)
            == filtrado(s, en_bloque),
    decreases s.len(),
{
    if en_bloque {
        let k = primera(s, cierre());
        lema_primera(s, cierre());
        if k >= 0 {
            lema_paso_y_cierre(s.subrange(k + cierre().len(), s.len() as int), false);
        }
    } else {
        let i = primera(s, apertura());
        lema_primera(s, apertura());
        if i < 0 {
            let c = corte(s);
            if largo_utf8(s) > max_retencion() {
                assert(s.take(0) =~= Seq::<char>::empty());
                lema_corte_hasta(s, 0, largo_utf8(s) - max_retencion());
            }
            assert(s.take(c) + s.skip(c) =~= s);
        } else {
            let x = s.subrange(i + apertura().len(), s.len() as int);
            lema_paso_y_cierre(x, true);
            let r = recorrer(x, true);
            assert(s.take(i) + r.0 + al_finalizar(r.1, r.2) =~= s.take(i) + (r.0 + al_finalizar(r.1, r.2)));
        }
    }
}

/// Los fragmentos de un stream, pegados.
pub open spec fn juntar(frags: Seq<Seq<char>>) -> Seq<char>
    decreases frags.len(),
{
    if frags.len() == 0 {
        Seq::empty()
    } else {
        frags[0] + juntar(frags.drop_first())
    }
}

/// Todo lo que emite el filtro al recibir `frags` desde un estado y
/// cerrar al final.
pub open spec fn correr(retenido: Seq<char>, en_bloque: bool, frags: Seq<Seq<char>>) -> Seq<char>
    decreases frags.len(),
{
    if frags.len() == 0 {
        al_finalizar(retenido, en_bloque)
    } else {
        let r = recorrer(retenido + frags[0], en_bloque);
        r.0 + correr(r.1, r.2, frags.drop_first())
    }
}

/// Lo que emite el filtro al recibir `frags` desde un estado, sin cerrar,
/// y el estado en que queda: (emitido, retenido, dentro de un bloque).
pub open spec fn emitir(retenido: Seq<char>, en_bloque: bool, frags: Seq<Seq<char>>) -> (Seq<char>, Seq<char>, bool)
    decreases frags.len(),
{
    if frags.len() == 0 {
        (Seq::empty(), retenido, en_bloque)
    } else {
        let r = recorrer(retenido + frags[0], en_bloque);
        let e = emitir(r.1, r.2, frags.drop_first());
        (r.0 + e.0, e.1, e.2)
    }
}

pub proof fn lema_emitir(retenido: Seq<char>, en_bloque: bool, frags: Seq<Seq<char>>, t: Seq<char>)
    ensures
        filtrado(retenido + juntar(frags) + t, en_bloque) == emitir(retenido, en_bloque, frags).0 + filtrado(
            emitir(retenido, en_bloque, frags).1 + t,
            emitir(retenido, en_bloque, frags).2,
        ),
    decreases frags.len(),
{
    if frags.len() == 0 {
        assert(retenido + juntar(frags) + t =~= retenido + t);
        assert(Seq::<char>::empty() + filtrado(retenido + t, en_bloque) =~= filtrado(retenido + t, en_bloque));
    } else {
        let s = retenido + frags[0];
        let resto = frags.drop_first();
        let r = recorrer(s, en_bloque);
        lema_paso(s, en_bloque, juntar(resto) + t);
        lema_emitir(r.1, r.2, resto, t);
        let e = emitir(r.1, r.2, resto);
        assert(retenido + juntar(frags) + t =~= s + (juntar(resto) + t));
        assert(r.1 + (juntar(resto) + t) =~= r.1 + juntar(resto) + t);
        assert(r.0 + (e.0 + filtrado(e.1 + t, e.2)) =~= r.0 + e.0 + filtrado(e.1 + t, e.2));
    }
}

pub proof fn lema_emitir_limpio(retenido: Seq<char>, en_bloque: bool, frags: Seq<Seq<char>>)
    requires
        limpio(retenido, en_bloque),
    ensures
        limpio(emitir(retenido, en_bloque, frags).1, emitir(retenido, en_bloque, frags).2),
    decreases frags.len(),
{
    if frags.len() > 0 {
        let r = recorrer(retenido + frags[0], en_bloque);
        lema_limpio(retenido + frags[0], en_bloque);
        lema_emitir_limpio(r.1, r.2, frags.drop_first());
    }
}

pub proof fn lema_correr_emitir(retenido: Seq<char>, en_bloque: bool, frags: Seq<Seq<char>>)
    ensures
        correr(retenido, en_bloque, frags) == emitir(retenido, en_bloque, frags).0 + al_finalizar(
            emitir(retenido, en_bloque, frags).1,
            emitir(retenido, en_bloque, frags).2,
        ),
    decreases frags.len(),
{
    if frags.len() == 0 {
        assert(Seq::<char>::empty() + al_finalizar(retenido, en_bloque) =~= al_finalizar(retenido, en_bloque));
    } else {
        let r = recorrer(retenido + frags[0], en_bloque);
        lema_correr_emitir(r.1, r.2, frags.drop_first());
        let e = emitir(r.1, r.2, frags.drop_first());
        assert(r.0 + (e.0 + al_finalizar(e.1, e.2)) =~= r.0 + e.0 + al_finalizar(e.1, e.2));
    }
}

/// Ley del filtro: parta como se parta el texto en fragmentos, lo que sale
/// del stream, pegado y cerrado, es el texto completo sin sus bloques
/// `<tool_call>…</tool_call>` (aunque un marcador de apertura o de cierre
/// llegue partido entre fragmentos).
pub proof fn ley_stream_sin_bloques(frags: Seq<Seq<char>>)
    ensures
        correr(Seq::empty(), false, frags) == filtrado(juntar(frags), false),
{
    let e = emitir(Seq::empty(), false, frags);
    lema_primera(Seq::<char>::empty(), apertura());
    assert(limpio(Seq::empty(), false));
    lema_emitir_limpio(Seq::empty(), false, frags);
    lema_correr_emitir(Seq::empty(), false, frags);
    lema_emitir(Seq::empty(), false, frags, Seq::empty());
    assert(Seq::<char>::empty() + juntar(frags) + Seq::<char>::empty() =~= juntar(frags));
    assert(e.1 + Seq::<char>::empty() =~= e.1);
}

/// Ley del filtro: lo emitido nunca se retracta ni deja ver nada de un
/// bloque. Tras cualquier secuencia de fragmentos, siga como siga el
/// texto, lo ya emitido es el comienzo del texto completo filtrado; el
/// resto del filtrado sale de lo retenido y de lo que falta.
pub proof fn ley_emitido_nunca_se_retracta(frags: Seq<Seq<char>>, resto: Seq<char>)
    ensures
        filtrado(juntar(frags) + resto, false) == emitir(Seq::empty(), false, frags).0 + filtrado(
            emitir(Seq::empty(), false, frags).1 + resto,
            emitir(Seq::empty(), false, frags).2,
        ),
        emitir(Seq::empty(), false, frags).0.len() <= filtrado(juntar(frags) + resto, false).len(),
        filtrado(juntar(frags) + resto, false).take(emitir(Seq::empty(), false, frags).0.len() as int)
            == emitir(Seq::empty(), false, frags).0,
{
    lema_emitir(Seq::empty(), false, frags, resto);
    assert(Seq::<char>::empty() + juntar(frags) + resto =~= juntar(frags) + resto);
    let e = emitir(Seq::empty(), false, frags);
    let f = filtrado(juntar(frags) + resto, false);
    assert(f.take(e.0.len() as int) =~= e.0);
}

/// Ley del filtro: un texto entregado de una sola vez sale exactamente
/// sin sus bloques (un bloque sin cerrar se lleva el resto).
pub proof fn ley_texto_completo(s: Seq<char>)
    ensures
        correr(Seq::empty(), false, seq![s]) == filtrado(s, false),
{
    lema_paso_y_cierre(s, false);
    let frags = seq![s];
    assert(frags[0] == s);
    assert(Seq::<char>::empty() + s =~= s);
    assert(frags.drop_first() =~= Seq::<Seq<char>>::empty());
    let r = recorrer(s, false);
    assert(correr(r.1, r.2, frags.drop_first()) == al_finalizar(r.1, r.2));
}

/// Primera aparición de `pat` en `v` (lo que hace `str::find`).
pub fn buscar_patron(v: &Vec<char>, pat: &Vec<char>) -> (r: Option<usize>)
    ensures
        match r {
            Some(i) => i == primera(v@, pat@),
            None => primera(v@, pat@) == -1,
        },
{
    if pat.len() > v.len() {
        return None;
    }
    if pat.len() == 0 {
        assert(v@.subrange(0, 0) =~= pat@);
        return Some(0);
    }
    let mut i: usize = 0;
    while i <= v.len() - pat.len()
        invariant
            0 < pat.len() <= v.len(),
            i <= v.len() - pat.len() + 1,
            primera_desde(v@, pat@, i as int) == primera(v@, pat@),
        decreases v.len() - pat.len() + 1 - i,
    {
        if coincide_en_exec(v, pat, i) {
            return Some(i);
        }
        i = i + 1;
    }
    None
}

fn bytes_de(c: char) -> (n: u128)
    ensures
        n == bytes_utf8(c),
{
    let u = c as u32;
    if u < 0x80 {
        1
    } else if u < 0x800 {
        2
    } else if u < 0x10000 {
        3
    } else {
        4
    }
}

/// Cuántos caracteres se sueltan (ver `corte`).
pub fn corte_exec(v: &Vec<char>) -> (c: usize)
    ensures
        c == corte(v@),
{
    let mut total: u128 = 0;
    let mut k: usize = 0;
    while k < v.len()
        invariant
            k <= v.len(),
            total == largo_utf8(v@.take(k as int)),
            total <= 4 * k,
        decreases v.len() - k,
    {
        assert(v@.take(k + 1).drop_last() =~= v@.take(k as int));
        total = total + bytes_de(v[k]);
        k = k + 1;
    }
    assert(v@.take(v.len() as int) =~= v@);
    if total <= 10 {
        return 0;
    }
    let tope = total - 10;
    let mut acc: u128 = 0;
    let mut c: usize = 0;
    assert(v@.take(0) =~= Seq::<char>::empty());
    while c < v.len() && acc + bytes_de(v[c as usize]) <= tope
        invariant
            c <= v.len(),
            acc == largo_utf8(v@.take(c as int)),
            acc <= 4 * c,
            tope == largo_utf8(v@) - max_retencion(),
            corte_hasta(v@, c as int, tope as int) == corte_hasta(v@, 0, tope as int),
        decreases v.len() - c,
    {
        assert(v@.take(c + 1).drop_last() =~= v@.take(c as int));
        acc = acc + bytes_de(v[c]);
        c = c + 1;
    }
    if c < v.len() {
        assert(v@.take(c + 1).drop_last() =~= v@.take(c as int));
    }
    c
}

/// Filtro de bloques `<tool_call>` sobre un stream que llega token a token.
pub struct SupresorToolCall {
    retenido: Vec<char>,
    en_bloque: bool,
}

impl View for SupresorToolCall {
    type V = (Seq<char>, bool);

    /// (lo retenido sin decidir, si se está dentro de un bloque)
    closed spec fn view(&self) -> (Seq<char>, bool) {
        (self.retenido@, self.en_bloque)
    }
}

impl SupresorToolCall {
    /// Filtro vacío, fuera de todo bloque.
    pub fn new() -> (r: Self)
        ensures
            r@ == (Seq::<char>::empty(), false),
    {
        SupresorToolCall { retenido: Vec::new(), en_bloque: false }
    }

    /// Recibe un fragmento y devuelve lo que ya puede mostrarse.
    pub fn procesar(&mut self, frag: &str) -> (out: String)
        ensures
            out@ == recorrer(old(self)@.0 + frag@, old(self)@.1).0,
            final(self)@.0 == recorrer(old(self)@.0 + frag@, old(self)@.1).1,
            final(self)@.1 == recorrer(old(self)@.0 + frag@, old(self)@.1).2,
    {
        let ap: Vec<char> = vec!['<', 't', 'o', 'o', 'l', '_', 'c', 'a', 'l', 'l', '>'];
        let ci: Vec<char> = vec!['<', '/', 't', 'o', 'o', 'l', '_', 'c', 'a', 'l', 'l', '>'];
        assert(ap@ =~= apertura());
        assert(ci@ =~= cierre());
        let mut s: Vec<char> = Vec::new();
        anexar(&mut s, &self.retenido);
        anexar_str(&mut s, frag);
        let ghost s0 = s@;
        let ghost b0 = self.en_bloque;
        assert(s0 =~= self.retenido@ + frag@);
        let mut b = self.en_bloque;
        let mut out: Vec<char> = Vec::new();
        let mut terminado = false;
        while !terminado
            invariant
                ap@ == apertura(),
                ci@ == cierre(),
                terminado ==> out@ == recorrer(s0, b0).0 && s@ == recorrer(s0, b0).1 && b == recorrer(s0, b0).2,
                !terminado ==> out@ + recorrer(s@, b).0 == recorrer(s0, b0).0
                    && recorrer(s@, b).1 == recorrer(s0, b0).1
                    && recorrer(s@, b).2 == recorrer(s0, b0).2,
            decreases s.len() + (if terminado { 0int } else { 1int }),
        {
            proof {
                lema_primera(s@, apertura());
                lema_primera(s@, cierre());
            }
            if b {
                match buscar_patron(&s, &ci) {
                    Some(k) => {
                        s = subrango(&s, k + 12, s.len());
                        b = false;
                    },
                    None => {
                        let desde = if s.len() <= 11 {
                            0
                        } else {
                            s.len() - 11
                        };
                        s = subrango(&s, desde, s.len());
                        assert(out@ + Seq::<char>::empty() =~= out@);
                        terminado = true;
                    },
                }
            } else {
                match buscar_patron(&s, &ap) {
                    Some(i) => {
                        let pre = subrango(&s, 0, i);
                        let ghost viejo = out@;
                        let ghost resto = recorrer(s@.subrange(i + 11, s@.len() as int), true);
                        anexar(&mut out, &pre);
                        assert(viejo + (s@.take(i as int) + resto.0) =~= out@ + resto.0);
                        s = subrango(&s, i + 11, s.len());
                        b = true;
                    },
                    None => {
                        let c = corte_exec(&s);
                        proof {
                            if largo_utf8(s@) > max_retencion() {
                                assert(s@.take(0) =~= Seq::<char>::empty());
                                lema_corte_hasta(s@, 0, largo_utf8(s@) - max_retencion());
                            }
                        }
                        let pre = subrango(&s, 0, c);
                        assert(pre@ =~= s@.take(c as int));
                        anexar(&mut out, &pre);
                        s = subrango(&s, c, s.len());
                        terminado = true;
                    },
                }
            }
        }
        self.retenido = s;
        self.en_bloque = b;
        string_de(&out)
    }

    /// Cierra el stream: suelta lo retenido, salvo que se esté dentro de un bloque.
    pub fn finalizar(&mut self) -> (out: String)
        ensures
            out@ == al_finalizar(old(self)@.0, old(self)@.1),
            final(self)@ == (Seq::<char>::empty(), old(self)@.1),
    {
        if self.en_bloque {
            self.retenido = Vec::new();
            String::new()
        } else {
            let out = string_de(&self.retenido);
            self.retenido = Vec::new();
            out
        }
    }
}

} // verus!
