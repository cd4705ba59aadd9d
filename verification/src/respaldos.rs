//! Rotación de respaldos de la base: se conservan los últimos
//! `MAX_BACKUPS` archivos `yarvis-AAAAMMDD-HHMMSS.db` (el orden
//! alfabético de esos nombres es el cronológico) y nunca se toca un
//! archivo ajeno.

use vstd::prelude::*;
use crate::texto::chars_de;

verus! {

/// Respaldos que se conservan.
pub const MAX_BACKUPS: usize = 5;

/// ¿Es un respaldo de la base? (`yarvis-…` con extensión `db`)
pub open spec fn es_respaldo(n: Seq<char>) -> bool {
    n.len() >= 10 && n.take(7) == "yarvis-"@ && n.skip(n.len() - 3) == ".db"@
}

/// Orden alfabético (por carácter) estricto.
pub open spec fn antes(a: Seq<char>, b: Seq<char>) -> bool
    decreases a.len(),
{
    if a.len() == 0 {
        b.len() > 0
    } else if b.len() == 0 {
        false
    } else if a[0] != b[0] {
        (a[0] as u32) < (b[0] as u32)
    } else {
        antes(a.drop_first(), b.drop_first())
    }
}

/// Cuántos respaldos de la lista son más nuevos que `n`.
pub open spec fn mas_nuevos(ns: Seq<Seq<char>>, n: Seq<char>) -> nat
    decreases ns.len(),
{
    if ns.len() == 0 {
        0
    } else {
        mas_nuevos(ns.drop_last(), n) + if es_respaldo(ns.last()) && antes(n, ns.last()) {
            1nat
        } else {
            0nat
        }
    }
}

/// Se borra un respaldo si hay al menos `MAX_BACKUPS` más nuevos.
pub open spec fn se_borra(ns: Seq<Seq<char>>, n: Seq<char>) -> bool {
    es_respaldo(n) && mas_nuevos(ns, n) >= MAX_BACKUPS
}

pub open spec fn vista_nombres(v: Seq<String>) -> Seq<Seq<char>> {
    v.map_values(|s: String| s@)
}

/// Los que se borran, en el orden de la lista.
pub open spec fn a_borrar(ns: Seq<Seq<char>>, k: nat) -> Seq<Seq<char>>
    decreases k,
{
    if k == 0 || k > ns.len() {
        Seq::empty()
    } else {
        a_borrar(ns, (k - 1) as nat) + if se_borra(ns, ns[k - 1]) {
            seq![ns[k - 1]]
        } else {
            Seq::empty()
        }
    }
}

fn empieza_y_termina(v: &Vec<char>) -> (r: bool)
    ensures
        r == es_respaldo(v@),
{
    if v.len() < 10 {
        return false;
    }
    let p = chars_de("yarvis-");
    let s = chars_de(".db");
    proof {
        reveal_strlit("yarvis-");
        reveal_strlit(".db");
    }
    let mut i: usize = 0;
    while i < 7
        invariant
            i <= 7,
            v.len() >= 10,
            p@ == "yarvis-"@,
            p@.len() == 7,
            forall|j: int| 0 <= j < i ==> v@[j] == p@[j],
        decreases 7 - i,
    {
        if v[i] != p[i] {
            assert(v@.take(7)[i as int] != "yarvis-"@[i as int]);
            return false;
        }
        i = i + 1;
    }
    assert(v@.take(7) =~= "yarvis-"@);
    let base = v.len() - 3;
    let mut k: usize = 0;
    while k < 3
        invariant
            k <= 3,
            base == v.len() - 3,
            v.len() >= 10,
            s@ == ".db"@,
            s@.len() == 3,
            forall|j: int| 0 <= j < k ==> v@[base + j] == s@[j],
        decreases 3 - k,
    {
        if v[base + k] != s[k] {
            assert(v@.skip(base as int)[k as int] != ".db"@[k as int]);
            return false;
        }
        k = k + 1;
    }
    assert(v@.skip(base as int) =~= ".db"@);
    true
}

fn antes_exec(a: &Vec<char>, b: &Vec<char>) -> (r: bool)
    ensures
        r == antes(a@, b@),
{
    let mut i: usize = 0;
    assert(a@.skip(0) =~= a@);
    assert(b@.skip(0) =~= b@);
    while i < a.len() && i < b.len() && a[i] == b[i]
        invariant
            i <= a.len(),
            i <= b.len(),
            antes(a@, b@) == antes(a@.skip(i as int), b@.skip(i as int)),
        decreases a.len() - i,
    {
        proof {
            let x = a@.skip(i as int);
            let y = b@.skip(i as int);
            assert(x.drop_first() =~= a@.skip(i + 1));
            assert(y.drop_first() =~= b@.skip(i + 1));
        }
        i = i + 1;
    }
    if i == a.len() {
        i < b.len()
    } else if i == b.len() {
        false
    } else {
        let x = a[i];
        let y = b[i];
        assert(a@.skip(i as int)[0] == x && b@.skip(i as int)[0] == y);
        (x as u32) < (y as u32)
    }
}

/// Nombres de archivo de respaldo que sobran, dejando los
/// `MAX_BACKUPS` más nuevos; los archivos ajenos nunca aparecen.
pub fn backups_a_borrar(nombres: &Vec<String>) -> (r: Vec<String>)
    ensures
        vista_nombres(r@) == a_borrar(vista_nombres(nombres@), nombres@.len() as nat),
{
    let ghost ns = vista_nombres(nombres@);
    let mut vs: Vec<Vec<char>> = Vec::new();
    let mut j: usize = 0;
    while j < nombres.len()
        invariant
            j <= nombres.len(),
            ns == vista_nombres(nombres@),
            vs@.len() == j,
            forall|q: int| 0 <= q < j ==> #[trigger] vs@[q]@ == ns[q],
        decreases nombres.len() - j,
    {
        vs.push(chars_de(nombres[j].as_str()));
        j = j + 1;
    }
    let mut r: Vec<String> = Vec::new();
    let mut k: usize = 0;
    assert(vista_nombres(r@) =~= Seq::<Seq<char>>::empty());
    while k < nombres.len()
        invariant
            k <= nombres.len(),
            ns == vista_nombres(nombres@),
            vs@.len() == nombres.len(),
            forall|q: int| 0 <= q < nombres.len() ==> #[trigger] vs@[q]@ == ns[q],
            vista_nombres(r@) == a_borrar(ns, k as nat),
        decreases nombres.len() - k,
    {
        let n = &vs[k];
        let mut borra = false;
        if empieza_y_termina(n) {
            let mut cuenta: usize = 0;
            let mut m: usize = 0;
            assert(ns.take(0) =~= Seq::<Seq<char>>::empty());
            while m < vs.len()
                invariant
                    m <= vs.len(),
                    vs@.len() == nombres.len(),
                    ns == vista_nombres(nombres@),
                    forall|q: int| 0 <= q < nombres.len() ==> #[trigger] vs@[q]@ == ns[q],
                    cuenta == mas_nuevos(ns.take(m as int), n@),
                    cuenta <= m,
                decreases vs.len() - m,
            {
                assert(ns.take(m + 1).drop_last() =~= ns.take(m as int));
                assert(ns.take(m + 1).last() == vs@[m as int]@);
                if empieza_y_termina(&vs[m]) && antes_exec(n, &vs[m]) {
                    cuenta = cuenta + 1;
                }
                m = m + 1;
            }
            assert(ns.take(vs.len() as int) =~= ns);
            borra = cuenta >= MAX_BACKUPS;
        }
        let ghost antes_r = vista_nombres(r@);
        if borra {
            r.push(nombres[k].clone());
            assert(vista_nombres(r@) =~= antes_r.push(ns[k as int]));
        }
        k = k + 1;
        assert(a_borrar(ns, k as nat) == a_borrar(ns, (k - 1) as nat) + if se_borra(ns, ns[k - 1]) {
            seq![ns[k - 1]]
        } else {
            Seq::<Seq<char>>::empty()
        });
        assert(vista_nombres(r@) =~= a_borrar(ns, k as nat));
    }
    r
}

proof fn lema_a_borrar(ns: Seq<Seq<char>>, k: nat)
    requires
        k <= ns.len(),
    ensures
        forall|i: int| 0 <= i < a_borrar(ns, k).len() ==> se_borra(ns, #[trigger] a_borrar(ns, k)[i]),
    decreases k,
{
    if k > 0 {
        lema_a_borrar(ns, (k - 1) as nat);
        let prev = a_borrar(ns, (k - 1) as nat);
        assert forall|i: int| 0 <= i < a_borrar(ns, k).len() implies se_borra(ns, #[trigger] a_borrar(ns, k)[i]) by {
            if i < prev.len() {
                assert(a_borrar(ns, k)[i] == prev[i]);
            }
        }
    }
}

/// Nunca se borra un archivo ajeno: todo lo que sale es un respaldo con
/// al menos `MAX_BACKUPS` respaldos más nuevos.
pub proof fn ley_solo_respaldos_viejos(ns: Seq<Seq<char>>)
    ensures
        forall|i: int|
            0 <= i < a_borrar(ns, ns.len()).len() ==> es_respaldo(#[trigger] a_borrar(ns, ns.len())[i])
                && mas_nuevos(ns, a_borrar(ns, ns.len())[i]) >= MAX_BACKUPS,
{
    lema_a_borrar(ns, ns.len());
}

/// Cuántos respaldos hay en la lista.
pub open spec fn respaldos(ns: Seq<Seq<char>>) -> nat
    decreases ns.len(),
{
    if ns.len() == 0 {
        0
    } else {
        respaldos(ns.drop_last()) + if es_respaldo(ns.last()) {
            1nat
        } else {
            0nat
        }
    }
}

proof fn lema_antes_irreflexivo(a: Seq<char>)
    ensures
        !antes(a, a),
    decreases a.len(),
{
    if a.len() > 0 {
        lema_antes_irreflexivo(a.drop_first());
    }
}

proof fn lema_cota_mas_nuevos(ns: Seq<Seq<char>>, i: int)
    requires
        0 <= i < ns.len(),
        es_respaldo(ns[i]),
    ensures
        mas_nuevos(ns, ns[i]) + 1 <= respaldos(ns),
    decreases ns.len(),
{
    let n = ns[i];
    if i == ns.len() - 1 {
        lema_antes_irreflexivo(n);
        lema_mas_nuevos_cota_simple(ns.drop_last(), n);
    } else {
        assert(ns.drop_last()[i] == n);
        lema_cota_mas_nuevos(ns.drop_last(), i);
    }
}

proof fn lema_mas_nuevos_cota_simple(ns: Seq<Seq<char>>, n: Seq<char>)
    ensures
        mas_nuevos(ns, n) <= respaldos(ns),
    decreases ns.len(),
{
    if ns.len() > 0 {
        lema_mas_nuevos_cota_simple(ns.drop_last(), n);
    }
}

/// Con `MAX_BACKUPS` respaldos o menos no se borra nada.
pub proof fn ley_pocos_respaldos_no_se_borran(ns: Seq<Seq<char>>)
    requires
        respaldos(ns) <= MAX_BACKUPS,
    ensures
        a_borrar(ns, ns.len()) == Seq::<Seq<char>>::empty(),
{
    lema_nada_que_borrar(ns, ns.len());
}

proof fn lema_nada_que_borrar(ns: Seq<Seq<char>>, k: nat)
    requires
        respaldos(ns) <= MAX_BACKUPS,
        k <= ns.len(),
    ensures
        a_borrar(ns, k) == Seq::<Seq<char>>::empty(),
    decreases k,
{
    if k > 0 {
        lema_nada_que_borrar(ns, (k - 1) as nat);
        if es_respaldo(ns[k - 1]) {
            lema_cota_mas_nuevos(ns, k - 1);
        }
        assert(a_borrar(ns, k) =~= Seq::<Seq<char>>::empty());
    }
}

} // verus!
