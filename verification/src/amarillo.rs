//! Semáforo amarillo: qué candidatos se sugieren y por qué camino se
//! deriva una sugerencia. Puntajes en diezmilésimas (el puntaje
//! combinado se redondea a cuatro decimales). Nunca se auto-asigna: el
//! humano confirma.

use vstd::prelude::*;
use crate::marcas::UMBRAL_AMARILLO;

verus! {

/// Un candidato sugerido.
pub struct Candidato {
    pub producto_id: i64,
    pub nombre: String,
    /// Diezmilésimas.
    pub score: u32,
    /// "aprendizaje" o "scoring".
    pub origen: String,
}

/// Respuesta de una sugerencia: el pendiente, su estado y los candidatos.
pub struct SugerenciaTop {
    pub pendiente_id: i64,
    pub estado: String,
    pub candidatos: Vec<Candidato>,
}

/// Estadística de rechazos para recalibrar el umbral (diezmilésimas).
pub struct StatsRechazos {
    pub total: i64,
    pub score_promedio: u32,
    pub score_maximo: u32,
}

/// Candidatos que alcanzan el umbral, en su orden.
pub open spec fn sugeribles(cs: Seq<Candidato>) -> Seq<Candidato>
    decreases cs.len(),
{
    if cs.len() == 0 {
        Seq::empty()
    } else {
        sugeribles(cs.drop_last()) + if cs.last().score >= UMBRAL_AMARILLO {
            seq![cs.last()]
        } else {
            Seq::empty()
        }
    }
}

/// Posición del primer candidato con el puntaje más alto.
pub open spec fn indice_mejor(cs: Seq<Candidato>) -> int
    decreases cs.len(),
{
    if cs.len() <= 1 {
        0
    } else {
        let j = indice_mejor(cs.drop_last());
        if cs.last().score > cs[j].score {
            cs.len() - 1
        } else {
            j
        }
    }
}

pub proof fn lema_indice_mejor(cs: Seq<Candidato>)
    requires
        cs.len() > 0,
    ensures
        0 <= indice_mejor(cs) < cs.len(),
        forall|k: int| 0 <= k < cs.len() ==> (#[trigger] cs[k]).score <= cs[indice_mejor(cs)].score,
        forall|k: int| 0 <= k < indice_mejor(cs) ==> (#[trigger] cs[k]).score < cs[indice_mejor(cs)].score,
    decreases cs.len(),
{
    if cs.len() > 1 {
        let d = cs.drop_last();
        lema_indice_mejor(d);
        assert forall|k: int| 0 <= k < cs.len() - 1 implies cs[k] == d[k] by {}
    }
}

/// Los `k` mejores, del más alto al más bajo; a puntaje igual, en el
/// orden en que llegaron.
pub open spec fn mejores(cs: Seq<Candidato>, k: nat) -> Seq<Candidato>
    decreases k,
{
    if k == 0 || cs.len() == 0 {
        Seq::empty()
    } else {
        let i = indice_mejor(cs);
        seq![cs[i]] + mejores(cs.remove(i), (k - 1) as nat)
    }
}

/// Top-5 sugeridos: los que alcanzan el umbral, mejores primero.
pub open spec fn spec_top5(cs: Seq<Candidato>) -> Seq<Candidato> {
    mejores(sugeribles(cs), 5)
}

fn filtrar_sugeribles(cs: Vec<Candidato>) -> (r: Vec<Candidato>)
    ensures
        r@ == sugeribles(cs@),
{
    let mut resto = cs;
    let ghost original = resto@;
    let mut invertidos: Vec<Candidato> = Vec::new();
    while resto.len() > 0
        invariant
            resto@ == original.subrange(0, original.len() - invertidos@.len()),
            invertidos@.len() + resto@.len() == original.len(),
            invertidos@ == original.subrange(resto@.len() as int, original.len() as int).reverse(),
        decreases resto.len(),
    {
        let c = resto.pop().unwrap();
        proof {
            let k = resto@.len() as int;
            assert(original.subrange(k, original.len() as int).reverse() =~= original.subrange(
                k + 1,
                original.len() as int,
            ).reverse().push(c));
        }
        invertidos.push(c);
    }
    let ghost inv0 = invertidos@;
    assert(inv0 =~= original.reverse());
    let mut out: Vec<Candidato> = Vec::new();
    assert(original.take(0) =~= Seq::<Candidato>::empty());
    while invertidos.len() > 0
        invariant
            invertidos@ == inv0.subrange(0, invertidos@.len() as int),
            inv0 == original.reverse(),
            invertidos@.len() <= original.len(),
            out@ == sugeribles(original.take(original.len() - invertidos@.len())),
        decreases invertidos.len(),
    {
        let c = invertidos.pop().unwrap();
        let ghost k: int = original.len() - invertidos@.len() - 1;
        assert(c == original[k]);
        assert(original.take(k + 1).drop_last() =~= original.take(k));
        assert(original.take(k + 1).last() == c);
        if c.score >= UMBRAL_AMARILLO {
            out.push(c);
        }
    }
    assert(original.take(original.len() as int) =~= original);
    out
}

fn posicion_mejor(cs: &Vec<Candidato>) -> (r: usize)
    requires
        cs.len() > 0,
    ensures
        r == indice_mejor(cs@),
{
    let mut j: usize = 0;
    let mut i: usize = 1;
    assert(cs@.take(1).len() == 1);
    while i < cs.len()
        invariant
            1 <= i <= cs.len(),
            j < i,
            j == indice_mejor(cs@.take(i as int)),
        decreases cs.len() - i,
    {
        let ghost t = cs@.take(i + 1);
        assert(t.drop_last() =~= cs@.take(i as int));
        assert(t[j as int] == cs@[j as int]);
        assert(t.last() == cs@[i as int]);
        if cs[i].score > cs[j].score {
            j = i;
        }
        i = i + 1;
    }
    assert(cs@.take(cs.len() as int) =~= cs@);
    j
}

/// Top-5 por puntaje (mayor primero), sólo los que alcanzan el umbral;
/// vacío = el código cae a rojo.
pub fn top5(candidatos: Vec<Candidato>) -> (r: Vec<Candidato>)
    ensures
        r@ == spec_top5(candidatos@),
{
    let mut resto = filtrar_sugeribles(candidatos);
    let ghost base = resto@;
    let mut out: Vec<Candidato> = Vec::new();
    let mut k: usize = 0;
    while k < 5 && resto.len() > 0
        invariant
            k <= 5,
            out@ + mejores(resto@, (5 - k) as nat) == mejores(base, 5),
        decreases 5 - k,
    {
        let i = posicion_mejor(&resto);
        let ghost antes = resto@;
        proof {
            lema_indice_mejor(antes);
        }
        let c = resto.remove(i);
        let ghost o0 = out@;
        out.push(c);
        assert(mejores(antes, (5 - k) as nat) == seq![c] + mejores(resto@, (5 - k - 1) as nat));
        assert(o0.push(c) + mejores(resto@, (5 - k - 1) as nat) =~= o0 + (seq![c] + mejores(resto@, (5 - k - 1) as nat)));
        k = k + 1;
    }
    assert(mejores(resto@, (5 - k) as nat) =~= Seq::<Candidato>::empty());
    assert(out@ + Seq::<Candidato>::empty() =~= out@);
    out
}

/// Lo sugerido siempre alcanza el umbral, viene ordenado de mayor a menor
/// y nunca pasa de cinco.
pub proof fn ley_top5(cs: Seq<Candidato>)
    ensures
        spec_top5(cs).len() <= 5,
        forall|i: int| 0 <= i < spec_top5(cs).len() ==> #[trigger] spec_top5(cs)[i].score >= UMBRAL_AMARILLO,
        forall|i: int, j: int|
            0 <= i < j < spec_top5(cs).len() ==> #[trigger] spec_top5(cs)[i].score >= #[trigger] spec_top5(cs)[j].score,
{
    lema_sugeribles(cs);
    lema_mejores(sugeribles(cs), 5);
}

proof fn lema_sugeribles(cs: Seq<Candidato>)
    ensures
        forall|i: int| 0 <= i < sugeribles(cs).len() ==> #[trigger] sugeribles(cs)[i].score >= UMBRAL_AMARILLO,
    decreases cs.len(),
{
    if cs.len() > 0 {
        lema_sugeribles(cs.drop_last());
        let p = sugeribles(cs.drop_last());
        assert forall|i: int| 0 <= i < sugeribles(cs).len() implies #[trigger] sugeribles(cs)[i].score >= UMBRAL_AMARILLO by {
            if i < p.len() {
                assert(sugeribles(cs)[i] == p[i]);
            }
        }
    }
}

proof fn lema_mejores(cs: Seq<Candidato>, k: nat)
    requires
        forall|i: int| 0 <= i < cs.len() ==> #[trigger] cs[i].score >= UMBRAL_AMARILLO,
    ensures
        mejores(cs, k).len() <= k,
        mejores(cs, k).len() <= cs.len(),
        forall|i: int| 0 <= i < mejores(cs, k).len() ==> #[trigger] mejores(cs, k)[i].score >= UMBRAL_AMARILLO,
        forall|i: int| 0 <= i < mejores(cs, k).len() ==> exists|q: int| 0 <= q < cs.len() && cs[q] == #[trigger] mejores(cs, k)[i],
        forall|i: int, j: int|
            0 <= i < j < mejores(cs, k).len() ==> #[trigger] mejores(cs, k)[i].score >= #[trigger] mejores(cs, k)[j].score,
    decreases k,
{
    if k > 0 && cs.len() > 0 {
        let i0 = indice_mejor(cs);
        lema_indice_mejor(cs);
        let r = cs.remove(i0);
        assert forall|i: int| 0 <= i < r.len() implies #[trigger] r[i].score >= UMBRAL_AMARILLO by {
            if i < i0 {
                assert(r[i] == cs[i]);
            } else {
                assert(r[i] == cs[i + 1]);
            }
        }
        lema_mejores(r, (k - 1) as nat);
        let m = mejores(cs, k);
        let mr = mejores(r, (k - 1) as nat);
        assert(m == seq![cs[i0]] + mr);
        assert forall|i: int| 0 <= i < m.len() implies exists|q: int| 0 <= q < cs.len() && cs[q] == #[trigger] m[i] by {
            if i == 0 {
                assert(cs[i0] == m[0]);
            } else {
                assert(m[i] == mr[i - 1]);
                let q = choose|q: int| 0 <= q < r.len() && r[q] == #[trigger] mr[i - 1];
                if q < i0 {
                    assert(cs[q] == m[i]);
                } else {
                    assert(cs[q + 1] == m[i]);
                }
            }
        }
        assert forall|i: int, j: int| 0 <= i < j < m.len() implies #[trigger] m[i].score >= #[trigger] m[j].score by {
            if i == 0 {
                assert(m[j] == mr[j - 1]);
                let q = choose|q: int| 0 <= q < r.len() && r[q] == #[trigger] mr[j - 1];
                if q < i0 {
                    assert(r[q] == cs[q]);
                } else {
                    assert(r[q] == cs[q + 1]);
                }
            } else {
                assert(m[i] == mr[i - 1]);
                assert(m[j] == mr[j - 1]);
            }
        }
    }
}

/// Camino de una sugerencia.
#[derive(PartialEq, Eq, Structural)]
pub enum Camino {
    /// Dos productos reclaman el código: a revisión.
    Conflicto,
    /// El nombre ya se confirmó antes: primer candidato con puntaje 1.
    Aprendizaje,
    /// Hay candidatos sobre el umbral.
    Amarillo,
    /// Nada que sugerir: captura manual.
    Rojo,
}

/// Orden de derivación: conflicto de código, aprendizaje previo, y al
/// final el puntaje (sin candidatos, rojo).
pub fn camino_sugerencia(hay_conflicto: bool, hay_aprendizaje: bool, candidatos_top: usize) -> (r: Camino)
    ensures
        r == (if hay_conflicto {
            Camino::Conflicto
        } else if hay_aprendizaje {
            Camino::Aprendizaje
        } else if candidatos_top == 0 {
            Camino::Rojo
        } else {
            Camino::Amarillo
        }),
{
    if hay_conflicto {
        Camino::Conflicto
    } else if hay_aprendizaje {
        Camino::Aprendizaje
    } else if candidatos_top == 0 {
        Camino::Rojo
    } else {
        Camino::Amarillo
    }
}

/// Estado que se guarda para cada camino.
pub fn estado_de_camino(c: Camino) -> (r: &'static str)
    ensures
        r@ == (match c {
            Camino::Conflicto => "conflicto"@,
            Camino::Aprendizaje => "aprendizaje"@,
            Camino::Amarillo => "amarillo"@,
            Camino::Rojo => "rojo"@,
        }),
{
    match c {
        Camino::Conflicto => "conflicto",
        Camino::Aprendizaje => "aprendizaje",
        Camino::Amarillo => "amarillo",
        Camino::Rojo => "rojo",
    }
}

/// ¿Dos productos distintos reclaman el mismo código?
pub fn hay_conflicto(productos_distintos: i64) -> (r: bool)
    ensures
        r == (productos_distintos >= 2),
{
    productos_distintos >= 2
}

} // verus!
