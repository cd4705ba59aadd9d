//! Dígito verificador GTIN (EAN-8, UPC-A, EAN-13, GTIN-14) para el
//! semáforo verde. Los códigos alfanuméricos internos (Code128) no
//! traen checksum y se permiten tal cual.

use vstd::prelude::*;
use crate::texto::{chars_de, es_digito_ascii};

verus! {

pub open spec fn todo_digitos(s: Seq<char>) -> bool {
    forall|i: int| 0 <= i < s.len() ==> es_digito_ascii(#[trigger] s[i])
}

pub open spec fn valor_digito(c: char) -> int {
    (c as u32) - ('0' as u32)
}

/// Peso GTIN de la posición `i` (contada desde la izquierda) dentro de un
/// cuerpo de largo `n`: desde la derecha 3, 1, 3, 1, ...
pub open spec fn peso_gtin(n: int, i: int) -> int {
    if (n - 1 - i) % 2 == 0 {
        3
    } else {
        1
    }
}

/// Suma ponderada de los primeros `k` dígitos del cuerpo `c`.
pub open spec fn suma_gtin(c: Seq<char>, k: int) -> int
    decreases k,
{
    if k <= 0 {
        0
    } else {
        suma_gtin(c, k - 1) + peso_gtin(c.len() as int, k - 1) * valor_digito(c[k - 1])
    }
}

/// Dígito verificador esperado para un cuerpo.
pub open spec fn digito_esperado(cuerpo: Seq<char>) -> int {
    (10 - suma_gtin(cuerpo, cuerpo.len() as int) % 10) % 10
}

/// Regla mod 10 GTIN sobre una cadena de dígitos: el último dígito es el
/// verificador del resto.
pub open spec fn gtin_valido(d: Seq<char>) -> bool {
    d.len() >= 1 && digito_esperado(d.drop_last()) == valor_digito(d.last())
}

pub open spec fn spec_validar_ean(s: Seq<char>) -> bool {
    if s.len() == 0 {
        false
    } else if !todo_digitos(s) {
        true
    } else if s.len() == 8 || s.len() == 12 || s.len() == 13 || s.len() == 14 {
        gtin_valido(s)
    } else {
        false
    }
}

proof fn lema_suma_acotada(c: Seq<char>, k: int)
    requires
        0 <= k <= c.len(),
        todo_digitos(c),
    ensures
        0 <= suma_gtin(c, k) <= 27 * k,
    decreases k,
{
    if k > 0 {
        lema_suma_acotada(c, k - 1);
        assert(es_digito_ascii(c[k - 1]));
    }
}

/// Regla mod 10 sobre dígitos ya validados.
fn validar_gtin(digitos: &Vec<char>) -> (b: bool)
    requires
        1 <= digitos.len() <= 14,
        todo_digitos(digitos@),
    ensures
        b == gtin_valido(digitos@),
{
    let n = digitos.len() - 1;
    let ghost cuerpo = digitos@.drop_last();
    let mut suma: u32 = 0;
    let mut k: usize = 0;
    while k < n
        invariant
            n == digitos.len() - 1,
            digitos.len() <= 14,
            cuerpo == digitos@.drop_last(),
            todo_digitos(digitos@),
            k <= n,
            suma == suma_gtin(cuerpo, k as int),
            suma <= 27 * k,
        decreases n - k,
    {
        assert(es_digito_ascii(digitos@[k as int]));
        let d: u32 = digitos[k] as u32 - '0' as u32;
        if (n - 1 - k) % 2 == 0 {
            suma = suma + d * 3;
        } else {
            suma = suma + d;
        }
        k = k + 1;
    }
    assert(es_digito_ascii(digitos@[n as int]));
    let check: u32 = digitos[n] as u32 - '0' as u32;
    let esperado = (10 - suma % 10) % 10;
    esperado == check
}

/// ¿El código normalizado pasa el checksum? Vacío no pasa; alfanumérico
/// (sin checksum que validar) pasa; numérico solo con largo 8, 12, 13 o 14
/// y dígito verificador correcto.
pub fn validar_ean(codigo_norm: &str) -> (b: bool)
    ensures
        b == spec_validar_ean(codigo_norm@),
{
    let v = chars_de(codigo_norm);
    if v.len() == 0 {
        return false;
    }
    let mut i: usize = 0;
    while i < v.len()
        invariant
            v@ == codigo_norm@,
            i <= v.len(),
            forall|j: int| 0 <= j < i ==> es_digito_ascii(#[trigger] v@[j]),
        decreases v.len() - i,
    {
        if !('0' <= v[i] && v[i] <= '9') {
            assert(!es_digito_ascii(v@[i as int]));
            return true;
        }
        i = i + 1;
    }
    let n = v.len();
    if n == 8 || n == 12 || n == 13 || n == 14 {
        validar_gtin(&v)
    } else {
        false
    }
}

proof fn lema_suma_cambia_uno(c1: Seq<char>, c2: Seq<char>, p: int, k: int)
    requires
        c1.len() == c2.len(),
        0 <= p < c1.len(),
        0 <= k <= c1.len(),
        forall|i: int| 0 <= i < c1.len() && i != p ==> c1[i] == c2[i],
    ensures
        suma_gtin(c2, k) - suma_gtin(c1, k) == if p < k {
            peso_gtin(c1.len() as int, p) * (valor_digito(c2[p]) - valor_digito(c1[p]))
        } else {
            0
        },
    decreases k,
{
    if k > 0 {
        lema_suma_cambia_uno(c1, c2, p, k - 1);
        let w = peso_gtin(c1.len() as int, k - 1);
        let a = valor_digito(c2[k - 1]);
        let b = valor_digito(c1[k - 1]);
        assert(w * a - w * b == w * (a - b)) by (nonlinear_arith);
        if k - 1 != p {
            assert(a == b);
        }
    }
}

/// Detección de error en un dígito: si un código numérico pasa el
/// checksum, cambiar UN solo dígito (cualquiera, por otro dígito) hace que
/// deje de pasar.
pub proof fn ley_un_digito_mal_falla(d1: Seq<char>, d2: Seq<char>, p: int)
    requires
        todo_digitos(d1),
        todo_digitos(d2),
        d1.len() == d2.len(),
        gtin_valido(d1),
        0 <= p < d1.len(),
        d1[p] != d2[p],
        forall|i: int| 0 <= i < d1.len() && i != p ==> d1[i] == d2[i],
    ensures
        !gtin_valido(d2),
{
    let n = d1.len() as int;
    let c1 = d1.drop_last();
    let c2 = d2.drop_last();
    assert(es_digito_ascii(d1[p]) && es_digito_ascii(d2[p]));
    if p == n - 1 {
        assert(c1 =~= c2);
        assert(valor_digito(d1.last()) != valor_digito(d2.last()));
    } else {
        assert(c1[p] == d1[p] && c2[p] == d2[p]);
        assert forall|i: int| 0 <= i < c1.len() && i != p implies c1[i] == c2[i] by {
            assert(c1[i] == d1[i] && c2[i] == d2[i]);
        }
        lema_suma_cambia_uno(c1, c2, p, c1.len() as int);
        assert(d1.last() == d2.last());
        let s1 = suma_gtin(c1, c1.len() as int);
        let s2 = suma_gtin(c2, c2.len() as int);
        let w = peso_gtin(c1.len() as int, p);
        let delta = valor_digito(d2[p]) - valor_digito(d1[p]);
        assert(s2 == s1 + w * delta);
        assert(-9 <= delta <= 9 && delta != 0);
        assert(w == 1 || w == 3);
        assert((s1 + w * delta) % 10 != s1 % 10) by (nonlinear_arith)
            requires
                w == 1 || w == 3,
                -9 <= delta <= 9,
                delta != 0,
        ;
        assert((10 - s1 % 10) % 10 != (10 - s2 % 10) % 10);
    }
}


/// Qué códigos acepta el semáforo verde: uno numérico de 8 (EAN-8), 12
/// (UPC-A), 13 (EAN-13) o 14 (GTIN-14) dígitos pasa exactamente cuando
/// su último dígito es el verificador mod 10 del resto; uno numérico de
/// otro largo nunca pasa; uno con algún carácter que no es dígito
/// (código interno sin checksum) siempre pasa; el vacío nunca.
pub proof fn ley_validar_ean_por_largo(s: Seq<char>)
    ensures
        todo_digitos(s) && (s.len() == 8 || s.len() == 12 || s.len() == 13 || s.len() == 14) ==> (
        spec_validar_ean(s) <==> digito_esperado(s.drop_last()) == valor_digito(s.last())),
        todo_digitos(s) && !(s.len() == 8 || s.len() == 12 || s.len() == 13 || s.len() == 14)
            ==> !spec_validar_ean(s),
        s.len() > 0 && !todo_digitos(s) ==> spec_validar_ean(s),
        s.len() == 0 ==> !spec_validar_ean(s),
{
}

} // verus!
