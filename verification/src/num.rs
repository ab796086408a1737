//! Fixed-point numeric fields of the text format.
//!
//! Every scalar read from a `.res` file is a decimal literal; it is stored
//! exactly as an `i64` count of millionths of its unit. The parsers below
//! state precisely which byte strings are accepted and which value they
//! denote.
//!
//! The accepted grammar is deliberately narrower than a float parse: an
//! optional sign, digits with at most one point and at most six fraction
//! digits, and nothing else. Exponent forms such as `1e3`, infinities and
//! NaN are rejected, and so is any magnitude beyond the stated caps; a
//! file carrying them fails the load instead of loading a rounded value.

use vstd::prelude::*;

use crate::bytes::{es_digito, lema_primera, lema_primera_ausente, lema_primera_exacta, primera};

verus! {

/// Scale of the fixed-point values: one unit is this many stored steps.
pub const ESCALA: i64 = 1_000_000;

/// Largest magnitude (in millionths) accepted for a demand value.
pub const TOPE_VALOR: i64 = 10_000_000_000_000;

/// Largest magnitude (in millionths) accepted for a zone surface.
pub const TOPE_AREA: i64 = 1_000_000_000_000;

/// Largest magnitude (in millionths) accepted for the building surface.
pub const TOPE_AREA_TOTAL: i64 = 1_000_000_000_000_000_000;

/// Largest zone multiplier accepted.
pub const TOPE_MULT: i32 = 1000;

/// Largest number of floors, or of zones of one floor, accepted.
pub const TOPE_LISTA: i32 = 1000;

/// Largest number of construction elements of one zone accepted.
pub const TOPE_ELEMENTOS: i32 = 10000;

/// All bytes of `s` are decimal digits.
pub open spec fn todos_digitos(s: Seq<u8>) -> bool {
    forall|i: int| 0 <= i < s.len() ==> es_digito(#[trigger] s[i])
}

/// Value of a digit string, most significant first.
pub open spec fn valor_digitos(s: Seq<u8>) -> int
    decreases s.len(),
{
    if s.len() == 0 {
        0
    } else {
        valor_digitos(s.drop_last()) * 10 + (s.last() - 48)
    }
}

/// A digit string never denotes a negative value.
pub proof fn lema_valor_digitos_no_negativo(s: Seq<u8>)
    requires
        todos_digitos(s),
    ensures
        valor_digitos(s) >= 0,
    decreases s.len(),
{
    if s.len() > 0 {
        assert(todos_digitos(s.drop_last())) by {
            assert(forall|i: int| 0 <= i < s.len() - 1 ==> s.drop_last()[i] == s[i]);
        }
        lema_valor_digitos_no_negativo(s.drop_last());
    }
}

/// A string of n digits denotes less than the n-th power of ten.
pub proof fn lema_valor_digitos_tope(s: Seq<u8>)
    requires
        todos_digitos(s),
    ensures
        valor_digitos(s) < pot10(s.len() as nat),
    decreases s.len(),
{
    if s.len() > 0 {
        assert(todos_digitos(s.drop_last())) by {
            assert(forall|i: int| 0 <= i < s.len() - 1 ==> s.drop_last()[i] == s[i]);
        }
        lema_valor_digitos_tope(s.drop_last());
        assert(valor_digitos(s.drop_last()) * 10 <= (pot10((s.len() - 1) as nat) - 1) * 10);
    }
}

/// `s` without one leading sign byte.
pub open spec fn sin_signo(s: Seq<u8>) -> Seq<u8> {
    if s.len() > 0 && (s[0] == 43 || s[0] == 45) {
        s.subrange(1, s.len() as int)
    } else {
        s
    }
}

/// -1 for a leading minus sign, 1 otherwise.
pub open spec fn signo(s: Seq<u8>) -> int {
    if s.len() > 0 && s[0] == 45 {
        -1
    } else {
        1
    }
}

/// An optionally signed digit string.
pub open spec fn es_entero(s: Seq<u8>) -> bool {
    sin_signo(s).len() > 0 && todos_digitos(sin_signo(s))
}

/// The integer denoted by `s`.
pub open spec fn valor_entero(s: Seq<u8>) -> int {
    signo(s) * valor_digitos(sin_signo(s))
}

/// Powers of ten.
pub open spec fn pot10(n: nat) -> int
    decreases n,
{
    if n == 0 {
        1
    } else {
        10 * pot10((n - 1) as nat)
    }
}

/// An unsigned decimal magnitude: digits with at most one point and at
/// most six fraction digits, with at least one digit overall. This is
/// the whole accepted number grammar (after an optional sign): exponent
/// notation is not part of it.
pub open spec fn es_magnitud(m: Seq<u8>) -> bool {
    let p = primera(m, 46);
    if p == -1 {
        m.len() > 0 && todos_digitos(m)
    } else {
        let ent = m.subrange(0, p);
        let fra = m.subrange(p + 1, m.len() as int);
        ent.len() + fra.len() > 0 && todos_digitos(ent) && todos_digitos(fra) && fra.len() <= 6
    }
}

/// The magnitude of `m` in millionths.
pub open spec fn magnitud_micro(m: Seq<u8>) -> int {
    let p = primera(m, 46);
    if p == -1 {
        valor_digitos(m) * 1000000
    } else {
        let ent = m.subrange(0, p);
        let fra = m.subrange(p + 1, m.len() as int);
        valor_digitos(ent) * 1000000 + valor_digitos(fra) * pot10((6 - fra.len()) as nat)
    }
}

/// An optionally signed decimal literal.
pub open spec fn es_decimal(s: Seq<u8>) -> bool {
    es_magnitud(sin_signo(s))
}

/// The value of `s` in millionths.
pub open spec fn valor_micro(s: Seq<u8>) -> int {
    signo(s) * magnitud_micro(sin_signo(s))
}

/// Whether a byte is a digit, executable form.
pub fn es_digito_e(b: u8) -> (r: bool)
    ensures
        r == es_digito(b),
{
    48 <= b && b <= 57
}

/// Power of ten for at most six fraction digits.
fn pot10_e(k: usize) -> (r: u64)
    requires
        k <= 6,
    ensures
        r as int == pot10(k as nat),
{
    proof {
        lema_pot10_chica();
    }
    if k == 0 {
        1
    } else if k == 1 {
        10
    } else if k == 2 {
        100
    } else if k == 3 {
        1000
    } else if k == 4 {
        10000
    } else if k == 5 {
        100000
    } else {
        1000000
    }
}

/// Powers of ten grow with the exponent.
proof fn lema_pot10_crece(a: nat, b: nat)
    requires
        a <= b,
    ensures
        pot10(a) <= pot10(b),
    decreases b,
{
    if a < b {
        lema_pot10_crece(a, (b - 1) as nat);
        lema_pot10_positiva((b - 1) as nat);
    }
}

/// Powers of ten are positive.
proof fn lema_pot10_positiva(a: nat)
    ensures
        pot10(a) >= 1,
    decreases a,
{
    if a > 0 {
        lema_pot10_positiva((a - 1) as nat);
    }
}

/// The concrete powers of ten up to the sixth.
proof fn lema_pot10_chica()
    ensures
        pot10(0) == 1,
        pot10(1) == 10,
        pot10(2) == 100,
        pot10(3) == 1000,
        pot10(4) == 10000,
        pot10(5) == 100000,
        pot10(6) == 1000000,
{
    assert(pot10(0) == 1);
    assert(pot10(1) == 10);
    assert(pot10(2) == 100);
    assert(pot10(3) == 1000);
    assert(pot10(4) == 10000);
    assert(pot10(5) == 100000);
    assert(pot10(6) == 1000000);
}

/// Parse an optionally signed digit string exactly as a 32-bit integer:
/// the result exists precisely for well-formed literals whose value fits.
pub fn entero_de(s: &[u8]) -> (r: Option<i32>)
    ensures
        match r {
            Some(v) => es_entero(s@) && v as int == valor_entero(s@),
            None => !es_entero(s@) || valor_entero(s@) < -2147483648 || valor_entero(s@)
                > 2147483647,
        },
{
    let n: usize = s.len();
    if n == 0 {
        return None;
    }
    let mut off: usize = 0;
    let mut neg: bool = false;
    if s[0] == 45 {
        neg = true;
        off = 1;
    } else if s[0] == 43 {
        off = 1;
    }
    let ghost m = sin_signo(s@);
    proof {
        assert(m =~= s@.subrange(off as int, n as int));
    }
    if off == n {
        return None;
    }
    let mut i: usize = off;
    let mut acc: u64 = 0;
    while i < n
        invariant
            off <= i <= n,
            n == s@.len(),
            m == sin_signo(s@),
            m == s@.subrange(off as int, n as int),
            todos_digitos(m.subrange(0, (i - off) as int)),
            acc <= 2147483649,
            ({
                let v = valor_digitos(m.subrange(0, (i - off) as int));
                (acc == v && v <= 2147483648) || (acc == 2147483649 && v >= 2147483649)
            }),
        decreases n - i,
    {
        let d: u8 = s[i];
        if !es_digito_e(d) {
            proof {
                assert(m[(i - off) as int] == s@[i as int]);
                assert(!todos_digitos(m));
            }
            return None;
        }
        let dv: u64 = (d - 48) as u64;
        let t: u64 = acc * 10 + dv;
        proof {
            let pre = m.subrange(0, (i - off) as int);
            let pre2 = m.subrange(0, (i + 1 - off) as int);
            assert(pre2.drop_last() =~= pre);
            assert(pre2.last() == m[(i - off) as int]);
            assert(m[(i - off) as int] == s@[i as int]);
            assert(valor_digitos(pre2) == valor_digitos(pre) * 10 + (d - 48));
            assert(forall|j: int| 0 <= j < pre2.len() ==> pre2[j] == m[j]);
        }
        if t > 2147483649 {
            acc = 2147483649;
        } else {
            acc = t;
        }
        i += 1;
    }
    proof {
        assert(m.subrange(0, (n - off) as int) =~= m);
        lema_valor_digitos_no_negativo(m);
    }
    if neg {
        if acc > 2147483648 {
            return None;
        }
        let v: i64 = -(acc as i64);
        return Some(v as i32);
    }
    if acc > 2147483647 {
        return None;
    }
    Some(acc as i32)
}

/// Parse the unsigned magnitude in `s` from position `desde` onward,
/// exactly: the result exists precisely for well-formed magnitudes with at
/// most six fraction digits that stay within `tope` millionths.
#[verifier::rlimit(100)]
fn magnitud_de(s: &[u8], desde: usize, tope: i64) -> (r: Option<i64>)
    requires
        desde <= s@.len(),
        1000000 <= tope <= 1000000000000000000,
    ensures
        ({
            let m = s@.subrange(desde as int, s@.len() as int);
            match r {
                Some(v) => es_magnitud(m) && v as int == magnitud_micro(m) && 0 <= v <= tope,
                None => !es_magnitud(m) || magnitud_micro(m) > tope,
            }
        }),
{
    let n: usize = s.len();
    let ghost m = s@.subrange(desde as int, n as int);
    let cl: u64 = (tope / 1000000) as u64 + 1;
    let mut i: usize = desde;
    let mut acc: u64 = 0;
    while i < n && es_digito_e(s[i])
        invariant
            desde <= i <= n,
            n == s@.len(),
            1000000 <= tope <= 1000000000000000000,
            cl == tope / 1000000 + 1,
            m == s@.subrange(desde as int, n as int),
            todos_digitos(m.subrange(0, (i - desde) as int)),
            acc <= cl,
            ({
                let v = valor_digitos(m.subrange(0, (i - desde) as int));
                (acc == v && v < cl) || (acc == cl && v >= cl)
            }),
        decreases n - i,
    {
        let d: u8 = s[i];
        let dv: u64 = (d - 48) as u64;
        let t: u64 = acc * 10 + dv;
        proof {
            let pre = m.subrange(0, (i - desde) as int);
            let pre2 = m.subrange(0, (i + 1 - desde) as int);
            assert(pre2.drop_last() =~= pre);
            assert(pre2.last() == m[(i - desde) as int]);
            assert(m[(i - desde) as int] == s@[i as int]);
            assert(valor_digitos(pre2) == valor_digitos(pre) * 10 + (d - 48));
            assert(forall|j: int| 0 <= j < pre2.len() ==> pre2[j] == m[j]);
        }
        if t > cl {
            acc = cl;
        } else {
            acc = t;
        }
        i += 1;
    }
    let ndig: usize = i - desde;
    let ghost ent_completo = m.subrange(0, ndig as int);
    proof {
        lema_valor_digitos_no_negativo(ent_completo);
    }
    if i == n {
        // No decimal point: the whole magnitude is the digit string.
        if ndig == 0 {
            proof {
                assert(m.len() == 0);
            }
            return None;
        }
        proof {
            assert(ent_completo =~= m);
            lema_primera_ausente(m, 46);
        }
        if acc >= cl {
            proof {
                assert(valor_digitos(m) * 1000000 >= cl * 1000000);
                assert(cl * 1000000 > tope) by {
                    assert(tope == 1000000 * (tope / 1000000) + tope % 1000000);
                };
            }
            return None;
        }
        let tot: i64 = (acc as i64) * 1000000;
        if tot > tope {
            return None;
        }
        return Some(tot);
    }
    // A byte stopped the digit scan: it must be the decimal point.
    let ghost p = primera(m, 46);
    if s[i] != 46 {
        proof {
            lema_primera(m, 46);
            assert(m[(i - desde) as int] == s@[i as int]);
            if p != -1 {
                // The point, if any, lies beyond the offending byte, which
                // therefore sits inside the integer part.
                assert(p != i - desde);
                if p < i - desde {
                    assert(ent_completo[p] == m[p]);
                    assert(es_digito(m[p]));
                }
                assert(p > i - desde);
                assert(m.subrange(0, p)[(i - desde) as int] == m[(i - desde) as int]);
                assert(!todos_digitos(m.subrange(0, p)));
            }
        }
        return None;
    }
    proof {
        assert(m[(i - desde) as int] == 46);
        assert forall|k: int| 0 <= k < i - desde implies #[trigger] m[k] != 46 by {
            assert(ent_completo[k] == m[k]);
            assert(es_digito(m[k]));
        }
        lema_primera_exacta(m, 46, (i - desde) as int);
        assert(p == i - desde);
        assert(m.subrange(0, p) =~= ent_completo);
    }
    let mut j: usize = i + 1;
    let mut facc: u64 = 0;
    let mut fd: usize = 0;
    while j < n && es_digito_e(s[j])
        invariant
            i + 1 <= j <= n,
            desde <= i < n,
            n == s@.len(),
            m == s@.subrange(desde as int, n as int),
            fd == j - i - 1,
            todos_digitos(m.subrange((i + 1 - desde) as int, (j - desde) as int)),
            fd <= 6 ==> facc == valor_digitos(
                m.subrange((i + 1 - desde) as int, (j - desde) as int),
            ) && facc < 1000000,
        decreases n - j,
    {
        let d: u8 = s[j];
        proof {
            let pre = m.subrange((i + 1 - desde) as int, (j - desde) as int);
            let pre2 = m.subrange((i + 1 - desde) as int, (j + 1 - desde) as int);
            assert(pre2.drop_last() =~= pre);
            assert(pre2.last() == m[(j - desde) as int]);
            assert(m[(j - desde) as int] == s@[j as int]);
            assert(valor_digitos(pre2) == valor_digitos(pre) * 10 + (d - 48));
            assert(forall|k: int| 0 <= k < pre2.len() ==> pre2[k] == m[(i + 1 - desde) + k]);
        }
        if fd < 6 {
            proof {
                let pre = m.subrange((i + 1 - desde) as int, (j - desde) as int);
                lema_valor_digitos_tope(pre);
                lema_pot10_chica();
                lema_pot10_crece(pre.len() as nat, 5);
            }
            facc = facc * 10 + ((d - 48) as u64);
        }
        fd += 1;
        j += 1;
    }
    let ghost fra = m.subrange((i + 1 - desde) as int, m.len() as int);
    if j < n {
        proof {
            assert(m[(j - desde) as int] == s@[j as int]);
            assert(fra[(j - i - 1) as int] == m[(j - desde) as int]);
            assert(!todos_digitos(fra));
        }
        return None;
    }
    proof {
        assert(fra =~= m.subrange((i + 1 - desde) as int, (j - desde) as int));
        assert(fra.len() == fd);
    }
    if fd > 6 {
        return None;
    }
    if ndig == 0 && fd == 0 {
        return None;
    }
    proof {
        lema_valor_digitos_no_negativo(fra);
        lema_pot10_chica();
        assert(pot10((6 - fra.len()) as nat) >= 1 && pot10((6 - fra.len()) as nat) <= 1000000);
    }
    let fescala: u64 = pot10_e(6 - fd);
    proof {
        assert(facc * fescala < 1000000000000) by (nonlinear_arith)
            requires
                facc < 1000000,
                0 <= fescala <= 1000000,
        ;
    }
    let fval: u64 = facc * fescala;
    proof {
        assert(fval as int == valor_digitos(fra) * pot10((6 - fra.len()) as nat));
    }
    if acc >= cl {
        proof {
            assert(valor_digitos(ent_completo) >= cl);
            assert(valor_digitos(ent_completo) * 1000000 >= cl * 1000000);
            assert(cl * 1000000 > tope) by {
                assert(tope == 1000000 * (tope / 1000000) + tope % 1000000);
            };
            assert(fval >= 0);
        }
        return None;
    }
    let tot: i64 = (acc as i64) * 1000000 + (fval as i64);
    if tot > tope {
        return None;
    }
    Some(tot)
}

/// Parse an optionally signed decimal literal into millionths, exactly:
/// the result exists precisely for well-formed literals with at most six
/// fraction digits whose magnitude stays within `tope`. Exponent forms
/// and literals needing rounding are rejected, never approximated.
pub fn decimal_de(s: &[u8], tope: i64) -> (r: Option<i64>)
    requires
        1000000 <= tope <= 1000000000000000000,
    ensures
        match r {
            Some(v) => es_decimal(s@) && v as int == valor_micro(s@) && -tope <= v <= tope,
            None => !es_decimal(s@) || valor_micro(s@) > tope || valor_micro(s@) < -tope,
        },
{
    let n: usize = s.len();
    let mut off: usize = 0;
    let mut neg: bool = false;
    if n > 0 && s[0] == 45 {
        neg = true;
        off = 1;
    } else if n > 0 && s[0] == 43 {
        off = 1;
    }
    proof {
        assert(sin_signo(s@) =~= s@.subrange(off as int, n as int));
    }
    match magnitud_de(s, off, tope) {
        None => None,
        Some(v) => {
            if neg {
                Some(-v)
            } else {
                Some(v)
            }
        },
    }
}

} // verus!
