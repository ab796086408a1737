//! Byte-level text primitives for the Latin-1 result files.
//!
//! The text format is processed directly over its raw bytes: markers and
//! field separators are plain ASCII, and everything outside ASCII is carried
//! through untouched until a name is decoded for storage.

use vstd::prelude::*;
use vstd::string::StrSliceExecFns;

verus! {

/// Blank bytes that are ignored at the edges of a field (the ASCII
/// whitespace characters).
pub open spec fn es_blanco(b: u8) -> bool {
    b == 32 || (9 <= b && b <= 13)
}

/// ASCII decimal digit.
pub open spec fn es_digito(b: u8) -> bool {
    48 <= b && b <= 57
}

/// The bytes of an ASCII character sequence, one byte per character.
pub open spec fn ascii_seq(s: Seq<char>) -> Seq<u8> {
    Seq::new(s.len(), |i: int| s[i] as u8)
}

/// True when `p` is a prefix of `a`.
pub open spec fn empieza_con(a: Seq<u8>, p: Seq<u8>) -> bool {
    p.len() <= a.len() && a.subrange(0, p.len() as int) == p
}

/// Index of the first occurrence of `b` in `s`, or -1 when absent.
pub open spec fn primera(s: Seq<u8>, b: u8) -> int
    decreases s.len(),
{
    if s.len() == 0 {
        -1
    } else if s[0] == b {
        0
    } else {
        let r = primera(s.subrange(1, s.len() as int), b);
        if r == -1 {
            -1
        } else {
            r + 1
        }
    }
}

/// What `primera` returns: either -1 and no occurrence, or the least index
/// holding `b`.
pub proof fn lema_primera(s: Seq<u8>, b: u8)
    ensures
        primera(s, b) == -1 ==> forall|i: int| 0 <= i < s.len() ==> s[i] != b,
        primera(s, b) != -1 ==> {
            &&& 0 <= primera(s, b) < s.len()
            &&& s[primera(s, b)] == b
            &&& forall|i: int| 0 <= i < primera(s, b) ==> s[i] != b
        },
    decreases s.len(),
{
    if s.len() > 0 && s[0] != b {
        let t = s.subrange(1, s.len() as int);
        lema_primera(t, b);
        assert forall|i: int| 1 <= i < s.len() implies s[i] == t[i - 1] by {}
    }
}

/// The least index holding `b` is what `primera` returns.
pub proof fn lema_primera_exacta(s: Seq<u8>, b: u8, k: int)
    requires
        0 <= k < s.len(),
        s[k] == b,
        forall|i: int| 0 <= i < k ==> s[i] != b,
    ensures
        primera(s, b) == k,
    decreases s.len(),
{
    if k > 0 {
        let t = s.subrange(1, s.len() as int);
        lema_primera_exacta(t, b, k - 1);
    }
}

/// When `b` does not occur, `primera` reports -1.
pub proof fn lema_primera_ausente(s: Seq<u8>, b: u8)
    requires
        forall|i: int| 0 <= i < s.len() ==> s[i] != b,
    ensures
        primera(s, b) == -1,
    decreases s.len(),
{
    if s.len() > 0 {
        lema_primera_ausente(s.subrange(1, s.len() as int), b);
    }
}

/// `s` without its leading blank bytes.
pub open spec fn recorta_izq(s: Seq<u8>) -> Seq<u8>
    decreases s.len(),
{
    if s.len() > 0 && es_blanco(s[0]) {
        recorta_izq(s.subrange(1, s.len() as int))
    } else {
        s
    }
}

/// `s` without its trailing blank bytes.
pub open spec fn recorta_der(s: Seq<u8>) -> Seq<u8>
    decreases s.len(),
{
    if s.len() > 0 && es_blanco(s[s.len() - 1]) {
        recorta_der(s.subrange(0, s.len() - 1))
    } else {
        s
    }
}

/// `s` without blank bytes on either edge.
pub open spec fn recorta(s: Seq<u8>) -> Seq<u8> {
    recorta_der(recorta_izq(s))
}

/// `s` without one pair of surrounding double quotes, when present.
pub open spec fn sin_comillas(s: Seq<u8>) -> Seq<u8> {
    if s.len() >= 2 && s[0] == 34 && s[s.len() - 1] == 34 {
        s.subrange(1, s.len() - 1)
    } else {
        s
    }
}

/// Comma-separated segments of `s`; always at least one segment.
pub open spec fn divide_comas(s: Seq<u8>) -> Seq<Seq<u8>>
    decreases s.len(),
    via divide_comas_dec
{
    let p = primera(s, 44);
    if p == -1 {
        seq![s]
    } else {
        seq![s.subrange(0, p)] + divide_comas(s.subrange(p + 1, s.len() as int))
    }
}

#[via_fn]
proof fn divide_comas_dec(s: Seq<u8>) {
    lema_primera(s, 44);
}

/// The bytes of an ASCII string slice.
pub fn ascii_bytes_de(s: &str) -> (r: Vec<u8>)
    requires
        s.is_ascii(),
    ensures
        r@ == ascii_seq(s@),
{
    let v = s.as_bytes_vec();
    proof {
        broadcast use vstd::string::is_ascii_spec_bytes;

        assert(v@ =~= ascii_seq(s@));
    }
    v
}

/// Byte equality of two slices.
pub fn son_iguales(a: &[u8], b: &[u8]) -> (r: bool)
    ensures
        r == (a@ == b@),
{
    if a.len() != b.len() {
        proof {
            assert(a@.len() != b@.len());
        }
        return false;
    }
    let n: usize = a.len();
    let mut i: usize = 0;
    while i < n
        invariant
            0 <= i <= n,
            n == a@.len() == b@.len(),
            forall|j: int| 0 <= j < i ==> a@[j] == b@[j],
        decreases n - i,
    {
        if a[i] != b[i] {
            return false;
        }
        i += 1;
    }
    proof {
        assert(a@ =~= b@);
    }
    true
}

/// True when `p` is a prefix of `a`.
pub fn empieza(a: &[u8], p: &[u8]) -> (r: bool)
    ensures
        r == empieza_con(a@, p@),
{
    if p.len() > a.len() {
        return false;
    }
    let n: usize = p.len();
    let mut i: usize = 0;
    while i < n
        invariant
            0 <= i <= n,
            n == p@.len() <= a@.len(),
            forall|j: int| 0 <= j < i ==> a@[j] == p@[j],
        decreases n - i,
    {
        if a[i] != p[i] {
            proof {
                assert(a@.subrange(0, p@.len() as int)[i as int] != p@[i as int]);
            }
            return false;
        }
        i += 1;
    }
    proof {
        assert(a@.subrange(0, p@.len() as int) =~= p@);
    }
    true
}

/// Whether a byte is blank, executable form.
pub fn es_blanco_e(b: u8) -> (r: bool)
    ensures
        r == es_blanco(b),
{
    b == 32 || (9 <= b && b <= 13)
}

/// Copy of `s[desde..hasta]`.
pub fn copia_rango(s: &[u8], desde: usize, hasta: usize) -> (r: Vec<u8>)
    requires
        desde <= hasta <= s@.len(),
    ensures
        r@ == s@.subrange(desde as int, hasta as int),
{
    let mut r: Vec<u8> = Vec::new();
    let mut i: usize = desde;
    while i < hasta
        invariant
            desde <= i <= hasta <= s@.len(),
            r@ == s@.subrange(desde as int, i as int),
        decreases hasta - i,
    {
        r.push(s[i]);
        proof {
            assert(r@ =~= s@.subrange(desde as int, (i + 1) as int));
        }
        i += 1;
    }
    r
}

/// `s` with blank bytes removed from both edges.
pub fn recortar(s: &[u8]) -> (r: Vec<u8>)
    ensures
        r@ == recorta(s@),
{
    let n: usize = s.len();
    proof {
        assert(s@.subrange(0, n as int) =~= s@);
    }
    let mut ini: usize = 0;
    while ini < n && es_blanco_e(s[ini])
        invariant
            0 <= ini <= n,
            n == s@.len(),
            recorta_izq(s@) == recorta_izq(s@.subrange(ini as int, n as int)),
        decreases n - ini,
    {
        proof {
            let t = s@.subrange(ini as int, n as int);
            assert(t.subrange(1, t.len() as int) =~= s@.subrange(ini + 1, n as int));
        }
        ini += 1;
    }
    proof {
        let t = s@.subrange(ini as int, n as int);
        if ini < n {
            assert(!es_blanco(t[0]));
        }
        assert(recorta_izq(s@) == t);
    }
    let mut fin: usize = n;
    while fin > ini && es_blanco_e(s[fin - 1])
        invariant
            0 <= ini <= fin <= n,
            n == s@.len(),
            recorta_izq(s@) == s@.subrange(ini as int, n as int),
            recorta_der(s@.subrange(ini as int, n as int)) == recorta_der(
                s@.subrange(ini as int, fin as int),
            ),
        decreases fin,
    {
        proof {
            let t = s@.subrange(ini as int, fin as int);
            assert(es_blanco(t[t.len() - 1]));
            assert(t.subrange(0, t.len() - 1) =~= s@.subrange(ini as int, fin - 1));
        }
        fin -= 1;
    }
    proof {
        let t = s@.subrange(ini as int, fin as int);
        if fin > ini {
            assert(!es_blanco(t[t.len() - 1]));
        }
        assert(recorta(s@) == t);
    }
    copia_rango(s, ini, fin)
}

/// `s` without one pair of surrounding double quotes, when present.
pub fn quitar_comillas(s: &[u8]) -> (r: Vec<u8>)
    ensures
        r@ == sin_comillas(s@),
{
    if s.len() >= 2 && s[0] == 34 && s[s.len() - 1] == 34 {
        copia_rango(s, 1, s.len() - 1)
    } else {
        copia_rango(s, 0, s.len())
    }
}

/// The comma-separated segments of `s`.
pub fn dividir_comas(s: &[u8]) -> (r: Vec<Vec<u8>>)
    ensures
        r@.map_values(|v: Vec<u8>| v@) == divide_comas(s@),
        r@.len() >= 1,
{
    let n: usize = s.len();
    proof {
        assert(s@.subrange(0, n as int) =~= s@);
    }
    let mut r: Vec<Vec<u8>> = Vec::new();
    let mut ini: usize = 0;
    let mut j: usize = 0;
    while j < n
        invariant
            0 <= ini <= j <= n,
            n == s@.len(),
            forall|k: int| ini <= k < j ==> s@[k] != 44,
            divide_comas(s@) == r@.map_values(|v: Vec<u8>| v@) + divide_comas(
                s@.subrange(ini as int, n as int),
            ),
        decreases n - j,
    {
        if s[j] == 44 {
            let seg = copia_rango(s, ini, j);
            proof {
                let t = s@.subrange(ini as int, n as int);
                assert(t[j - ini] == 44);
                assert forall|k: int| 0 <= k < j - ini implies t[k] != 44 by {
                    assert(t[k] == s@[ini + k]);
                }
                lema_primera_exacta(t, 44, j - ini);
                assert(t.subrange(0, j - ini) =~= s@.subrange(ini as int, j as int));
                assert(t.subrange(j - ini + 1, t.len() as int) =~= s@.subrange(
                    j + 1,
                    n as int,
                ));
                assert(r@.map_values(|v: Vec<u8>| v@).push(seg@) =~= r@.push(seg).map_values(
                    |v: Vec<u8>| v@,
                ));
                assert(r@.map_values(|v: Vec<u8>| v@) + seq![seg@] =~= r@.map_values(
                    |v: Vec<u8>| v@,
                ).push(seg@));
            }
            r.push(seg);
            j += 1;
            ini = j;
        } else {
            j += 1;
        }
    }
    let seg = copia_rango(s, ini, n);
    proof {
        let t = s@.subrange(ini as int, n as int);
        assert forall|k: int| 0 <= k < t.len() implies t[k] != 44 by {
            assert(t[k] == s@[ini + k]);
        }
        lema_primera_ausente(t, 44);
        assert(divide_comas(t) == seq![t]);
        assert(r@.map_values(|v: Vec<u8>| v@) + seq![seg@] =~= r@.push(seg).map_values(
            |v: Vec<u8>| v@,
        ));
    }
    r.push(seg);
    r
}

/// Split at the first comma: the part before it and the part after it,
/// or nothing when `s` holds no comma.
pub fn dividir_primero(s: &[u8]) -> (r: Option<(Vec<u8>, Vec<u8>)>)
    ensures
        primera(s@, 44) == -1 <==> r is None,
        r is Some ==> {
            let p = primera(s@, 44);
            &&& r->Some_0.0@ == s@.subrange(0, p)
            &&& r->Some_0.1@ == s@.subrange(p + 1, s@.len() as int)
        },
{
    let n: usize = s.len();
    let mut j: usize = 0;
    while j < n
        invariant
            0 <= j <= n,
            n == s@.len(),
            forall|k: int| 0 <= k < j ==> s@[k] != 44,
        decreases n - j,
    {
        if s[j] == 44 {
            proof {
                lema_primera_exacta(s@, 44, j as int);
            }
            let izq = copia_rango(s, 0, j);
            let der = copia_rango(s, j + 1, n);
            return Some((izq, der));
        }
        j += 1;
    }
    proof {
        lema_primera_ausente(s@, 44);
    }
    None
}

} // verus!
