//! Bottom-up aggregation of zone demands over floors and the building.
//!
//! Every roll-up is a weighted sum of the flow algebra divided by the
//! aggregated surface: a floor weighs its zones, the building weighs its
//! floors. A zero aggregated surface yields exactly zero, never a
//! division. Quotients truncate toward zero.

use vstd::prelude::*;

use vstd::arithmetic::div_mod::{
    lemma_div_is_ordered, lemma_div_multiples_vanish, lemma_div_pos_is_pos,
};

use crate::flujos::{
    cg, cg_acotado, cg_cero, cg_div, cg_escala, cg_suma, div_trunc, fg, fg_acotado, fg_cero,
    fg_div, fg_escala, fg_suma, Conceptos, ConceptosG, Flujos, FlujosG,
};
use crate::num::{TOPE_AREA, TOPE_VALOR};
use crate::flujos::{
    cg_max, cg_min, fv_es_de, fv_es_flujo, mayor, menor, serie_calneg, serie_calnet, serie_calpos,
    serie_refneg, serie_refnet, serie_refpos, vista_i64, FlujosVec,
};
use crate::types::{indice_elemento, TipoObjeto};
use crate::types::{
    edificio_bien, indice_planta, indice_zona, indice_zona_e, lema_indice_zona, nombres_unicos,
    planta_bien, zona_bien, EdificioLIDER, PlantaLIDER, ZonaLIDER, TYPE_EDIFICIO, TYPE_PLANTA,
    TYPE_ZONA,
};

verus! {

/// The aggregation weight of a named zone: its surface times its
/// multiplier.
pub open spec fn peso(zs: Seq<ZonaLIDER>, nombre: Seq<char>) -> int {
    let z = zs[indice_zona(zs, nombre)];
    z.multiplicador * z.superficie
}

/// Sum of the weights of the first `n` listed zones.
pub open spec fn suma_pesos(zs: Seq<ZonaLIDER>, lista: Seq<String>, n: int) -> int
    decreases n,
{
    if n <= 0 {
        0
    } else {
        suma_pesos(zs, lista, n - 1) + peso(zs, lista[n - 1]@)
    }
}

/// One monthly value of a zone, for the heating or the cooling series.
pub open spec fn mes_de(z: ZonaLIDER, m: int, cal: bool) -> int {
    if cal {
        z.calefaccion_meses@[m] as int
    } else {
        z.refrigeracion_meses@[m] as int
    }
}

/// Surface-weighted sum of one monthly value over the first `n` listed
/// zones; the monthly series weighs by surface alone, not by the
/// multiplier.
pub open spec fn suma_mes(zs: Seq<ZonaLIDER>, lista: Seq<String>, n: int, m: int, cal: bool) -> int
    decreases n,
{
    if n <= 0 {
        0
    } else {
        let z = zs[indice_zona(zs, lista[n - 1]@)];
        suma_mes(zs, lista, n - 1, m, cal) + z.superficie * mes_de(z, m, cal)
    }
}

/// Weight-scaled sum of the zone breakdowns over the first `n` listed
/// zones.
pub open spec fn suma_concep(zs: Seq<ZonaLIDER>, lista: Seq<String>, n: int) -> ConceptosG
    decreases n,
{
    if n <= 0 {
        cg_cero()
    } else {
        let z = zs[indice_zona(zs, lista[n - 1]@)];
        cg_suma(suma_concep(zs, lista, n - 1), cg_escala(cg(z.conceptos), peso(zs, lista[n - 1]@)))
    }
}

/// The aggregated surface of a floor.
pub open spec fn planta_superficie_espec(e: EdificioLIDER, p: PlantaLIDER) -> int {
    suma_pesos(e.zonas@, p.zonas@, p.zonas@.len() as int)
}

/// One monthly aggregate of a floor: the weighted sum divided by the
/// floor surface, or exactly zero for a floor without surface.
pub open spec fn planta_mes_espec(e: EdificioLIDER, p: PlantaLIDER, m: int, cal: bool) -> int {
    let fp = planta_superficie_espec(e, p);
    if fp <= 0 {
        0
    } else {
        div_trunc(suma_mes(e.zonas@, p.zonas@, p.zonas@.len() as int, m, cal), fp)
    }
}

/// Sum of the first `n` monthly aggregates of a floor.
pub open spec fn suma_meses_planta(e: EdificioLIDER, p: PlantaLIDER, n: int, cal: bool) -> int
    decreases n,
{
    if n <= 0 {
        0
    } else {
        suma_meses_planta(e, p, n - 1, cal) + planta_mes_espec(e, p, n - 1, cal)
    }
}

/// The yearly aggregate of a floor: the sum of its twelve monthly
/// aggregates.
pub open spec fn planta_anual_espec(e: EdificioLIDER, p: PlantaLIDER, cal: bool) -> int {
    suma_meses_planta(e, p, 12, cal)
}

/// The breakdown aggregate of a floor: the weight-scaled sum divided by
/// the floor surface, or exactly zero for a floor without surface.
pub open spec fn planta_conceptos_espec(e: EdificioLIDER, p: PlantaLIDER) -> ConceptosG {
    let fp = planta_superficie_espec(e, p);
    if fp <= 0 {
        cg_cero()
    } else {
        cg_div(suma_concep(e.zonas@, p.zonas@, p.zonas@.len() as int), fp)
    }
}

/// Sum of the aggregated surfaces of the first `n` floors.
pub open spec fn ed_suma_superficies(e: EdificioLIDER, n: int) -> int
    decreases n,
{
    if n <= 0 {
        0
    } else {
        ed_suma_superficies(e, n - 1) + planta_superficie_espec(e, e.plantas@[n - 1])
    }
}

/// Surface-scaled sum of the floor breakdowns over the first `n` floors.
pub open spec fn ed_suma_concep(e: EdificioLIDER, n: int) -> ConceptosG
    decreases n,
{
    if n <= 0 {
        cg_cero()
    } else {
        cg_suma(
            ed_suma_concep(e, n - 1),
            cg_escala(
                planta_conceptos_espec(e, e.plantas@[n - 1]),
                planta_superficie_espec(e, e.plantas@[n - 1]),
            ),
        )
    }
}

/// The breakdown aggregate of the building: the surface-scaled sum of the
/// floor breakdowns divided by the building surface the summary states,
/// or exactly zero for a building without stated surface.
pub open spec fn edificio_conceptos_espec(e: EdificioLIDER) -> ConceptosG {
    if e.superficie <= 0 {
        cg_cero()
    } else {
        cg_div(ed_suma_concep(e, e.plantas@.len() as int), e.superficie as int)
    }
}

/// Multiplication distributes over a sum.
proof fn lema_dist(t: int, x: int, y: int)
    ensures
        t * (x + y) == t * x + t * y,
{
    assert(t * (x + y) == t * x + t * y) by (nonlinear_arith);
}

/// A product of bounded factors is bounded by the product of the bounds.
proof fn lema_producto_acotado(a: int, b: int, ca: int, cb: int)
    requires
        -ca <= a <= ca,
        0 <= b <= cb,
        0 <= ca,
    ensures
        -(ca * cb) <= a * b <= ca * cb,
        -(ca * b) <= a * b <= ca * b,
{
    assert(-(ca * b) <= a * b <= ca * b) by (nonlinear_arith)
        requires
            -ca <= a <= ca,
            0 <= b,
    ;
    assert(ca * b <= ca * cb && -(ca * cb) <= -(ca * b)) by (nonlinear_arith)
        requires
            0 <= ca,
            b <= cb,
    ;
}

/// The weight of a resolving zone of a well-formed building lies between
/// zero and the weight cap.
proof fn lema_peso(zs: Seq<ZonaLIDER>, nombre: Seq<char>)
    requires
        indice_zona(zs, nombre) != -1,
        forall|i: int| 0 <= i < zs.len() ==> zona_bien(#[trigger] zs[i]),
    ensures
        0 <= peso(zs, nombre) <= 1000000000000000,
        peso(zs, nombre) >= zs[indice_zona(zs, nombre)].superficie,
{
    lema_indice_zona(zs, nombre);
    let z = zs[indice_zona(zs, nombre)];
    assert(zona_bien(z));
    assert(0 <= z.multiplicador * z.superficie <= 1000000000000000 && z.multiplicador
        * z.superficie >= z.superficie) by (nonlinear_arith)
        requires
            1 <= z.multiplicador <= 1000,
            0 <= z.superficie <= 1000000000000,
    ;
}

/// Weight sums are non-negative, capped, and grow with the prefix.
proof fn lema_suma_pesos(zs: Seq<ZonaLIDER>, lista: Seq<String>, n: int)
    requires
        0 <= n <= lista.len(),
        forall|i: int| 0 <= i < zs.len() ==> zona_bien(#[trigger] zs[i]),
        forall|j: int| 0 <= j < lista.len() ==> indice_zona(zs, (#[trigger] lista[j])@) != -1,
    ensures
        0 <= suma_pesos(zs, lista, n) <= n * 1000000000000000,
        forall|k: int| 0 <= k <= n ==> #[trigger] suma_pesos(zs, lista, k) <= suma_pesos(
            zs,
            lista,
            n,
        ),
    decreases n,
{
    if n > 0 {
        lema_suma_pesos(zs, lista, n - 1);
        lema_peso(zs, lista[n - 1]@);
    }
}

/// The weighted monthly sum is bounded by the value cap times the weight
/// sum.
proof fn lema_suma_mes_acotada(zs: Seq<ZonaLIDER>, lista: Seq<String>, n: int, m: int, cal: bool)
    requires
        0 <= n <= lista.len(),
        0 <= m < 12,
        forall|i: int| 0 <= i < zs.len() ==> zona_bien(#[trigger] zs[i]),
        forall|j: int| 0 <= j < lista.len() ==> indice_zona(zs, (#[trigger] lista[j])@) != -1,
    ensures
        -(TOPE_VALOR as int) * suma_pesos(zs, lista, n) <= suma_mes(zs, lista, n, m, cal) <= (
        TOPE_VALOR as int) * suma_pesos(zs, lista, n),
    decreases n,
{
    if n > 0 {
        lema_suma_mes_acotada(zs, lista, n - 1, m, cal);
        lema_peso(zs, lista[n - 1]@);
        lema_indice_zona(zs, lista[n - 1]@);
        let z = zs[indice_zona(zs, lista[n - 1]@)];
        assert(zona_bien(z));
        lema_producto_acotado(mes_de(z, m, cal), z.superficie as int, TOPE_VALOR as int, TOPE_AREA as int);
        assert(z.superficie * mes_de(z, m, cal) == mes_de(z, m, cal) * z.superficie)
            by (nonlinear_arith);
        assert((TOPE_VALOR as int) * (z.superficie as int) <= (TOPE_VALOR as int) * peso(
            zs,
            lista[n - 1]@,
        ) && -((TOPE_VALOR as int) * peso(zs, lista[n - 1]@)) <= -((TOPE_VALOR as int) * (
        z.superficie as int))) by (nonlinear_arith)
            requires
                z.superficie <= peso(zs, lista[n - 1]@),
                TOPE_VALOR as int >= 0,
        ;
        lema_dist(TOPE_VALOR as int, suma_pesos(zs, lista, n - 1), peso(zs, lista[n - 1]@));
        assert((TOPE_VALOR as int) * suma_pesos(zs, lista, n) == (TOPE_VALOR as int) * suma_pesos(
            zs,
            lista,
            n - 1,
        ) + (TOPE_VALOR as int) * peso(zs, lista[n - 1]@));
    }
}

/// Every component of a weight-scaled breakdown is bounded by the value
/// cap times the weight.
proof fn lema_escala_acotada(f: FlujosG, w: int, c: int)
    requires
        fg_acotado(f, c),
        0 <= w,
        0 <= c,
    ensures
        fg_acotado(fg_escala(f, w), c * w),
{
    lema_producto_acotado(f.calpos, w, c, w);
    lema_producto_acotado(f.calneg, w, c, w);
    lema_producto_acotado(f.calnet, w, c, w);
    lema_producto_acotado(f.refpos, w, c, w);
    lema_producto_acotado(f.refneg, w, c, w);
    lema_producto_acotado(f.refnet, w, c, w);
}

/// The same bound for all nine categories.
proof fn lema_escala_cg_acotada(a: ConceptosG, w: int, c: int)
    requires
        cg_acotado(a, c),
        0 <= w,
        0 <= c,
    ensures
        cg_acotado(cg_escala(a, w), c * w),
{
    lema_escala_acotada(a.pext, w, c);
    lema_escala_acotada(a.cub, w, c);
    lema_escala_acotada(a.suelos, w, c);
    lema_escala_acotada(a.pts, w, c);
    lema_escala_acotada(a.huecos_solar, w, c);
    lema_escala_acotada(a.huecos_trans, w, c);
    lema_escala_acotada(a.fint, w, c);
    lema_escala_acotada(a.vent, w, c);
    lema_escala_acotada(a.total, w, c);
}

/// The weight-scaled breakdown sum is bounded by the value cap times the
/// weight sum.
proof fn lema_suma_concep_acotada(zs: Seq<ZonaLIDER>, lista: Seq<String>, n: int)
    requires
        0 <= n <= lista.len(),
        forall|i: int| 0 <= i < zs.len() ==> zona_bien(#[trigger] zs[i]),
        forall|j: int| 0 <= j < lista.len() ==> indice_zona(zs, (#[trigger] lista[j])@) != -1,
    ensures
        cg_acotado(suma_concep(zs, lista, n), (TOPE_VALOR as int) * suma_pesos(zs, lista, n)),
    decreases n,
{
    if n <= 0 {
        assert(cg_acotado(suma_concep(zs, lista, 0), 0));
    } else {
        lema_suma_concep_acotada(zs, lista, n - 1);
        lema_peso(zs, lista[n - 1]@);
        lema_indice_zona(zs, lista[n - 1]@);
        let z = zs[indice_zona(zs, lista[n - 1]@)];
        assert(zona_bien(z));
        lema_escala_cg_acotada(cg(z.conceptos), peso(zs, lista[n - 1]@), TOPE_VALOR as int);
        lema_dist(TOPE_VALOR as int, suma_pesos(zs, lista, n - 1), peso(zs, lista[n - 1]@));
        assert((TOPE_VALOR as int) * suma_pesos(zs, lista, n) == (TOPE_VALOR as int) * suma_pesos(
            zs,
            lista,
            n - 1,
        ) + (TOPE_VALOR as int) * peso(zs, lista[n - 1]@));
    }
}

/// A truncating quotient of a sum bounded by `c` times the divisor is
/// itself bounded by `c`.
pub proof fn lema_div_trunc_acotado(num: int, den: int, c: int)
    requires
        den > 0,
        c >= 0,
        -(c * den) <= num <= c * den,
    ensures
        -c <= div_trunc(num, den) <= c,
{
    if num >= 0 {
        lemma_div_is_ordered(num, c * den, den);
        lemma_div_multiples_vanish(c, den);
        assert(c * den == den * c) by (nonlinear_arith);
        lemma_div_pos_is_pos(num, den);
    } else {
        lemma_div_is_ordered(-num, c * den, den);
        lemma_div_multiples_vanish(c, den);
        assert(c * den == den * c) by (nonlinear_arith);
        lemma_div_pos_is_pos(-num, den);
    }
}

/// A truncating quotient of an exact multiple recovers the factor.
pub proof fn lema_div_trunc_exacto(v: int, den: int)
    requires
        den > 0,
    ensures
        div_trunc(v * den, den) == v,
{
    if v >= 0 {
        lemma_div_multiples_vanish(v, den);
        assert(v * den == den * v) by (nonlinear_arith);
    } else {
        lemma_div_multiples_vanish(-v, den);
        assert(-(v * den) == den * (-v)) by (nonlinear_arith);
    }
}

/// All nine categories of a divided breakdown are bounded by `c` when
/// the dividend is bounded by `c` times the divisor.
proof fn lema_div_cg_acotado(a: ConceptosG, den: int, c: int)
    requires
        den > 0,
        c >= 0,
        cg_acotado(a, c * den),
    ensures
        cg_acotado(cg_div(a, den), c),
{
    lema_div_fg_acotado(a.pext, den, c);
    lema_div_fg_acotado(a.cub, den, c);
    lema_div_fg_acotado(a.suelos, den, c);
    lema_div_fg_acotado(a.pts, den, c);
    lema_div_fg_acotado(a.huecos_solar, den, c);
    lema_div_fg_acotado(a.huecos_trans, den, c);
    lema_div_fg_acotado(a.fint, den, c);
    lema_div_fg_acotado(a.vent, den, c);
    lema_div_fg_acotado(a.total, den, c);
}

/// The componentwise form of the quotient bound.
proof fn lema_div_fg_acotado(f: FlujosG, den: int, c: int)
    requires
        den > 0,
        c >= 0,
        fg_acotado(f, c * den),
    ensures
        fg_acotado(fg_div(f, den), c),
{
    lema_div_trunc_acotado(f.calpos, den, c);
    lema_div_trunc_acotado(f.calneg, den, c);
    lema_div_trunc_acotado(f.calnet, den, c);
    lema_div_trunc_acotado(f.refpos, den, c);
    lema_div_trunc_acotado(f.refneg, den, c);
    lema_div_trunc_acotado(f.refnet, den, c);
}

/// A floor's breakdown aggregate keeps every component within the value
/// cap.
pub proof fn lema_planta_conceptos_acotado(e: EdificioLIDER, p: PlantaLIDER)
    requires
        edificio_bien(e),
        planta_bien(e.zonas@, p),
    ensures
        cg_acotado(planta_conceptos_espec(e, p), TOPE_VALOR as int),
{
    let n = p.zonas@.len() as int;
    let fp = planta_superficie_espec(e, p);
    lema_suma_pesos(e.zonas@, p.zonas@, n);
    if fp <= 0 {
        assert(cg_acotado(cg_cero(), TOPE_VALOR as int));
    } else {
        lema_suma_concep_acotada(e.zonas@, p.zonas@, n);
        lema_div_cg_acotado(suma_concep(e.zonas@, p.zonas@, n), fp, TOPE_VALOR as int);
    }
}

/// A wide accumulator for one flow vector.
struct FlujosAcc {
    cp: i128,
    cn: i128,
    ct: i128,
    rp: i128,
    rn: i128,
    rt: i128,
}

/// The ghost value of a wide flow accumulator.
spec fn fa(a: FlujosAcc) -> FlujosG {
    FlujosG {
        calpos: a.cp as int,
        calneg: a.cn as int,
        calnet: a.ct as int,
        refpos: a.rp as int,
        refneg: a.rn as int,
        refnet: a.rt as int,
    }
}

impl FlujosAcc {
    fn cero() -> (r: FlujosAcc)
        ensures
            fa(r) == fg_cero(),
    {
        FlujosAcc { cp: 0, cn: 0, ct: 0, rp: 0, rn: 0, rt: 0 }
    }

    /// Add `w` times the flows of `f`.
    fn acumula(&mut self, f: &Flujos, w: i64)
        requires
            -1000000000000000000 <= w <= 1000000000000000000,
            fg_acotado(fg(*f), TOPE_VALOR as int),
            fg_acotado(fa(*old(self)), 1000000000000000000000000000000000000),
        ensures
            fa(*final(self)) == fg_suma(fa(*old(self)), fg_escala(fg(*f), w as int)),
    {
        proof {
            lema_prod_flujo(f.calpos as int, w as int);
            lema_prod_flujo(f.calneg as int, w as int);
            lema_prod_flujo(f.calnet as int, w as int);
            lema_prod_flujo(f.refpos as int, w as int);
            lema_prod_flujo(f.refneg as int, w as int);
            lema_prod_flujo(f.refnet as int, w as int);
        }
        self.cp = self.cp + (f.calpos as i128) * (w as i128);
        self.cn = self.cn + (f.calneg as i128) * (w as i128);
        self.ct = self.ct + (f.calnet as i128) * (w as i128);
        self.rp = self.rp + (f.refpos as i128) * (w as i128);
        self.rn = self.rn + (f.refneg as i128) * (w as i128);
        self.rt = self.rt + (f.refnet as i128) * (w as i128);
    }

    /// Divide every component by `den`, truncating toward zero.
    fn divide(&self, den: i128) -> (r: Flujos)
        requires
            den > 0,
            fg_acotado(fa(*self), (TOPE_VALOR as int) * den),
        ensures
            fg(r) == fg_div(fa(*self), den as int),
    {
        Flujos {
            calpos: div_t(self.cp, den),
            calneg: div_t(self.cn, den),
            calnet: div_t(self.ct, den),
            refpos: div_t(self.rp, den),
            refneg: div_t(self.rn, den),
            refnet: div_t(self.rt, den),
        }
    }
}

/// The product of a capped flow value and a capped weight stays well
/// within the wide range.
proof fn lema_prod_flujo(a: int, w: int)
    requires
        -(TOPE_VALOR as int) <= a <= TOPE_VALOR as int,
        -1000000000000000000 <= w <= 1000000000000000000,
    ensures
        -1000000000000000000000000000000000 <= a * w <= 1000000000000000000000000000000000,
{
    assert(-1000000000000000000000000000000000 <= a * w <= 1000000000000000000000000000000000)
        by (nonlinear_arith)
        requires
            -10000000000000 <= a <= 10000000000000,
            -1000000000000000000 <= w <= 1000000000000000000,
    ;
}

/// Truncating division of a wide value, within the value cap.
fn div_t(n: i128, den: i128) -> (r: i64)
    requires
        den > 0,
        -(TOPE_VALOR as int) * den <= n <= (TOPE_VALOR as int) * den,
    ensures
        r as int == div_trunc(n as int, den as int),
        -TOPE_VALOR <= r <= TOPE_VALOR,
{
    proof {
        assert(-((TOPE_VALOR as int) * den) == -(TOPE_VALOR as int) * den) by (nonlinear_arith);
        lema_div_trunc_acotado(n as int, den as int, TOPE_VALOR as int);
    }
    let q: i128 = match n.checked_div(den) {
        Some(q) => q,
        None => {
            proof {
                assert(false);
            }
            0
        },
    };
    proof {
        assert(q as int == div_trunc(n as int, den as int));
    }
    q as i64
}

/// A wide accumulator for a whole breakdown.
struct ConceptosAcc {
    pext: FlujosAcc,
    cub: FlujosAcc,
    suelos: FlujosAcc,
    pts: FlujosAcc,
    huecos_solar: FlujosAcc,
    huecos_trans: FlujosAcc,
    fint: FlujosAcc,
    vent: FlujosAcc,
    total: FlujosAcc,
}

/// The ghost value of a wide breakdown accumulator.
spec fn ca(a: ConceptosAcc) -> ConceptosG {
    ConceptosG {
        pext: fa(a.pext),
        cub: fa(a.cub),
        suelos: fa(a.suelos),
        pts: fa(a.pts),
        huecos_solar: fa(a.huecos_solar),
        huecos_trans: fa(a.huecos_trans),
        fint: fa(a.fint),
        vent: fa(a.vent),
        total: fa(a.total),
    }
}

impl ConceptosAcc {
    fn cero() -> (r: ConceptosAcc)
        ensures
            ca(r) == cg_cero(),
    {
        ConceptosAcc {
            pext: FlujosAcc::cero(),
            cub: FlujosAcc::cero(),
            suelos: FlujosAcc::cero(),
            pts: FlujosAcc::cero(),
            huecos_solar: FlujosAcc::cero(),
            huecos_trans: FlujosAcc::cero(),
            fint: FlujosAcc::cero(),
            vent: FlujosAcc::cero(),
            total: FlujosAcc::cero(),
        }
    }

    /// Add `w` times the flows of every category of `c`.
    fn acumula(&mut self, c: &Conceptos, w: i64)
        requires
            -1000000000000000000 <= w <= 1000000000000000000,
            cg_acotado(cg(*c), TOPE_VALOR as int),
            cg_acotado(ca(*old(self)), 1000000000000000000000000000000000000),
        ensures
            ca(*final(self)) == cg_suma(ca(*old(self)), cg_escala(cg(*c), w as int)),
    {
        self.pext.acumula(&c.pext, w);
        self.cub.acumula(&c.cub, w);
        self.suelos.acumula(&c.suelos, w);
        self.pts.acumula(&c.pts, w);
        self.huecos_solar.acumula(&c.huecos_solar, w);
        self.huecos_trans.acumula(&c.huecos_trans, w);
        self.fint.acumula(&c.fint, w);
        self.vent.acumula(&c.vent, w);
        self.total.acumula(&c.total, w);
    }

    /// Divide every component by `den`, truncating toward zero.
    fn divide(&self, den: i128) -> (r: Conceptos)
        requires
            den > 0,
            cg_acotado(ca(*self), (TOPE_VALOR as int) * den),
        ensures
            cg(r) == cg_div(ca(*self), den as int),
    {
        Conceptos {
            pext: self.pext.divide(den),
            cub: self.cub.divide(den),
            suelos: self.suelos.divide(den),
            pts: self.pts.divide(den),
            huecos_solar: self.huecos_solar.divide(den),
            huecos_trans: self.huecos_trans.divide(den),
            fint: self.fint.divide(den),
            vent: self.vent.divide(den),
            total: self.total.divide(den),
        }
    }
}

/// Componentwise sums add their bounds.
proof fn lema_fg_suma_acotada(a: FlujosG, b: FlujosG, c1: int, c2: int)
    requires
        fg_acotado(a, c1),
        fg_acotado(b, c2),
    ensures
        fg_acotado(fg_suma(a, b), c1 + c2),
{
}

/// The nine-category form of the sum bound.
proof fn lema_cg_suma_acotada(a: ConceptosG, b: ConceptosG, c1: int, c2: int)
    requires
        cg_acotado(a, c1),
        cg_acotado(b, c2),
    ensures
        cg_acotado(cg_suma(a, b), c1 + c2),
{
}

/// A bound widens.
proof fn lema_cg_acotado_ensancha(a: ConceptosG, c1: int, c2: int)
    requires
        cg_acotado(a, c1),
        c1 <= c2,
    ensures
        cg_acotado(a, c2),
{
}

/// The surface-scaled breakdown sum over floors is bounded by the value
/// cap times the summed surfaces.
proof fn lema_ed_suma_concep_acotada(e: EdificioLIDER, n: int)
    requires
        edificio_bien(e),
        0 <= n <= e.plantas@.len(),
    ensures
        cg_acotado(ed_suma_concep(e, n), (TOPE_VALOR as int) * ed_suma_superficies(e, n)),
        ed_suma_superficies(e, n) >= 0,
    decreases n,
{
    if n <= 0 {
        assert(cg_acotado(cg_cero(), 0));
    } else {
        lema_ed_suma_concep_acotada(e, n - 1);
        let p = e.plantas@[n - 1];
        assert(planta_bien(e.zonas@, p));
        let fp = planta_superficie_espec(e, p);
        lema_suma_pesos(e.zonas@, p.zonas@, p.zonas@.len() as int);
        lema_planta_conceptos_acotado(e, p);
        lema_escala_cg_acotada(planta_conceptos_espec(e, p), fp, TOPE_VALOR as int);
        lema_dist(TOPE_VALOR as int, ed_suma_superficies(e, n - 1), fp);
        lema_cg_suma_acotada(
            ed_suma_concep(e, n - 1),
            cg_escala(planta_conceptos_espec(e, p), fp),
            (TOPE_VALOR as int) * ed_suma_superficies(e, n - 1),
            (TOPE_VALOR as int) * fp,
        );
    }
}

impl PlantaLIDER {
    /// The floor surface: the sum of surface times multiplier over the
    /// floor's zones.
    pub fn superficie(&self, ed: &EdificioLIDER) -> (r: i64)
        requires
            edificio_bien(*ed),
            planta_bien(ed.zonas@, *self),
        ensures
            r as int == planta_superficie_espec(*ed, *self),
            0 <= r <= 1000000000000000000,
    {
        let n: usize = self.zonas.len();
        let mut acc: i64 = 0;
        let mut j: usize = 0;
        while j < n
            invariant
                0 <= j <= n,
                n == self.zonas@.len(),
                n <= 1000,
                edificio_bien(*ed),
                planta_bien(ed.zonas@, *self),
                acc as int == suma_pesos(ed.zonas@, self.zonas@, j as int),
                0 <= acc as int <= (j as int) * 1000000000000000,
            decreases n - j,
        {
            let idx = indice_zona_e(&ed.zonas, &self.zonas[j]);
            proof {
                assert(indice_zona(ed.zonas@, (self.zonas@[j as int])@) != -1);
                lema_peso(ed.zonas@, (self.zonas@[j as int])@);
            }
            let z = &ed.zonas[idx];
            let w: i64 = (z.multiplicador as i64) * z.superficie;
            acc = acc + w;
            j += 1;
        }
        proof {
            lema_suma_pesos(ed.zonas@, self.zonas@, n as int);
        }
        acc
    }

    /// The twelve monthly heating aggregates of the floor.
    pub fn calefaccion_meses(&self, ed: &EdificioLIDER) -> (r: Vec<i64>)
        requires
            edificio_bien(*ed),
            planta_bien(ed.zonas@, *self),
        ensures
            r@.len() == 12,
            forall|m: int|
                0 <= m < 12 ==> (#[trigger] r@[m]) as int == planta_mes_espec(*ed, *self, m, true),
    {
        meses_planta(self, ed, true)
    }

    /// The twelve monthly cooling aggregates of the floor.
    pub fn refrigeracion_meses(&self, ed: &EdificioLIDER) -> (r: Vec<i64>)
        requires
            edificio_bien(*ed),
            planta_bien(ed.zonas@, *self),
        ensures
            r@.len() == 12,
            forall|m: int|
                0 <= m < 12 ==> (#[trigger] r@[m]) as int == planta_mes_espec(*ed, *self, m, false),
    {
        meses_planta(self, ed, false)
    }

    /// The yearly heating aggregate: the sum of the twelve monthly
    /// aggregates.
    pub fn calefaccion(&self, ed: &EdificioLIDER) -> (r: i64)
        requires
            edificio_bien(*ed),
            planta_bien(ed.zonas@, *self),
        ensures
            r as int == planta_anual_espec(*ed, *self, true),
    {
        suma_anual(self, ed, true)
    }

    /// The yearly cooling aggregate: the sum of the twelve monthly
    /// aggregates.
    pub fn refrigeracion(&self, ed: &EdificioLIDER) -> (r: i64)
        requires
            edificio_bien(*ed),
            planta_bien(ed.zonas@, *self),
        ensures
            r as int == planta_anual_espec(*ed, *self, false),
    {
        suma_anual(self, ed, false)
    }

    /// The breakdown aggregate of the floor: zone breakdowns scaled by
    /// surface times multiplier, divided by the floor surface; exactly
    /// zero for a floor without surface.
    #[verifier::rlimit(100)]
    pub fn conceptos(&self, ed: &EdificioLIDER) -> (r: Conceptos)
        requires
            edificio_bien(*ed),
            planta_bien(ed.zonas@, *self),
        ensures
            cg(r) == planta_conceptos_espec(*ed, *self),
    {
        let fp = self.superficie(ed);
        if fp == 0 {
            return Conceptos::cero();
        }
        let n: usize = self.zonas.len();
        let mut acc = ConceptosAcc::cero();
        let mut j: usize = 0;
        while j < n
            invariant
                0 <= j <= n,
                n == self.zonas@.len(),
                n <= 1000,
                edificio_bien(*ed),
                planta_bien(ed.zonas@, *self),
                ca(acc) == suma_concep(ed.zonas@, self.zonas@, j as int),
                cg_acotado(ca(acc), (j as int) * 10000000000000000000000000000),
            decreases n - j,
        {
            let idx = indice_zona_e(&ed.zonas, &self.zonas[j]);
            proof {
                assert(indice_zona(ed.zonas@, (self.zonas@[j as int])@) != -1);
                lema_peso(ed.zonas@, (self.zonas@[j as int])@);
                lema_cg_acotado_ensancha(
                    ca(acc),
                    (j as int) * 10000000000000000000000000000,
                    1000000000000000000000000000000000000,
                );
            }
            let z = &ed.zonas[idx];
            let w: i64 = (z.multiplicador as i64) * z.superficie;
            let ghost acc_antes = ca(acc);
            acc.acumula(&z.conceptos, w);
            proof {
                let pes = peso(ed.zonas@, (self.zonas@[j as int])@);
                lema_escala_cg_acotada(cg(z.conceptos), pes, TOPE_VALOR as int);
                assert((TOPE_VALOR as int) * pes <= 10000000000000000000000000000)
                    by (nonlinear_arith)
                    requires
                        0 <= pes <= 1000000000000000,
                ;
                lema_cg_suma_acotada(
                    acc_antes,
                    cg_escala(cg(z.conceptos), pes),
                    (j as int) * 10000000000000000000000000000,
                    10000000000000000000000000000,
                );
            }
            j += 1;
        }
        proof {
            lema_suma_concep_acotada(ed.zonas@, self.zonas@, n as int);
        }
        acc.divide(fp as i128)
    }
}

/// The twelve monthly aggregates of one floor for one of the two
/// series.
fn meses_planta(p: &PlantaLIDER, ed: &EdificioLIDER, cal: bool) -> (r: Vec<i64>)
    requires
        edificio_bien(*ed),
        planta_bien(ed.zonas@, *p),
    ensures
        r@.len() == 12,
        forall|m: int|
            0 <= m < 12 ==> (#[trigger] r@[m]) as int == planta_mes_espec(*ed, *p, m, cal),
{
    let fp = p.superficie(ed);
    let mut r: Vec<i64> = Vec::new();
    let mut m: usize = 0;
    while m < 12
        invariant
            0 <= m <= 12,
            edificio_bien(*ed),
            planta_bien(ed.zonas@, *p),
            fp as int == planta_superficie_espec(*ed, *p),
            0 <= fp,
            r@.len() == m,
            forall|k: int|
                0 <= k < m ==> (#[trigger] r@[k]) as int == planta_mes_espec(*ed, *p, k, cal),
        decreases 12 - m,
    {
        if fp == 0 {
            r.push(0);
        } else {
            let num = suma_mes_e(p, ed, m, cal);
            proof {
                lema_suma_mes_acotada(ed.zonas@, p.zonas@, p.zonas@.len() as int, m as int, cal);
            }
            let q = div_t(num, fp as i128);
            r.push(q);
        }
        m += 1;
    }
    r
}

/// The surface-weighted sum of one monthly value over the floor's zones.
#[verifier::rlimit(100)]
fn suma_mes_e(p: &PlantaLIDER, ed: &EdificioLIDER, m: usize, cal: bool) -> (r: i128)
    requires
        edificio_bien(*ed),
        planta_bien(ed.zonas@, *p),
        m < 12,
    ensures
        r as int == suma_mes(ed.zonas@, p.zonas@, p.zonas@.len() as int, m as int, cal),
{
    let n: usize = p.zonas.len();
    let mut num: i128 = 0;
    let mut j: usize = 0;
    while j < n
        invariant
            0 <= j <= n,
            n == p.zonas@.len(),
            n <= 1000,
            m < 12,
            edificio_bien(*ed),
            planta_bien(ed.zonas@, *p),
            num as int == suma_mes(ed.zonas@, p.zonas@, j as int, m as int, cal),
            -((j as int) * 10000000000000000000000000) <= num as int <= (j as int)
                * 10000000000000000000000000,
        decreases n - j,
    {
        let idx = indice_zona_e(&ed.zonas, &p.zonas[j]);
        proof {
            assert(indice_zona(ed.zonas@, (p.zonas@[j as int])@) != -1);
            lema_indice_zona(ed.zonas@, (p.zonas@[j as int])@);
        }
        let z = &ed.zonas[idx];
        proof {
            assert(zona_bien(ed.zonas@[idx as int]));
        }
        let v: i64 = if cal {
            z.calefaccion_meses[m]
        } else {
            z.refrigeracion_meses[m]
        };
        proof {
            lema_producto_acotado(v as int, z.superficie as int, TOPE_VALOR as int, TOPE_AREA as int);
            assert((z.superficie as int) * (v as int) == (v as int) * (z.superficie as int))
                by (nonlinear_arith);
            assert(-10000000000000000000000000 <= (z.superficie as int) * (v as int)
                <= 10000000000000000000000000);
        }
        num = num + (z.superficie as i128) * (v as i128);
        j += 1;
    }
    num
}

/// The sum of the twelve monthly aggregates of one floor.
fn suma_anual(p: &PlantaLIDER, ed: &EdificioLIDER, cal: bool) -> (r: i64)
    requires
        edificio_bien(*ed),
        planta_bien(ed.zonas@, *p),
    ensures
        r as int == planta_anual_espec(*ed, *p, cal),
{
    let meses = meses_planta(p, ed, cal);
    let mut acc: i64 = 0;
    let mut m: usize = 0;
    while m < 12
        invariant
            0 <= m <= 12,
            meses@.len() == 12,
            forall|k: int|
                0 <= k < 12 ==> (#[trigger] meses@[k]) as int == planta_mes_espec(*ed, *p, k, cal),
            acc as int == suma_meses_planta(*ed, *p, m as int, cal),
            -((m as int) * (TOPE_VALOR as int)) <= acc as int <= (m as int) * (TOPE_VALOR as int),
            edificio_bien(*ed),
            planta_bien(ed.zonas@, *p),
        decreases 12 - m,
    {
        proof {
            lema_mes_espec_acotado(*ed, *p, m as int, cal);
        }
        acc = acc + meses[m];
        m += 1;
    }
    acc
}

/// Every monthly aggregate lies within the value cap.
proof fn lema_mes_espec_acotado(e: EdificioLIDER, p: PlantaLIDER, m: int, cal: bool)
    requires
        edificio_bien(e),
        planta_bien(e.zonas@, p),
        0 <= m < 12,
    ensures
        -(TOPE_VALOR as int) <= planta_mes_espec(e, p, m, cal) <= TOPE_VALOR as int,
{
    let n = p.zonas@.len() as int;
    let fp = planta_superficie_espec(e, p);
    if fp > 0 {
        lema_suma_mes_acotada(e.zonas@, p.zonas@, n, m, cal);
        assert(-((TOPE_VALOR as int) * fp) == -(TOPE_VALOR as int) * fp) by (nonlinear_arith);
        lema_div_trunc_acotado(suma_mes(e.zonas@, p.zonas@, n, m, cal), fp, TOPE_VALOR as int);
    }
}

impl EdificioLIDER {
    /// The breakdown aggregate of the building: floor breakdowns scaled
    /// by their surfaces, divided by the stated building surface;
    /// exactly zero for a building without stated surface. The machine
    /// bound asks that the stated surface cover the zone-aggregated
    /// surface: the quotient is then within the value cap and fits the
    /// result type; `superficie_cubierta` tests the bound.
    #[verifier::rlimit(100)]
    pub fn conceptos(&self) -> (r: Conceptos)
        requires
            edificio_bien(*self),
            ed_suma_superficies(*self, self.plantas@.len() as int) <= self.superficie as int,
        ensures
            cg(r) == edificio_conceptos_espec(*self),
    {
        let nf: usize = self.plantas.len();
        let mut acc = ConceptosAcc::cero();
        let mut j: usize = 0;
        while j < nf
            invariant
                0 <= j <= nf,
                nf == self.plantas@.len(),
                nf <= 1000,
                edificio_bien(*self),
                ca(acc) == ed_suma_concep(*self, j as int),
                cg_acotado(ca(acc), (j as int) * 10000000000000000000000000000000),
            decreases nf - j,
        {
            let p = &self.plantas[j];
            proof {
                assert(planta_bien(self.zonas@, self.plantas@[j as int]));
            }
            let fp = p.superficie(self);
            let c = p.conceptos(self);
            proof {
                lema_planta_conceptos_acotado(*self, self.plantas@[j as int]);
                lema_cg_acotado_ensancha(
                    ca(acc),
                    (j as int) * 10000000000000000000000000000000,
                    1000000000000000000000000000000000000,
                );
            }
            let ghost acc_antes = ca(acc);
            acc.acumula(&c, fp);
            proof {
                lema_escala_cg_acotada(cg(c), fp as int, TOPE_VALOR as int);
                assert((TOPE_VALOR as int) * (fp as int) <= 10000000000000000000000000000000)
                    by (nonlinear_arith)
                    requires
                        0 <= fp as int <= 1000000000000000000,
                ;
                lema_cg_suma_acotada(
                    acc_antes,
                    cg_escala(cg(c), fp as int),
                    (j as int) * 10000000000000000000000000000000,
                    10000000000000000000000000000000,
                );
            }
            j += 1;
        }
        if self.superficie == 0 {
            return Conceptos::cero();
        }
        proof {
            lema_ed_suma_concep_acotada(*self, nf as int);
            lema_tope_monotono(
                ed_suma_superficies(*self, nf as int),
                self.superficie as int,
                ca(acc),
            );
        }
        acc.divide(self.superficie as i128)
    }

    /// Whether the stated building surface covers the surface aggregated
    /// bottom-up from the zones. It does for every consistent summary,
    /// whose total row is the sum of its zone rows; the building
    /// breakdown quotient is machine-representable exactly then.
    pub fn superficie_cubierta(&self) -> (r: bool)
        requires
            edificio_bien(*self),
        ensures
            r == (ed_suma_superficies(*self, self.plantas@.len() as int)
                <= self.superficie as int),
    {
        let nf: usize = self.plantas.len();
        let mut total: i128 = 0;
        let mut j: usize = 0;
        while j < nf
            invariant
                0 <= j <= nf,
                nf == self.plantas@.len(),
                nf <= 1000,
                edificio_bien(*self),
                total as int == ed_suma_superficies(*self, j as int),
                0 <= total as int <= (j as int) * 1000000000000000000,
            decreases nf - j,
        {
            let p = &self.plantas[j];
            proof {
                assert(planta_bien(self.zonas@, self.plantas@[j as int]));
            }
            let fp = p.superficie(self);
            total = total + (fp as i128);
            j += 1;
        }
        total <= self.superficie as i128
    }
}

/// Widening the weight bound widens the cap-scaled bound.
proof fn lema_tope_monotono(chico: int, grande: int, a: ConceptosG)
    requires
        chico <= grande,
        cg_acotado(a, (TOPE_VALOR as int) * chico),
    ensures
        cg_acotado(a, (TOPE_VALOR as int) * grande),
{
    assert((TOPE_VALOR as int) * chico <= (TOPE_VALOR as int) * grande) by (nonlinear_arith)
        requires
            chico <= grande,
    ;
}

/// The least of the first `n` entries of a monthly series; the empty
/// prefix yields the sentinel, the largest machine value.
pub open spec fn min_meses(s: Seq<i64>, n: int) -> int
    decreases n,
{
    if n <= 0 {
        i64::MAX as int
    } else {
        menor(min_meses(s, n - 1), s[n - 1] as int)
    }
}

/// The greatest of the first `n` entries; the empty prefix yields the
/// sentinel, the smallest machine value.
pub open spec fn max_meses(s: Seq<i64>, n: int) -> int
    decreases n,
{
    if n <= 0 {
        i64::MIN as int
    } else {
        mayor(max_meses(s, n - 1), s[n - 1] as int)
    }
}

/// The least monthly heating value over the first `n` zones.
pub open spec fn zonas_min_cal(zs: Seq<ZonaLIDER>, n: int) -> int
    decreases n,
{
    if n <= 0 {
        i64::MAX as int
    } else {
        menor(zonas_min_cal(zs, n - 1), min_meses(zs[n - 1].calefaccion_meses@, 12))
    }
}

/// The greatest monthly cooling value over the first `n` zones.
pub open spec fn zonas_max_ref(zs: Seq<ZonaLIDER>, n: int) -> int
    decreases n,
{
    if n <= 0 {
        i64::MIN as int
    } else {
        mayor(zonas_max_ref(zs, n - 1), max_meses(zs[n - 1].refrigeracion_meses@, 12))
    }
}

/// The least breakdown flow over the first `n` zones.
pub open spec fn zonas_min_conc(zs: Seq<ZonaLIDER>, n: int) -> int
    decreases n,
{
    if n <= 0 {
        i64::MAX as int
    } else {
        menor(zonas_min_conc(zs, n - 1), cg_min(cg(zs[n - 1].conceptos)))
    }
}

/// The greatest breakdown flow over the first `n` zones.
pub open spec fn zonas_max_conc(zs: Seq<ZonaLIDER>, n: int) -> int
    decreases n,
{
    if n <= 0 {
        i64::MIN as int
    } else {
        mayor(zonas_max_conc(zs, n - 1), cg_max(cg(zs[n - 1].conceptos)))
    }
}

impl EdificioLIDER {
    /// The least monthly heating value and the greatest monthly cooling
    /// value over all zones, for chart scaling. With no zones the result
    /// is the sentinel pair: the largest and the smallest machine value.
    pub fn minmaxmeses(&self) -> (r: (i64, i64))
        requires
            forall|i: int| 0 <= i < self.zonas@.len() ==> zona_bien(#[trigger] self.zonas@[i]),
        ensures
            r.0 as int == zonas_min_cal(self.zonas@, self.zonas@.len() as int),
            r.1 as int == zonas_max_ref(self.zonas@, self.zonas@.len() as int),
    {
        let n: usize = self.zonas.len();
        let mut mn: i64 = i64::MAX;
        let mut mx: i64 = i64::MIN;
        let mut j: usize = 0;
        while j < n
            invariant
                0 <= j <= n,
                n == self.zonas@.len(),
                forall|i: int| 0 <= i < n ==> zona_bien(#[trigger] self.zonas@[i]),
                mn as int == zonas_min_cal(self.zonas@, j as int),
                mx as int == zonas_max_ref(self.zonas@, j as int),
            decreases n - j,
        {
            let z = &self.zonas[j];
            let mut m: usize = 0;
            let mut zmn: i64 = i64::MAX;
            let mut zmx: i64 = i64::MIN;
            while m < 12
                invariant
                    0 <= m <= 12,
                    zona_bien(self.zonas@[j as int]),
                    z == self.zonas@[j as int],
                    zmn as int == min_meses(self.zonas@[j as int].calefaccion_meses@, m as int),
                    zmx as int == max_meses(self.zonas@[j as int].refrigeracion_meses@, m as int),
                decreases 12 - m,
            {
                let vc = z.calefaccion_meses[m];
                if vc < zmn {
                    zmn = vc;
                }
                let vr = z.refrigeracion_meses[m];
                if vr > zmx {
                    zmx = vr;
                }
                m += 1;
            }
            if zmn < mn {
                mn = zmn;
            }
            if zmx > mx {
                mx = zmx;
            }
            j += 1;
        }
        (mn, mx)
    }

    /// The least and greatest breakdown flow over all zones, for chart
    /// scaling. With no zones the result is the sentinel pair: the
    /// largest and the smallest machine value.
    pub fn minmaxconceptos(&self) -> (r: (i64, i64))
        ensures
            r.0 as int == zonas_min_conc(self.zonas@, self.zonas@.len() as int),
            r.1 as int == zonas_max_conc(self.zonas@, self.zonas@.len() as int),
    {
        let n: usize = self.zonas.len();
        let mut mn: i64 = i64::MAX;
        let mut mx: i64 = i64::MIN;
        let mut j: usize = 0;
        while j < n
            invariant
                0 <= j <= n,
                n == self.zonas@.len(),
                mn as int == zonas_min_conc(self.zonas@, j as int),
                mx as int == zonas_max_conc(self.zonas@, j as int),
            decreases n - j,
        {
            let par = self.zonas[j].conceptos.minmax();
            if par.0 < mn {
                mn = par.0;
            }
            if par.1 > mx {
                mx = par.1;
            }
            j += 1;
        }
        (mn, mx)
    }

    /// Basic figures of the named object: multiplier, surface, yearly
    /// heating and yearly cooling. A floor and the building always count
    /// once; an unknown floor or zone name yields nothing; an unknown
    /// kind code yields the zero tuple.
    pub fn basicdata(&self, mode: u8, nombre: &str) -> (r: Option<(i32, i64, i64, i64)>)
        requires
            edificio_bien(*self),
        ensures
            mode == TYPE_EDIFICIO ==> r == Some(
                (1i32, self.superficie, self.calefaccion, self.refrigeracion),
            ),
            mode == TYPE_PLANTA ==> {
                let ip = indice_planta(self.plantas@, nombre@);
                if ip == -1 {
                    r is None
                } else {
                    let p = self.plantas@[ip];
                    r matches Some(t) && t.0 == 1 && t.1 as int == planta_superficie_espec(
                        *self,
                        p,
                    ) && t.2 as int == planta_anual_espec(*self, p, true) && t.3 as int
                        == planta_anual_espec(*self, p, false)
                }
            },
            mode == TYPE_ZONA ==> {
                let iz = indice_zona(self.zonas@, nombre@);
                if iz == -1 {
                    r is None
                } else {
                    let z = self.zonas@[iz];
                    r == Some((z.multiplicador, z.superficie, z.calefaccion, z.refrigeracion))
                }
            },
            mode >= 3 ==> r == Some((0i32, 0i64, 0i64, 0i64)),
    {
        let nombre_s: String = nombre.to_owned();
        if mode == TYPE_EDIFICIO {
            return Some((1, self.superficie, self.calefaccion, self.refrigeracion));
        }
        if mode == TYPE_PLANTA {
            let p = match self.planta(&nombre_s) {
                Some(p) => p,
                None => {
                    return None;
                },
            };
            proof {
                crate::types::lema_indice_planta(self.plantas@, nombre_s@);
            }
            let sup = p.superficie(self);
            let cal = p.calefaccion(self);
            let refr = p.refrigeracion(self);
            return Some((1, sup, cal, refr));
        }
        if mode == TYPE_ZONA {
            let z = match self.zona(&nombre_s) {
                Some(z) => z,
                None => {
                    return None;
                },
            };
            return Some((z.multiplicador, z.superficie, z.calefaccion, z.refrigeracion));
        }
        Some((0, 0, 0, 0))
    }
}

/// A floor whose aggregated surface is zero yields exactly zero monthly
/// and breakdown aggregates: the guard short-circuits before any
/// division.
pub proof fn lema_planta_sin_superficie(e: EdificioLIDER, p: PlantaLIDER, m: int, cal: bool)
    requires
        planta_superficie_espec(e, p) == 0,
    ensures
        planta_mes_espec(e, p, m, cal) == 0,
        planta_anual_espec(e, p, cal) == 0,
        planta_conceptos_espec(e, p) == cg_cero(),
{
    assert forall|n: int| 0 <= n <= 12 implies #[trigger] suma_meses_planta(e, p, n, cal)
        == 0 by {
        lema_suma_meses_cero(e, p, n, cal);
    }
}

/// Every partial sum of zero monthly aggregates is zero.
proof fn lema_suma_meses_cero(e: EdificioLIDER, p: PlantaLIDER, n: int, cal: bool)
    requires
        planta_superficie_espec(e, p) == 0,
    ensures
        suma_meses_planta(e, p, n, cal) == 0,
    decreases n,
{
    if n > 0 {
        lema_suma_meses_cero(e, p, n - 1, cal);
    }
}

/// A building whose stated surface is zero yields exactly the zero
/// breakdown: the guard short-circuits before any division.
pub proof fn lema_edificio_sin_superficie(e: EdificioLIDER)
    requires
        e.superficie <= 0,
    ensures
        edificio_conceptos_espec(e) == cg_cero(),
{
}

/// When every zone of a floor has multiplier one and the same monthly
/// value, the floor's weighted monthly aggregate recovers that value
/// exactly. A floor with a repeated zone breaks the premise only through
/// its multiplier: the monthly weighting uses surface alone while the
/// divisor weighs multiplicity, so the identity needs unit multipliers.
pub proof fn lema_mes_uniforme(e: EdificioLIDER, p: PlantaLIDER, m: int, cal: bool, v: int)
    requires
        edificio_bien(e),
        planta_bien(e.zonas@, p),
        0 <= m < 12,
        planta_superficie_espec(e, p) > 0,
        forall|j: int|
            0 <= j < p.zonas@.len() ==> {
                let z = e.zonas@[indice_zona(e.zonas@, (#[trigger] p.zonas@[j])@)];
                z.multiplicador == 1 && mes_de(z, m, cal) == v
            },
    ensures
        planta_mes_espec(e, p, m, cal) == v,
{
    let n = p.zonas@.len() as int;
    let fp = planta_superficie_espec(e, p);
    lema_suma_mes_uniforme(e.zonas@, p.zonas@, n, m, cal, v);
    lema_div_trunc_exacto(v, fp);
}

/// The weighted monthly sum of a uniform floor is the value times the
/// weight sum.
proof fn lema_suma_mes_uniforme(
    zs: Seq<ZonaLIDER>,
    lista: Seq<String>,
    n: int,
    m: int,
    cal: bool,
    v: int,
)
    requires
        0 <= n <= lista.len(),
        forall|i: int| 0 <= i < zs.len() ==> zona_bien(#[trigger] zs[i]),
        forall|j: int| 0 <= j < lista.len() ==> indice_zona(zs, (#[trigger] lista[j])@) != -1,
        forall|j: int|
            0 <= j < lista.len() ==> {
                let z = zs[indice_zona(zs, (#[trigger] lista[j])@)];
                z.multiplicador == 1 && mes_de(z, m, cal) == v
            },
    ensures
        suma_mes(zs, lista, n, m, cal) == v * suma_pesos(zs, lista, n),
    decreases n,
{
    if n <= 0 {
        assert(v * 0 == 0) by (nonlinear_arith);
    } else {
        lema_suma_mes_uniforme(zs, lista, n - 1, m, cal, v);
        lema_indice_zona(zs, lista[n - 1]@);
        let z = zs[indice_zona(zs, lista[n - 1]@)];
        assert(z.multiplicador == 1 && mes_de(z, m, cal) == v);
        assert(peso(zs, lista[n - 1]@) == z.superficie) by (nonlinear_arith)
            requires
                z.multiplicador == 1,
                peso(zs, lista[n - 1]@) == z.multiplicador * z.superficie,
        ;
        assert(z.superficie * v == v * z.superficie) by (nonlinear_arith);
        lema_dist(v, suma_pesos(zs, lista, n - 1), z.superficie as int);
    }
}

/// The building footprint aggregated directly over the zone collection:
/// surface times multiplier summed over its first `k` zones.
pub open spec fn suma_pesos_zonas(zs: Seq<ZonaLIDER>, k: int) -> int
    decreases k,
{
    if k <= 0 {
        0
    } else {
        suma_pesos_zonas(zs, k - 1) + zs[k - 1].multiplicador * zs[k - 1].superficie
    }
}

/// Occurrences of a name among the first `n` entries of one floor list.
pub open spec fn cuenta_lista(lista: Seq<String>, nombre: Seq<char>, n: int) -> int
    decreases n,
{
    if n <= 0 {
        0
    } else {
        cuenta_lista(lista, nombre, n - 1) + if lista[n - 1]@ == nombre {
            1int
        } else {
            0int
        }
    }
}

/// Occurrences of a name over the zone lists of the first `n` floors.
pub open spec fn cuenta_plantas(e: EdificioLIDER, nombre: Seq<char>, n: int) -> int
    decreases n,
{
    if n <= 0 {
        0
    } else {
        cuenta_plantas(e, nombre, n - 1) + cuenta_lista(
            e.plantas@[n - 1].zonas@,
            nombre,
            e.plantas@[n - 1].zonas@.len() as int,
        )
    }
}

/// The weights of the first `k` zones, each scaled by how often one
/// floor-list prefix names that zone.
spec fn sp_cuentas(zs: Seq<ZonaLIDER>, k: int, lista: Seq<String>, n: int) -> int
    decreases k,
{
    if k <= 0 {
        0
    } else {
        sp_cuentas(zs, k - 1, lista, n) + cuenta_lista(lista, zs[k - 1].nombre@, n) * (zs[k
            - 1].multiplicador * zs[k - 1].superficie)
    }
}

/// The weights of the first `k` zones, each scaled by how often the
/// first `nf` floors name that zone.
spec fn sp_cuentas_pl(zs: Seq<ZonaLIDER>, k: int, e: EdificioLIDER, nf: int) -> int
    decreases k,
{
    if k <= 0 {
        0
    } else {
        sp_cuentas_pl(zs, k - 1, e, nf) + cuenta_plantas(e, zs[k - 1].nombre@, nf) * (zs[k
            - 1].multiplicador * zs[k - 1].superficie)
    }
}

/// An empty list prefix contributes nothing, whatever the zones.
proof fn lema_sp_cuentas_cero(zs: Seq<ZonaLIDER>, k: int, lista: Seq<String>)
    ensures
        sp_cuentas(zs, k, lista, 0) == 0,
    decreases k,
{
    if k > 0 {
        lema_sp_cuentas_cero(zs, k - 1, lista);
    }
}

/// No floors contribute nothing, whatever the zones.
proof fn lema_sp_pl_cero(zs: Seq<ZonaLIDER>, k: int, e: EdificioLIDER)
    ensures
        sp_cuentas_pl(zs, k, e, 0) == 0,
    decreases k,
{
    if k > 0 {
        lema_sp_pl_cero(zs, k - 1, e);
    }
}

/// Extending a floor-list prefix by one entry adds exactly the weight of
/// the zone that entry names, where that zone sits among the first `k`.
proof fn lema_sp_paso(zs: Seq<ZonaLIDER>, k: int, lista: Seq<String>, n: int)
    requires
        1 <= n <= lista.len(),
        0 <= k <= zs.len(),
        nombres_unicos(zs),
    ensures
        sp_cuentas(zs, k, lista, n) == sp_cuentas(zs, k, lista, n - 1) + ({
            let idx = indice_zona(zs, lista[n - 1]@);
            if 0 <= idx < k {
                zs[idx].multiplicador * zs[idx].superficie
            } else {
                0
            }
        }),
    decreases k,
{
    let objetivo = lista[n - 1]@;
    let idx = indice_zona(zs, objetivo);
    lema_indice_zona(zs, objetivo);
    if k > 0 {
        lema_sp_paso(zs, k - 1, lista, n);
        let c = cuenta_lista(lista, zs[k - 1].nombre@, n - 1);
        let sel: int = if objetivo == zs[k - 1].nombre@ {
            1
        } else {
            0
        };
        assert(cuenta_lista(lista, zs[k - 1].nombre@, n) == c + sel);
        let p = zs[k - 1].multiplicador * zs[k - 1].superficie;
        assert((c + sel) * p == c * p + sel * p) by (nonlinear_arith);
        if sel == 1 {
            // The entry names the zone at position k - 1; with unique
            // names that is the position the search finds.
            assert(zs[k - 1].nombre@ == objetivo);
            if idx == -1 {
                assert(zs[k - 1].nombre@ != objetivo);
            }
            assert(idx != -1);
            if idx != k - 1 {
                assert(zs[idx].nombre@ == objetivo);
                if idx < k - 1 {
                    assert(zs[idx].nombre@ != zs[k - 1].nombre@);
                } else {
                    assert(zs[k - 1].nombre@ != zs[idx].nombre@);
                }
            }
            assert(idx == k - 1);
            assert(1 * p == p) by (nonlinear_arith);
        } else {
            assert(0 * p == 0) by (nonlinear_arith);
            if idx == k - 1 {
                assert(zs[k - 1].nombre@ == objetivo);
            }
            assert(idx != k - 1);
        }
    }
}

/// A whole floor-list prefix distributes over the zone collection as
/// per-zone counts.
proof fn lema_sp_igual_suma(zs: Seq<ZonaLIDER>, lista: Seq<String>, n: int)
    requires
        0 <= n <= lista.len(),
        nombres_unicos(zs),
        forall|j: int| 0 <= j < lista.len() ==> indice_zona(zs, (#[trigger] lista[j])@) != -1,
    ensures
        suma_pesos(zs, lista, n) == sp_cuentas(zs, zs.len() as int, lista, n),
    decreases n,
{
    if n <= 0 {
        lema_sp_cuentas_cero(zs, zs.len() as int, lista);
    } else {
        lema_sp_igual_suma(zs, lista, n - 1);
        lema_sp_paso(zs, zs.len() as int, lista, n);
        lema_indice_zona(zs, lista[n - 1]@);
    }
}

/// Adding one floor adds its per-zone counts.
proof fn lema_sp_pl_paso(zs: Seq<ZonaLIDER>, k: int, e: EdificioLIDER, nf: int)
    requires
        1 <= nf <= e.plantas@.len(),
        0 <= k <= zs.len(),
    ensures
        sp_cuentas_pl(zs, k, e, nf) == sp_cuentas_pl(zs, k, e, nf - 1) + sp_cuentas(
            zs,
            k,
            e.plantas@[nf - 1].zonas@,
            e.plantas@[nf - 1].zonas@.len() as int,
        ),
    decreases k,
{
    if k > 0 {
        lema_sp_pl_paso(zs, k - 1, e, nf);
        let c = cuenta_plantas(e, zs[k - 1].nombre@, nf - 1);
        let d = cuenta_lista(
            e.plantas@[nf - 1].zonas@,
            zs[k - 1].nombre@,
            e.plantas@[nf - 1].zonas@.len() as int,
        );
        let p = zs[k - 1].multiplicador * zs[k - 1].superficie;
        assert((c + d) * p == c * p + d * p) by (nonlinear_arith);
    }
}

/// The floor surfaces summed over the first `nf` floors distribute over
/// the zone collection as total per-zone counts.
proof fn lema_ed_igual(e: EdificioLIDER, nf: int)
    requires
        edificio_bien(e),
        0 <= nf <= e.plantas@.len(),
    ensures
        ed_suma_superficies(e, nf) == sp_cuentas_pl(
            e.zonas@,
            e.zonas@.len() as int,
            e,
            nf,
        ),
    decreases nf,
{
    let zs = e.zonas@;
    if nf <= 0 {
        lema_sp_pl_cero(zs, zs.len() as int, e);
    } else {
        lema_ed_igual(e, nf - 1);
        let p = e.plantas@[nf - 1];
        assert(planta_bien(zs, p));
        lema_sp_igual_suma(zs, p.zonas@, p.zonas@.len() as int);
        lema_sp_pl_paso(zs, zs.len() as int, e, nf);
    }
}

/// When every zone is counted exactly once, the count-scaled sum is the
/// plain sum of the weights.
proof fn lema_sp_pl_unos(zs: Seq<ZonaLIDER>, k: int, e: EdificioLIDER, nf: int)
    requires
        0 <= k <= zs.len(),
        forall|i: int|
            0 <= i < zs.len() ==> cuenta_plantas(e, (#[trigger] zs[i]).nombre@, nf) == 1,
    ensures
        sp_cuentas_pl(zs, k, e, nf) == suma_pesos_zonas(zs, k),
    decreases k,
{
    if k > 0 {
        lema_sp_pl_unos(zs, k - 1, e, nf);
        let p = zs[k - 1].multiplicador * zs[k - 1].superficie;
        assert(cuenta_plantas(e, zs[k - 1].nombre@, nf) == 1);
        assert(1 * p == p) by (nonlinear_arith);
    }
}

/// For a fully partitioned building, where the floors' zone lists name
/// every zone exactly once, the sum of the floor surfaces is exactly the
/// building footprint aggregated directly over the zones.
pub proof fn lema_particion(e: EdificioLIDER)
    requires
        edificio_bien(e),
        forall|i: int|
            0 <= i < e.zonas@.len() ==> cuenta_plantas(
                e,
                (#[trigger] e.zonas@[i]).nombre@,
                e.plantas@.len() as int,
            ) == 1,
    ensures
        ed_suma_superficies(e, e.plantas@.len() as int) == suma_pesos_zonas(
            e.zonas@,
            e.zonas@.len() as int,
        ),
{
    lema_ed_igual(e, e.plantas@.len() as int);
    lema_sp_pl_unos(e.zonas@, e.zonas@.len() as int, e, e.plantas@.len() as int);
}

/// Twelve zero entries, the series of an absent selection.
pub open spec fn meses_cero_espec() -> Seq<i64> {
    Seq::new(12, |m: int| 0i64)
}

/// Twelve zero entries.
fn meses_cero() -> (r: Vec<i64>)
    ensures
        r@ == meses_cero_espec(),
{
    let r: Vec<i64> = vec![0; 12];
    proof {
        assert(r@ =~= meses_cero_espec());
    }
    r
}

/// A copy of one monthly series.
fn copia_serie(v: &Vec<i64>) -> (r: Vec<i64>)
    ensures
        r@ == v@,
{
    let mut r: Vec<i64> = Vec::new();
    let mut j: usize = 0;
    while j < v.len()
        invariant
            0 <= j <= v@.len(),
            r@ == v@.subrange(0, j as int),
        decreases v@.len() - j,
    {
        r.push(v[j]);
        proof {
            assert(r@ =~= v@.subrange(0, (j + 1) as int));
        }
        j += 1;
    }
    proof {
        assert(v@.subrange(0, v@.len() as int) =~= v@);
    }
    r
}

/// The flow-vector set of one breakdown, one entry per category.
fn fv_de_conceptos(c: &Conceptos) -> (r: FlujosVec)
    ensures
        fv_es_de(r, cg(*c)),
{
    let v = c.to_flows();
    proof {
        assert(vista_i64(v.calpos@) =~= serie_calpos(cg(*c)));
        assert(vista_i64(v.calneg@) =~= serie_calneg(cg(*c)));
        assert(vista_i64(v.calnet@) =~= serie_calnet(cg(*c)));
        assert(vista_i64(v.refpos@) =~= serie_refpos(cg(*c)));
        assert(vista_i64(v.refneg@) =~= serie_refneg(cg(*c)));
        assert(vista_i64(v.refnet@) =~= serie_refnet(cg(*c)));
    }
    v
}

/// The flow-vector set of one flow vector, a single entry per type.
fn fv_de_flujos(f: &Flujos) -> (r: FlujosVec)
    ensures
        fv_es_flujo(r, fg(*f)),
{
    let v = f.to_flows();
    proof {
        assert(vista_i64(v.calpos@) =~= seq![fg(*f).calpos]);
        assert(vista_i64(v.calneg@) =~= seq![fg(*f).calneg]);
        assert(vista_i64(v.calnet@) =~= seq![fg(*f).calnet]);
        assert(vista_i64(v.refpos@) =~= seq![fg(*f).refpos]);
        assert(vista_i64(v.refneg@) =~= seq![fg(*f).refneg]);
        assert(vista_i64(v.refnet@) =~= seq![fg(*f).refnet]);
    }
    v
}

/// The zero flow-vector set of an empty selection.
fn fv_cero() -> (r: FlujosVec)
    ensures
        fv_es_flujo(r, fg_cero()),
{
    let v = FlujosVec::cero();
    proof {
        assert(vista_i64(v.calpos@) =~= seq![0int]);
        assert(vista_i64(v.calneg@) =~= seq![0int]);
        assert(vista_i64(v.calnet@) =~= seq![0int]);
        assert(vista_i64(v.refpos@) =~= seq![0int]);
        assert(vista_i64(v.refneg@) =~= seq![0int]);
        assert(vista_i64(v.refnet@) =~= seq![0int]);
    }
    v
}

impl EdificioLIDER {
    /// The monthly heating and cooling series of the selected object:
    /// the building's own rows, a floor's aggregates, or a zone's rows;
    /// twelve zeros for an element, no selection, or an unknown name.
    pub fn calref_monthly_data(&self, tipo: TipoObjeto, nombre: &str) -> (r: (Vec<i64>, Vec<i64>))
        requires
            edificio_bien(*self),
        ensures
            tipo == TipoObjeto::Edificio ==> r.0@ == self.calefaccion_meses@ && r.1@
                == self.refrigeracion_meses@,
            tipo == TipoObjeto::Planta ==> ({
                let ip = indice_planta(self.plantas@, nombre@);
                if ip == -1 {
                    r.0@ == meses_cero_espec() && r.1@ == meses_cero_espec()
                } else {
                    r.0@.len() == 12 && r.1@.len() == 12 && (forall|m: int|
                        0 <= m < 12 ==> (#[trigger] r.0@[m]) as int == planta_mes_espec(
                            *self,
                            self.plantas@[ip],
                            m,
                            true,
                        )) && (forall|m: int|
                        0 <= m < 12 ==> (#[trigger] r.1@[m]) as int == planta_mes_espec(
                            *self,
                            self.plantas@[ip],
                            m,
                            false,
                        ))
                }
            }),
            tipo == TipoObjeto::Zona ==> ({
                let iz = indice_zona(self.zonas@, nombre@);
                if iz == -1 {
                    r.0@ == meses_cero_espec() && r.1@ == meses_cero_espec()
                } else {
                    r.0@ == self.zonas@[iz].calefaccion_meses@ && r.1@
                        == self.zonas@[iz].refrigeracion_meses@
                }
            }),
            tipo == TipoObjeto::Elemento || tipo == TipoObjeto::Ninguno ==> r.0@
                == meses_cero_espec() && r.1@ == meses_cero_espec(),
    {
        let nombre_s: String = nombre.to_owned();
        match tipo {
            TipoObjeto::Edificio => (
                copia_serie(&self.calefaccion_meses),
                copia_serie(&self.refrigeracion_meses),
            ),
            TipoObjeto::Planta => {
                match self.planta(&nombre_s) {
                    Some(p) => {
                        proof {
                            let ip = indice_planta(self.plantas@, nombre_s@);
                            crate::types::lema_indice_planta(self.plantas@, nombre_s@);
                            assert(planta_bien(self.zonas@, self.plantas@[ip]));
                        }
                        (p.calefaccion_meses(self), p.refrigeracion_meses(self))
                    },
                    None => (meses_cero(), meses_cero()),
                }
            },
            TipoObjeto::Zona => {
                match self.zona(&nombre_s) {
                    Some(z) => (
                        copia_serie(&z.calefaccion_meses),
                        copia_serie(&z.refrigeracion_meses),
                    ),
                    None => (meses_cero(), meses_cero()),
                }
            },
            TipoObjeto::Elemento => (meses_cero(), meses_cero()),
            TipoObjeto::Ninguno => (meses_cero(), meses_cero()),
        }
    }

    /// The per-category (or single-element) flow series of the selected
    /// object: the building or floor aggregates, a zone's breakdown, or
    /// one element's flows located through its zone; single zero entries
    /// for no selection or an unknown name.
    pub fn concepts_data(&self, tipo: TipoObjeto, nombre: &str, zona_actual: &str) -> (r:
        FlujosVec)
        requires
            edificio_bien(*self),
        ensures
            tipo == TipoObjeto::Edificio ==> ({
                if ed_suma_superficies(*self, self.plantas@.len() as int)
                    <= self.superficie as int {
                    fv_es_de(r, edificio_conceptos_espec(*self))
                } else {
                    fv_es_flujo(r, fg_cero())
                }
            }),
            tipo == TipoObjeto::Planta ==> ({
                let ip = indice_planta(self.plantas@, nombre@);
                if ip == -1 {
                    fv_es_flujo(r, fg_cero())
                } else {
                    fv_es_de(r, planta_conceptos_espec(*self, self.plantas@[ip]))
                }
            }),
            tipo == TipoObjeto::Zona ==> ({
                let iz = indice_zona(self.zonas@, nombre@);
                if iz == -1 {
                    fv_es_flujo(r, fg_cero())
                } else {
                    fv_es_de(r, cg(self.zonas@[iz].conceptos))
                }
            }),
            tipo == TipoObjeto::Elemento ==> ({
                let iz = indice_zona(self.zonas@, zona_actual@);
                if iz == -1 {
                    fv_es_flujo(r, fg_cero())
                } else {
                    let ie = indice_elemento(self.zonas@[iz].elementos@, nombre@);
                    if ie == -1 {
                        fv_es_flujo(r, fg_cero())
                    } else {
                        fv_es_flujo(r, fg(self.zonas@[iz].elementos@[ie].flujos))
                    }
                }
            }),
            tipo == TipoObjeto::Ninguno ==> fv_es_flujo(r, fg_cero()),
    {
        let nombre_s: String = nombre.to_owned();
        match tipo {
            TipoObjeto::Edificio => {
                // A summary whose total row does not cover its zone rows
                // cannot be normalised within the machine range; the
                // selection then reads as empty, like an unknown name.
                if self.superficie_cubierta() {
                    let c = self.conceptos();
                    fv_de_conceptos(&c)
                } else {
                    fv_cero()
                }
            },
            TipoObjeto::Planta => {
                match self.planta(&nombre_s) {
                    Some(p) => {
                        proof {
                            let ip = indice_planta(self.plantas@, nombre_s@);
                            crate::types::lema_indice_planta(self.plantas@, nombre_s@);
                            assert(planta_bien(self.zonas@, self.plantas@[ip]));
                        }
                        let c = p.conceptos(self);
                        fv_de_conceptos(&c)
                    },
                    None => fv_cero(),
                }
            },
            TipoObjeto::Zona => {
                match self.zona(&nombre_s) {
                    Some(z) => fv_de_conceptos(&z.conceptos),
                    None => fv_cero(),
                }
            },
            TipoObjeto::Elemento => {
                let zona_s: String = zona_actual.to_owned();
                match self.zona(&zona_s) {
                    Some(z) => {
                        match z.elemento(&nombre_s) {
                            Some(el) => fv_de_flujos(&el.flujos),
                            None => fv_cero(),
                        }
                    },
                    None => fv_cero(),
                }
            },
            TipoObjeto::Ninguno => fv_cero(),
        }
    }
}

} // verus!
