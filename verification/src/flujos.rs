//! Flow vectors and their demand-category breakdown.
//!
//! A `Flujos` holds the six seasonal energy flows of one object; a
//! `Conceptos` names one `Flujos` per demand category. Both form a small
//! vector algebra: componentwise addition and scalar multiplication, from
//! which every roll-up of the model is built. The ghost mirrors `FlujosG`
//! and `ConceptosG` state the same values over unbounded integers.

use vstd::prelude::*;

use crate::bytes::{
    ascii_bytes_de, ascii_seq, dividir_comas, dividir_primero, divide_comas, primera,
    quitar_comillas, recorta, recortar, sin_comillas, son_iguales,
};
use crate::error::LiderError;
use crate::latin1::latin1_a_texto;
use crate::num::{decimal_de, es_decimal, valor_micro, TOPE_VALOR};

verus! {

/// The six seasonal flows over unbounded integers, in millionths.
pub struct FlujosG {
    pub calpos: int,
    pub calneg: int,
    pub calnet: int,
    pub refpos: int,
    pub refneg: int,
    pub refnet: int,
}

/// The nine demand categories over unbounded integers.
pub struct ConceptosG {
    pub pext: FlujosG,
    pub cub: FlujosG,
    pub suelos: FlujosG,
    pub pts: FlujosG,
    pub huecos_solar: FlujosG,
    pub huecos_trans: FlujosG,
    pub fint: FlujosG,
    pub vent: FlujosG,
    pub total: FlujosG,
}

/// Truncating division: the quotient is rounded toward zero.
pub open spec fn div_trunc(n: int, d: int) -> int {
    if n >= 0 {
        n / d
    } else {
        -((-n) / d)
    }
}

/// The smaller of two integers.
pub open spec fn menor(a: int, b: int) -> int {
    if a <= b {
        a
    } else {
        b
    }
}

/// The larger of two integers.
pub open spec fn mayor(a: int, b: int) -> int {
    if a >= b {
        a
    } else {
        b
    }
}

pub open spec fn fg_cero() -> FlujosG {
    FlujosG { calpos: 0, calneg: 0, calnet: 0, refpos: 0, refneg: 0, refnet: 0 }
}

pub open spec fn fg_suma(a: FlujosG, b: FlujosG) -> FlujosG {
    FlujosG {
        calpos: a.calpos + b.calpos,
        calneg: a.calneg + b.calneg,
        calnet: a.calnet + b.calnet,
        refpos: a.refpos + b.refpos,
        refneg: a.refneg + b.refneg,
        refnet: a.refnet + b.refnet,
    }
}

pub open spec fn fg_escala(a: FlujosG, k: int) -> FlujosG {
    FlujosG {
        calpos: a.calpos * k,
        calneg: a.calneg * k,
        calnet: a.calnet * k,
        refpos: a.refpos * k,
        refneg: a.refneg * k,
        refnet: a.refnet * k,
    }
}

pub open spec fn fg_div(a: FlujosG, d: int) -> FlujosG {
    FlujosG {
        calpos: div_trunc(a.calpos, d),
        calneg: div_trunc(a.calneg, d),
        calnet: div_trunc(a.calnet, d),
        refpos: div_trunc(a.refpos, d),
        refneg: div_trunc(a.refneg, d),
        refnet: div_trunc(a.refnet, d),
    }
}

/// Componentwise addition stays within the machine range.
pub open spec fn fg_suma_cabe(a: FlujosG, b: FlujosG) -> bool {
    &&& i64::MIN <= a.calpos + b.calpos <= i64::MAX
    &&& i64::MIN <= a.calneg + b.calneg <= i64::MAX
    &&& i64::MIN <= a.calnet + b.calnet <= i64::MAX
    &&& i64::MIN <= a.refpos + b.refpos <= i64::MAX
    &&& i64::MIN <= a.refneg + b.refneg <= i64::MAX
    &&& i64::MIN <= a.refnet + b.refnet <= i64::MAX
}

/// Componentwise scaling stays within the machine range.
pub open spec fn fg_escala_cabe(a: FlujosG, k: int) -> bool {
    &&& i64::MIN <= a.calpos * k <= i64::MAX
    &&& i64::MIN <= a.calneg * k <= i64::MAX
    &&& i64::MIN <= a.calnet * k <= i64::MAX
    &&& i64::MIN <= a.refpos * k <= i64::MAX
    &&& i64::MIN <= a.refneg * k <= i64::MAX
    &&& i64::MIN <= a.refnet * k <= i64::MAX
}

/// Every component has magnitude at most `c`.
pub open spec fn fg_acotado(a: FlujosG, c: int) -> bool {
    &&& -c <= a.calpos <= c
    &&& -c <= a.calneg <= c
    &&& -c <= a.calnet <= c
    &&& -c <= a.refpos <= c
    &&& -c <= a.refneg <= c
    &&& -c <= a.refnet <= c
}

/// The least of the six flows.
pub open spec fn fg_min(a: FlujosG) -> int {
    menor(
        menor(menor(a.calpos, a.calneg), menor(a.calnet, a.refpos)),
        menor(a.refneg, a.refnet),
    )
}

/// The greatest of the six flows.
pub open spec fn fg_max(a: FlujosG) -> int {
    mayor(
        mayor(mayor(a.calpos, a.calneg), mayor(a.calnet, a.refpos)),
        mayor(a.refneg, a.refnet),
    )
}

pub open spec fn cg_cero() -> ConceptosG {
    ConceptosG {
        pext: fg_cero(),
        cub: fg_cero(),
        suelos: fg_cero(),
        pts: fg_cero(),
        huecos_solar: fg_cero(),
        huecos_trans: fg_cero(),
        fint: fg_cero(),
        vent: fg_cero(),
        total: fg_cero(),
    }
}

pub open spec fn cg_suma(a: ConceptosG, b: ConceptosG) -> ConceptosG {
    ConceptosG {
        pext: fg_suma(a.pext, b.pext),
        cub: fg_suma(a.cub, b.cub),
        suelos: fg_suma(a.suelos, b.suelos),
        pts: fg_suma(a.pts, b.pts),
        huecos_solar: fg_suma(a.huecos_solar, b.huecos_solar),
        huecos_trans: fg_suma(a.huecos_trans, b.huecos_trans),
        fint: fg_suma(a.fint, b.fint),
        vent: fg_suma(a.vent, b.vent),
        total: fg_suma(a.total, b.total),
    }
}

pub open spec fn cg_escala(a: ConceptosG, k: int) -> ConceptosG {
    ConceptosG {
        pext: fg_escala(a.pext, k),
        cub: fg_escala(a.cub, k),
        suelos: fg_escala(a.suelos, k),
        pts: fg_escala(a.pts, k),
        huecos_solar: fg_escala(a.huecos_solar, k),
        huecos_trans: fg_escala(a.huecos_trans, k),
        fint: fg_escala(a.fint, k),
        vent: fg_escala(a.vent, k),
        total: fg_escala(a.total, k),
    }
}

pub open spec fn cg_div(a: ConceptosG, d: int) -> ConceptosG {
    ConceptosG {
        pext: fg_div(a.pext, d),
        cub: fg_div(a.cub, d),
        suelos: fg_div(a.suelos, d),
        pts: fg_div(a.pts, d),
        huecos_solar: fg_div(a.huecos_solar, d),
        huecos_trans: fg_div(a.huecos_trans, d),
        fint: fg_div(a.fint, d),
        vent: fg_div(a.vent, d),
        total: fg_div(a.total, d),
    }
}

/// Fieldwise addition stays within the machine range.
pub open spec fn cg_suma_cabe(a: ConceptosG, b: ConceptosG) -> bool {
    &&& fg_suma_cabe(a.pext, b.pext)
    &&& fg_suma_cabe(a.cub, b.cub)
    &&& fg_suma_cabe(a.suelos, b.suelos)
    &&& fg_suma_cabe(a.pts, b.pts)
    &&& fg_suma_cabe(a.huecos_solar, b.huecos_solar)
    &&& fg_suma_cabe(a.huecos_trans, b.huecos_trans)
    &&& fg_suma_cabe(a.fint, b.fint)
    &&& fg_suma_cabe(a.vent, b.vent)
    &&& fg_suma_cabe(a.total, b.total)
}

/// Fieldwise scaling stays within the machine range.
pub open spec fn cg_escala_cabe(a: ConceptosG, k: int) -> bool {
    &&& fg_escala_cabe(a.pext, k)
    &&& fg_escala_cabe(a.cub, k)
    &&& fg_escala_cabe(a.suelos, k)
    &&& fg_escala_cabe(a.pts, k)
    &&& fg_escala_cabe(a.huecos_solar, k)
    &&& fg_escala_cabe(a.huecos_trans, k)
    &&& fg_escala_cabe(a.fint, k)
    &&& fg_escala_cabe(a.vent, k)
    &&& fg_escala_cabe(a.total, k)
}

pub open spec fn cg_acotado(a: ConceptosG, c: int) -> bool {
    &&& fg_acotado(a.pext, c)
    &&& fg_acotado(a.cub, c)
    &&& fg_acotado(a.suelos, c)
    &&& fg_acotado(a.pts, c)
    &&& fg_acotado(a.huecos_solar, c)
    &&& fg_acotado(a.huecos_trans, c)
    &&& fg_acotado(a.fint, c)
    &&& fg_acotado(a.vent, c)
    &&& fg_acotado(a.total, c)
}

/// The least flow over all nine categories.
pub open spec fn cg_min(a: ConceptosG) -> int {
    menor(
        menor(
            menor(menor(fg_min(a.pext), fg_min(a.cub)), menor(fg_min(a.suelos), fg_min(a.pts))),
            menor(
                menor(fg_min(a.huecos_solar), fg_min(a.huecos_trans)),
                menor(fg_min(a.fint), fg_min(a.vent)),
            ),
        ),
        fg_min(a.total),
    )
}

/// The greatest flow over all nine categories.
pub open spec fn cg_max(a: ConceptosG) -> int {
    mayor(
        mayor(
            mayor(mayor(fg_max(a.pext), fg_max(a.cub)), mayor(fg_max(a.suelos), fg_max(a.pts))),
            mayor(
                mayor(fg_max(a.huecos_solar), fg_max(a.huecos_trans)),
                mayor(fg_max(a.fint), fg_max(a.vent)),
            ),
        ),
        fg_max(a.total),
    )
}

/// Energy flows of one object over one year, by season and direction, in
/// millionths of a kWh per year.
#[derive(Debug, Clone, Copy, PartialEq, Eq, Structural)]
pub struct Flujos {
    /// Gains over the heating season.
    pub calpos: i64,
    /// Losses over the heating season.
    pub calneg: i64,
    /// Net flow over the heating season.
    pub calnet: i64,
    /// Gains over the cooling season.
    pub refpos: i64,
    /// Losses over the cooling season.
    pub refneg: i64,
    /// Net flow over the cooling season.
    pub refnet: i64,
}

/// The ghost value of a `Flujos`.
pub open spec fn fg(f: Flujos) -> FlujosG {
    FlujosG {
        calpos: f.calpos as int,
        calneg: f.calneg as int,
        calnet: f.calnet as int,
        refpos: f.refpos as int,
        refneg: f.refneg as int,
        refnet: f.refnet as int,
    }
}

impl Flujos {
    /// The zero flow vector.
    pub fn cero() -> (r: Flujos)
        ensures
            fg(r) == fg_cero(),
    {
        Flujos { calpos: 0, calneg: 0, calnet: 0, refpos: 0, refneg: 0, refnet: 0 }
    }

    /// Componentwise addition.
    pub fn suma(&self, otro: &Flujos) -> (r: Flujos)
        requires
            i64::MIN <= self.calpos + otro.calpos <= i64::MAX,
            i64::MIN <= self.calneg + otro.calneg <= i64::MAX,
            i64::MIN <= self.calnet + otro.calnet <= i64::MAX,
            i64::MIN <= self.refpos + otro.refpos <= i64::MAX,
            i64::MIN <= self.refneg + otro.refneg <= i64::MAX,
            i64::MIN <= self.refnet + otro.refnet <= i64::MAX,
        ensures
            fg(r) == fg_suma(fg(*self), fg(*otro)),
    {
        Flujos {
            calpos: self.calpos + otro.calpos,
            calneg: self.calneg + otro.calneg,
            calnet: self.calnet + otro.calnet,
            refpos: self.refpos + otro.refpos,
            refneg: self.refneg + otro.refneg,
            refnet: self.refnet + otro.refnet,
        }
    }

    /// Componentwise multiplication by a scalar.
    pub fn escala(&self, k: i64) -> (r: Flujos)
        requires
            i64::MIN <= self.calpos * k <= i64::MAX,
            i64::MIN <= self.calneg * k <= i64::MAX,
            i64::MIN <= self.calnet * k <= i64::MAX,
            i64::MIN <= self.refpos * k <= i64::MAX,
            i64::MIN <= self.refneg * k <= i64::MAX,
            i64::MIN <= self.refnet * k <= i64::MAX,
        ensures
            fg(r) == fg_escala(fg(*self), k as int),
    {
        Flujos {
            calpos: self.calpos * k,
            calneg: self.calneg * k,
            calnet: self.calnet * k,
            refpos: self.refpos * k,
            refneg: self.refneg * k,
            refnet: self.refnet * k,
        }
    }

    /// The least and the greatest of the six flows.
    pub fn minmax(&self) -> (r: (i64, i64))
        ensures
            r.0 as int == fg_min(fg(*self)),
            r.1 as int == fg_max(fg(*self)),
    {
        let mut mn: i64 = self.calpos;
        let mut mx: i64 = self.calpos;
        if self.calneg < mn {
            mn = self.calneg;
        }
        if self.calneg > mx {
            mx = self.calneg;
        }
        if self.calnet < mn {
            mn = self.calnet;
        }
        if self.calnet > mx {
            mx = self.calnet;
        }
        if self.refpos < mn {
            mn = self.refpos;
        }
        if self.refpos > mx {
            mx = self.refpos;
        }
        if self.refneg < mn {
            mn = self.refneg;
        }
        if self.refneg > mx {
            mx = self.refneg;
        }
        if self.refnet < mn {
            mn = self.refnet;
        }
        if self.refnet > mx {
            mx = self.refnet;
        }
        (mn, mx)
    }

    /// One-element flow vectors per flow type.
    pub fn to_flows(&self) -> (r: FlujosVec)
        ensures
            r.calpos@ == seq![self.calpos],
            r.calneg@ == seq![self.calneg],
            r.calnet@ == seq![self.calnet],
            r.refpos@ == seq![self.refpos],
            r.refneg@ == seq![self.refneg],
            r.refnet@ == seq![self.refnet],
    {
        let mut calpos: Vec<i64> = Vec::new();
        calpos.push(self.calpos);
        let mut calneg: Vec<i64> = Vec::new();
        calneg.push(self.calneg);
        let mut calnet: Vec<i64> = Vec::new();
        calnet.push(self.calnet);
        let mut refpos: Vec<i64> = Vec::new();
        refpos.push(self.refpos);
        let mut refneg: Vec<i64> = Vec::new();
        refneg.push(self.refneg);
        let mut refnet: Vec<i64> = Vec::new();
        refnet.push(self.refnet);
        proof {
            assert(calpos@ =~= seq![self.calpos]);
            assert(calneg@ =~= seq![self.calneg]);
            assert(calnet@ =~= seq![self.calnet]);
            assert(refpos@ =~= seq![self.refpos]);
            assert(refneg@ =~= seq![self.refneg]);
            assert(refnet@ =~= seq![self.refnet]);
        }
        FlujosVec { calpos, calneg, calnet, refpos, refneg, refnet }
    }
}

impl Default for Flujos {
    /// The zero flow vector.
    fn default() -> (r: Flujos)
        ensures
            fg(r) == fg_cero(),
    {
        Flujos::cero()
    }
}

/// Flow values per flow type, one entry per plotted object.
#[derive(Debug, Clone, PartialEq, Eq)]
pub struct FlujosVec {
    pub calpos: Vec<i64>,
    pub calneg: Vec<i64>,
    pub calnet: Vec<i64>,
    pub refpos: Vec<i64>,
    pub refneg: Vec<i64>,
    pub refnet: Vec<i64>,
}

impl FlujosVec {
    /// Single zero entries, as for an empty selection.
    pub fn cero() -> (r: FlujosVec)
        ensures
            r.calpos@ == seq![0i64],
            r.calneg@ == seq![0i64],
            r.calnet@ == seq![0i64],
            r.refpos@ == seq![0i64],
            r.refneg@ == seq![0i64],
            r.refnet@ == seq![0i64],
    {
        Flujos::cero().to_flows()
    }
}

impl Default for FlujosVec {
    /// Single zero entries, as for an empty selection.
    fn default() -> (r: FlujosVec)
        ensures
            r.calpos@ == seq![0i64],
            r.calneg@ == seq![0i64],
            r.calnet@ == seq![0i64],
            r.refpos@ == seq![0i64],
            r.refneg@ == seq![0i64],
            r.refnet@ == seq![0i64],
    {
        FlujosVec::cero()
    }
}

/// Heat flows grouped by the nine demand categories, each a `Flujos` in
/// millionths of a kWh per year.
#[derive(Debug, Clone, Copy, PartialEq, Eq, Structural)]
pub struct Conceptos {
    /// Exterior walls.
    pub pext: Flujos,
    /// Roofs.
    pub cub: Flujos,
    /// Floors.
    pub suelos: Flujos,
    /// Thermal bridges.
    pub pts: Flujos,
    /// Solar gain through glazing.
    pub huecos_solar: Flujos,
    /// Transmission through glazing.
    pub huecos_trans: Flujos,
    /// Internal sources.
    pub fint: Flujos,
    /// Ventilation and infiltration.
    pub vent: Flujos,
    /// Total of the categories.
    pub total: Flujos,
}

/// The ghost value of a `Conceptos`.
pub open spec fn cg(c: Conceptos) -> ConceptosG {
    ConceptosG {
        pext: fg(c.pext),
        cub: fg(c.cub),
        suelos: fg(c.suelos),
        pts: fg(c.pts),
        huecos_solar: fg(c.huecos_solar),
        huecos_trans: fg(c.huecos_trans),
        fint: fg(c.fint),
        vent: fg(c.vent),
        total: fg(c.total),
    }
}

impl Conceptos {
    /// The zero breakdown.
    pub fn cero() -> (r: Conceptos)
        ensures
            cg(r) == cg_cero(),
    {
        Conceptos {
            pext: Flujos::cero(),
            cub: Flujos::cero(),
            suelos: Flujos::cero(),
            pts: Flujos::cero(),
            huecos_solar: Flujos::cero(),
            huecos_trans: Flujos::cero(),
            fint: Flujos::cero(),
            vent: Flujos::cero(),
            total: Flujos::cero(),
        }
    }

    /// Fieldwise addition.
    pub fn suma(&self, otro: &Conceptos) -> (r: Conceptos)
        requires
            cg_suma_cabe(cg(*self), cg(*otro)),
        ensures
            cg(r) == cg_suma(cg(*self), cg(*otro)),
    {
        Conceptos {
            pext: self.pext.suma(&otro.pext),
            cub: self.cub.suma(&otro.cub),
            suelos: self.suelos.suma(&otro.suelos),
            pts: self.pts.suma(&otro.pts),
            huecos_solar: self.huecos_solar.suma(&otro.huecos_solar),
            huecos_trans: self.huecos_trans.suma(&otro.huecos_trans),
            fint: self.fint.suma(&otro.fint),
            vent: self.vent.suma(&otro.vent),
            total: self.total.suma(&otro.total),
        }
    }

    /// Fieldwise multiplication by a scalar.
    pub fn escala(&self, k: i64) -> (r: Conceptos)
        requires
            cg_escala_cabe(cg(*self), k as int),
        ensures
            cg(r) == cg_escala(cg(*self), k as int),
    {
        Conceptos {
            pext: self.pext.escala(k),
            cub: self.cub.escala(k),
            suelos: self.suelos.escala(k),
            pts: self.pts.escala(k),
            huecos_solar: self.huecos_solar.escala(k),
            huecos_trans: self.huecos_trans.escala(k),
            fint: self.fint.escala(k),
            vent: self.vent.escala(k),
            total: self.total.escala(k),
        }
    }

    /// The least and the greatest flow over all nine categories.
    pub fn minmax(&self) -> (r: (i64, i64))
        ensures
            r.0 as int == cg_min(cg(*self)),
            r.1 as int == cg_max(cg(*self)),
    {
        let (mut mn, mut mx): (i64, i64) = self.pext.minmax();
        let par = self.cub.minmax();
        if par.0 < mn {
            mn = par.0;
        }
        if par.1 > mx {
            mx = par.1;
        }
        let par = self.suelos.minmax();
        if par.0 < mn {
            mn = par.0;
        }
        if par.1 > mx {
            mx = par.1;
        }
        let par = self.pts.minmax();
        if par.0 < mn {
            mn = par.0;
        }
        if par.1 > mx {
            mx = par.1;
        }
        let par = self.huecos_solar.minmax();
        if par.0 < mn {
            mn = par.0;
        }
        if par.1 > mx {
            mx = par.1;
        }
        let par = self.huecos_trans.minmax();
        if par.0 < mn {
            mn = par.0;
        }
        if par.1 > mx {
            mx = par.1;
        }
        let par = self.fint.minmax();
        if par.0 < mn {
            mn = par.0;
        }
        if par.1 > mx {
            mx = par.1;
        }
        let par = self.vent.minmax();
        if par.0 < mn {
            mn = par.0;
        }
        if par.1 > mx {
            mx = par.1;
        }
        let par = self.total.minmax();
        if par.0 < mn {
            mn = par.0;
        }
        if par.1 > mx {
            mx = par.1;
        }
        (mn, mx)
    }

    /// Flow vectors per flow type with one entry per category, in the
    /// category order of the breakdown.
    pub fn to_flows(&self) -> (r: FlujosVec)
        ensures
            r.calpos@ == seq![
                self.pext.calpos,
                self.cub.calpos,
                self.suelos.calpos,
                self.pts.calpos,
                self.huecos_solar.calpos,
                self.huecos_trans.calpos,
                self.fint.calpos,
                self.vent.calpos,
                self.total.calpos,
            ],
            r.calneg@ == seq![
                self.pext.calneg,
                self.cub.calneg,
                self.suelos.calneg,
                self.pts.calneg,
                self.huecos_solar.calneg,
                self.huecos_trans.calneg,
                self.fint.calneg,
                self.vent.calneg,
                self.total.calneg,
            ],
            r.calnet@ == seq![
                self.pext.calnet,
                self.cub.calnet,
                self.suelos.calnet,
                self.pts.calnet,
                self.huecos_solar.calnet,
                self.huecos_trans.calnet,
                self.fint.calnet,
                self.vent.calnet,
                self.total.calnet,
            ],
            r.refpos@ == seq![
                self.pext.refpos,
                self.cub.refpos,
                self.suelos.refpos,
                self.pts.refpos,
                self.huecos_solar.refpos,
                self.huecos_trans.refpos,
                self.fint.refpos,
                self.vent.refpos,
                self.total.refpos,
            ],
            r.refneg@ == seq![
                self.pext.refneg,
                self.cub.refneg,
                self.suelos.refneg,
                self.pts.refneg,
                self.huecos_solar.refneg,
                self.huecos_trans.refneg,
                self.fint.refneg,
                self.vent.refneg,
                self.total.refneg,
            ],
            r.refnet@ == seq![
                self.pext.refnet,
                self.cub.refnet,
                self.suelos.refnet,
                self.pts.refnet,
                self.huecos_solar.refnet,
                self.huecos_trans.refnet,
                self.fint.refnet,
                self.vent.refnet,
                self.total.refnet,
            ],
    {
        let mut calpos: Vec<i64> = Vec::new();
        let mut calneg: Vec<i64> = Vec::new();
        let mut calnet: Vec<i64> = Vec::new();
        let mut refpos: Vec<i64> = Vec::new();
        let mut refneg: Vec<i64> = Vec::new();
        let mut refnet: Vec<i64> = Vec::new();
        let lista: [Flujos; 9] = [
            self.pext,
            self.cub,
            self.suelos,
            self.pts,
            self.huecos_solar,
            self.huecos_trans,
            self.fint,
            self.vent,
            self.total,
        ];
        let mut i: usize = 0;
        while i < 9
            invariant
                0 <= i <= 9,
                lista@ == seq![
                    self.pext,
                    self.cub,
                    self.suelos,
                    self.pts,
                    self.huecos_solar,
                    self.huecos_trans,
                    self.fint,
                    self.vent,
                    self.total,
                ],
                calpos@ == Seq::new(i as nat, |j: int| lista@[j].calpos),
                calneg@ == Seq::new(i as nat, |j: int| lista@[j].calneg),
                calnet@ == Seq::new(i as nat, |j: int| lista@[j].calnet),
                refpos@ == Seq::new(i as nat, |j: int| lista@[j].refpos),
                refneg@ == Seq::new(i as nat, |j: int| lista@[j].refneg),
                refnet@ == Seq::new(i as nat, |j: int| lista@[j].refnet),
            decreases 9 - i,
        {
            let f = lista[i];
            calpos.push(f.calpos);
            calneg.push(f.calneg);
            calnet.push(f.calnet);
            refpos.push(f.refpos);
            refneg.push(f.refneg);
            refnet.push(f.refnet);
            proof {
                assert(calpos@ =~= Seq::new((i + 1) as nat, |j: int| lista@[j].calpos));
                assert(calneg@ =~= Seq::new((i + 1) as nat, |j: int| lista@[j].calneg));
                assert(calnet@ =~= Seq::new((i + 1) as nat, |j: int| lista@[j].calnet));
                assert(refpos@ =~= Seq::new((i + 1) as nat, |j: int| lista@[j].refpos));
                assert(refneg@ =~= Seq::new((i + 1) as nat, |j: int| lista@[j].refneg));
                assert(refnet@ =~= Seq::new((i + 1) as nat, |j: int| lista@[j].refnet));
            }
            i += 1;
        }
        proof {
            assert(calpos@ =~= seq![
                self.pext.calpos,
                self.cub.calpos,
                self.suelos.calpos,
                self.pts.calpos,
                self.huecos_solar.calpos,
                self.huecos_trans.calpos,
                self.fint.calpos,
                self.vent.calpos,
                self.total.calpos,
            ]);
            assert(calneg@ =~= seq![
                self.pext.calneg,
                self.cub.calneg,
                self.suelos.calneg,
                self.pts.calneg,
                self.huecos_solar.calneg,
                self.huecos_trans.calneg,
                self.fint.calneg,
                self.vent.calneg,
                self.total.calneg,
            ]);
            assert(calnet@ =~= seq![
                self.pext.calnet,
                self.cub.calnet,
                self.suelos.calnet,
                self.pts.calnet,
                self.huecos_solar.calnet,
                self.huecos_trans.calnet,
                self.fint.calnet,
                self.vent.calnet,
                self.total.calnet,
            ]);
            assert(refpos@ =~= seq![
                self.pext.refpos,
                self.cub.refpos,
                self.suelos.refpos,
                self.pts.refpos,
                self.huecos_solar.refpos,
                self.huecos_trans.refpos,
                self.fint.refpos,
                self.vent.refpos,
                self.total.refpos,
            ]);
            assert(refneg@ =~= seq![
                self.pext.refneg,
                self.cub.refneg,
                self.suelos.refneg,
                self.pts.refneg,
                self.huecos_solar.refneg,
                self.huecos_trans.refneg,
                self.fint.refneg,
                self.vent.refneg,
                self.total.refneg,
            ]);
            assert(refnet@ =~= seq![
                self.pext.refnet,
                self.cub.refnet,
                self.suelos.refnet,
                self.pts.refnet,
                self.huecos_solar.refnet,
                self.huecos_trans.refnet,
                self.fint.refnet,
                self.vent.refnet,
                self.total.refnet,
            ]);
        }
        FlujosVec { calpos, calneg, calnet, refpos, refneg, refnet }
    }
}

impl Default for Conceptos {
    /// The zero breakdown.
    fn default() -> (r: Conceptos)
        ensures
            cg(r) == cg_cero(),
    {
        Conceptos::cero()
    }
}

/// Category label of the exterior-wall flows.
pub open spec fn nombre_pext() -> Seq<u8> {
    ascii_seq("Paredes Exteriores"@)
}

/// Category label of the roof flows.
pub open spec fn nombre_cub() -> Seq<u8> {
    ascii_seq("Cubiertas"@)
}

/// Category label of the floor flows.
pub open spec fn nombre_suelos() -> Seq<u8> {
    ascii_seq("Suelos"@)
}

/// Category label of the thermal-bridge flows; the accented vowel is the
/// Latin-1 byte 233.
pub open spec fn nombre_pts() -> Seq<u8> {
    ascii_seq("Puentes T"@) + seq![233u8] + ascii_seq("rmicos"@)
}

/// Category label of the solar gain through glazing.
pub open spec fn nombre_huecos_solar() -> Seq<u8> {
    ascii_seq("Solar Ventanas"@)
}

/// Category label of the transmission through glazing; the accented vowel
/// is the Latin-1 byte 243.
pub open spec fn nombre_huecos_trans() -> Seq<u8> {
    ascii_seq("Transmisi"@) + seq![243u8] + ascii_seq("n Ventanas"@)
}

/// Category label of the internal sources.
pub open spec fn nombre_fint() -> Seq<u8> {
    ascii_seq("Fuentes Internas"@)
}

/// Category label of the ventilation and infiltration flows; the accented
/// vowel is the Latin-1 byte 243.
pub open spec fn nombre_vent() -> Seq<u8> {
    ascii_seq("Infiltraci"@) + seq![243u8] + ascii_seq("n"@)
}

/// Category label of the total row.
pub open spec fn nombre_total() -> Seq<u8> {
    ascii_seq("TOTAL"@)
}

/// The position of a category label in the breakdown, or -1 for an
/// unknown label.
pub open spec fn indice_concepto(nombre: Seq<u8>) -> int {
    if nombre == nombre_pext() {
        0
    } else if nombre == nombre_cub() {
        1
    } else if nombre == nombre_suelos() {
        2
    } else if nombre == nombre_pts() {
        3
    } else if nombre == nombre_huecos_solar() {
        4
    } else if nombre == nombre_huecos_trans() {
        5
    } else if nombre == nombre_total() {
        8
    } else if nombre == nombre_fint() {
        6
    } else if nombre == nombre_vent() {
        7
    } else {
        -1
    }
}

/// The breakdown with the category at `idx` replaced by `f`.
pub open spec fn cg_asigna(c: ConceptosG, idx: int, f: FlujosG) -> ConceptosG {
    ConceptosG {
        pext: if idx == 0 {
            f
        } else {
            c.pext
        },
        cub: if idx == 1 {
            f
        } else {
            c.cub
        },
        suelos: if idx == 2 {
            f
        } else {
            c.suelos
        },
        pts: if idx == 3 {
            f
        } else {
            c.pts
        },
        huecos_solar: if idx == 4 {
            f
        } else {
            c.huecos_solar
        },
        huecos_trans: if idx == 5 {
            f
        } else {
            c.huecos_trans
        },
        fint: if idx == 6 {
            f
        } else {
            c.fint
        },
        vent: if idx == 7 {
            f
        } else {
            c.vent
        },
        total: if idx == 8 {
            f
        } else {
            c.total
        },
    }
}

/// A row of six comma-separated decimal values within the value cap.
pub open spec fn linea_flujos_valida(s: Seq<u8>) -> bool {
    let ps = divide_comas(s);
    ps.len() == 6 && (forall|i: int|
        0 <= i < 6 ==> es_decimal(recorta(#[trigger] ps[i])) && -(TOPE_VALOR as int)
            <= valor_micro(recorta(ps[i])) <= TOPE_VALOR as int)
}

/// The six values denoted by a valid flows row.
pub open spec fn flujos_linea_espec(s: Seq<u8>) -> FlujosG {
    let ps = divide_comas(s);
    FlujosG {
        calpos: valor_micro(recorta(ps[0])),
        calneg: valor_micro(recorta(ps[1])),
        calnet: valor_micro(recorta(ps[2])),
        refpos: valor_micro(recorta(ps[3])),
        refneg: valor_micro(recorta(ps[4])),
        refnet: valor_micro(recorta(ps[5])),
    }
}

/// Parse a row of six comma-separated flow values, exactly: the row is
/// accepted precisely when it holds six decimal fields within the cap.
pub fn flujos_de_linea(linea: &[u8]) -> (r: Option<Flujos>)
    ensures
        r is Some <==> linea_flujos_valida(linea@),
        r is Some ==> fg(r->Some_0) == flujos_linea_espec(linea@),
{
    let partes = dividir_comas(linea);
    let ghost ps = divide_comas(linea@);
    proof {
        assert(partes@.map_values(|v: Vec<u8>| v@).len() == ps.len());
    }
    if partes.len() != 6 {
        return None;
    }
    proof {
        assert forall|i: int| 0 <= i < 6 implies #[trigger] partes@[i]@ == ps[i] by {
            assert(partes@.map_values(|v: Vec<u8>| v@)[i] == ps[i]);
        }
    }
    let mut valores: [i64; 6] = [0, 0, 0, 0, 0, 0];
    let v0 = recortar(partes[0].as_slice());
    let v0 = match decimal_de(v0.as_slice(), TOPE_VALOR) {
        Some(v) => v,
        None => {
            return None;
        },
    };
    let v1 = recortar(partes[1].as_slice());
    let v1 = match decimal_de(v1.as_slice(), TOPE_VALOR) {
        Some(v) => v,
        None => {
            return None;
        },
    };
    let v2 = recortar(partes[2].as_slice());
    let v2 = match decimal_de(v2.as_slice(), TOPE_VALOR) {
        Some(v) => v,
        None => {
            return None;
        },
    };
    let v3 = recortar(partes[3].as_slice());
    let v3 = match decimal_de(v3.as_slice(), TOPE_VALOR) {
        Some(v) => v,
        None => {
            return None;
        },
    };
    let v4 = recortar(partes[4].as_slice());
    let v4 = match decimal_de(v4.as_slice(), TOPE_VALOR) {
        Some(v) => v,
        None => {
            return None;
        },
    };
    let v5 = recortar(partes[5].as_slice());
    let v5 = match decimal_de(v5.as_slice(), TOPE_VALOR) {
        Some(v) => v,
        None => {
            return None;
        },
    };
    proof {
        assert forall|i: int|
            0 <= i < 6 implies es_decimal(recorta(#[trigger] ps[i])) && -(TOPE_VALOR as int)
            <= valor_micro(recorta(ps[i])) <= TOPE_VALOR as int by {
            if i == 0 {
            } else if i == 1 {
            } else if i == 2 {
            } else if i == 3 {
            } else if i == 4 {
            } else {
                assert(i == 5);
            }
        }
    }
    Some(Flujos { calpos: v0, calneg: v1, calnet: v2, refpos: v3, refneg: v4, refnet: v5 })
}

/// The byte sequences of a vector of rows.
pub open spec fn vista_lineas(ls: Seq<Vec<u8>>) -> Seq<Seq<u8>> {
    ls.map_values(|v: Vec<u8>| v@)
}

/// One assignment step of a category row onto a breakdown under
/// construction: the row is split at its first comma, the label is
/// trimmed and unquoted, and the remainder must be a valid flows row.
pub open spec fn paso_concepto(c: ConceptosG, linea: Seq<u8>) -> Option<ConceptosG> {
    let p = primera(linea, 44);
    if p == -1 {
        Option::None
    } else {
        let nombre = sin_comillas(recorta(linea.subrange(0, p)));
        let resto = linea.subrange(p + 1, linea.len() as int);
        let idx = indice_concepto(nombre);
        if idx == -1 {
            Option::None
        } else if !linea_flujos_valida(resto) {
            Option::None
        } else {
            Option::Some(cg_asigna(c, idx, flujos_linea_espec(resto)))
        }
    }
}

/// The breakdown denoted by the first `n` category rows, applied in order
/// over the zero breakdown; nothing when any row is malformed.
pub open spec fn conceptos_de_lineas(lineas: Seq<Seq<u8>>, n: int) -> Option<ConceptosG>
    decreases n,
{
    if n <= 0 {
        Option::Some(cg_cero())
    } else {
        match conceptos_de_lineas(lineas, n - 1) {
            Option::None => Option::None,
            Option::Some(c) => paso_concepto(c, lineas[n - 1]),
        }
    }
}

/// A breakdown read from category rows keeps every component within the
/// value cap.
pub proof fn lema_conceptos_acotado(lineas: Seq<Seq<u8>>, n: int)
    requires
        conceptos_de_lineas(lineas, n) is Some,
    ensures
        cg_acotado(conceptos_de_lineas(lineas, n)->Some_0, TOPE_VALOR as int),
    decreases n,
{
    if n <= 0 {
    } else {
        lema_conceptos_acotado(lineas, n - 1);
        let c = conceptos_de_lineas(lineas, n - 1)->Some_0;
        let linea = lineas[n - 1];
        let p = primera(linea, 44);
        let resto = linea.subrange(p + 1, linea.len() as int);
        assert(linea_flujos_valida(resto));
        let ps = divide_comas(resto);
        let f = flujos_linea_espec(resto);
        assert(fg_acotado(f, TOPE_VALOR as int)) by {
            assert(es_decimal(recorta(ps[0])) && -(TOPE_VALOR as int) <= valor_micro(
                recorta(ps[0]),
            ) <= TOPE_VALOR as int);
            assert(es_decimal(recorta(ps[1])) && -(TOPE_VALOR as int) <= valor_micro(
                recorta(ps[1]),
            ) <= TOPE_VALOR as int);
            assert(es_decimal(recorta(ps[2])) && -(TOPE_VALOR as int) <= valor_micro(
                recorta(ps[2]),
            ) <= TOPE_VALOR as int);
            assert(es_decimal(recorta(ps[3])) && -(TOPE_VALOR as int) <= valor_micro(
                recorta(ps[3]),
            ) <= TOPE_VALOR as int);
            assert(es_decimal(recorta(ps[4])) && -(TOPE_VALOR as int) <= valor_micro(
                recorta(ps[4]),
            ) <= TOPE_VALOR as int);
            assert(es_decimal(recorta(ps[5])) && -(TOPE_VALOR as int) <= valor_micro(
                recorta(ps[5]),
            ) <= TOPE_VALOR as int);
        }
    }
}

/// Once a row is rejected, every longer prefix is rejected too.
proof fn lema_conceptos_none(lineas: Seq<Seq<u8>>, k: int, n: int)
    requires
        0 <= k <= n,
        conceptos_de_lineas(lineas, k) is None,
    ensures
        conceptos_de_lineas(lineas, n) is None,
    decreases n,
{
    if n > k {
        lema_conceptos_none(lineas, k, n - 1);
    }
}

impl Conceptos {
    /// Parse the nine category rows of one zone, exactly: each row is
    /// `label, six values`; a later row for the same label overwrites the
    /// earlier one; an unknown label or a malformed row rejects the block.
    pub fn from_vec(lineas: &Vec<Vec<u8>>) -> (r: Result<Conceptos, LiderError>)
        ensures
            lineas@.len() == 9 ==> match r {
                Ok(c) => conceptos_de_lineas(vista_lineas(lineas@), 9) == Option::Some(cg(c)),
                Err(_) => conceptos_de_lineas(vista_lineas(lineas@), 9) is None,
            },
            lineas@.len() != 9 ==> r is Err,
    {
        if lineas.len() != 9 {
            return Err(
                LiderError::Formato {
                    contexto: latin1_a_texto("Conceptos de demanda".as_bytes()),
                    linea: String::new(),
                },
            );
        }
        let ghost ls = vista_lineas(lineas@);
        let mut c = Conceptos::cero();
        let mut i: usize = 0;
        while i < 9
            invariant
                0 <= i <= 9,
                lineas@.len() == 9,
                ls == lineas@.map_values(|v: Vec<u8>| v@),
                conceptos_de_lineas(ls, i as int) == Option::Some(cg(c)),
            decreases 9 - i,
        {
            proof {
                assert(ls[i as int] == lineas@[i as int]@);
            }
            let linea = &lineas[i];
            let partido = match dividir_primero(linea.as_slice()) {
                Some(par) => par,
                None => {
                    proof {
                        assert(conceptos_de_lineas(ls, i + 1) is None);
                        lema_conceptos_none(ls, i + 1, 9);
                    }
                    return Err(error_concepto(linea.as_slice()));
                },
            };
            let nombre_rec = recortar(partido.0.as_slice());
            let nombre = quitar_comillas(nombre_rec.as_slice());
            let idx = indice_de_nombre(nombre.as_slice());
            if idx > 8 {
                proof {
                    assert(conceptos_de_lineas(ls, i + 1) is None);
                    lema_conceptos_none(ls, i + 1, 9);
                }
                return Err(error_concepto(linea.as_slice()));
            }
            let f = match flujos_de_linea(partido.1.as_slice()) {
                Some(f) => f,
                None => {
                    proof {
                        assert(conceptos_de_lineas(ls, i + 1) is None);
                        lema_conceptos_none(ls, i + 1, 9);
                    }
                    return Err(error_concepto(linea.as_slice()));
                },
            };
            if idx == 0 {
                c.pext = f;
            } else if idx == 1 {
                c.cub = f;
            } else if idx == 2 {
                c.suelos = f;
            } else if idx == 3 {
                c.pts = f;
            } else if idx == 4 {
                c.huecos_solar = f;
            } else if idx == 5 {
                c.huecos_trans = f;
            } else if idx == 6 {
                c.fint = f;
            } else if idx == 7 {
                c.vent = f;
            } else {
                c.total = f;
            }
            proof {
                assert(conceptos_de_lineas(ls, i + 1) == Option::Some(cg(c)));
            }
            i += 1;
        }
        Ok(c)
    }
}

/// The format error for a malformed category row.
fn error_concepto(linea: &[u8]) -> (r: LiderError)
    ensures
        r is Formato,
{
    LiderError::Formato {
        contexto: latin1_a_texto("Conceptos de demanda".as_bytes()),
        linea: latin1_a_texto(linea),
    }
}

/// The position of a category label, executable form; 9 for an unknown
/// label.
fn indice_de_nombre(nombre: &[u8]) -> (r: usize)
    ensures
        indice_concepto(nombre@) == -1 ==> r == 9,
        indice_concepto(nombre@) != -1 ==> r as int == indice_concepto(nombre@),
{
    proof {
        reveal_strlit("Paredes Exteriores");
        reveal_strlit("Cubiertas");
        reveal_strlit("Suelos");
        reveal_strlit("Puentes T");
        reveal_strlit("rmicos");
        reveal_strlit("Solar Ventanas");
        reveal_strlit("Transmisi");
        reveal_strlit("n Ventanas");
        reveal_strlit("TOTAL");
        reveal_strlit("Fuentes Internas");
        reveal_strlit("Infiltraci");
        reveal_strlit("n");
    }
    let pext = ascii_marca("Paredes Exteriores");
    if son_iguales(nombre, pext.as_slice()) {
        return 0;
    }
    let cub = ascii_marca("Cubiertas");
    if son_iguales(nombre, cub.as_slice()) {
        return 1;
    }
    let suelos = ascii_marca("Suelos");
    if son_iguales(nombre, suelos.as_slice()) {
        return 2;
    }
    let mut pts = ascii_marca("Puentes T");
    pts.push(233);
    let mut cola = ascii_marca("rmicos");
    pts.append(&mut cola);
    proof {
        assert(pts@ =~= nombre_pts());
    }
    if son_iguales(nombre, pts.as_slice()) {
        return 3;
    }
    let hs = ascii_marca("Solar Ventanas");
    if son_iguales(nombre, hs.as_slice()) {
        return 4;
    }
    let mut ht = ascii_marca("Transmisi");
    ht.push(243);
    let mut cola = ascii_marca("n Ventanas");
    ht.append(&mut cola);
    proof {
        assert(ht@ =~= nombre_huecos_trans());
    }
    if son_iguales(nombre, ht.as_slice()) {
        return 5;
    }
    let total = ascii_marca("TOTAL");
    if son_iguales(nombre, total.as_slice()) {
        return 8;
    }
    let fint = ascii_marca("Fuentes Internas");
    if son_iguales(nombre, fint.as_slice()) {
        return 6;
    }
    let mut vent = ascii_marca("Infiltraci");
    vent.push(243);
    let mut cola = ascii_marca("n");
    vent.append(&mut cola);
    proof {
        assert(vent@ =~= nombre_vent());
    }
    if son_iguales(nombre, vent.as_slice()) {
        return 7;
    }
    9
}

/// The bytes of an ASCII marker literal.
fn ascii_marca(s: &str) -> (r: Vec<u8>)
    requires
        s.is_ascii(),
    ensures
        r@ == ascii_seq(s@),
{
    ascii_bytes_de(s)
}

/// The integer values of a machine-integer series.
pub open spec fn vista_i64(s: Seq<i64>) -> Seq<int> {
    s.map_values(|x: i64| x as int)
}

/// The nine per-category entries of one flow type, in breakdown order.
pub open spec fn serie_calpos(c: ConceptosG) -> Seq<int> {
    seq![
        c.pext.calpos,
        c.cub.calpos,
        c.suelos.calpos,
        c.pts.calpos,
        c.huecos_solar.calpos,
        c.huecos_trans.calpos,
        c.fint.calpos,
        c.vent.calpos,
        c.total.calpos,
    ]
}

pub open spec fn serie_calneg(c: ConceptosG) -> Seq<int> {
    seq![
        c.pext.calneg,
        c.cub.calneg,
        c.suelos.calneg,
        c.pts.calneg,
        c.huecos_solar.calneg,
        c.huecos_trans.calneg,
        c.fint.calneg,
        c.vent.calneg,
        c.total.calneg,
    ]
}

pub open spec fn serie_calnet(c: ConceptosG) -> Seq<int> {
    seq![
        c.pext.calnet,
        c.cub.calnet,
        c.suelos.calnet,
        c.pts.calnet,
        c.huecos_solar.calnet,
        c.huecos_trans.calnet,
        c.fint.calnet,
        c.vent.calnet,
        c.total.calnet,
    ]
}

pub open spec fn serie_refpos(c: ConceptosG) -> Seq<int> {
    seq![
        c.pext.refpos,
        c.cub.refpos,
        c.suelos.refpos,
        c.pts.refpos,
        c.huecos_solar.refpos,
        c.huecos_trans.refpos,
        c.fint.refpos,
        c.vent.refpos,
        c.total.refpos,
    ]
}

pub open spec fn serie_refneg(c: ConceptosG) -> Seq<int> {
    seq![
        c.pext.refneg,
        c.cub.refneg,
        c.suelos.refneg,
        c.pts.refneg,
        c.huecos_solar.refneg,
        c.huecos_trans.refneg,
        c.fint.refneg,
        c.vent.refneg,
        c.total.refneg,
    ]
}

pub open spec fn serie_refnet(c: ConceptosG) -> Seq<int> {
    seq![
        c.pext.refnet,
        c.cub.refnet,
        c.suelos.refnet,
        c.pts.refnet,
        c.huecos_solar.refnet,
        c.huecos_trans.refnet,
        c.fint.refnet,
        c.vent.refnet,
        c.total.refnet,
    ]
}

/// The flow-vector set carries exactly the nine-entry series of the
/// breakdown.
pub open spec fn fv_es_de(v: FlujosVec, c: ConceptosG) -> bool {
    &&& vista_i64(v.calpos@) == serie_calpos(c)
    &&& vista_i64(v.calneg@) == serie_calneg(c)
    &&& vista_i64(v.calnet@) == serie_calnet(c)
    &&& vista_i64(v.refpos@) == serie_refpos(c)
    &&& vista_i64(v.refneg@) == serie_refneg(c)
    &&& vista_i64(v.refnet@) == serie_refnet(c)
}

/// The flow-vector set carries exactly the one-entry series of a single
/// flow vector.
pub open spec fn fv_es_flujo(v: FlujosVec, f: FlujosG) -> bool {
    &&& vista_i64(v.calpos@) == seq![f.calpos]
    &&& vista_i64(v.calneg@) == seq![f.calneg]
    &&& vista_i64(v.calnet@) == seq![f.calnet]
    &&& vista_i64(v.refpos@) == seq![f.refpos]
    &&& vista_i64(v.refneg@) == seq![f.refneg]
    &&& vista_i64(v.refnet@) == seq![f.refnet]
}

} // verus!
