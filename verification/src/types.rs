//! The building / floor / zone / element tree read from a `.res` summary.
//!
//! Zones are owned by the building in one name-keyed collection; a floor
//! holds zone names only, resolved through the building, so no ownership
//! cycle arises. All scalar quantities are fixed-point millionths.

use vstd::prelude::*;

use crate::bytes::{primera, quitar_comillas, recortar, recorta, sin_comillas};
use crate::flujos::{
    cg, cg_acotado, cg_cero, fg, flujos_de_linea, flujos_linea_espec, linea_flujos_valida,
    Conceptos, Flujos,
};
use crate::latin1::{latin1_a_texto, latin1_chars};
use crate::num::{TOPE_AREA, TOPE_AREA_TOTAL, TOPE_LISTA, TOPE_MULT, TOPE_VALOR};

verus! {

/// Object-kind codes used by the query surface.
pub const TYPE_EDIFICIO: u8 = 0;

pub const TYPE_PLANTA: u8 = 1;

pub const TYPE_ZONA: u8 = 2;

pub const TYPE_COMPONENTE: u8 = 3;

/// Kind of the object a query addresses.
#[derive(Debug, Clone, Copy, PartialEq, Eq, Structural)]
pub enum TipoObjeto {
    Edificio,
    Planta,
    Zona,
    Elemento,
    Ninguno,
}

impl Default for TipoObjeto {
    /// The building is the initially selected object.
    fn default() -> (r: TipoObjeto)
        ensures
            r == TipoObjeto::Edificio,
    {
        TipoObjeto::Edificio
    }
}

impl TipoObjeto {
    /// The kind named by a code; unknown codes name no kind.
    pub fn from_u8(v: u8) -> (r: TipoObjeto)
        ensures
            v == 0 ==> r == TipoObjeto::Edificio,
            v == 1 ==> r == TipoObjeto::Planta,
            v == 2 ==> r == TipoObjeto::Zona,
            v == 3 ==> r == TipoObjeto::Elemento,
            v > 3 ==> r == TipoObjeto::Ninguno,
    {
        if v == TYPE_EDIFICIO {
            TipoObjeto::Edificio
        } else if v == TYPE_PLANTA {
            TipoObjeto::Planta
        } else if v == TYPE_ZONA {
            TipoObjeto::Zona
        } else if v == TYPE_COMPONENTE {
            TipoObjeto::Elemento
        } else {
            TipoObjeto::Ninguno
        }
    }

    /// The code of a kind; 255 for no kind.
    pub fn codigo(&self) -> (r: u8)
        ensures
            *self == TipoObjeto::Edificio ==> r == 0,
            *self == TipoObjeto::Planta ==> r == 1,
            *self == TipoObjeto::Zona ==> r == 2,
            *self == TipoObjeto::Elemento ==> r == 3,
            *self == TipoObjeto::Ninguno ==> r == 255,
    {
        match self {
            TipoObjeto::Edificio => 0,
            TipoObjeto::Planta => 1,
            TipoObjeto::Zona => 2,
            TipoObjeto::Elemento => 3,
            TipoObjeto::Ninguno => 255,
        }
    }
}

/// A construction element of a zone with its yearly flows.
#[derive(Debug, Clone, PartialEq)]
pub struct Elemento {
    /// Element name.
    pub nombre: String,
    /// Yearly energy flows of the element.
    pub flujos: Flujos,
}

/// Whether an element row is well formed: a name, a comma, six decimal
/// values within the cap.
pub open spec fn elemento_valido(s: Seq<u8>) -> bool {
    let p = primera(s, 44);
    p != -1 && linea_flujos_valida(s.subrange(p + 1, s.len() as int))
}

/// The name denoted by an element row.
pub open spec fn elemento_nombre(s: Seq<u8>) -> Seq<char> {
    let p = primera(s, 44);
    latin1_chars(sin_comillas(recorta(s.subrange(0, p))))
}

impl Elemento {
    /// Parse an element row, exactly: `name, six values`, the name
    /// trimmed and unquoted, the values within the cap.
    pub fn de_linea(linea: &[u8]) -> (r: Option<Elemento>)
        ensures
            r is Some <==> elemento_valido(linea@),
            r matches Some(e) ==> {
                &&& e.nombre@ == elemento_nombre(linea@)
                &&& fg(e.flujos) == flujos_linea_espec(
                    linea@.subrange(primera(linea@, 44) + 1, linea@.len() as int),
                )
            },
    {
        let partido = match crate::bytes::dividir_primero(linea) {
            Some(par) => par,
            None => {
                return None;
            },
        };
        let nombre_rec = recortar(partido.0.as_slice());
        let nombre_bytes = quitar_comillas(nombre_rec.as_slice());
        let flujos = match flujos_de_linea(partido.1.as_slice()) {
            Some(f) => f,
            None => {
                return None;
            },
        };
        Some(Elemento { nombre: latin1_a_texto(nombre_bytes.as_slice()), flujos })
    }
}

/// A thermal zone as the text summary describes it.
#[derive(Debug, Clone, PartialEq)]
pub struct ZonaLIDER {
    /// Zone name.
    pub nombre: String,
    /// Name of the floor that owns the zone.
    pub planta: String,
    /// Zone surface [micro-m2].
    pub superficie: i64,
    /// Number of identical copies of the zone on its floor.
    pub multiplicador: i32,
    /// Yearly heating demand [micro-kWh/m2 per year].
    pub calefaccion: i64,
    /// Yearly cooling demand [micro-kWh/m2 per year].
    pub refrigeracion: i64,
    /// Monthly heating demand, 12 entries [micro-kWh/m2 per month].
    pub calefaccion_meses: Vec<i64>,
    /// Monthly cooling demand, 12 entries [micro-kWh/m2 per month].
    pub refrigeracion_meses: Vec<i64>,
    /// Demand breakdown by category [micro-kWh per year].
    pub conceptos: Conceptos,
    /// Flows of each construction element [micro-kWh per year].
    pub elementos: Vec<Elemento>,
}

/// Twelve monthly values within the cap.
pub open spec fn meses_bien(s: Seq<i64>) -> bool {
    s.len() == 12 && forall|m: int|
        0 <= m < 12 ==> -(TOPE_VALOR as int) <= (#[trigger] s[m]) as int <= TOPE_VALOR as int
}

/// The zone invariant: bounded surface, a positive bounded multiplier,
/// bounded demands and twelve bounded entries in each monthly vector.
pub open spec fn zona_bien(z: ZonaLIDER) -> bool {
    &&& 0 <= z.superficie <= TOPE_AREA
    &&& 1 <= z.multiplicador <= TOPE_MULT
    &&& -TOPE_VALOR <= z.calefaccion <= TOPE_VALOR
    &&& -TOPE_VALOR <= z.refrigeracion <= TOPE_VALOR
    &&& meses_bien(z.calefaccion_meses@)
    &&& meses_bien(z.refrigeracion_meses@)
    &&& cg_acotado(cg(z.conceptos), TOPE_VALOR as int)
}


/// Index of the first element with the given name, or -1.
pub open spec fn indice_elemento(es: Seq<Elemento>, nombre: Seq<char>) -> int
    decreases es.len(),
{
    if es.len() == 0 {
        -1
    } else if es[0].nombre@ == nombre {
        0
    } else {
        let r = indice_elemento(es.subrange(1, es.len() as int), nombre);
        if r == -1 {
            -1
        } else {
            r + 1
        }
    }
}

/// What the element search returns: -1 and no occurrence, or the least
/// index carrying the name.
pub proof fn lema_indice_elemento(es: Seq<Elemento>, nombre: Seq<char>)
    ensures
        indice_elemento(es, nombre) == -1 ==> forall|i: int|
            0 <= i < es.len() ==> (#[trigger] es[i]).nombre@ != nombre,
        indice_elemento(es, nombre) != -1 ==> {
            &&& 0 <= indice_elemento(es, nombre) < es.len()
            &&& es[indice_elemento(es, nombre)].nombre@ == nombre
        },
    decreases es.len(),
{
    if es.len() > 0 && es[0].nombre@ != nombre {
        let t = es.subrange(1, es.len() as int);
        lema_indice_elemento(t, nombre);
        assert forall|i: int| 1 <= i < es.len() implies es[i] == t[i - 1] by {}
    }
}

/// The converse: a least index carrying the name is what the search
/// returns.
pub proof fn lema_indice_elemento_exacto(es: Seq<Elemento>, nombre: Seq<char>, k: int)
    requires
        0 <= k < es.len(),
        es[k].nombre@ == nombre,
        forall|i: int| 0 <= i < k ==> (#[trigger] es[i]).nombre@ != nombre,
    ensures
        indice_elemento(es, nombre) == k,
    decreases es.len(),
{
    if k > 0 {
        let t = es.subrange(1, es.len() as int);
        lema_indice_elemento_exacto(t, nombre, k - 1);
    }
}

impl ZonaLIDER {
    /// The element with the given name, when present: the first element
    /// carrying it.
    pub fn elemento(&self, nombre: &String) -> (r: Option<&Elemento>)
        ensures
            indice_elemento(self.elementos@, nombre@) == -1 <==> r is None,
            r matches Some(el) ==> *el == self.elementos@[indice_elemento(
                self.elementos@,
                nombre@,
            )],
    {
        proof {
            lema_indice_elemento(self.elementos@, nombre@);
        }
        let mut j: usize = 0;
        while j < self.elementos.len()
            invariant
                0 <= j <= self.elementos@.len(),
                forall|k: int| 0 <= k < j ==> (#[trigger] self.elementos@[k]).nombre@ != nombre@,
            decreases self.elementos@.len() - j,
        {
            if self.elementos[j].nombre == *nombre {
                proof {
                    lema_indice_elemento_exacto(self.elementos@, nombre@, j as int);
                }
                return Some(&self.elementos[j]);
            }
            j += 1;
        }
        proof {
            if indice_elemento(self.elementos@, nombre@) != -1 {
                assert(self.elementos@[indice_elemento(self.elementos@, nombre@)].nombre@
                    == nombre@);
            }
        }
        None
    }

    /// A fresh zone carrying only its name: zero surface and demands, a
    /// unit multiplier and twelve zero monthly entries.
    pub fn from_name(nombre: String) -> (r: ZonaLIDER)
        ensures
            r.nombre@ == nombre@,
            r.planta@.len() == 0,
            r.superficie == 0,
            r.multiplicador == 1,
            r.calefaccion == 0,
            r.refrigeracion == 0,
            r.calefaccion_meses@ == Seq::new(12, |m: int| 0i64),
            r.refrigeracion_meses@ == Seq::new(12, |m: int| 0i64),
            cg(r.conceptos) == cg_cero(),
            r.elementos@.len() == 0,
            zona_bien(r),
    {
        let cal_meses: Vec<i64> = vec![0; 12];
        let ref_meses: Vec<i64> = vec![0; 12];
        proof {
            assert(cal_meses@ =~= Seq::new(12, |m: int| 0i64));
            assert(ref_meses@ =~= Seq::new(12, |m: int| 0i64));
        }
        ZonaLIDER {
            nombre,
            planta: String::new(),
            superficie: 0,
            multiplicador: 1,
            calefaccion: 0,
            refrigeracion: 0,
            calefaccion_meses: cal_meses,
            refrigeracion_meses: ref_meses,
            conceptos: Conceptos::cero(),
            elementos: Vec::new(),
        }
    }
}

/// A floor: its name and the names of its zones, resolved through the
/// building's zone collection.
#[derive(Debug, Clone, Default, PartialEq)]
pub struct PlantaLIDER {
    /// Floor name.
    pub nombre: String,
    /// Names of the zones of the floor.
    pub zonas: Vec<String>,
}

impl PlantaLIDER {
    /// A fresh floor carrying only its name.
    pub fn from_name(nombre: &str) -> (r: PlantaLIDER)
        ensures
            r.nombre@ == nombre@,
            r.zonas@.len() == 0,
    {
        PlantaLIDER { nombre: nombre.to_owned(), zonas: Vec::new() }
    }

    /// The floor multiplier: the format carries repetition on the zones,
    /// so a floor always counts once.
    pub fn multiplicador(&self) -> (r: i32)
        ensures
            r == 1,
    {
        1
    }
}

/// The building: parsed global figures, the floors in file order and the
/// zone collection they refer to.
#[derive(Debug, Clone, Default, PartialEq)]
pub struct EdificioLIDER {
    /// Building name.
    pub nombre: String,
    /// Building surface as the summary states it [micro-m2].
    pub superficie: i64,
    /// Yearly heating demand [micro-kWh/m2 per year].
    pub calefaccion: i64,
    /// Yearly cooling demand [micro-kWh/m2 per year].
    pub refrigeracion: i64,
    /// Monthly heating demand, 12 entries [micro-kWh/m2 per month].
    pub calefaccion_meses: Vec<i64>,
    /// Monthly cooling demand, 12 entries [micro-kWh/m2 per month].
    pub refrigeracion_meses: Vec<i64>,
    /// The decoded text the building was read from.
    pub resdata: String,
    /// Floors in file order.
    pub plantas: Vec<PlantaLIDER>,
    /// Zones of every floor, keyed by their unique names.
    pub zonas: Vec<ZonaLIDER>,
}

/// Index of the first zone with the given name, or -1.
pub open spec fn indice_zona(zs: Seq<ZonaLIDER>, nombre: Seq<char>) -> int
    decreases zs.len(),
{
    if zs.len() == 0 {
        -1
    } else if zs[0].nombre@ == nombre {
        0
    } else {
        let r = indice_zona(zs.subrange(1, zs.len() as int), nombre);
        if r == -1 {
            -1
        } else {
            r + 1
        }
    }
}

/// What the zone search returns: -1 and no occurrence, or the least index
/// carrying the name.
pub proof fn lema_indice_zona(zs: Seq<ZonaLIDER>, nombre: Seq<char>)
    ensures
        indice_zona(zs, nombre) == -1 ==> forall|i: int|
            0 <= i < zs.len() ==> (#[trigger] zs[i]).nombre@ != nombre,
        indice_zona(zs, nombre) != -1 ==> {
            &&& 0 <= indice_zona(zs, nombre) < zs.len()
            &&& zs[indice_zona(zs, nombre)].nombre@ == nombre
            &&& forall|i: int|
                0 <= i < indice_zona(zs, nombre) ==> (#[trigger] zs[i]).nombre@ != nombre
        },
    decreases zs.len(),
{
    if zs.len() > 0 && zs[0].nombre@ != nombre {
        let t = zs.subrange(1, zs.len() as int);
        lema_indice_zona(t, nombre);
        assert forall|i: int| 1 <= i < zs.len() implies zs[i] == t[i - 1] by {}
    }
}

/// The converse: a least index carrying the name is what the search
/// returns.
pub proof fn lema_indice_zona_exacto(zs: Seq<ZonaLIDER>, nombre: Seq<char>, k: int)
    requires
        0 <= k < zs.len(),
        zs[k].nombre@ == nombre,
        forall|i: int| 0 <= i < k ==> (#[trigger] zs[i]).nombre@ != nombre,
    ensures
        indice_zona(zs, nombre) == k,
    decreases zs.len(),
{
    if k > 0 {
        let t = zs.subrange(1, zs.len() as int);
        lema_indice_zona_exacto(t, nombre, k - 1);
    }
}

/// Index of the first floor with the given name, or -1.
pub open spec fn indice_planta(ps: Seq<PlantaLIDER>, nombre: Seq<char>) -> int
    decreases ps.len(),
{
    if ps.len() == 0 {
        -1
    } else if ps[0].nombre@ == nombre {
        0
    } else {
        let r = indice_planta(ps.subrange(1, ps.len() as int), nombre);
        if r == -1 {
            -1
        } else {
            r + 1
        }
    }
}

/// What the floor search returns: -1 and no occurrence, or the least
/// index carrying the name.
pub proof fn lema_indice_planta(ps: Seq<PlantaLIDER>, nombre: Seq<char>)
    ensures
        indice_planta(ps, nombre) == -1 ==> forall|i: int|
            0 <= i < ps.len() ==> (#[trigger] ps[i]).nombre@ != nombre,
        indice_planta(ps, nombre) != -1 ==> {
            &&& 0 <= indice_planta(ps, nombre) < ps.len()
            &&& ps[indice_planta(ps, nombre)].nombre@ == nombre
            &&& forall|i: int|
                0 <= i < indice_planta(ps, nombre) ==> (#[trigger] ps[i]).nombre@ != nombre
        },
    decreases ps.len(),
{
    if ps.len() > 0 && ps[0].nombre@ != nombre {
        let t = ps.subrange(1, ps.len() as int);
        lema_indice_planta(t, nombre);
        assert forall|i: int| 1 <= i < ps.len() implies ps[i] == t[i - 1] by {}
    }
}

/// The converse: a least index carrying the name is what the search
/// returns.
pub proof fn lema_indice_planta_exacto(ps: Seq<PlantaLIDER>, nombre: Seq<char>, k: int)
    requires
        0 <= k < ps.len(),
        ps[k].nombre@ == nombre,
        forall|i: int| 0 <= i < k ==> (#[trigger] ps[i]).nombre@ != nombre,
    ensures
        indice_planta(ps, nombre) == k,
    decreases ps.len(),
{
    if k > 0 {
        let t = ps.subrange(1, ps.len() as int);
        lema_indice_planta_exacto(t, nombre, k - 1);
    }
}

/// Appending a zone moves the search only where the name was absent.
pub proof fn lema_indice_push(zs: Seq<ZonaLIDER>, z: ZonaLIDER, nombre: Seq<char>)
    ensures
        indice_zona(zs.push(z), nombre) == if indice_zona(zs, nombre) != -1 {
            indice_zona(zs, nombre)
        } else if z.nombre@ == nombre {
            zs.len() as int
        } else {
            -1
        },
{
    lema_indice_zona(zs, nombre);
    lema_indice_zona(zs.push(z), nombre);
    let i = indice_zona(zs, nombre);
    if i != -1 {
        assert(zs.push(z)[i] == zs[i]);
        assert forall|k: int| 0 <= k < i implies (#[trigger] zs.push(z)[k]).nombre@
            != nombre by {
            assert(zs.push(z)[k] == zs[k]);
        }
        lema_indice_zona_exacto(zs.push(z), nombre, i);
    } else if z.nombre@ == nombre {
        assert(zs.push(z)[zs.len() as int] == z);
        assert forall|k: int| 0 <= k < zs.len() implies (#[trigger] zs.push(z)[k]).nombre@
            != nombre by {
            assert(zs.push(z)[k] == zs[k]);
        }
        lema_indice_zona_exacto(zs.push(z), nombre, zs.len() as int);
    } else {
        let j = indice_zona(zs.push(z), nombre);
        if j != -1 {
            assert(zs.push(z)[j].nombre@ == nombre);
            if j < zs.len() {
                assert(zs.push(z)[j] == zs[j]);
            } else {
                assert(zs.push(z)[j] == z);
            }
        }
    }
}

/// Two zone vectors with pointwise equal names search alike.
pub proof fn lema_indice_nombres(zs1: Seq<ZonaLIDER>, zs2: Seq<ZonaLIDER>, nombre: Seq<char>)
    requires
        zs1.len() == zs2.len(),
        forall|i: int|
            0 <= i < zs1.len() ==> (#[trigger] zs1[i]).nombre@ == (#[trigger] zs2[i]).nombre@,
    ensures
        indice_zona(zs1, nombre) == indice_zona(zs2, nombre),
    decreases zs1.len(),
{
    if zs1.len() > 0 {
        let t1 = zs1.subrange(1, zs1.len() as int);
        let t2 = zs2.subrange(1, zs2.len() as int);
        assert forall|i: int| 0 <= i < t1.len() implies (#[trigger] t1[i]).nombre@ == (
        #[trigger] t2[i]).nombre@ by {
            assert(t1[i] == zs1[i + 1] && t2[i] == zs2[i + 1]);
        }
        lema_indice_nombres(t1, t2, nombre);
    }
}

/// No two zones share a name.
pub open spec fn nombres_unicos(zs: Seq<ZonaLIDER>) -> bool {
    forall|i: int, j: int|
        0 <= i < j < zs.len() ==> (#[trigger] zs[i]).nombre@ != (#[trigger] zs[j]).nombre@
}

/// The floor invariant relative to a building: a bounded zone list whose
/// every name resolves.
pub open spec fn planta_bien(zs: Seq<ZonaLIDER>, p: PlantaLIDER) -> bool {
    &&& p.zonas@.len() <= TOPE_LISTA
    &&& forall|j: int|
        0 <= j < p.zonas@.len() ==> indice_zona(zs, (#[trigger] p.zonas@[j])@) != -1
}

/// The building invariant: bounded global figures, twelve-entry monthly
/// vectors, uniquely named well-formed zones and resolving floors.
pub open spec fn edificio_bien(e: EdificioLIDER) -> bool {
    &&& 0 <= e.superficie <= TOPE_AREA_TOTAL
    &&& -TOPE_VALOR <= e.calefaccion <= TOPE_VALOR
    &&& -TOPE_VALOR <= e.refrigeracion <= TOPE_VALOR
    &&& meses_bien(e.calefaccion_meses@)
    &&& meses_bien(e.refrigeracion_meses@)
    &&& e.plantas@.len() <= TOPE_LISTA
    &&& e.zonas@.len() <= TOPE_LISTA * TOPE_LISTA
    &&& nombres_unicos(e.zonas@)
    &&& (forall|i: int| 0 <= i < e.zonas@.len() ==> zona_bien(#[trigger] e.zonas@[i]))
    &&& (forall|i: int| 0 <= i < e.plantas@.len() ==> planta_bien(e.zonas@, #[trigger] e.plantas@[i]))
}

impl EdificioLIDER {
    /// The zone with the given name, when present.
    pub fn zona(&self, nombre: &String) -> (r: Option<&ZonaLIDER>)
        ensures
            indice_zona(self.zonas@, nombre@) == -1 <==> r is None,
            r matches Some(z) ==> *z == self.zonas@[indice_zona(self.zonas@, nombre@)],
    {
        let donde = indice_zona_e(&self.zonas, nombre);
        if donde < self.zonas.len() {
            Some(&self.zonas[donde])
        } else {
            None
        }
    }

    /// The floor with the given name, when present: the first floor
    /// carrying it.
    pub fn planta(&self, nombre: &String) -> (r: Option<&PlantaLIDER>)
        ensures
            indice_planta(self.plantas@, nombre@) == -1 <==> r is None,
            r matches Some(p) ==> *p == self.plantas@[indice_planta(self.plantas@, nombre@)],
    {
        proof {
            lema_indice_planta(self.plantas@, nombre@);
        }
        let mut j: usize = 0;
        while j < self.plantas.len()
            invariant
                0 <= j <= self.plantas@.len(),
                forall|i: int| 0 <= i < j ==> (#[trigger] self.plantas@[i]).nombre@ != nombre@,
            decreases self.plantas@.len() - j,
        {
            if self.plantas[j].nombre == *nombre {
                proof {
                    lema_indice_planta_exacto(self.plantas@, nombre@, j as int);
                }
                return Some(&self.plantas[j]);
            }
            j += 1;
        }
        proof {
            if indice_planta(self.plantas@, nombre@) != -1 {
                assert(self.plantas@[indice_planta(self.plantas@, nombre@)].nombre@ == nombre@);
            }
        }
        None
    }
}

/// Position of the first zone carrying the name, or the vector's length
/// when the name is absent, matching the ghost search.
pub fn indice_zona_e(zonas: &Vec<ZonaLIDER>, nombre: &String) -> (r: usize)
    ensures
        indice_zona(zonas@, nombre@) == -1 ==> r == zonas@.len(),
        indice_zona(zonas@, nombre@) != -1 ==> r as int == indice_zona(zonas@, nombre@) && r
            < zonas@.len(),
        r <= zonas@.len(),
        r < zonas@.len() ==> indice_zona(zonas@, nombre@) == r as int,
{
    proof {
        lema_indice_zona(zonas@, nombre@);
    }
    let mut j: usize = 0;
    while j < zonas.len()
        invariant
            0 <= j <= zonas@.len(),
            forall|k: int| 0 <= k < j ==> (#[trigger] zonas@[k]).nombre@ != nombre@,
        decreases zonas@.len() - j,
    {
        if zonas[j].nombre == *nombre {
            proof {
                lema_indice_zona_exacto(zonas@, nombre@, j as int);
            }
            return j;
        }
        j += 1;
    }
    zonas.len()
}

} // verus!
