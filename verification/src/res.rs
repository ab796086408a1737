//! Parser of the text summary (`.res`).
//!
//! The file is Latin-1 text scanned once, line by line, with a shared
//! cursor. Each recognised section marker hands the cursor to a
//! sub-parser that consumes exactly the lines it expects, using "next
//! line with this literal prefix" to skip extraneous lines between
//! blocks. Any malformed row or missing marker aborts the whole load:
//! either a complete, well-formed building comes back, or an error.

use vstd::prelude::*;

use crate::bytes::{
    ascii_bytes_de, ascii_seq, copia_rango, dividir_comas, divide_comas, empieza, empieza_con,
    lema_primera, primera, quitar_comillas, recorta, recortar,
};
use crate::error::LiderError;
use crate::flujos::{
    cg, cg_cero, conceptos_de_lineas, fg, flujos_linea_espec, lema_conceptos_acotado, vista_i64,
    vista_lineas, Conceptos, ConceptosG, FlujosG,
};
use crate::bytes::sin_comillas;
use crate::latin1::{latin1_a_texto, latin1_chars};
use crate::num::{
    decimal_de, entero_de, es_decimal, es_entero, valor_entero, valor_micro, TOPE_AREA,
    TOPE_AREA_TOTAL, TOPE_ELEMENTOS, TOPE_LISTA, TOPE_MULT, TOPE_VALOR,
};
use crate::types::{
    edificio_bien, elemento_nombre, elemento_valido, indice_zona, indice_zona_e,
    lema_indice_nombres, lema_indice_push, lema_indice_zona, meses_bien, nombres_unicos,
    planta_bien, zona_bien, EdificioLIDER, Elemento, PlantaLIDER, ZonaLIDER,
};

verus! {

/// The end of the line that starts at `pos`: the first newline at or
/// after it, or the end of the text.
pub open spec fn fin_linea(data: Seq<u8>, pos: int) -> int {
    let r = primera(data.subrange(pos, data.len() as int), 10);
    if r == -1 {
        data.len() as int
    } else {
        pos + r
    }
}

/// The bytes of the line that starts at `pos`, without the newline and
/// without one trailing carriage return.
pub open spec fn linea_esp(data: Seq<u8>, pos: int) -> Seq<u8> {
    let cruda = data.subrange(pos, fin_linea(data, pos));
    if cruda.len() > 0 && cruda[cruda.len() - 1] == 13 {
        cruda.drop_last()
    } else {
        cruda
    }
}

/// The cursor after that line: past the newline, or the end.
pub open spec fn tras_linea(data: Seq<u8>, pos: int) -> int {
    if fin_linea(data, pos) < data.len() {
        fin_linea(data, pos) + 1
    } else {
        fin_linea(data, pos)
    }
}

/// The line cursor always advances and never leaves the text.
pub proof fn lema_tras_linea(data: Seq<u8>, pos: int)
    requires
        0 <= pos < data.len(),
    ensures
        pos < tras_linea(data, pos) <= data.len(),
        pos <= fin_linea(data, pos) <= data.len(),
{
    lema_primera(data.subrange(pos, data.len() as int), 10);
}

/// The first line at or after `pos` that starts with the prefix, and the
/// cursor after it; nothing when no remaining line has the prefix.
pub open spec fn busca_esp(data: Seq<u8>, pos: int, pre: Seq<u8>) -> Option<(Seq<u8>, int)>
    decreases data.len() - pos,
    when 0 <= pos
    via busca_esp_dec
{
    if pos >= data.len() {
        Option::None
    } else if empieza_con(linea_esp(data, pos), pre) {
        Option::Some((linea_esp(data, pos), tras_linea(data, pos)))
    } else {
        busca_esp(data, tras_linea(data, pos), pre)
    }
}

#[via_fn]
proof fn busca_esp_dec(data: Seq<u8>, pos: int, pre: Seq<u8>) {
    if 0 <= pos < data.len() {
        lema_tras_linea(data, pos);
    }
}

/// Like `busca_esp`, accepting either of two prefixes.
pub open spec fn busca2_esp(data: Seq<u8>, pos: int, pre_a: Seq<u8>, pre_b: Seq<u8>) -> Option<
    (Seq<u8>, int),
>
    decreases data.len() - pos,
    when 0 <= pos
    via busca2_esp_dec
{
    if pos >= data.len() {
        Option::None
    } else if empieza_con(linea_esp(data, pos), pre_a) || empieza_con(linea_esp(data, pos), pre_b) {
        Option::Some((linea_esp(data, pos), tras_linea(data, pos)))
    } else {
        busca2_esp(data, tras_linea(data, pos), pre_a, pre_b)
    }
}

#[via_fn]
proof fn busca2_esp_dec(data: Seq<u8>, pos: int, pre_a: Seq<u8>, pre_b: Seq<u8>) {
    if 0 <= pos < data.len() {
        lema_tras_linea(data, pos);
    }
}

/// A found line starts with the prefix and the cursor lands after it,
/// within the text.
pub proof fn lema_busca_esp(data: Seq<u8>, pos: int, pre: Seq<u8>)
    requires
        0 <= pos <= data.len(),
    ensures
        busca_esp(data, pos, pre) matches Some(par) ==> pos < par.1 <= data.len(),
    decreases data.len() - pos,
{
    if pos < data.len() {
        lema_tras_linea(data, pos);
        if !empieza_con(linea_esp(data, pos), pre) {
            lema_busca_esp(data, tras_linea(data, pos), pre);
        }
    }
}

/// The same bounds for the two-prefix search.
pub proof fn lema_busca2_esp(data: Seq<u8>, pos: int, pre_a: Seq<u8>, pre_b: Seq<u8>)
    requires
        0 <= pos <= data.len(),
    ensures
        busca2_esp(data, pos, pre_a, pre_b) matches Some(par) ==> pos < par.1 <= data.len(),
    decreases data.len() - pos,
{
    if pos < data.len() {
        lema_tras_linea(data, pos);
        if !(empieza_con(linea_esp(data, pos), pre_a) || empieza_con(linea_esp(data, pos), pre_b)) {
            lema_busca2_esp(data, tras_linea(data, pos), pre_a, pre_b);
        }
    }
}

/// The next line at or after `pos`: its bytes without the newline and
/// without one trailing carriage return, and the position after it.
/// Nothing is left once the cursor reaches the end.
fn linea_siguiente(data: &[u8], pos: usize) -> (r: Option<(Vec<u8>, usize)>)
    requires
        pos <= data@.len(),
    ensures
        r is None <==> pos == data@.len(),
        r matches Some(par) ==> par.0@ == linea_esp(data@, pos as int) && par.1 as int
            == tras_linea(data@, pos as int) && pos < par.1 <= data@.len(),
{
    let n: usize = data.len();
    if pos == n {
        return None;
    }
    let mut j: usize = pos;
    while j < n && data[j] != 10
        invariant
            pos <= j <= n,
            n == data@.len(),
            forall|k: int| pos <= k < j ==> data@[k] != 10,
        decreases n - j,
    {
        j += 1;
    }
    proof {
        let t = data@.subrange(pos as int, n as int);
        if j < n {
            assert forall|k: int| 0 <= k < j - pos implies t[k] != 10 by {
                assert(t[k] == data@[pos + k]);
            }
            assert(t[j - pos] == 10);
            crate::bytes::lema_primera_exacta(t, 10, j - pos);
        } else {
            assert forall|k: int| 0 <= k < t.len() implies t[k] != 10 by {
                assert(t[k] == data@[pos + k]);
            }
            crate::bytes::lema_primera_ausente(t, 10);
        }
        assert(fin_linea(data@, pos as int) == j);
    }
    let fin: usize = if j > pos && data[j - 1] == 13 {
        j - 1
    } else {
        j
    };
    let linea = copia_rango(data, pos, fin);
    proof {
        let cruda = data@.subrange(pos as int, j as int);
        if j > pos && data@[j - 1] == 13 {
            assert(cruda[cruda.len() - 1] == 13);
            assert(cruda.drop_last() =~= data@.subrange(pos as int, (j - 1) as int));
        } else {
            if cruda.len() > 0 {
                assert(cruda[cruda.len() - 1] == data@[j - 1]);
            }
        }
        assert(linea@ == linea_esp(data@, pos as int));
    }
    let nuevo: usize = if j < n {
        j + 1
    } else {
        j
    };
    Some((linea, nuevo))
}

/// The first line at or after `pos` that starts with the prefix; lines
/// before it are skipped, and the cursor lands after the matching line.
fn busca_pref(data: &[u8], pos: usize, pre: &[u8]) -> (r: Option<(Vec<u8>, usize)>)
    requires
        pos <= data@.len(),
    ensures
        r is Some <==> busca_esp(data@, pos as int, pre@) is Some,
        r matches Some(par) ==> {
            &&& busca_esp(data@, pos as int, pre@) == Option::Some((par.0@, par.1 as int))
            &&& pos < par.1 <= data@.len()
        },
{
    proof {
        lema_busca_esp(data@, pos as int, pre@);
    }
    let n: usize = data.len();
    let mut p: usize = pos;
    while p < n
        invariant
            pos <= p <= n,
            n == data@.len(),
            busca_esp(data@, pos as int, pre@) == busca_esp(data@, p as int, pre@),
        decreases n - p,
    {
        let par = match linea_siguiente(data, p) {
            Some(x) => x,
            None => {
                return None;
            },
        };
        if empieza(par.0.as_slice(), pre) {
            proof {
                lema_busca_esp(data@, pos as int, pre@);
            }
            return Some(par);
        }
        p = par.1;
    }
    None
}

/// Like `busca_pref`, accepting either of two prefixes.
fn busca_pref2(data: &[u8], pos: usize, pre_a: &[u8], pre_b: &[u8]) -> (r: Option<
    (Vec<u8>, usize),
>)
    requires
        pos <= data@.len(),
    ensures
        r is Some <==> busca2_esp(data@, pos as int, pre_a@, pre_b@) is Some,
        r matches Some(par) ==> {
            &&& busca2_esp(data@, pos as int, pre_a@, pre_b@) == Option::Some(
                (par.0@, par.1 as int),
            )
            &&& pos < par.1 <= data@.len()
        },
{
    proof {
        lema_busca2_esp(data@, pos as int, pre_a@, pre_b@);
    }
    let n: usize = data.len();
    let mut p: usize = pos;
    while p < n
        invariant
            pos <= p <= n,
            n == data@.len(),
            busca2_esp(data@, pos as int, pre_a@, pre_b@) == busca2_esp(
                data@,
                p as int,
                pre_a@,
                pre_b@,
            ),
        decreases n - p,
    {
        let par = match linea_siguiente(data, p) {
            Some(x) => x,
            None => {
                return None;
            },
        };
        if empieza(par.0.as_slice(), pre_a) || empieza(par.0.as_slice(), pre_b) {
            proof {
                lema_busca2_esp(data@, pos as int, pre_a@, pre_b@);
            }
            return Some(par);
        }
        p = par.1;
    }
    None
}

/// The yearly-demand marker naming both seasons; the accented vowels
/// are the Latin-1 byte 243.
pub open spec fn marca_demandas_par() -> Seq<u8> {
    ascii_seq("Calefacci"@) + seq![243u8] + ascii_seq("n, Refrigeraci"@) + seq![243u8]
        + ascii_seq("n anual"@)
}

/// The yearly-demand marker naming the heating season alone.
pub open spec fn marca_demandas_sola() -> Seq<u8> {
    ascii_seq("Calefacci"@) + seq![243u8] + ascii_seq("n anual"@)
}

/// The building monthly-heating marker.
pub open spec fn marca_cal_mensual() -> Seq<u8> {
    ascii_seq("Calefacci"@) + seq![243u8] + ascii_seq("n mensual"@)
}

/// The building monthly-cooling marker.
pub open spec fn marca_ref_mensual() -> Seq<u8> {
    ascii_seq("Refrigeraci"@) + seq![243u8] + ascii_seq("n mensual"@)
}

/// Every field of the row is a decimal within the value cap.
pub open spec fn fila_valida(ps: Seq<Seq<u8>>) -> bool {
    forall|k: int|
        0 <= k < ps.len() ==> es_decimal(recorta(#[trigger] ps[k])) && -(TOPE_VALOR as int)
            <= valor_micro(recorta(ps[k])) <= TOPE_VALOR as int
}

/// The values of the row's fields, trimmed, in millionths.
pub open spec fn valores_fila(ps: Seq<Seq<u8>>) -> Seq<int> {
    Seq::new(ps.len(), |k: int| valor_micro(recorta(ps[k])))
}

/// The twelve in-cap decimal values of the row at `pos`, and the cursor
/// after it; nothing at the end of the text or for a malformed row.
pub open spec fn fila_meses_esp(data: Seq<u8>, pos: int) -> Option<(Seq<int>, int)> {
    if pos >= data.len() {
        Option::None
    } else {
        let ps = divide_comas(linea_esp(data, pos));
        if ps.len() != 12 || !fila_valida(ps) {
            Option::None
        } else {
            Option::Some((valores_fila(ps), tras_linea(data, pos)))
        }
    }
}

/// The twelve monthly values of the row after the marker, and the cursor
/// after that row.
pub open spec fn meses_esp(data: Seq<u8>, pos: int, marca: Seq<u8>) -> Option<(Seq<int>, int)> {
    match busca_esp(data, pos, marca) {
        Option::None => Option::None,
        Option::Some(par) => fila_meses_esp(data, par.1),
    }
}

/// The zone with one monthly series replaced.
pub open spec fn zona_con_meses(z: ZonaEspc, v: Seq<int>, cal: bool) -> ZonaEspc {
    ZonaEspc {
        nombre: z.nombre,
        planta: z.planta,
        superficie: z.superficie,
        multiplicador: z.multiplicador,
        calefaccion: z.calefaccion,
        refrigeracion: z.refrigeracion,
        calefaccion_meses: if cal {
            v
        } else {
            z.calefaccion_meses
        },
        refrigeracion_meses: if cal {
            z.refrigeracion_meses
        } else {
            v
        },
        conceptos: z.conceptos,
        elementos: z.elementos,
    }
}

/// One zone's monthly merge: the next row must be twelve in-cap
/// decimals; it replaces the named zone's series when the name resolves
/// and is discarded otherwise.
pub open spec fn paso_meses_zona(
    data: Seq<u8>,
    pos: int,
    zs: Seq<ZonaEspc>,
    nombre: Seq<char>,
    cal: bool,
) -> Option<(Seq<ZonaEspc>, int)> {
    match fila_meses_esp(data, pos) {
        Option::None => Option::None,
        Option::Some(fila) => {
            let i = indice_zona_m(zs, nombre);
            if i == -1 {
                Option::Some((zs, fila.1))
            } else {
                Option::Some((zs.update(i, zona_con_meses(zs[i], fila.0, cal)), fila.1))
            }
        },
    }
}

/// The monthly rows of the first `k` listed zones, merged in order.
pub open spec fn meses_zonas_esp(
    data: Seq<u8>,
    pos: int,
    zs: Seq<ZonaEspc>,
    lista: Seq<Seq<char>>,
    k: int,
    cal: bool,
) -> Option<(Seq<ZonaEspc>, int)>
    decreases k,
{
    if k <= 0 {
        Option::Some((zs, pos))
    } else {
        match meses_zonas_esp(data, pos, zs, lista, k - 1, cal) {
            Option::None => Option::None,
            Option::Some(par) => paso_meses_zona(data, par.1, par.0, lista[k - 1], cal),
        }
    }
}

/// A whole per-zone monthly section: the marker, then one row per
/// listed name.
pub open spec fn seccion_meses_zonas_esp(
    data: Seq<u8>,
    pos: int,
    zs: Seq<ZonaEspc>,
    lista: Seq<Seq<char>>,
    marca: Seq<u8>,
    cal: bool,
) -> Option<(Seq<ZonaEspc>, int)> {
    match busca_esp(data, pos, marca) {
        Option::None => Option::None,
        Option::Some(par) => meses_zonas_esp(data, par.1, zs, lista, lista.len() as int, cal),
    }
}

/// The two buildings agree on every field except the zone collection.
pub open spec fn igual_salvo_zonas(a: EdificioLIDER, b: EdificioLIDER) -> bool {
    &&& a.nombre == b.nombre
    &&& a.superficie == b.superficie
    &&& a.calefaccion == b.calefaccion
    &&& a.refrigeracion == b.refrigeracion
    &&& a.calefaccion_meses == b.calefaccion_meses
    &&& a.refrigeracion_meses == b.refrigeracion_meses
    &&& a.resdata == b.resdata
    &&& a.plantas == b.plantas
}

/// The two yearly building demands read after the first yearly marker,
/// and the cursor after their row.
pub open spec fn demandas_esp(data: Seq<u8>, pos: int) -> Option<(int, int, int)> {
    match busca2_esp(data, pos, marca_demandas_par(), marca_demandas_sola()) {
        Option::None => Option::None,
        Option::Some(par) => {
            if par.1 == data.len() {
                Option::None
            } else {
                let ps = divide_comas(linea_esp(data, par.1));
                if ps.len() != 2 || !fila_valida(ps) {
                    Option::None
                } else {
                    Option::Some(
                        (
                            valor_micro(recorta(ps[0])),
                            valor_micro(recorta(ps[1])),
                            tras_linea(data, par.1),
                        ),
                    )
                }
            }
        },
    }
}

/// The two buildings agree on every field except the yearly demands.
pub open spec fn igual_salvo_demandas(a: EdificioLIDER, b: EdificioLIDER) -> bool {
    &&& a.nombre == b.nombre
    &&& a.superficie == b.superficie
    &&& a.calefaccion_meses == b.calefaccion_meses
    &&& a.refrigeracion_meses == b.refrigeracion_meses
    &&& a.resdata == b.resdata
    &&& a.plantas == b.plantas
    &&& a.zonas == b.zonas
}

/// The two buildings agree on every field except the monthly heating
/// row.
pub open spec fn igual_salvo_cal_meses(a: EdificioLIDER, b: EdificioLIDER) -> bool {
    &&& a.nombre == b.nombre
    &&& a.superficie == b.superficie
    &&& a.calefaccion == b.calefaccion
    &&& a.refrigeracion == b.refrigeracion
    &&& a.refrigeracion_meses == b.refrigeracion_meses
    &&& a.resdata == b.resdata
    &&& a.plantas == b.plantas
    &&& a.zonas == b.zonas
}

/// The two buildings agree on every field except the monthly cooling
/// row.
pub open spec fn igual_salvo_ref_meses(a: EdificioLIDER, b: EdificioLIDER) -> bool {
    &&& a.nombre == b.nombre
    &&& a.superficie == b.superficie
    &&& a.calefaccion == b.calefaccion
    &&& a.refrigeracion == b.refrigeracion
    &&& a.calefaccion_meses == b.calefaccion_meses
    &&& a.resdata == b.resdata
    &&& a.plantas == b.plantas
    &&& a.zonas == b.zonas
}

/// The ghost value of a parsed construction element.
pub struct ElemEspc {
    pub nombre: Seq<char>,
    pub flujos: FlujosG,
}

/// The ghost value of a parsed zone: the same fields over unbounded
/// integers and character sequences.
pub struct ZonaEspc {
    pub nombre: Seq<char>,
    pub planta: Seq<char>,
    pub superficie: int,
    pub multiplicador: int,
    pub calefaccion: int,
    pub refrigeracion: int,
    pub calefaccion_meses: Seq<int>,
    pub refrigeracion_meses: Seq<int>,
    pub conceptos: ConceptosG,
    pub elementos: Seq<ElemEspc>,
}

/// The ghost value of one element.
pub open spec fn vista_elem(el: Elemento) -> ElemEspc {
    ElemEspc { nombre: el.nombre@, flujos: fg(el.flujos) }
}

/// The ghost value of an element list.
pub open spec fn vista_elems(es: Seq<Elemento>) -> Seq<ElemEspc> {
    es.map_values(|el: Elemento| vista_elem(el))
}

/// The ghost value of one zone.
pub open spec fn vista_zona(z: ZonaLIDER) -> ZonaEspc {
    ZonaEspc {
        nombre: z.nombre@,
        planta: z.planta@,
        superficie: z.superficie as int,
        multiplicador: z.multiplicador as int,
        calefaccion: z.calefaccion as int,
        refrigeracion: z.refrigeracion as int,
        calefaccion_meses: vista_i64(z.calefaccion_meses@),
        refrigeracion_meses: vista_i64(z.refrigeracion_meses@),
        conceptos: cg(z.conceptos),
        elementos: vista_elems(z.elementos@),
    }
}

/// The ghost value of the zone collection.
pub open spec fn vista_zonas_res(zs: Seq<ZonaLIDER>) -> Seq<ZonaEspc> {
    zs.map_values(|z: ZonaLIDER| vista_zona(z))
}

/// The ghost value of the listed zone names.
pub open spec fn vista_nombres(ns: Seq<String>) -> Seq<Seq<char>> {
    ns.map_values(|n: String| n@)
}

/// Index of the first ghost zone with the given name, or -1.
pub open spec fn indice_zona_m(zs: Seq<ZonaEspc>, nombre: Seq<char>) -> int
    decreases zs.len(),
{
    if zs.len() == 0 {
        -1
    } else if zs[0].nombre == nombre {
        0
    } else {
        let r = indice_zona_m(zs.subrange(1, zs.len() as int), nombre);
        if r == -1 {
            -1
        } else {
            r + 1
        }
    }
}

/// The ghost search agrees with the search over the zone vector.
pub proof fn lema_indice_vista(zs: Seq<ZonaLIDER>, nombre: Seq<char>)
    ensures
        indice_zona_m(vista_zonas_res(zs), nombre) == indice_zona(zs, nombre),
    decreases zs.len(),
{
    if zs.len() > 0 {
        let t = zs.subrange(1, zs.len() as int);
        lema_indice_vista(t, nombre);
        assert(vista_zonas_res(zs).subrange(1, zs.len() as int) =~= vista_zonas_res(t));
        assert(vista_zonas_res(zs)[0] == vista_zona(zs[0]));
    }
}

/// The zone-count marker.
pub open spec fn marca_numzonas_esp() -> Seq<u8> {
    ascii_seq("Numero de zonas"@)
}

/// The zone-listing header marker.
pub open spec fn marca_cab_esp() -> Seq<u8> {
    ascii_seq("Nombre, m2, multiplicador"@)
}

/// The building total marker.
pub open spec fn marca_total_esp() -> Seq<u8> {
    ascii_seq("TOTAL"@)
}

/// The figures of one zone-data row.
pub struct DatoEspc {
    pub nombre: Seq<char>,
    pub superficie: int,
    pub multiplicador: int,
    pub calefaccion: int,
    pub refrigeracion: int,
}

/// One zone-data row: a name and four figures; the surface must be a
/// non-negative in-cap decimal, the multiplier a decimal whose whole
/// part lies between one and the multiplier cap, the demands in-cap
/// decimals.
pub open spec fn fila_dato_esp(data: Seq<u8>, pos: int) -> Option<(DatoEspc, int)> {
    if pos >= data.len() {
        Option::None
    } else {
        let ps = divide_comas(linea_esp(data, pos));
        if ps.len() != 5 {
            Option::None
        } else {
            let nombre = latin1_chars(sin_comillas(recorta(ps[0])));
            let sup = valor_micro(recorta(ps[1]));
            let multv = valor_micro(recorta(ps[2]));
            let cal = valor_micro(recorta(ps[3]));
            let refr = valor_micro(recorta(ps[4]));
            if !(es_decimal(recorta(ps[1])) && 0 <= sup <= TOPE_AREA as int) {
                Option::None
            } else if !(es_decimal(recorta(ps[2])) && 1000000 <= multv <= TOPE_VALOR as int
                && multv / 1000000 <= TOPE_MULT as int) {
                Option::None
            } else if !(es_decimal(recorta(ps[3])) && -(TOPE_VALOR as int) <= cal
                <= TOPE_VALOR as int) {
                Option::None
            } else if !(es_decimal(recorta(ps[4])) && -(TOPE_VALOR as int) <= refr
                <= TOPE_VALOR as int) {
                Option::None
            } else {
                Option::Some(
                    (
                        DatoEspc {
                            nombre: nombre,
                            superficie: sup,
                            multiplicador: multv / 1000000,
                            calefaccion: cal,
                            refrigeracion: refr,
                        },
                        tras_linea(data, pos),
                    ),
                )
            }
        }
    }
}

/// The zone with the four row figures replaced.
pub open spec fn zona_con_datos(z: ZonaEspc, d: DatoEspc) -> ZonaEspc {
    ZonaEspc {
        nombre: z.nombre,
        planta: z.planta,
        superficie: d.superficie,
        multiplicador: d.multiplicador,
        calefaccion: d.calefaccion,
        refrigeracion: d.refrigeracion,
        calefaccion_meses: z.calefaccion_meses,
        refrigeracion_meses: z.refrigeracion_meses,
        conceptos: z.conceptos,
        elementos: z.elementos,
    }
}

/// A row merged into the named zone when it resolves, and discarded
/// otherwise.
pub open spec fn aplica_dato(zs: Seq<ZonaEspc>, d: DatoEspc) -> Seq<ZonaEspc> {
    let i = indice_zona_m(zs, d.nombre);
    if i == -1 {
        zs
    } else {
        zs.update(i, zona_con_datos(zs[i], d))
    }
}

/// The first `k` zone-data rows merged in order, with the names listed
/// in row order.
pub open spec fn datos_zonas_esp(data: Seq<u8>, pos: int, zs: Seq<ZonaEspc>, k: int) -> Option<
    (Seq<ZonaEspc>, Seq<Seq<char>>, int),
>
    decreases k,
{
    if k <= 0 {
        Option::Some((zs, Seq::empty(), pos))
    } else {
        match datos_zonas_esp(data, pos, zs, k - 1) {
            Option::None => Option::None,
            Option::Some(t) => match fila_dato_esp(data, t.2) {
                Option::None => Option::None,
                Option::Some(par) => Option::Some(
                    (aplica_dato(t.0, par.0), t.1.push(par.0.nombre), par.1),
                ),
            },
        }
    }
}

/// The whole general-data section: the zone count, the header, that many
/// rows, and the total row whose second field is the non-negative
/// building surface.
pub open spec fn seccion_datos_esp(data: Seq<u8>, pos: int, zs: Seq<ZonaEspc>) -> Option<
    (Seq<ZonaEspc>, Seq<Seq<char>>, int, int),
> {
    match busca_esp(data, pos, marca_numzonas_esp()) {
        Option::None => Option::None,
        Option::Some(par1) => {
            if par1.1 == data.len() {
                Option::None
            } else {
                let lcnt = linea_esp(data, par1.1);
                if !(es_entero(lcnt) && 0 <= valor_entero(lcnt) <= 1000000) {
                    Option::None
                } else {
                    match busca_esp(data, tras_linea(data, par1.1), marca_cab_esp()) {
                        Option::None => Option::None,
                        Option::Some(par2) => match datos_zonas_esp(
                            data,
                            par2.1,
                            zs,
                            valor_entero(lcnt),
                        ) {
                            Option::None => Option::None,
                            Option::Some(t) => match busca_esp(data, t.2, marca_total_esp()) {
                                Option::None => Option::None,
                                Option::Some(par3) => {
                                    let ps = divide_comas(par3.0);
                                    if ps.len() != 4 {
                                        Option::None
                                    } else if !(es_decimal(recorta(ps[1])) && 0 <= valor_micro(
                                        recorta(ps[1]),
                                    ) <= TOPE_AREA_TOTAL as int) {
                                        Option::None
                                    } else {
                                        Option::Some(
                                            (t.0, t.1, valor_micro(recorta(ps[1])), par3.1),
                                        )
                                    }
                                },
                            },
                        },
                    }
                }
            }
        },
    }
}

/// The two buildings agree on every field except the zone collection
/// and the stated building surface.
pub open spec fn igual_salvo_zonas_y_superficie(a: EdificioLIDER, b: EdificioLIDER) -> bool {
    &&& a.nombre == b.nombre
    &&& a.calefaccion == b.calefaccion
    &&& a.refrigeracion == b.refrigeracion
    &&& a.calefaccion_meses == b.calefaccion_meses
    &&& a.refrigeracion_meses == b.refrigeracion_meses
    &&& a.resdata == b.resdata
    &&& a.plantas == b.plantas
}

/// The floor-name marker: a quoted name opening with P.
pub open spec fn marca_planta_esp() -> Seq<u8> {
    ascii_seq("\"P"@)
}

/// The zone-listing marker of a floor.
pub open spec fn marca_zona_esp() -> Seq<u8> {
    ascii_seq("Zona "@)
}

/// The demand-group header marker.
pub open spec fn marca_grupos_esp() -> Seq<u8> {
    ascii_seq("Concepto, Cal_positivo"@)
}

/// The element-count marker.
pub open spec fn marca_numcomp_esp() -> Seq<u8> {
    ascii_seq("Numero de Componentes"@)
}

/// The element header marker.
pub open spec fn marca_comp_esp() -> Seq<u8> {
    ascii_seq("Componente, Cal_positivo"@)
}

/// The ghost value of a parsed floor.
pub struct PlantaEspc {
    pub nombre: Seq<char>,
    pub zonas: Seq<Seq<char>>,
}

/// The ghost value of one floor.
pub open spec fn vista_planta(p: PlantaLIDER) -> PlantaEspc {
    PlantaEspc { nombre: p.nombre@, zonas: vista_nombres(p.zonas@) }
}

/// The ghost value of the floor list.
pub open spec fn vista_plantas(ps: Seq<PlantaLIDER>) -> Seq<PlantaEspc> {
    ps.map_values(|p: PlantaLIDER| vista_planta(p))
}

/// Ghost insertion with the last-wins rule of the zone collection.
pub open spec fn inserta_zona_m(zs: Seq<ZonaEspc>, z: ZonaEspc) -> Seq<ZonaEspc> {
    let i = indice_zona_m(zs, z.nombre);
    if i == -1 {
        zs.push(z)
    } else {
        zs.update(i, z)
    }
}

/// The next `k` raw lines, in order.
pub open spec fn lineas_esp(data: Seq<u8>, pos: int, k: int) -> Option<(Seq<Seq<u8>>, int)>
    decreases k,
{
    if k <= 0 {
        Option::Some((Seq::empty(), pos))
    } else {
        match lineas_esp(data, pos, k - 1) {
            Option::None => Option::None,
            Option::Some(t) => {
                if t.1 >= data.len() {
                    Option::None
                } else {
                    Option::Some((t.0.push(linea_esp(data, t.1)), tras_linea(data, t.1)))
                }
            },
        }
    }
}

/// The next `k` element rows, in order.
pub open spec fn elementos_esp(data: Seq<u8>, pos: int, k: int) -> Option<(Seq<ElemEspc>, int)>
    decreases k,
{
    if k <= 0 {
        Option::Some((Seq::empty(), pos))
    } else {
        match elementos_esp(data, pos, k - 1) {
            Option::None => Option::None,
            Option::Some(t) => {
                if t.1 >= data.len() {
                    Option::None
                } else {
                    let l = linea_esp(data, t.1);
                    if !elemento_valido(l) {
                        Option::None
                    } else {
                        Option::Some(
                            (
                                t.0.push(
                                    ElemEspc {
                                        nombre: elemento_nombre(l),
                                        flujos: flujos_linea_espec(
                                            l.subrange(primera(l, 44) + 1, l.len() as int),
                                        ),
                                    },
                                ),
                                tras_linea(data, t.1),
                            ),
                        )
                    }
                }
            },
        }
    }
}

/// Twelve zero monthly entries, as a fresh zone starts with.
pub open spec fn meses_cero_m() -> Seq<int> {
    Seq::new(12, |m: int| 0)
}

/// A freshly listed zone: its name, floor and surface, a unit
/// multiplier, zero demands and zero months, its parsed breakdown and
/// elements.
pub open spec fn zona_nueva_esp(
    nombre: Seq<char>,
    planta: Seq<char>,
    superficie: int,
    conceptos: ConceptosG,
    elementos: Seq<ElemEspc>,
) -> ZonaEspc {
    ZonaEspc {
        nombre: nombre,
        planta: planta,
        superficie: superficie,
        multiplicador: 1,
        calefaccion: 0,
        refrigeracion: 0,
        calefaccion_meses: meses_cero_m(),
        refrigeracion_meses: meses_cero_m(),
        conceptos: conceptos,
        elementos: elementos,
    }
}

/// One whole zone block of a floor: the listing line with the quoted
/// name, the surface line, the nine demand-group rows, the element
/// count and that many element rows.
pub open spec fn zona_esp(data: Seq<u8>, pos: int, pname: Seq<char>) -> Option<(ZonaEspc, int)> {
    match busca_esp(data, pos, marca_zona_esp()) {
        Option::None => Option::None,
        Option::Some(parz) => zona_esp_listado(data, parz.0, parz.1, pname),
    }
}

/// ... after the listing line: exactly two fields, the second the
/// quoted zone name, and a surface line must follow.
pub open spec fn zona_esp_listado(data: Seq<u8>, lz: Seq<u8>, p1: int, pname: Seq<char>) -> Option<
    (ZonaEspc, int),
> {
    let ps = divide_comas(lz);
    if ps.len() != 2 || p1 == data.len() {
        Option::None
    } else {
        zona_esp_nombre(data, latin1_chars(sin_comillas(recorta(ps[1]))), p1, pname)
    }
}

/// ... after the name: a non-negative in-cap surface line, then the
/// demand-group header.
pub open spec fn zona_esp_nombre(data: Seq<u8>, nombre: Seq<char>, p1: int, pname: Seq<char>) -> Option<
    (ZonaEspc, int),
> {
    let lsup = linea_esp(data, p1);
    if !(es_decimal(lsup) && 0 <= valor_micro(lsup) <= TOPE_AREA as int) {
        Option::None
    } else {
        match busca_esp(data, tras_linea(data, p1), marca_grupos_esp()) {
            Option::None => Option::None,
            Option::Some(parg) => zona_esp_grupos(
                data,
                nombre,
                valor_micro(lsup),
                parg.1,
                pname,
            ),
        }
    }
}

/// ... after the group header: nine category rows forming the
/// breakdown.
pub open spec fn zona_esp_grupos(
    data: Seq<u8>,
    nombre: Seq<char>,
    sup: int,
    pg: int,
    pname: Seq<char>,
) -> Option<(ZonaEspc, int)> {
    match lineas_esp(data, pg, 9) {
        Option::None => Option::None,
        Option::Some(tg) => match conceptos_de_lineas(tg.0, 9) {
            Option::None => Option::None,
            Option::Some(conc) => zona_esp_componentes(data, nombre, sup, conc, tg.1, pname),
        },
    }
}

/// ... after the breakdown: the element count within the cap, the
/// element header, and that many element rows.
pub open spec fn zona_esp_componentes(
    data: Seq<u8>,
    nombre: Seq<char>,
    sup: int,
    conc: ConceptosG,
    pc: int,
    pname: Seq<char>,
) -> Option<(ZonaEspc, int)> {
    match busca_esp(data, pc, marca_numcomp_esp()) {
        Option::None => Option::None,
        Option::Some(parn) => {
            if parn.1 == data.len() {
                Option::None
            } else {
                let lnc = linea_esp(data, parn.1);
                if !(es_entero(lnc) && 0 <= valor_entero(lnc) <= TOPE_ELEMENTOS as int) {
                    Option::None
                } else {
                    zona_esp_filas_comp(data, nombre, sup, conc, tras_linea(data, parn.1),
                        valor_entero(lnc), pname)
                }
            }
        },
    }
}

/// ... and finally the element rows themselves.
pub open spec fn zona_esp_filas_comp(
    data: Seq<u8>,
    nombre: Seq<char>,
    sup: int,
    conc: ConceptosG,
    pc: int,
    nc: int,
    pname: Seq<char>,
) -> Option<(ZonaEspc, int)> {
    match busca_esp(data, pc, marca_comp_esp()) {
        Option::None => Option::None,
        Option::Some(parc) => match elementos_esp(data, parc.1, nc) {
            Option::None => Option::None,
            Option::Some(te) => Option::Some(
                (zona_nueva_esp(nombre, pname, sup, conc, te.0), te.1),
            ),
        },
    }
}

/// The first `j` zone blocks of one floor, inserted into the shared
/// collection in order, with the floor's name list in file order.
pub open spec fn zonas_planta_esp(
    data: Seq<u8>,
    pos: int,
    pname: Seq<char>,
    zs: Seq<ZonaEspc>,
    j: int,
) -> Option<(Seq<ZonaEspc>, Seq<Seq<char>>, int)>
    decreases j,
{
    if j <= 0 {
        Option::Some((zs, Seq::empty(), pos))
    } else {
        match zonas_planta_esp(data, pos, pname, zs, j - 1) {
            Option::None => Option::None,
            Option::Some(t) => match zona_esp(data, t.2, pname) {
                Option::None => Option::None,
                Option::Some(par) => Option::Some(
                    (inserta_zona_m(t.0, par.0), t.1.push(par.0.nombre), par.1),
                ),
            },
        }
    }
}

/// The first `i` floor blocks: each a quoted floor name, a zone count
/// within the cap, and that many zone blocks.
pub open spec fn plantas_esp(data: Seq<u8>, pos: int, zs: Seq<ZonaEspc>, i: int) -> Option<
    (Seq<PlantaEspc>, Seq<ZonaEspc>, int),
>
    decreases i,
{
    if i <= 0 {
        Option::Some((Seq::empty(), zs, pos))
    } else {
        match plantas_esp(data, pos, zs, i - 1) {
            Option::None => Option::None,
            Option::Some(t) => match busca_esp(data, t.2, marca_planta_esp()) {
                Option::None => Option::None,
                Option::Some(parp) => {
                    let pname = latin1_chars(sin_comillas(recorta(parp.0)));
                    match busca_esp(data, parp.1, marca_numzonas_esp()) {
                        Option::None => Option::None,
                        Option::Some(parn) => {
                            if parn.1 == data.len() {
                                Option::None
                            } else {
                                let lnz = linea_esp(data, parn.1);
                                if !(es_entero(lnz) && 0 <= valor_entero(lnz)
                                    <= TOPE_LISTA as int) {
                                    Option::None
                                } else {
                                    match zonas_planta_esp(
                                        data,
                                        tras_linea(data, parn.1),
                                        pname,
                                        t.1,
                                        valor_entero(lnz),
                                    ) {
                                        Option::None => Option::None,
                                        Option::Some(tz) => Option::Some(
                                            (
                                                t.0.push(
                                                    PlantaEspc { nombre: pname, zonas: tz.1 },
                                                ),
                                                tz.0,
                                                tz.2,
                                            ),
                                        ),
                                    }
                                }
                            }
                        },
                    }
                }
            },
        }
    }
}

/// The whole floor section: the floor count on the next line, within
/// the cap, then that many floor blocks over a fresh zone collection.
pub open spec fn seccion_plantas_esp(data: Seq<u8>, pos: int) -> Option<
    (Seq<PlantaEspc>, Seq<ZonaEspc>, int),
> {
    if pos >= data.len() {
        Option::None
    } else {
        let lnp = linea_esp(data, pos);
        if !(es_entero(lnp) && 0 <= valor_entero(lnp) <= TOPE_LISTA as int) {
            Option::None
        } else {
            plantas_esp(data, tras_linea(data, pos), Seq::empty(), valor_entero(lnp))
        }
    }
}

/// The two buildings agree on every field except the floors and zones.
pub open spec fn igual_salvo_arbol(a: EdificioLIDER, b: EdificioLIDER) -> bool {
    &&& a.nombre == b.nombre
    &&& a.superficie == b.superficie
    &&& a.calefaccion == b.calefaccion
    &&& a.refrigeracion == b.refrigeracion
    &&& a.calefaccion_meses == b.calefaccion_meses
    &&& a.refrigeracion_meses == b.refrigeracion_meses
    &&& a.resdata == b.resdata
}

/// The comment marker.
pub open spec fn marca_comentario_esp() -> Seq<u8> {
    ascii_seq("#"@)
}

/// The floor-section marker.
pub open spec fn marca_plantas_esp() -> Seq<u8> {
    ascii_seq("Numero de plantas"@)
}

/// The building-results marker.
pub open spec fn marca_resultados_esp() -> Seq<u8> {
    ascii_seq("RESULTADOS A NIVEL EDIFICIO"@)
}

/// The per-zone monthly-heating marker.
pub open spec fn marca_cal_zonas_esp() -> Seq<u8> {
    ascii_seq("Calefacci"@) + seq![243u8] + ascii_seq("n mensual por zonas"@)
}

/// The per-zone monthly-cooling marker.
pub open spec fn marca_ref_zonas_esp() -> Seq<u8> {
    ascii_seq("Refrigeraci"@) + seq![243u8] + ascii_seq("n mensual por zonas"@)
}

/// The ghost value of the whole parsed building, but for its name and
/// the raw text, which the load contract pins separately.
pub struct EdifEspc {
    pub superficie: int,
    pub calefaccion: int,
    pub refrigeracion: int,
    pub calefaccion_meses: Seq<int>,
    pub refrigeracion_meses: Seq<int>,
    pub plantas: Seq<PlantaEspc>,
    pub zonas: Seq<ZonaEspc>,
}

/// The ghost value of a building.
pub open spec fn vista_edificio(e: EdificioLIDER) -> EdifEspc {
    EdifEspc {
        superficie: e.superficie as int,
        calefaccion: e.calefaccion as int,
        refrigeracion: e.refrigeracion as int,
        calefaccion_meses: vista_i64(e.calefaccion_meses@),
        refrigeracion_meses: vista_i64(e.refrigeracion_meses@),
        plantas: vista_plantas(e.plantas@),
        zonas: vista_zonas_res(e.zonas@),
    }
}

/// The building a load starts from: all zeroes and no floors or zones.
pub open spec fn modelo_inicial() -> EdifEspc {
    EdifEspc {
        superficie: 0,
        calefaccion: 0,
        refrigeracion: 0,
        calefaccion_meses: meses_cero_m(),
        refrigeracion_meses: meses_cero_m(),
        plantas: Seq::empty(),
        zonas: Seq::empty(),
    }
}

/// A cursor held strictly advancing and within the text, so that the
/// scan recursion below is well founded; the parsed cursors always lie
/// in that range already.
pub open spec fn avanza(data: Seq<u8>, pos: int, siguiente: int) -> int {
    if pos < siguiente <= data.len() {
        siguiente
    } else {
        pos + 1
    }
}

/// The whole building-results chain after its marker: the two yearly
/// demands, the two building monthly rows, the general zone data with
/// the total row, and the two per-zone monthly sections.
pub open spec fn resultados_esp(data: Seq<u8>, pos: int, m: EdifEspc) -> Option<(EdifEspc, int)> {
    match demandas_esp(data, pos) {
        Option::None => Option::None,
        Option::Some(d) => match meses_esp(data, d.2, marca_cal_mensual()) {
            Option::None => Option::None,
            Option::Some(mc) => match meses_esp(data, mc.1, marca_ref_mensual()) {
                Option::None => Option::None,
                Option::Some(mr) => match seccion_datos_esp(data, mr.1, m.zonas) {
                    Option::None => Option::None,
                    Option::Some(t) => match seccion_meses_zonas_esp(
                        data,
                        t.3,
                        t.0,
                        t.1,
                        marca_cal_zonas_esp(),
                        true,
                    ) {
                        Option::None => Option::None,
                        Option::Some(zc) => match seccion_meses_zonas_esp(
                            data,
                            zc.1,
                            zc.0,
                            t.1,
                            marca_ref_zonas_esp(),
                            false,
                        ) {
                            Option::None => Option::None,
                            Option::Some(zr) => Option::Some(
                                (
                                    EdifEspc {
                                        superficie: t.2,
                                        calefaccion: d.0,
                                        refrigeracion: d.1,
                                        calefaccion_meses: mc.0,
                                        refrigeracion_meses: mr.0,
                                        plantas: m.plantas,
                                        zonas: zr.0,
                                    },
                                    zr.1,
                                ),
                            ),
                        },
                    },
                },
            },
        },
    }
}

/// The whole load: scan the lines once; a blank or comment line is
/// skipped, the floor marker replaces the floor and zone collections,
/// the results marker runs the results chain, and any other line is
/// ignored. The first rejected section rejects the load.
pub open spec fn carga_esp(data: Seq<u8>, pos: int, m: EdifEspc) -> Option<EdifEspc>
    decreases data.len() - pos,
    when 0 <= pos
{
    if pos >= data.len() {
        Option::Some(m)
    } else {
        let linea = recorta(linea_esp(data, pos));
        let sig = avanza(data, pos, tras_linea(data, pos));
        if linea.len() == 0 || empieza_con(linea, marca_comentario_esp()) {
            carga_esp(data, sig, m)
        } else if empieza_con(linea, marca_plantas_esp()) {
            match seccion_plantas_esp(data, sig) {
                Option::None => Option::None,
                Option::Some(t) => carga_esp(
                    data,
                    avanza(data, sig, t.2),
                    EdifEspc {
                        superficie: m.superficie,
                        calefaccion: m.calefaccion,
                        refrigeracion: m.refrigeracion,
                        calefaccion_meses: m.calefaccion_meses,
                        refrigeracion_meses: m.refrigeracion_meses,
                        plantas: t.0,
                        zonas: t.1,
                    },
                ),
            }
        } else if empieza_con(linea, marca_resultados_esp()) {
            match resultados_esp(data, sig, m) {
                Option::None => Option::None,
                Option::Some(par) => carga_esp(data, avanza(data, sig, par.1), par.0),
            }
        } else {
            carga_esp(data, sig, m)
        }
    }
}

/// A format error carrying the section and the offending line.
fn err_formato(contexto: &str, linea: &[u8]) -> (r: LiderError)
    ensures
        r is Formato,
{
    LiderError::Formato {
        contexto: latin1_a_texto(contexto.as_bytes()),
        linea: latin1_a_texto(linea),
    }
}

/// Insertion into the name-keyed zone collection: a repeated name
/// replaces the earlier entry, a fresh one is appended.
pub open spec fn inserta_zona_esp(zs: Seq<ZonaLIDER>, z: ZonaLIDER) -> Seq<ZonaLIDER> {
    let i = indice_zona(zs, z.nombre@);
    if i == -1 {
        zs.push(z)
    } else {
        zs.update(i, z)
    }
}

/// Insert a zone into the collection keeping names unique: an existing
/// entry with the same name is replaced, otherwise the zone is appended.
fn inserta_zona(zonas: &mut Vec<ZonaLIDER>, z: ZonaLIDER)
    requires
        nombres_unicos(old(zonas)@),
        forall|i: int| 0 <= i < old(zonas)@.len() ==> zona_bien(#[trigger] old(zonas)@[i]),
        zona_bien(z),
        old(zonas)@.len() < 1000000,
    ensures
        nombres_unicos(final(zonas)@),
        forall|i: int| 0 <= i < final(zonas)@.len() ==> zona_bien(#[trigger] final(zonas)@[i]),
        final(zonas)@.len() <= old(zonas)@.len() + 1,
        final(zonas)@ == inserta_zona_esp(old(zonas)@, z),
        indice_zona(final(zonas)@, z.nombre@) != -1,
        // Every name that resolved before still resolves.
        forall|nom: Seq<char>|
            indice_zona(old(zonas)@, nom) != -1 ==> #[trigger] indice_zona(final(zonas)@, nom)
                != -1,
{
    proof {
        lema_indice_zona(zonas@, z.nombre@);
    }
    let donde = indice_zona_e(zonas, &z.nombre);
    if donde < zonas.len() {
        let ghost antes = zonas@;
        let ghost nom = z.nombre@;
        zonas.set(donde, z);
        proof {
            assert forall|i: int| 0 <= i < zonas@.len() implies (#[trigger] zonas@[i]).nombre@
                == antes[i].nombre@ by {}
            assert forall|nom2: Seq<char>|
                indice_zona(antes, nom2) != -1 implies #[trigger] indice_zona(zonas@, nom2)
                != -1 by {
                lema_indice_nombres(antes, zonas@, nom2);
            }
            lema_indice_nombres(antes, zonas@, nom);
            assert forall|i: int, j: int| 0 <= i < j < zonas@.len() implies (
            #[trigger] zonas@[i]).nombre@ != (#[trigger] zonas@[j]).nombre@ by {
                assert(zonas@[i].nombre@ == antes[i].nombre@);
                assert(zonas@[j].nombre@ == antes[j].nombre@);
            }
        }
    } else {
        let ghost antes = zonas@;
        let ghost nom = z.nombre@;
        proof {
            assert(indice_zona(antes, nom) == -1);
        }
        zonas.push(z);
        proof {
            assert(zonas@ == antes.push(zonas@[antes.len() as int]));
            lema_indice_push(antes, zonas@[antes.len() as int], nom);
            assert forall|nom2: Seq<char>|
                indice_zona(antes, nom2) != -1 implies #[trigger] indice_zona(zonas@, nom2)
                != -1 by {
                lema_indice_push(antes, zonas@[antes.len() as int], nom2);
            }
            lema_indice_zona(antes, nom);
            assert forall|i: int, j: int| 0 <= i < j < zonas@.len() implies (
            #[trigger] zonas@[i]).nombre@ != (#[trigger] zonas@[j]).nombre@ by {
                if j < antes.len() {
                    assert(zonas@[i] == antes[i] && zonas@[j] == antes[j]);
                } else {
                    assert(zonas@[j].nombre@ == nom);
                    assert(zonas@[i] == antes[i]);
                }
            }
        }
    }
}

/// Fold-prefix rejection lemmas: once a step is rejected, every longer
/// prefix is rejected too.
proof fn lema_lineas_none(data: Seq<u8>, pos: int, k: int, n: int)
    requires
        0 <= k <= n,
        lineas_esp(data, pos, k) is None,
    ensures
        lineas_esp(data, pos, n) is None,
    decreases n,
{
    if n > k {
        lema_lineas_none(data, pos, k, n - 1);
    }
}

proof fn lema_elementos_none(data: Seq<u8>, pos: int, k: int, n: int)
    requires
        0 <= k <= n,
        elementos_esp(data, pos, k) is None,
    ensures
        elementos_esp(data, pos, n) is None,
    decreases n,
{
    if n > k {
        lema_elementos_none(data, pos, k, n - 1);
    }
}

proof fn lema_zonas_planta_none(
    data: Seq<u8>,
    pos: int,
    pname: Seq<char>,
    zs: Seq<ZonaEspc>,
    k: int,
    n: int,
)
    requires
        0 <= k <= n,
        zonas_planta_esp(data, pos, pname, zs, k) is None,
    ensures
        zonas_planta_esp(data, pos, pname, zs, n) is None,
    decreases n,
{
    if n > k {
        lema_zonas_planta_none(data, pos, pname, zs, k, n - 1);
    }
}

proof fn lema_plantas_none(data: Seq<u8>, pos: int, zs: Seq<ZonaEspc>, k: int, n: int)
    requires
        0 <= k <= n,
        plantas_esp(data, pos, zs, k) is None,
    ensures
        plantas_esp(data, pos, zs, n) is None,
    decreases n,
{
    if n > k {
        lema_plantas_none(data, pos, zs, k, n - 1);
    }
}

/// The ghost view of an insertion is the ghost insertion of the views.
proof fn lema_inserta_vista(zs: Seq<ZonaLIDER>, z: ZonaLIDER)
    ensures
        vista_zonas_res(inserta_zona_esp(zs, z)) == inserta_zona_m(
            vista_zonas_res(zs),
            vista_zona(z),
        ),
{
    lema_indice_vista(zs, z.nombre@);
    lema_indice_zona(zs, z.nombre@);
    let i = indice_zona(zs, z.nombre@);
    if i == -1 {
        assert(vista_zonas_res(zs.push(z)) =~= vista_zonas_res(zs).push(vista_zona(z)));
    } else {
        assert(vista_zonas_res(zs.update(i, z)) =~= vista_zonas_res(zs).update(
            i,
            vista_zona(z),
        ));
    }
}

/// Read one whole zone block, exactly as `zona_esp` states it.
#[verifier::rlimit(100)]
fn lee_zona(data: &[u8], pos: usize, pname: &String) -> (r: Result<(ZonaLIDER, usize), LiderError>)
    requires
        pos <= data@.len(),
    ensures
        r is Ok <==> zona_esp(data@, pos as int, pname@) is Some,
        r matches Ok(par) ==> ({
            let z = zona_esp(data@, pos as int, pname@)->Some_0;
            &&& vista_zona(par.0) == z.0
            &&& par.1 as int == z.1
            &&& zona_bien(par.0)
            &&& pos < par.1 <= data@.len()
        }),
        r matches Err(er) ==> er is Formato,
{
    proof {
        reveal_strlit("Zona ");
        reveal_strlit("Concepto, Cal_positivo");
        reveal_strlit("Numero de Componentes");
        reveal_strlit("Componente, Cal_positivo");
    }
    let marca_zona = ascii_marca("Zona ");
    let marca_grupos = ascii_marca("Concepto, Cal_positivo");
    let marca_numcomp = ascii_marca("Numero de Componentes");
    let marca_comp = ascii_marca("Componente, Cal_positivo");
    proof {
        assert(marca_zona@ =~= marca_zona_esp());
        assert(marca_grupos@ =~= marca_grupos_esp());
        assert(marca_numcomp@ =~= marca_numcomp_esp());
        assert(marca_comp@ =~= marca_comp_esp());
    }
    let listado = match busca_pref(data, pos, marca_zona.as_slice()) {
        Some(x) => x,
        None => {
            return Err(err_formato("Zona", &[]));
        },
    };
    let ghost lz = listado.0@;
    let ghost p1 = listado.1 as int;
    let ghost ps = divide_comas(lz);
    let campos = dividir_comas(listado.0.as_slice());
    proof {
        assert(campos@.map_values(|v: Vec<u8>| v@).len() == ps.len());
        assert(campos@.len() >= 2 ==> campos@.map_values(|v: Vec<u8>| v@)[1] == ps[1]);
    }
    if campos.len() != 2 {
        return Err(err_formato("Zona", listado.0.as_slice()));
    }
    let rec = recortar(campos[1].as_slice());
    let sin = quitar_comillas(rec.as_slice());
    let znombre = latin1_a_texto(sin.as_slice());
    let ghost nombre_g = latin1_chars(sin_comillas(recorta(ps[1])));
    let fila_sup = match linea_siguiente(data, listado.1) {
        Some(x) => x,
        None => {
            return Err(err_formato("Superficie de zona", &[]));
        },
    };
    let zsup: i64 = match decimal_de(fila_sup.0.as_slice(), TOPE_AREA) {
        Some(v) => v,
        None => {
            return Err(err_formato("Superficie de zona", fila_sup.0.as_slice()));
        },
    };
    if zsup < 0 {
        return Err(err_formato("Superficie de zona", fila_sup.0.as_slice()));
    }
    let mut zona = ZonaLIDER::from_name(znombre);
    zona.planta = pname.clone();
    zona.superficie = zsup;
    proof {
        assert(vista_i64(zona.calefaccion_meses@) =~= meses_cero_m());
        assert(vista_i64(zona.refrigeracion_meses@) =~= meses_cero_m());
        assert(vista_elems(zona.elementos@) =~= Seq::<ElemEspc>::empty());
        assert(vista_zona(zona) == zona_nueva_esp(
            nombre_g,
            pname@,
            zsup as int,
            cg_cero(),
            Seq::empty(),
        ));
    }
    let cabecera = match busca_pref(data, fila_sup.1, marca_grupos.as_slice()) {
        Some(x) => x,
        None => {
            return Err(err_formato("Grupos de demanda", &[]));
        },
    };
    let ghost pg0 = cabecera.1 as int;
    let mut p: usize = cabecera.1;
    let mut grupos: Vec<Vec<u8>> = Vec::new();
    let mut g: usize = 0;
    while g < 9
        invariant
            0 <= g <= 9,
            grupos@.len() == g,
            pos < p <= data@.len(),
            lineas_esp(data@, pg0, g as int) == Option::Some((vista_lineas(grupos@), p as int)),
            pg0 == cabecera.1 as int,
            pos < cabecera.1 <= data@.len(),
            zona_bien(zona),
            vista_zona(zona) == zona_nueva_esp(
                nombre_g,
                pname@,
                zsup as int,
                cg_cero(),
                Seq::empty(),
            ),
            busca_esp(data@, pos as int, marca_zona_esp()) == Option::Some((lz, p1)),
            ps == divide_comas(lz),
            ps.len() == 2,
            p1 < data@.len(),
            nombre_g == latin1_chars(sin_comillas(recorta(ps[1]))),
            linea_esp(data@, p1) == fila_sup.0@,
            es_decimal(fila_sup.0@) && 0 <= valor_micro(fila_sup.0@) <= TOPE_AREA as int,
            valor_micro(fila_sup.0@) == zsup as int,
            busca_esp(data@, tras_linea(data@, p1), marca_grupos_esp()) == Option::Some(
                (cabecera.0@, cabecera.1 as int),
            ),
        decreases 9 - g,
    {
        let fila = match linea_siguiente(data, p) {
            Some(x) => x,
            None => {
                proof {
                    assert(lineas_esp(data@, pg0, g + 1) is None);
                    lema_lineas_none(data@, pg0, g + 1, 9);
                }
                return Err(err_formato("Grupos de demanda", &[]));
            },
        };
        p = fila.1;
        let ghost lineas_antes = grupos@;
        grupos.push(fila.0);
        proof {
            assert(vista_lineas(grupos@) =~= vista_lineas(lineas_antes).push(
                grupos@[grupos@.len() - 1]@,
            ));
        }
        g += 1;
    }
    let conc = match Conceptos::from_vec(&grupos) {
        Ok(c) => c,
        Err(_) => {
            return Err(err_formato("Grupos de demanda", &[]));
        },
    };
    proof {
        lema_conceptos_acotado(vista_lineas(grupos@), 9);
    }
    zona.conceptos = conc;
    let ghost conc_g = cg(conc);
    proof {
        assert(vista_zona(zona) == zona_nueva_esp(
            nombre_g,
            pname@,
            zsup as int,
            conc_g,
            Seq::empty(),
        ));
    }
    let cnt = match busca_pref(data, p, marca_numcomp.as_slice()) {
        Some(x) => x,
        None => {
            return Err(err_formato("Numero de Componentes", &[]));
        },
    };
    let fila_nc = match linea_siguiente(data, cnt.1) {
        Some(x) => x,
        None => {
            return Err(err_formato("Numero de Componentes", &[]));
        },
    };
    let nc: i32 = match entero_de(fila_nc.0.as_slice()) {
        Some(v) => v,
        None => {
            return Err(err_formato("Numero de Componentes", fila_nc.0.as_slice()));
        },
    };
    if nc < 0 || nc > TOPE_ELEMENTOS {
        return Err(err_formato("Numero de Componentes", fila_nc.0.as_slice()));
    }
    let cab_comp = match busca_pref(data, fila_nc.1, marca_comp.as_slice()) {
        Some(x) => x,
        None => {
            return Err(err_formato("Componentes", &[]));
        },
    };
    let ghost pc0 = cab_comp.1 as int;
    p = cab_comp.1;
    let mut c: i32 = 0;
    while c < nc
        invariant
            0 <= c <= nc,
            pos < p <= data@.len(),
            elementos_esp(data@, pc0, c as int) == Option::Some(
                (vista_elems(zona.elementos@), p as int),
            ),
            zona_bien(zona),
            vista_zona(zona) == zona_nueva_esp(
                nombre_g,
                pname@,
                zsup as int,
                conc_g,
                vista_elems(zona.elementos@),
            ),
            busca_esp(data@, pos as int, marca_zona_esp()) == Option::Some((lz, p1)),
            ps == divide_comas(lz),
            ps.len() == 2,
            p1 < data@.len(),
            nombre_g == latin1_chars(sin_comillas(recorta(ps[1]))),
            linea_esp(data@, p1) == fila_sup.0@,
            es_decimal(fila_sup.0@) && 0 <= valor_micro(fila_sup.0@) <= TOPE_AREA as int,
            valor_micro(fila_sup.0@) == zsup as int,
            busca_esp(data@, tras_linea(data@, p1), marca_grupos_esp()) == Option::Some(
                (cabecera.0@, cabecera.1 as int),
            ),
            lineas_esp(data@, cabecera.1 as int, 9) is Some,
            conceptos_de_lineas(lineas_esp(data@, cabecera.1 as int, 9)->Some_0.0, 9)
                == Option::Some(conc_g),
            busca_esp(data@, lineas_esp(data@, cabecera.1 as int, 9)->Some_0.1, marca_numcomp_esp())
                == Option::Some((cnt.0@, cnt.1 as int)),
            cnt.1 < data@.len(),
            linea_esp(data@, cnt.1 as int) == fila_nc.0@,
            es_entero(fila_nc.0@) && 0 <= valor_entero(fila_nc.0@) <= TOPE_ELEMENTOS as int,
            valor_entero(fila_nc.0@) == nc as int,
            busca_esp(data@, tras_linea(data@, cnt.1 as int), marca_comp_esp())
                == Option::Some((cab_comp.0@, cab_comp.1 as int)),
            pc0 == cab_comp.1 as int,
        decreases nc - c,
    {
        let fila = match linea_siguiente(data, p) {
            Some(x) => x,
            None => {
                proof {
                    assert(elementos_esp(data@, pc0, c + 1) is None);
                    lema_elementos_none(data@, pc0, c + 1, nc as int);
                }
                return Err(err_formato("Componentes", &[]));
            },
        };
        let el = match Elemento::de_linea(fila.0.as_slice()) {
            Some(el) => el,
            None => {
                proof {
                    assert(elementos_esp(data@, pc0, c + 1) is None);
                    lema_elementos_none(data@, pc0, c + 1, nc as int);
                }
                return Err(err_formato("Componentes", fila.0.as_slice()));
            },
        };
        p = fila.1;
        let ghost elems_antes = zona.elementos@;
        let ghost el_g = vista_elem(el);
        zona.elementos.push(el);
        proof {
            assert(vista_elems(zona.elementos@) =~= vista_elems(elems_antes).push(el_g));
        }
        c += 1;
    }
    proof {
        assert(zona_esp(data@, pos as int, pname@) == Option::Some(
            (vista_zona(zona), p as int),
        ));
    }
    Ok((zona, p))
}

/// Read the floor list and, per floor, its zones with their demand
/// groups and construction elements, exactly as `seccion_plantas_esp`
/// states them. The whole floor and zone collections of the building
/// are replaced.
#[verifier::rlimit(100)]
fn find_plantas_y_zonas(data: &[u8], pos: usize, e: &mut EdificioLIDER) -> (r: Result<
    usize,
    LiderError,
>)
    requires
        pos <= data@.len(),
        edificio_bien(*old(e)),
    ensures
        edificio_bien(*final(e)),
        r is Ok <==> seccion_plantas_esp(data@, pos as int) is Some,
        r matches Ok(p) ==> ({
            let t = seccion_plantas_esp(data@, pos as int)->Some_0;
            &&& vista_plantas(final(e).plantas@) == t.0
            &&& vista_zonas_res(final(e).zonas@) == t.1
            &&& p as int == t.2
            &&& igual_salvo_arbol(*old(e), *final(e))
            &&& pos < p <= data@.len()
        }),
        r matches Err(er) ==> er is Formato,
{
    proof {
        reveal_strlit("\"P");
        reveal_strlit("Numero de zonas");
    }
    let cuenta = match linea_siguiente(data, pos) {
        Some(x) => x,
        None => {
            return Err(err_formato("Numero de plantas", &[]));
        },
    };
    let np: i32 = match entero_de(cuenta.0.as_slice()) {
        Some(v) => v,
        None => {
            return Err(err_formato("Numero de plantas", cuenta.0.as_slice()));
        },
    };
    if np < 0 || np > TOPE_LISTA {
        return Err(err_formato("Numero de plantas", cuenta.0.as_slice()));
    }
    let ghost p0 = cuenta.1 as int;
    let mut p: usize = cuenta.1;
    let mut plantas: Vec<PlantaLIDER> = Vec::new();
    let mut zonas: Vec<ZonaLIDER> = Vec::new();
    let marca_planta = ascii_marca("\"P");
    let marca_numzonas = ascii_marca("Numero de zonas");
    proof {
        assert(marca_planta@ =~= marca_planta_esp());
        assert(marca_numzonas@ =~= marca_numzonas_esp());
        assert(vista_plantas(plantas@) =~= Seq::<PlantaEspc>::empty());
        assert(vista_zonas_res(zonas@) =~= Seq::<ZonaEspc>::empty());
    }
    let mut i: i32 = 0;
    while i < np
        invariant
            edificio_bien(*e),
            0 <= i <= np <= 1000,
            pos < p <= data@.len(),
            pos < data@.len(),
            es_entero(linea_esp(data@, pos as int)),
            valor_entero(linea_esp(data@, pos as int)) == np as int,
            p0 == tras_linea(data@, pos as int),
            marca_planta@ == marca_planta_esp(),
            marca_numzonas@ == marca_numzonas_esp(),
            plantas@.len() == i,
            nombres_unicos(zonas@),
            forall|k: int| 0 <= k < zonas@.len() ==> zona_bien(#[trigger] zonas@[k]),
            zonas@.len() <= (i as int) * 1000,
            forall|k: int| 0 <= k < plantas@.len() ==> planta_bien(zonas@, #[trigger] plantas@[k]),
            plantas_esp(data@, p0, Seq::<ZonaEspc>::empty(), i as int) == Option::Some(
                (vista_plantas(plantas@), vista_zonas_res(zonas@), p as int),
            ),
        decreases np - i,
    {
        let ghost pf = p as int;
        let nombre_fila = match busca_pref(data, p, marca_planta.as_slice()) {
            Some(x) => x,
            None => {
                proof {
                    assert(plantas_esp(data@, p0, Seq::<ZonaEspc>::empty(), i + 1) is None);
                    lema_plantas_none(data@, p0, Seq::<ZonaEspc>::empty(), i + 1, np as int);
                }
                return Err(err_formato("Nombre de planta", &[]));
            },
        };
        let rec = recortar(nombre_fila.0.as_slice());
        let sin = quitar_comillas(rec.as_slice());
        let pname = latin1_a_texto(sin.as_slice());
        let ghost pname_g = latin1_chars(sin_comillas(recorta(nombre_fila.0@)));
        let mut planta = PlantaLIDER::from_name(pname.as_str());
        let marcador_nz = match busca_pref(data, nombre_fila.1, marca_numzonas.as_slice()) {
            Some(x) => x,
            None => {
                proof {
                    assert(plantas_esp(data@, p0, Seq::<ZonaEspc>::empty(), i + 1) is None);
                    lema_plantas_none(data@, p0, Seq::<ZonaEspc>::empty(), i + 1, np as int);
                }
                return Err(err_formato("Numero de zonas", &[]));
            },
        };
        let fila_nz = match linea_siguiente(data, marcador_nz.1) {
            Some(x) => x,
            None => {
                proof {
                    assert(plantas_esp(data@, p0, Seq::<ZonaEspc>::empty(), i + 1) is None);
                    lema_plantas_none(data@, p0, Seq::<ZonaEspc>::empty(), i + 1, np as int);
                }
                return Err(err_formato("Numero de zonas", &[]));
            },
        };
        let nz: i32 = match entero_de(fila_nz.0.as_slice()) {
            Some(v) => v,
            None => {
                proof {
                    assert(plantas_esp(data@, p0, Seq::<ZonaEspc>::empty(), i + 1) is None);
                    lema_plantas_none(data@, p0, Seq::<ZonaEspc>::empty(), i + 1, np as int);
                }
                return Err(err_formato("Numero de zonas", fila_nz.0.as_slice()));
            },
        };
        if nz < 0 || nz > TOPE_LISTA {
            proof {
                assert(plantas_esp(data@, p0, Seq::<ZonaEspc>::empty(), i + 1) is None);
                lema_plantas_none(data@, p0, Seq::<ZonaEspc>::empty(), i + 1, np as int);
            }
            return Err(err_formato("Numero de zonas", fila_nz.0.as_slice()));
        }
        let ghost zs_piso = vista_zonas_res(zonas@);
        let ghost pz0 = fila_nz.1 as int;
        p = fila_nz.1;
        let mut j: i32 = 0;
        while j < nz
            invariant
                edificio_bien(*e),
                0 <= j <= nz <= 1000,
                0 <= i < np <= 1000,
                pos < p <= data@.len(),
                pos < data@.len(),
                es_entero(linea_esp(data@, pos as int)),
                valor_entero(linea_esp(data@, pos as int)) == np as int,
                p0 == tras_linea(data@, pos as int),
                marca_planta@ == marca_planta_esp(),
                marca_numzonas@ == marca_numzonas_esp(),
                planta.zonas@.len() == j,
                planta.nombre@ == pname_g,
                pname@ == pname_g,
                nombres_unicos(zonas@),
                forall|k: int| 0 <= k < zonas@.len() ==> zona_bien(#[trigger] zonas@[k]),
                zonas@.len() <= (i as int) * 1000 + j,
                forall|k: int|
                    0 <= k < plantas@.len() ==> planta_bien(zonas@, #[trigger] plantas@[k]),
                plantas@.len() == i,
                forall|k: int|
                    0 <= k < planta.zonas@.len() ==> indice_zona(
                        zonas@,
                        (#[trigger] planta.zonas@[k])@,
                    ) != -1,
                plantas_esp(data@, p0, Seq::<ZonaEspc>::empty(), i as int) == Option::Some(
                    (vista_plantas(plantas@), zs_piso, pf),
                ),
                zonas_planta_esp(data@, pz0, pname_g, zs_piso, j as int) == Option::Some(
                    (vista_zonas_res(zonas@), vista_nombres(planta.zonas@), p as int),
                ),
                busca_esp(data@, pf, marca_planta_esp()) == Option::Some(
                    (nombre_fila.0@, nombre_fila.1 as int),
                ),
                pname_g == latin1_chars(sin_comillas(recorta(nombre_fila.0@))),
                busca_esp(data@, nombre_fila.1 as int, marca_numzonas_esp()) == Option::Some(
                    (marcador_nz.0@, marcador_nz.1 as int),
                ),
                marcador_nz.1 < data@.len(),
                linea_esp(data@, marcador_nz.1 as int) == fila_nz.0@,
                es_entero(fila_nz.0@) && 0 <= valor_entero(fila_nz.0@) <= 1000,
                valor_entero(fila_nz.0@) == nz as int,
                pz0 == tras_linea(data@, marcador_nz.1 as int),
            decreases nz - j,
        {
            let par = match lee_zona(data, p, &pname) {
                Ok(x) => x,
                Err(er) => {
                    proof {
                        assert(zonas_planta_esp(data@, pz0, pname_g, zs_piso, j + 1) is None);
                        lema_zonas_planta_none(data@, pz0, pname_g, zs_piso, j + 1, nz as int);
                        assert(plantas_esp(data@, p0, Seq::<ZonaEspc>::empty(), i + 1) is None);
                        lema_plantas_none(data@, p0, Seq::<ZonaEspc>::empty(), i + 1, np as int);
                    }
                    return Err(er);
                },
            };
            let zona = par.0;
            let ghost zg = zona;
            let ghost p_zona = p as int;
            p = par.1;
            let ghost lista_antes = planta.zonas@;
            let ghost nom_z = zona.nombre@;
            planta.zonas.push(zona.nombre.clone());
            proof {
                assert(vista_nombres(planta.zonas@) =~= vista_nombres(lista_antes).push(nom_z));
            }
            let ghost zonas_antes = zonas@;
            inserta_zona(&mut zonas, zona);
            proof {
                lema_inserta_vista(zonas_antes, zg);
                assert(zona_esp(data@, p_zona, pname_g) == Option::Some(
                    (vista_zona(zg), p as int),
                ));
                assert(zonas_planta_esp(data@, pz0, pname_g, zs_piso, j + 1) == Option::Some(
                    (vista_zonas_res(zonas@), vista_nombres(planta.zonas@), p as int),
                ));
            }
            j += 1;
        }
        plantas.push(planta);
        proof {
            assert(vista_plantas(plantas@) =~= vista_plantas(plantas@.drop_last()).push(
                vista_planta(plantas@.last()),
            ));
            assert(plantas_esp(data@, p0, Seq::<ZonaEspc>::empty(), i + 1) == Option::Some(
                (vista_plantas(plantas@), vista_zonas_res(zonas@), p as int),
            ));
        }
        i += 1;
    }
    e.plantas = plantas;
    e.zonas = zonas;
    Ok(p)
}

/// Read the two yearly building demands.
fn find_demandas_generales_edificio(data: &[u8], pos: usize, e: &mut EdificioLIDER) -> (r: Result<
    usize,
    LiderError,
>)
    requires
        pos <= data@.len(),
        edificio_bien(*old(e)),
    ensures
        edificio_bien(*final(e)),
        r is Ok <==> demandas_esp(data@, pos as int) is Some,
        r matches Ok(p) ==> ({
            let d = demandas_esp(data@, pos as int)->Some_0;
            &&& final(e).calefaccion as int == d.0
            &&& final(e).refrigeracion as int == d.1
            &&& p as int == d.2
            &&& igual_salvo_demandas(*old(e), *final(e))
            &&& pos < p <= data@.len()
        }),
        r matches Err(er) ==> er is Formato,
{
    proof {
        reveal_strlit("Calefacci");
        reveal_strlit("n, Refrigeraci");
        reveal_strlit("n anual");
    }
    let mut marca_a = ascii_marca("Calefacci");
    marca_a.push(243);
    let mut cola = ascii_marca("n, Refrigeraci");
    marca_a.append(&mut cola);
    marca_a.push(243);
    let mut cola = ascii_marca("n anual");
    marca_a.append(&mut cola);
    let mut marca_b = ascii_marca("Calefacci");
    marca_b.push(243);
    let mut cola = ascii_marca("n anual");
    marca_b.append(&mut cola);
    proof {
        assert(marca_a@ =~= marca_demandas_par());
        assert(marca_b@ =~= marca_demandas_sola());
    }
    let hallado = match busca_pref2(data, pos, marca_a.as_slice(), marca_b.as_slice()) {
        Some(x) => x,
        None => {
            return Err(err_formato("Demandas generales", &[]));
        },
    };
    let par = match linea_siguiente(data, hallado.1) {
        Some(x) => x,
        None => {
            return Err(err_formato("Demandas generales", &[]));
        },
    };
    let ghost ps = divide_comas(linea_esp(data@, hallado.1 as int));
    let campos = dividir_comas(par.0.as_slice());
    proof {
        assert(campos@.map_values(|v: Vec<u8>| v@).len() == ps.len());
        assert(campos@.len() >= 1 ==> campos@.map_values(|v: Vec<u8>| v@)[0] == ps[0]);
        assert(campos@.len() >= 2 ==> campos@.map_values(|v: Vec<u8>| v@)[1] == ps[1]);
    }
    if campos.len() != 2 {
        return Err(err_formato("Demandas generales", par.0.as_slice()));
    }
    let rec = recortar(campos[0].as_slice());
    let cal = match decimal_de(rec.as_slice(), TOPE_VALOR) {
        Some(v) => v,
        None => {
            proof {
                assert(!fila_valida(ps));
            }
            return Err(err_formato("Demandas generales", par.0.as_slice()));
        },
    };
    let rec = recortar(campos[1].as_slice());
    let refr = match decimal_de(rec.as_slice(), TOPE_VALOR) {
        Some(v) => v,
        None => {
            proof {
                assert(!fila_valida(ps));
            }
            return Err(err_formato("Demandas generales", par.0.as_slice()));
        },
    };
    proof {
        assert(fila_valida(ps)) by {
            assert forall|k: int| 0 <= k < ps.len() implies es_decimal(recorta(#[trigger] ps[k]))
                && -(TOPE_VALOR as int) <= valor_micro(recorta(ps[k])) <= TOPE_VALOR as int by {
                if k == 0 {
                } else {
                    assert(k == 1);
                }
            }
        }
    }
    e.calefaccion = cal;
    e.refrigeracion = refr;
    Ok(par.1)
}

/// Read one twelve-value monthly row after the given marker, exactly as
/// `meses_esp` states it.
fn lee_meses(data: &[u8], pos: usize, marca: &[u8], contexto: &str) -> (r: Result<
    (Vec<i64>, usize),
    LiderError,
>)
    requires
        pos <= data@.len(),
    ensures
        r is Ok <==> meses_esp(data@, pos as int, marca@) is Some,
        r matches Ok(par) ==> ({
            let m = meses_esp(data@, pos as int, marca@)->Some_0;
            &&& vista_i64(par.0@) == m.0
            &&& par.1 as int == m.1
            &&& pos < par.1 <= data@.len()
            &&& meses_bien(par.0@)
        }),
        r matches Err(er) ==> er is Formato,
{
    let hallado = match busca_pref(data, pos, marca) {
        Some(x) => x,
        None => {
            return Err(err_formato(contexto, &[]));
        },
    };
    let par = match linea_siguiente(data, hallado.1) {
        Some(x) => x,
        None => {
            return Err(err_formato(contexto, &[]));
        },
    };
    let ghost ps = divide_comas(linea_esp(data@, hallado.1 as int));
    let campos = dividir_comas(par.0.as_slice());
    proof {
        assert(campos@.map_values(|v: Vec<u8>| v@).len() == ps.len());
        assert forall|k: int| 0 <= k < campos@.len() implies (#[trigger] campos@[k])@
            == ps[k] by {
            assert(campos@.map_values(|v: Vec<u8>| v@)[k] == ps[k]);
        }
    }
    if campos.len() != 12 {
        return Err(err_formato(contexto, par.0.as_slice()));
    }
    let mut meses: Vec<i64> = Vec::new();
    let mut k: usize = 0;
    while k < 12
        invariant
            0 <= k <= 12,
            campos@.len() == 12,
            ps.len() == 12,
            pos <= hallado.1 < data@.len(),
            busca_esp(data@, pos as int, marca@) == Option::Some((hallado.0@, hallado.1 as int)),
            ps == divide_comas(linea_esp(data@, hallado.1 as int)),
            par.1 as int == tras_linea(data@, hallado.1 as int),
            par.1 <= data@.len(),
            forall|j: int| 0 <= j < 12 ==> (#[trigger] campos@[j])@ == ps[j],
            meses@.len() == k,
            forall|m: int|
                0 <= m < k ==> -(TOPE_VALOR as int) <= (#[trigger] meses@[m]) as int
                    <= TOPE_VALOR as int,
            forall|m: int|
                0 <= m < k ==> (#[trigger] meses@[m]) as int == valor_micro(recorta(ps[m]))
                    && es_decimal(recorta(#[trigger] ps[m])),
        decreases 12 - k,
    {
        let rec = recortar(campos[k].as_slice());
        let v = match decimal_de(rec.as_slice(), TOPE_VALOR) {
            Some(v) => v,
            None => {
                proof {
                    assert(!fila_valida(ps));
                }
                return Err(err_formato(contexto, par.0.as_slice()));
            },
        };
        meses.push(v);
        k += 1;
    }
    proof {
        assert forall|m: int| 0 <= m < ps.len() implies es_decimal(recorta(#[trigger] ps[m]))
            && -(TOPE_VALOR as int) <= valor_micro(recorta(ps[m])) <= TOPE_VALOR as int by {
            assert((meses@[m]) as int == valor_micro(recorta(ps[m])));
            assert(-(TOPE_VALOR as int) <= (meses@[m]) as int <= TOPE_VALOR as int);
        }
        assert(fila_valida(ps));
        assert(vista_i64(meses@) =~= valores_fila(ps));
    }
    Ok((meses, par.1))
}

/// Read the building's monthly heating row.
fn find_cal_mensual_edificio(data: &[u8], pos: usize, e: &mut EdificioLIDER) -> (r: Result<
    usize,
    LiderError,
>)
    requires
        pos <= data@.len(),
        edificio_bien(*old(e)),
    ensures
        edificio_bien(*final(e)),
        r is Ok <==> meses_esp(data@, pos as int, marca_cal_mensual()) is Some,
        r matches Ok(p) ==> ({
            let m = meses_esp(data@, pos as int, marca_cal_mensual())->Some_0;
            &&& vista_i64(final(e).calefaccion_meses@) == m.0
            &&& p as int == m.1
            &&& igual_salvo_cal_meses(*old(e), *final(e))
            &&& pos < p <= data@.len()
        }),
        r matches Err(er) ==> er is Formato,
{
    proof {
        reveal_strlit("Calefacci");
        reveal_strlit("n mensual");
    }
    let mut marca = ascii_marca("Calefacci");
    marca.push(243);
    let mut cola = ascii_marca("n mensual");
    marca.append(&mut cola);
    proof {
        assert(marca@ =~= marca_cal_mensual());
    }
    let par = match lee_meses(data, pos, marca.as_slice(), "Calefaccion mensual") {
        Ok(x) => x,
        Err(er) => {
            return Err(er);
        },
    };
    e.calefaccion_meses = par.0;
    Ok(par.1)
}

/// Read the building's monthly cooling row.
fn find_ref_mensual_edificio(data: &[u8], pos: usize, e: &mut EdificioLIDER) -> (r: Result<
    usize,
    LiderError,
>)
    requires
        pos <= data@.len(),
        edificio_bien(*old(e)),
    ensures
        edificio_bien(*final(e)),
        r is Ok <==> meses_esp(data@, pos as int, marca_ref_mensual()) is Some,
        r matches Ok(p) ==> ({
            let m = meses_esp(data@, pos as int, marca_ref_mensual())->Some_0;
            &&& vista_i64(final(e).refrigeracion_meses@) == m.0
            &&& p as int == m.1
            &&& igual_salvo_ref_meses(*old(e), *final(e))
            &&& pos < p <= data@.len()
        }),
        r matches Err(er) ==> er is Formato,
{
    proof {
        reveal_strlit("Refrigeraci");
        reveal_strlit("n mensual");
    }
    let mut marca = ascii_marca("Refrigeraci");
    marca.push(243);
    let mut cola = ascii_marca("n mensual");
    marca.append(&mut cola);
    proof {
        assert(marca@ =~= marca_ref_mensual());
    }
    let par = match lee_meses(data, pos, marca.as_slice(), "Refrigeracion mensual") {
        Ok(x) => x,
        Err(er) => {
            return Err(er);
        },
    };
    e.refrigeracion_meses = par.0;
    Ok(par.1)
}

/// Read the per-zone general-data rows and the building TOTAL row,
/// exactly as `seccion_datos_esp` states them: surface, multiplier and
/// yearly demands merge into the zones already discovered; a row naming
/// an unknown zone updates nothing but is still listed for the monthly
/// passes.
#[verifier::rlimit(100)]
fn find_datos_generales_zonas(data: &[u8], pos: usize, e: &mut EdificioLIDER) -> (r: Result<
    (Vec<String>, usize),
    LiderError,
>)
    requires
        pos <= data@.len(),
        edificio_bien(*old(e)),
    ensures
        edificio_bien(*final(e)),
        r is Ok <==> seccion_datos_esp(data@, pos as int, vista_zonas_res(old(e).zonas@))
            is Some,
        r matches Ok(par) ==> ({
            let t = seccion_datos_esp(data@, pos as int, vista_zonas_res(old(e).zonas@))->Some_0;
            &&& vista_zonas_res(final(e).zonas@) == t.0
            &&& vista_nombres(par.0@) == t.1
            &&& final(e).superficie as int == t.2
            &&& par.1 as int == t.3
            &&& igual_salvo_zonas_y_superficie(*old(e), *final(e))
            &&& pos < par.1 <= data@.len()
        }),
        r matches Err(er) ==> er is Formato,
{
    proof {
        reveal_strlit("Numero de zonas");
        reveal_strlit("Nombre, m2, multiplicador");
        reveal_strlit("TOTAL");
    }
    let ghost zs0 = vista_zonas_res(old(e).zonas@);
    let marca_numzonas = ascii_marca("Numero de zonas");
    let marca_cab = ascii_marca("Nombre, m2, multiplicador");
    let marca_total = ascii_marca("TOTAL");
    proof {
        assert(marca_numzonas@ =~= marca_numzonas_esp());
        assert(marca_cab@ =~= marca_cab_esp());
        assert(marca_total@ =~= marca_total_esp());
    }
    let par1 = match busca_pref(data, pos, marca_numzonas.as_slice()) {
        Some(x) => x,
        None => {
            return Err(err_formato("Zonas del edificio", &[]));
        },
    };
    let cuenta = match linea_siguiente(data, par1.1) {
        Some(x) => x,
        None => {
            return Err(err_formato("Zonas del edificio", &[]));
        },
    };
    let nz: i32 = match entero_de(cuenta.0.as_slice()) {
        Some(v) => v,
        None => {
            return Err(err_formato("Zonas del edificio", cuenta.0.as_slice()));
        },
    };
    if nz < 0 || nz > 1000000 {
        return Err(err_formato("Zonas del edificio", cuenta.0.as_slice()));
    }
    let par2 = match busca_pref(data, cuenta.1, marca_cab.as_slice()) {
        Some(x) => x,
        None => {
            return Err(err_formato("Datos de zonas", &[]));
        },
    };
    let mut p: usize = par2.1;
    let mut zonelist: Vec<String> = Vec::new();
    let mut k: i32 = 0;
    while k < nz
        invariant
            0 <= k <= nz <= 1000000,
            pos < p <= data@.len(),
            edificio_bien(*e),
            igual_salvo_zonas_y_superficie(*old(e), *e),
            e.superficie == old(e).superficie,
            zs0 == vista_zonas_res(old(e).zonas@),
            busca_esp(data@, pos as int, marca_numzonas_esp()) == Option::Some(
                (par1.0@, par1.1 as int),
            ),
            par1.1 < data@.len(),
            es_entero(linea_esp(data@, par1.1 as int)),
            valor_entero(linea_esp(data@, par1.1 as int)) == nz as int,
            busca_esp(data@, tras_linea(data@, par1.1 as int), marca_cab_esp())
                == Option::Some((par2.0@, par2.1 as int)),
            datos_zonas_esp(data@, par2.1 as int, zs0, k as int) == Option::Some(
                (vista_zonas_res(e.zonas@), vista_nombres(zonelist@), p as int),
            ),
        decreases nz - k,
    {
        let fila = match linea_siguiente(data, p) {
            Some(x) => x,
            None => {
                proof {
                    lema_datos_zonas_none(data@, par2.1 as int, zs0, k + 1, nz as int);
                }
                return Err(err_formato("Datos de zonas", &[]));
            },
        };
        let ghost ps = divide_comas(linea_esp(data@, p as int));
        let campos = dividir_comas(fila.0.as_slice());
        proof {
            assert(campos@.map_values(|v: Vec<u8>| v@).len() == ps.len());
            assert forall|j: int| 0 <= j < campos@.len() implies (#[trigger] campos@[j])@
                == ps[j] by {
                assert(campos@.map_values(|v: Vec<u8>| v@)[j] == ps[j]);
            }
        }
        if campos.len() != 5 {
            proof {
                lema_datos_zonas_none(data@, par2.1 as int, zs0, k + 1, nz as int);
            }
            return Err(err_formato("Datos de zonas", fila.0.as_slice()));
        }
        let rec = recortar(campos[0].as_slice());
        let sin = quitar_comillas(rec.as_slice());
        let nombre = latin1_a_texto(sin.as_slice());
        let rec = recortar(campos[1].as_slice());
        let sup = match decimal_de(rec.as_slice(), TOPE_AREA) {
            Some(v) => v,
            None => {
                proof {
                    lema_datos_zonas_none(data@, par2.1 as int, zs0, k + 1, nz as int);
                }
                return Err(err_formato("Datos de zonas", fila.0.as_slice()));
            },
        };
        if sup < 0 {
            proof {
                lema_datos_zonas_none(data@, par2.1 as int, zs0, k + 1, nz as int);
            }
            return Err(err_formato("Datos de zonas", fila.0.as_slice()));
        }
        let rec = recortar(campos[2].as_slice());
        let multv = match decimal_de(rec.as_slice(), TOPE_VALOR) {
            Some(v) => v,
            None => {
                proof {
                    lema_datos_zonas_none(data@, par2.1 as int, zs0, k + 1, nz as int);
                }
                return Err(err_formato("Datos de zonas", fila.0.as_slice()));
            },
        };
        // The multiplier field is a decimal in the file; its whole part
        // is the count of identical zones.
        if multv < 1000000 {
            proof {
                lema_datos_zonas_none(data@, par2.1 as int, zs0, k + 1, nz as int);
            }
            return Err(err_formato("Datos de zonas", fila.0.as_slice()));
        }
        let mult: i64 = ((multv as u64) / 1000000u64) as i64;
        if mult > TOPE_MULT as i64 {
            proof {
                lema_datos_zonas_none(data@, par2.1 as int, zs0, k + 1, nz as int);
            }
            return Err(err_formato("Datos de zonas", fila.0.as_slice()));
        }
        let rec = recortar(campos[3].as_slice());
        let cal = match decimal_de(rec.as_slice(), TOPE_VALOR) {
            Some(v) => v,
            None => {
                proof {
                    lema_datos_zonas_none(data@, par2.1 as int, zs0, k + 1, nz as int);
                }
                return Err(err_formato("Datos de zonas", fila.0.as_slice()));
            },
        };
        let rec = recortar(campos[4].as_slice());
        let refr = match decimal_de(rec.as_slice(), TOPE_VALOR) {
            Some(v) => v,
            None => {
                proof {
                    lema_datos_zonas_none(data@, par2.1 as int, zs0, k + 1, nz as int);
                }
                return Err(err_formato("Datos de zonas", fila.0.as_slice()));
            },
        };
        proof {
            lema_indice_vista(e.zonas@, nombre@);
            assert(fila_dato_esp(data@, p as int) matches Some(par) && par.0 == (DatoEspc {
                nombre: nombre@,
                superficie: sup as int,
                multiplicador: mult as int,
                calefaccion: cal as int,
                refrigeracion: refr as int,
            }) && par.1 == fila.1 as int);
        }
        let donde = indice_zona_e(&e.zonas, &nombre);
        if donde < e.zonas.len() {
            let ghost antes = e.zonas@;
            let z = vstd::std_specs::vec::vec_index_mut(&mut e.zonas, donde);
            z.superficie = sup;
            z.multiplicador = mult as i32;
            z.calefaccion = cal;
            z.refrigeracion = refr;
            proof {
                lema_actualiza_zona(antes, e.zonas@, donde as int);
                assert(vista_zona(e.zonas@[donde as int]) == zona_con_datos(
                    vista_zonas_res(antes)[donde as int],
                    fila_dato_esp(data@, p as int)->Some_0.0,
                ));
                assert(vista_zonas_res(e.zonas@) =~= vista_zonas_res(antes).update(
                    donde as int,
                    vista_zona(e.zonas@[donde as int]),
                ));
            }
        }
        let ghost lista_antes = zonelist@;
        let ghost nom = nombre@;
        zonelist.push(nombre);
        proof {
            assert(vista_nombres(zonelist@) =~= vista_nombres(lista_antes).push(nom));
        }
        p = fila.1;
        k += 1;
    }
    let par3 = match busca_pref(data, p, marca_total.as_slice()) {
        Some(x) => x,
        None => {
            return Err(err_formato("Total de zonas", &[]));
        },
    };
    let ghost pst = divide_comas(par3.0@);
    let campos = dividir_comas(par3.0.as_slice());
    proof {
        assert(campos@.map_values(|v: Vec<u8>| v@).len() == pst.len());
        assert(campos@.len() >= 2 ==> campos@.map_values(|v: Vec<u8>| v@)[1] == pst[1]);
    }
    if campos.len() != 4 {
        return Err(err_formato("Total de zonas", par3.0.as_slice()));
    }
    let rec = recortar(campos[1].as_slice());
    let sup = match decimal_de(rec.as_slice(), TOPE_AREA_TOTAL) {
        Some(v) => v,
        None => {
            return Err(err_formato("Total de zonas", par3.0.as_slice()));
        },
    };
    if sup < 0 {
        return Err(err_formato("Total de zonas", par3.0.as_slice()));
    }
    e.superficie = sup;
    Ok((zonelist, par3.1))
}

/// Once a zone-data row is rejected, every longer prefix is rejected.
proof fn lema_datos_zonas_none(data: Seq<u8>, pos: int, zs: Seq<ZonaEspc>, k: int, n: int)
    requires
        0 <= k <= n,
        datos_zonas_esp(data, pos, zs, k) is None,
    ensures
        datos_zonas_esp(data, pos, zs, n) is None,
    decreases n,
{
    if n > k {
        lema_datos_zonas_none(data, pos, zs, k, n - 1);
    }
}

/// Replacing one zone by a copy with equal name, list lengths and bounds
/// keeps the building invariant.
proof fn lema_actualiza_zona(antes: Seq<ZonaLIDER>, ahora: Seq<ZonaLIDER>, donde: int)
    requires
        0 <= donde < antes.len(),
        ahora.len() == antes.len(),
        forall|i: int| 0 <= i < antes.len() && i != donde ==> #[trigger] ahora[i] == antes[i],
        ahora[donde].nombre@ == antes[donde].nombre@,
        nombres_unicos(antes),
        forall|i: int| 0 <= i < antes.len() ==> zona_bien(#[trigger] antes[i]),
        zona_bien(ahora[donde]),
    ensures
        nombres_unicos(ahora),
        forall|i: int| 0 <= i < ahora.len() ==> zona_bien(#[trigger] ahora[i]),
        forall|nom: Seq<char>| #[trigger] indice_zona(ahora, nom) == indice_zona(antes, nom),
{
    assert forall|i: int| 0 <= i < ahora.len() implies zona_bien(#[trigger] ahora[i]) by {
        if i != donde {
            assert(ahora[i] == antes[i]);
        }
    }
    assert forall|i: int, j: int| 0 <= i < j < ahora.len() implies (
    #[trigger] ahora[i]).nombre@ != (#[trigger] ahora[j]).nombre@ by {
        assert(ahora[i].nombre@ == antes[i].nombre@);
        assert(ahora[j].nombre@ == antes[j].nombre@);
    }
    assert forall|nom: Seq<char>| #[trigger] indice_zona(ahora, nom) == indice_zona(
        antes,
        nom,
    ) by {
        lema_indice_nombres(antes, ahora, nom);
    }
}

/// The twelve in-cap decimal values of the row at `pos`, exactly as
/// `fila_meses_esp` states them.
fn fila_meses(data: &[u8], pos: usize, contexto: &str) -> (r: Result<(Vec<i64>, usize), LiderError>)
    requires
        pos <= data@.len(),
    ensures
        r is Ok <==> fila_meses_esp(data@, pos as int) is Some,
        r matches Ok(par) ==> ({
            let m = fila_meses_esp(data@, pos as int)->Some_0;
            &&& vista_i64(par.0@) == m.0
            &&& par.1 as int == m.1
            &&& pos < par.1 <= data@.len()
            &&& meses_bien(par.0@)
        }),
        r matches Err(er) ==> er is Formato,
{
    let par = match linea_siguiente(data, pos) {
        Some(x) => x,
        None => {
            return Err(err_formato(contexto, &[]));
        },
    };
    let ghost ps = divide_comas(linea_esp(data@, pos as int));
    let campos = dividir_comas(par.0.as_slice());
    proof {
        assert(campos@.map_values(|v: Vec<u8>| v@).len() == ps.len());
        assert forall|j: int| 0 <= j < campos@.len() implies (#[trigger] campos@[j])@
            == ps[j] by {
            assert(campos@.map_values(|v: Vec<u8>| v@)[j] == ps[j]);
        }
    }
    if campos.len() != 12 {
        return Err(err_formato(contexto, par.0.as_slice()));
    }
    let mut meses: Vec<i64> = Vec::new();
    let mut m: usize = 0;
    while m < 12
        invariant
            0 <= m <= 12,
            campos@.len() == 12,
            ps.len() == 12,
            pos < data@.len(),
            ps == divide_comas(linea_esp(data@, pos as int)),
            par.1 as int == tras_linea(data@, pos as int),
            pos < par.1 <= data@.len(),
            forall|j: int| 0 <= j < 12 ==> (#[trigger] campos@[j])@ == ps[j],
            meses@.len() == m,
            forall|q: int|
                0 <= q < m ==> -(TOPE_VALOR as int) <= (#[trigger] meses@[q]) as int
                    <= TOPE_VALOR as int,
            forall|q: int|
                0 <= q < m ==> (#[trigger] meses@[q]) as int == valor_micro(recorta(ps[q]))
                    && es_decimal(recorta(#[trigger] ps[q])),
        decreases 12 - m,
    {
        let rec = recortar(campos[m].as_slice());
        let v = match decimal_de(rec.as_slice(), TOPE_VALOR) {
            Some(v) => v,
            None => {
                proof {
                    assert(!fila_valida(ps));
                }
                return Err(err_formato(contexto, par.0.as_slice()));
            },
        };
        meses.push(v);
        m += 1;
    }
    proof {
        assert forall|q: int| 0 <= q < ps.len() implies es_decimal(recorta(#[trigger] ps[q]))
            && -(TOPE_VALOR as int) <= valor_micro(recorta(ps[q])) <= TOPE_VALOR as int by {
            assert((meses@[q]) as int == valor_micro(recorta(ps[q])));
            assert(-(TOPE_VALOR as int) <= (meses@[q]) as int <= TOPE_VALOR as int);
        }
        assert(fila_valida(ps));
        assert(vista_i64(meses@) =~= valores_fila(ps));
    }
    Ok((meses, par.1))
}

/// Merge one monthly series into the listed zones, exactly as the fold
/// `seccion_meses_zonas_esp` states it: one row per listed name, in
/// order; a name that no longer resolves updates nothing.
#[verifier::rlimit(100)]
fn find_meses_zonas(
    data: &[u8],
    pos: usize,
    e: &mut EdificioLIDER,
    zonelist: &Vec<String>,
    marca: &[u8],
    contexto: &str,
    cal: bool,
) -> (r: Result<usize, LiderError>)
    requires
        pos <= data@.len(),
        edificio_bien(*old(e)),
    ensures
        edificio_bien(*final(e)),
        r is Ok <==> seccion_meses_zonas_esp(
            data@,
            pos as int,
            vista_zonas_res(old(e).zonas@),
            vista_nombres(zonelist@),
            marca@,
            cal,
        ) is Some,
        r matches Ok(p) ==> ({
            let m = seccion_meses_zonas_esp(
                data@,
                pos as int,
                vista_zonas_res(old(e).zonas@),
                vista_nombres(zonelist@),
                marca@,
                cal,
            )->Some_0;
            &&& vista_zonas_res(final(e).zonas@) == m.0
            &&& p as int == m.1
            &&& igual_salvo_zonas(*old(e), *final(e))
            &&& pos < p <= data@.len()
        }),
        r matches Err(er) ==> er is Formato,
{
    let ghost zs0 = vista_zonas_res(old(e).zonas@);
    let ghost lista = vista_nombres(zonelist@);
    let hallado = match busca_pref(data, pos, marca) {
        Some(x) => x,
        None => {
            return Err(err_formato(contexto, &[]));
        },
    };
    let mut p: usize = hallado.1;
    let mut k: usize = 0;
    while k < zonelist.len()
        invariant
            0 <= k <= zonelist@.len(),
            pos < p <= data@.len(),
            edificio_bien(*e),
            igual_salvo_zonas(*old(e), *e),
            zs0 == vista_zonas_res(old(e).zonas@),
            lista == vista_nombres(zonelist@),
            busca_esp(data@, pos as int, marca@) == Option::Some((hallado.0@, hallado.1 as int)),
            meses_zonas_esp(data@, hallado.1 as int, zs0, lista, k as int, cal)
                == Option::Some((vista_zonas_res(e.zonas@), p as int)),
        decreases zonelist@.len() - k,
    {
        let fila = match fila_meses(data, p, contexto) {
            Ok(x) => x,
            Err(er) => {
                proof {
                    assert(meses_zonas_esp(data@, hallado.1 as int, zs0, lista, k + 1, cal)
                        is None);
                    lema_meses_zonas_none(data@, hallado.1 as int, zs0, lista, k + 1,
                        lista.len() as int, cal);
                }
                return Err(er);
            },
        };
        let meses = fila.0;
        proof {
            lema_indice_vista(e.zonas@, (zonelist@[k as int])@);
            assert(lista[k as int] == (zonelist@[k as int])@);
        }
        let donde = indice_zona_e(&e.zonas, &zonelist[k]);
        if donde < e.zonas.len() {
            let ghost antes = e.zonas@;
            let z = vstd::std_specs::vec::vec_index_mut(&mut e.zonas, donde);
            if cal {
                z.calefaccion_meses = meses;
            } else {
                z.refrigeracion_meses = meses;
            }
            proof {
                lema_actualiza_zona(antes, e.zonas@, donde as int);
                assert(vista_zona(e.zonas@[donde as int]) == zona_con_meses(
                    vista_zonas_res(antes)[donde as int],
                    fila_meses_esp(data@, p as int)->Some_0.0,
                    cal,
                ));
                assert(vista_zonas_res(e.zonas@) =~= vista_zonas_res(antes).update(
                    donde as int,
                    vista_zona(e.zonas@[donde as int]),
                ));
            }
        }
        p = fila.1;
        k += 1;
    }
    proof {
        assert(meses_zonas_esp(data@, hallado.1 as int, zs0, lista, lista.len() as int, cal)
            == Option::Some((vista_zonas_res(e.zonas@), p as int)));
    }
    Ok(p)
}

/// Once a listed zone's row is rejected, the whole merge is rejected.
proof fn lema_meses_zonas_none(
    data: Seq<u8>,
    pos: int,
    zs: Seq<ZonaEspc>,
    lista: Seq<Seq<char>>,
    k: int,
    n: int,
    cal: bool,
)
    requires
        0 <= k <= n,
        meses_zonas_esp(data, pos, zs, lista, k, cal) is None,
    ensures
        meses_zonas_esp(data, pos, zs, lista, n, cal) is None,
    decreases n,
{
    if n > k {
        lema_meses_zonas_none(data, pos, zs, lista, k, n - 1, cal);
    }
}

/// The bytes of an ASCII marker literal; every marker below is ASCII
/// except for one accented vowel, appended as its Latin-1 byte.
fn ascii_marca(s: &str) -> (r: Vec<u8>)
    requires
        s.is_ascii(),
    ensures
        r@ == ascii_seq(s@),
{
    ascii_bytes_de(s)
}

impl EdificioLIDER {
    /// Decode a whole text summary, exactly as `carga_esp` states it:
    /// scan the lines once, dispatch on the section markers, and either
    /// return the complete well-formed building the scan denotes or the
    /// first error. The raw decoded text is kept in `resdata` and the
    /// building name stays empty, as the format carries none.
    #[verifier::rlimit(100)]
    pub fn from_data(data: &[u8]) -> (r: Result<EdificioLIDER, LiderError>)
        ensures
            r is Ok <==> carga_esp(data@, 0, modelo_inicial()) is Some,
            r matches Ok(e) ==> {
                &&& vista_edificio(e) == carga_esp(data@, 0, modelo_inicial())->Some_0
                &&& edificio_bien(e)
                &&& e.resdata@ == latin1_chars(data@)
                &&& e.nombre@ == Seq::<char>::empty()
            },
            r matches Err(er) ==> er is Formato,
    {
        let meses0: Vec<i64> = vec![0; 12];
        proof {
            assert(meses0@ =~= Seq::new(12, |m: int| 0i64));
            assert(meses_bien(meses0@)) by {
                assert(forall|m: int| 0 <= m < 12 ==> meses0@[m] == 0i64);
            }
        }
        let mut e = EdificioLIDER {
            nombre: String::new(),
            superficie: 0,
            calefaccion: 0,
            refrigeracion: 0,
            calefaccion_meses: meses0.clone(),
            refrigeracion_meses: meses0,
            resdata: String::new(),
            plantas: Vec::new(),
            zonas: Vec::new(),
        };
        proof {
            assert(edificio_bien(e));
            assert(vista_i64(e.calefaccion_meses@) =~= meses_cero_m());
            assert(vista_i64(e.refrigeracion_meses@) =~= meses_cero_m());
            assert(vista_plantas(e.plantas@) =~= Seq::<PlantaEspc>::empty());
            assert(vista_zonas_res(e.zonas@) =~= Seq::<ZonaEspc>::empty());
            assert(vista_edificio(e) == modelo_inicial());
        }
        proof {
            reveal_strlit("Numero de plantas");
            reveal_strlit("RESULTADOS A NIVEL EDIFICIO");
            reveal_strlit("#");
            reveal_strlit("Calefacci");
            reveal_strlit("Refrigeraci");
            reveal_strlit("n mensual por zonas");
        }
        let marca_plantas = ascii_marca("Numero de plantas");
        let marca_resultados = ascii_marca("RESULTADOS A NIVEL EDIFICIO");
        let marca_comentario = ascii_marca("#");
        let mut cal_z = ascii_marca("Calefacci");
        cal_z.push(243);
        let mut cola = ascii_marca("n mensual por zonas");
        cal_z.append(&mut cola);
        let mut ref_z = ascii_marca("Refrigeraci");
        ref_z.push(243);
        let mut cola = ascii_marca("n mensual por zonas");
        ref_z.append(&mut cola);
        proof {
            assert(marca_plantas@ =~= marca_plantas_esp());
            assert(marca_resultados@ =~= marca_resultados_esp());
            assert(marca_comentario@ =~= marca_comentario_esp());
            assert(cal_z@ =~= marca_cal_zonas_esp());
            assert(ref_z@ =~= marca_ref_zonas_esp());
        }
        let n: usize = data.len();
        let mut pos: usize = 0;
        while pos < n
            invariant
                pos <= n,
                n == data@.len(),
                edificio_bien(e),
                e.nombre@ == Seq::<char>::empty(),
                marca_plantas@ == marca_plantas_esp(),
                marca_resultados@ == marca_resultados_esp(),
                marca_comentario@ == marca_comentario_esp(),
                cal_z@ == marca_cal_zonas_esp(),
                ref_z@ == marca_ref_zonas_esp(),
                carga_esp(data@, 0, modelo_inicial()) == carga_esp(
                    data@,
                    pos as int,
                    vista_edificio(e),
                ),
            decreases n - pos,
        {
            let ghost pos_antes = pos as int;
            let ghost m0 = vista_edificio(e);
            let par = match linea_siguiente(data, pos) {
                Some(x) => x,
                None => {
                    // Unreachable: the cursor is strictly inside the text.
                    proof {
                        assert(false);
                    }
                    return Err(err_formato("Texto", &[]));
                },
            };
            pos = par.1;
            proof {
                assert(avanza(data@, pos_antes, tras_linea(data@, pos_antes)) == pos as int);
            }
            let linea = recortar(par.0.as_slice());
            if linea.len() == 0 || empieza(linea.as_slice(), marca_comentario.as_slice()) {
                // Comments and blank lines between sections.
            } else if empieza(linea.as_slice(), marca_plantas.as_slice()) {
                pos = match find_plantas_y_zonas(data, pos, &mut e) {
                    Ok(p) => {
                        proof {
                            assert(avanza(
                                data@,
                                tras_linea(data@, pos_antes),
                                seccion_plantas_esp(data@, tras_linea(data@, pos_antes))
                                    ->Some_0.2,
                            ) == p as int);
                        }
                        p
                    },
                    Err(er) => {
                        return Err(er);
                    },
                };
            } else if empieza(linea.as_slice(), marca_resultados.as_slice()) {
                let ghost sig = pos as int;
                pos = match find_demandas_generales_edificio(data, pos, &mut e) {
                    Ok(p) => p,
                    Err(er) => {
                        return Err(er);
                    },
                };
                pos = match find_cal_mensual_edificio(data, pos, &mut e) {
                    Ok(p) => p,
                    Err(er) => {
                        return Err(er);
                    },
                };
                pos = match find_ref_mensual_edificio(data, pos, &mut e) {
                    Ok(p) => p,
                    Err(er) => {
                        return Err(er);
                    },
                };
                let par2 = match find_datos_generales_zonas(data, pos, &mut e) {
                    Ok(x) => x,
                    Err(er) => {
                        return Err(er);
                    },
                };
                let zonelist = par2.0;
                pos = par2.1;
                pos = match find_meses_zonas(
                    data,
                    pos,
                    &mut e,
                    &zonelist,
                    cal_z.as_slice(),
                    "Calefaccion mensual por zonas",
                    true,
                ) {
                    Ok(p) => p,
                    Err(er) => {
                        return Err(er);
                    },
                };
                pos = match find_meses_zonas(
                    data,
                    pos,
                    &mut e,
                    &zonelist,
                    ref_z.as_slice(),
                    "Refrigeracion mensual por zonas",
                    false,
                ) {
                    Ok(p) => p,
                    Err(er) => {
                        return Err(er);
                    },
                };
                proof {
                    assert(resultados_esp(data@, sig, m0) == Option::Some(
                        (vista_edificio(e), pos as int),
                    ));
                    assert(avanza(data@, sig, pos as int) == pos as int);
                }
            }
        }
        e.resdata = latin1_a_texto(data);
        proof {
            assert(carga_esp(data@, pos as int, vista_edificio(e)) == Option::Some(
                vista_edificio(e),
            ));
        }
        Ok(e)
    }
}

} // verus!
