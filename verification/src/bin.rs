//! Decoder of the binary hourly dataset (`.bin`).
//!
//! The file holds a little-endian 4-byte unsigned zone count followed by
//! that many fixed-size records. The record layout follows the producer's
//! C struct: a 50-byte name buffer, then two alignment padding bytes so
//! that the numeric fields sit at 4-byte offsets, then scalars, bounded
//! arrays and seven-plus-one hourly arrays of 8760 entries each. Fields
//! that carry IEEE-754 single-precision values are kept as their raw
//! 4-byte patterns (`u32`): the decoder is byte-exact and never rounds.

use vstd::prelude::*;

use crate::bytes::{primera, quitar_comillas, sin_comillas};
use crate::error::LiderError;
use crate::latin1::{latin1_a_texto, latin1_chars};

verus! {

/// Hours in one simulated year.
pub const NHORAS: usize = 8760;

/// Largest number of adjacent zones a record can name.
pub const MAXADY: usize = 100;

/// Bytes of one fixed name buffer.
pub const NOMBRE_LARGO: usize = 50;

/// Offsets of the record fields, each following the previous field; the
/// first numeric field sits after the name buffer and two padding bytes.
pub const OF_AREA: usize = 50 + 2;

pub const OF_VOLUMEN: usize = OF_AREA + 4;

pub const OF_MULT: usize = OF_VOLUMEN + 4;

pub const OF_P: usize = OF_MULT + 4;

pub const OF_G: usize = OF_P + 2 * 4;

pub const OF_NADY: usize = OF_G + 24 * 4;

pub const OF_UA_EXT: usize = OF_NADY + 4;

pub const OF_UA_INT: usize = OF_UA_EXT + 4;

pub const OF_ADY: usize = OF_UA_INT + 100 * 4;

pub const OF_DA_CAL: usize = OF_ADY + 100 * 50;

pub const OF_DA_REF: usize = OF_DA_CAL + 8760 * 4;

pub const OF_Q_SEN: usize = OF_DA_REF + 8760 * 4;

pub const OF_Q_LAT: usize = OF_Q_SEN + 8760 * 4;

pub const OF_T_REAL: usize = OF_Q_LAT + 8760 * 4;

pub const OF_T_MAX: usize = OF_T_REAL + 8760 * 4;

pub const OF_T_MIN: usize = OF_T_MAX + 8760 * 4;

pub const OF_VENTINF: usize = OF_T_MIN + 8760 * 4;

/// Bytes of one whole record, derived from the field list above.
pub const REG_BYTES: usize = OF_VENTINF + 8760 * 4;

/// The unsigned value of four little-endian bytes.
pub open spec fn le32(b: Seq<u8>, i: int) -> int {
    b[i] + b[i + 1] * 256 + b[i + 2] * 65536 + b[i + 3] * 16777216
}

/// The signed value of four little-endian bytes, two's complement.
pub open spec fn le32s(b: Seq<u8>, i: int) -> int {
    if le32(b, i) < 2147483648 {
        le32(b, i)
    } else {
        le32(b, i) - 4294967296
    }
}

/// A fixed name buffer cut at its first zero byte.
pub open spec fn corta_en_cero(s: Seq<u8>) -> Seq<u8> {
    let z = primera(s, 0);
    if z == -1 {
        s
    } else {
        s.subrange(0, z)
    }
}

/// The characters of a fixed name buffer: cut at the first zero byte, one
/// pair of surrounding quotes stripped, and decoded as Latin-1.
pub open spec fn nombre_de_buffer(s: Seq<u8>) -> Seq<char> {
    latin1_chars(sin_comillas(corta_en_cero(s)))
}

/// The effective adjacency count: the stored field is the zero-based index
/// of the last adjacent zone, so one more, held within 0 to 100.
pub open spec fn num_ady(b: Seq<u8>, off: int) -> int {
    let crudo = le32s(b, off + OF_NADY as int) + 1;
    if crudo < 0 {
        0
    } else if crudo > 100 {
        100
    } else {
        crudo
    }
}

/// The ghost value of one decoded zone record.
pub struct ZonaBinG {
    pub nombre: Seq<char>,
    pub area: int,
    pub volumen: int,
    pub multiplicador: int,
    pub p: Seq<int>,
    pub g: Seq<int>,
    pub adyacentes: Seq<Seq<char>>,
    pub ua_int: Seq<int>,
    pub ua_ext: int,
    pub da_cal: Seq<int>,
    pub da_ref: Seq<int>,
    pub q_sen: Seq<int>,
    pub q_lat: Seq<int>,
    pub t_real: Seq<int>,
    pub t_max: Seq<int>,
    pub t_min: Seq<int>,
    pub v_ventinf: Seq<int>,
}

/// The record starting at `off`, field by field. The minimum-setpoint
/// array reads the maximum-setpoint bytes, as the producer's own reader
/// does; this is kept as observed behaviour.
pub open spec fn zona_bin_espec(b: Seq<u8>, off: int) -> ZonaBinG {
    let nady = num_ady(b, off);
    ZonaBinG {
        nombre: nombre_de_buffer(b.subrange(off, off + NOMBRE_LARGO as int)),
        area: le32(b, off + OF_AREA as int),
        volumen: le32(b, off + OF_VOLUMEN as int),
        multiplicador: le32s(b, off + OF_MULT as int),
        p: Seq::new(2, |k: int| le32(b, off + OF_P as int + 4 * k)),
        g: Seq::new(24, |k: int| le32(b, off + OF_G as int + 4 * k)),
        adyacentes: Seq::new(
            nady as nat,
            |k: int|
                nombre_de_buffer(
                    b.subrange(
                        off + OF_ADY as int + NOMBRE_LARGO as int * k,
                        off + OF_ADY as int + NOMBRE_LARGO as int * k + NOMBRE_LARGO as int,
                    ),
                ),
        ),
        ua_int: Seq::new(nady as nat, |k: int| le32(b, off + OF_UA_INT as int + 4 * k)),
        ua_ext: le32(b, off + OF_UA_EXT as int),
        da_cal: Seq::new(8760, |k: int| le32s(b, off + OF_DA_CAL as int + 4 * k)),
        da_ref: Seq::new(8760, |k: int| le32s(b, off + OF_DA_REF as int + 4 * k)),
        q_sen: Seq::new(8760, |k: int| le32(b, off + OF_Q_SEN as int + 4 * k)),
        q_lat: Seq::new(8760, |k: int| le32(b, off + OF_Q_LAT as int + 4 * k)),
        t_real: Seq::new(8760, |k: int| le32(b, off + OF_T_REAL as int + 4 * k)),
        t_max: Seq::new(8760, |k: int| le32(b, off + OF_T_MAX as int + 4 * k)),
        t_min: Seq::new(8760, |k: int| le32(b, off + OF_T_MAX as int + 4 * k)),
        v_ventinf: Seq::new(8760, |k: int| le32(b, off + OF_VENTINF as int + 4 * k)),
    }
}

/// One zone of the hourly dataset. Fields that carry IEEE-754 values hold
/// their raw little-endian 4-byte patterns.
#[derive(Debug, Clone)]
pub struct ZonaLider {
    /// Zone name.
    pub nombre: String,
    /// Zone surface, bit pattern [m2].
    pub area: u32,
    /// Zone volume, bit pattern [m3].
    pub volumen: u32,
    /// Zone multiplier.
    pub multiplicador: i32,
    /// Response factors to heat gain, bit patterns; 2 entries.
    pub p: Vec<u32>,
    /// Response factors to temperature change, bit patterns; 24 entries.
    pub g: Vec<u32>,
    /// Names of the adjacent zones.
    pub adyacentes: Vec<String>,
    /// Conductance to each adjacent zone, bit patterns [W/K].
    pub ua_int: Vec<u32>,
    /// Conductance to the exterior, bit pattern [W/K].
    pub ua_ext: u32,
    /// Hourly heating-demand flags, 1 or 0; 8760 entries.
    pub da_cal: Vec<i32>,
    /// Hourly cooling-demand flags, 1 or 0; 8760 entries.
    pub da_ref: Vec<i32>,
    /// Hourly sensible load, bit patterns; 8760 entries.
    pub q_sen: Vec<u32>,
    /// Hourly latent load, bit patterns; 8760 entries.
    pub q_lat: Vec<u32>,
    /// Hourly zone temperature, bit patterns; 8760 entries.
    pub t_real: Vec<u32>,
    /// Hourly maximum setpoint, bit patterns; 8760 entries.
    pub t_max: Vec<u32>,
    /// Hourly minimum setpoint, bit patterns; 8760 entries.
    pub t_min: Vec<u32>,
    /// Hourly ventilation and infiltration mass flow, bit patterns;
    /// 8760 entries.
    pub v_ventinf: Vec<u32>,
}

/// The ghost value of a decoded zone.
pub open spec fn zbg(z: ZonaLider) -> ZonaBinG {
    ZonaBinG {
        nombre: z.nombre@,
        area: z.area as int,
        volumen: z.volumen as int,
        multiplicador: z.multiplicador as int,
        p: z.p@.map_values(|v: u32| v as int),
        g: z.g@.map_values(|v: u32| v as int),
        adyacentes: z.adyacentes@.map_values(|v: String| v@),
        ua_int: z.ua_int@.map_values(|v: u32| v as int),
        ua_ext: z.ua_ext as int,
        da_cal: z.da_cal@.map_values(|v: i32| v as int),
        da_ref: z.da_ref@.map_values(|v: i32| v as int),
        q_sen: z.q_sen@.map_values(|v: u32| v as int),
        q_lat: z.q_lat@.map_values(|v: u32| v as int),
        t_real: z.t_real@.map_values(|v: u32| v as int),
        t_max: z.t_max@.map_values(|v: u32| v as int),
        t_min: z.t_min@.map_values(|v: u32| v as int),
        v_ventinf: z.v_ventinf@.map_values(|v: u32| v as int),
    }
}

/// Read the name held in a fixed buffer: the bytes up to the first zero
/// byte (or the whole buffer), one pair of surrounding quotes stripped,
/// decoded as Latin-1.
pub fn read_zonename_from_u8(u8vec: &[u8]) -> (r: String)
    ensures
        r@ == nombre_de_buffer(u8vec@),
{
    let n: usize = u8vec.len();
    let mut z: usize = 0;
    while z < n && u8vec[z] != 0
        invariant
            0 <= z <= n,
            n == u8vec@.len(),
            forall|k: int| 0 <= k < z ==> u8vec@[k] != 0,
        decreases n - z,
    {
        z += 1;
    }
    proof {
        if z < n {
            crate::bytes::lema_primera_exacta(u8vec@, 0, z as int);
            assert(corta_en_cero(u8vec@) =~= u8vec@.subrange(0, z as int));
        } else {
            crate::bytes::lema_primera_ausente(u8vec@, 0);
            assert(corta_en_cero(u8vec@) =~= u8vec@.subrange(0, z as int));
        }
    }
    let corto = crate::bytes::copia_rango(u8vec, 0, z);
    let limpio = quitar_comillas(corto.as_slice());
    latin1_a_texto(limpio.as_slice())
}

/// Read four little-endian bytes as an unsigned value.
fn lee_u32(b: &[u8], off: usize) -> (r: u32)
    requires
        off + 4 <= b@.len(),
        b@.len() <= usize::MAX,
    ensures
        r as int == le32(b@, off as int),
{
    (b[off] as u32) + (b[off + 1] as u32) * 256 + (b[off + 2] as u32) * 65536 + (b[off + 3]
        as u32) * 16777216
}

/// Read four little-endian bytes as a signed value.
fn lee_i32(b: &[u8], off: usize) -> (r: i32)
    requires
        off + 4 <= b@.len(),
        b@.len() <= usize::MAX,
    ensures
        r as int == le32s(b@, off as int),
{
    let u = lee_u32(b, off);
    if u < 2147483648 {
        u as i32
    } else {
        let ancho: i64 = (u as i64) - 4294967296;
        ancho as i32
    }
}

/// Read `n` consecutive unsigned little-endian values.
fn lee_u32s(b: &[u8], off: usize, n: usize) -> (r: Vec<u32>)
    requires
        off + 4 * n <= b@.len(),
        b@.len() <= usize::MAX,
    ensures
        r@.len() == n,
        forall|k: int| 0 <= k < n ==> (#[trigger] r@[k]) as int == le32(b@, off + 4 * k),
{
    let mut r: Vec<u32> = Vec::new();
    let mut i: usize = 0;
    while i < n
        invariant
            0 <= i <= n,
            off + 4 * n <= b@.len(),
            b@.len() <= usize::MAX,
            r@.len() == i,
            forall|k: int| 0 <= k < i ==> (#[trigger] r@[k]) as int == le32(b@, off + 4 * k),
        decreases n - i,
    {
        let v = lee_u32(b, off + 4 * i);
        r.push(v);
        i += 1;
    }
    r
}

/// Read `n` consecutive signed little-endian values.
fn lee_i32s(b: &[u8], off: usize, n: usize) -> (r: Vec<i32>)
    requires
        off + 4 * n <= b@.len(),
        b@.len() <= usize::MAX,
    ensures
        r@.len() == n,
        forall|k: int| 0 <= k < n ==> (#[trigger] r@[k]) as int == le32s(b@, off + 4 * k),
{
    let mut r: Vec<i32> = Vec::new();
    let mut i: usize = 0;
    while i < n
        invariant
            0 <= i <= n,
            off + 4 * n <= b@.len(),
            b@.len() <= usize::MAX,
            r@.len() == i,
            forall|k: int| 0 <= k < i ==> (#[trigger] r@[k]) as int == le32s(b@, off + 4 * k),
        decreases n - i,
    {
        let v = lee_i32(b, off + 4 * i);
        r.push(v);
        i += 1;
    }
    r
}

/// Decode the record starting at `off`, exactly as `zona_bin_espec`
/// states it.
fn zona_de_registro(b: &[u8], off: usize) -> (r: ZonaLider)
    requires
        off + REG_BYTES <= b@.len(),
        b@.len() <= usize::MAX,
    ensures
        zbg(r) == zona_bin_espec(b@, off as int),
{
    let nombre = {
        let buf = crate::bytes::copia_rango(b, off, off + NOMBRE_LARGO);
        read_zonename_from_u8(buf.as_slice())
    };
    let area = lee_u32(b, off + OF_AREA);
    let volumen = lee_u32(b, off + OF_VOLUMEN);
    let multiplicador = lee_i32(b, off + OF_MULT);
    let p = lee_u32s(b, off + OF_P, 2);
    let g = lee_u32s(b, off + OF_G, 24);
    let crudo = lee_i32(b, off + OF_NADY);
    let mas_uno: i64 = (crudo as i64) + 1;
    let nady: usize = if mas_uno < 0 {
        0
    } else if mas_uno > 100 {
        100
    } else {
        mas_uno as usize
    };
    proof {
        assert(nady as int == num_ady(b@, off as int));
    }
    let mut adyacentes: Vec<String> = Vec::new();
    let mut k: usize = 0;
    while k < nady
        invariant
            0 <= k <= nady <= 100,
            off + REG_BYTES <= b@.len(),
            b@.len() <= usize::MAX,
            adyacentes@.len() == k,
            forall|j: int|
                0 <= j < k ==> (#[trigger] adyacentes@[j])@ == nombre_de_buffer(
                    b@.subrange(
                        off + OF_ADY as int + NOMBRE_LARGO as int * j,
                        off + OF_ADY as int + NOMBRE_LARGO as int * j + NOMBRE_LARGO as int,
                    ),
                ),
        decreases nady - k,
    {
        let ini = off + OF_ADY + NOMBRE_LARGO * k;
        let buf = crate::bytes::copia_rango(b, ini, ini + NOMBRE_LARGO);
        let nom = read_zonename_from_u8(buf.as_slice());
        adyacentes.push(nom);
        k += 1;
    }
    let ua_int = lee_u32s(b, off + OF_UA_INT, nady);
    let ua_ext = lee_u32(b, off + OF_UA_EXT);
    let da_cal = lee_i32s(b, off + OF_DA_CAL, NHORAS);
    let da_ref = lee_i32s(b, off + OF_DA_REF, NHORAS);
    let q_sen = lee_u32s(b, off + OF_Q_SEN, NHORAS);
    let q_lat = lee_u32s(b, off + OF_Q_LAT, NHORAS);
    let t_real = lee_u32s(b, off + OF_T_REAL, NHORAS);
    let t_max = lee_u32s(b, off + OF_T_MAX, NHORAS);
    // The producer's reader fills the minimum-setpoint array from the
    // maximum-setpoint bytes; kept so that decoded data matches it.
    let t_min = lee_u32s(b, off + OF_T_MAX, NHORAS);
    let v_ventinf = lee_u32s(b, off + OF_VENTINF, NHORAS);
    let z = ZonaLider {
        nombre,
        area,
        volumen,
        multiplicador,
        p,
        g,
        adyacentes,
        ua_int,
        ua_ext,
        da_cal,
        da_ref,
        q_sen,
        q_lat,
        t_real,
        t_max,
        t_min,
        v_ventinf,
    };
    proof {
        let ze = zona_bin_espec(b@, off as int);
        assert(b@.subrange(off as int, off + NOMBRE_LARGO as int) == b@.subrange(
            off as int,
            off + NOMBRE_LARGO as int,
        ));
        assert(zbg(z).p =~= ze.p);
        assert(zbg(z).g =~= ze.g);
        assert(zbg(z).adyacentes =~= ze.adyacentes);
        assert(zbg(z).ua_int =~= ze.ua_int);
        assert(zbg(z).da_cal =~= ze.da_cal);
        assert(zbg(z).da_ref =~= ze.da_ref);
        assert(zbg(z).q_sen =~= ze.q_sen);
        assert(zbg(z).q_lat =~= ze.q_lat);
        assert(zbg(z).t_real =~= ze.t_real);
        assert(zbg(z).t_max =~= ze.t_max);
        assert(zbg(z).t_min =~= ze.t_min);
        assert(zbg(z).v_ventinf =~= ze.v_ventinf);
    }
    z
}

/// Index of the first zone with the given name, or -1.
pub open spec fn indice_zona_bin(zs: Seq<ZonaBinG>, nombre: Seq<char>) -> int
    decreases zs.len(),
{
    if zs.len() == 0 {
        -1
    } else if zs[0].nombre == nombre {
        0
    } else {
        let r = indice_zona_bin(zs.subrange(1, zs.len() as int), nombre);
        if r == -1 {
            -1
        } else {
            r + 1
        }
    }
}

/// Insert a zone into the name-keyed collection: a repeated name
/// overwrites the earlier entry, otherwise the zone is appended.
pub open spec fn inserta_zona_bin(zs: Seq<ZonaBinG>, z: ZonaBinG) -> Seq<ZonaBinG> {
    let i = indice_zona_bin(zs, z.nombre);
    if i == -1 {
        zs.push(z)
    } else {
        zs.update(i, z)
    }
}

/// The zones of the first `n` records, inserted in file order.
pub open spec fn zonas_bin_espec(b: Seq<u8>, n: int) -> Seq<ZonaBinG>
    decreases n,
{
    if n <= 0 {
        Seq::empty()
    } else {
        inserta_zona_bin(
            zonas_bin_espec(b, n - 1),
            zona_bin_espec(b, 4 + (n - 1) * REG_BYTES as int),
        )
    }
}

/// What `indice_zona_bin` returns: -1 and no occurrence, or the least
/// index carrying the name.
pub proof fn lema_indice_zona_bin(zs: Seq<ZonaBinG>, nombre: Seq<char>)
    ensures
        indice_zona_bin(zs, nombre) == -1 ==> forall|i: int|
            0 <= i < zs.len() ==> (#[trigger] zs[i]).nombre != nombre,
        indice_zona_bin(zs, nombre) != -1 ==> {
            &&& 0 <= indice_zona_bin(zs, nombre) < zs.len()
            &&& zs[indice_zona_bin(zs, nombre)].nombre == nombre
            &&& forall|i: int|
                0 <= i < indice_zona_bin(zs, nombre) ==> (#[trigger] zs[i]).nombre != nombre
        },
    decreases zs.len(),
{
    if zs.len() > 0 && zs[0].nombre != nombre {
        let t = zs.subrange(1, zs.len() as int);
        lema_indice_zona_bin(t, nombre);
        assert forall|i: int| 1 <= i < zs.len() implies zs[i] == t[i - 1] by {}
    }
}

/// The converse: a least index carrying the name is what the search
/// returns.
pub proof fn lema_indice_zona_bin_exacto(zs: Seq<ZonaBinG>, nombre: Seq<char>, k: int)
    requires
        0 <= k < zs.len(),
        zs[k].nombre == nombre,
        forall|i: int| 0 <= i < k ==> (#[trigger] zs[i]).nombre != nombre,
    ensures
        indice_zona_bin(zs, nombre) == k,
    decreases zs.len(),
{
    if k > 0 {
        let t = zs.subrange(1, zs.len() as int);
        lema_indice_zona_bin_exacto(t, nombre, k - 1);
    }
}

/// Position of the first zone carrying the name, or the vector's length
/// when the name is absent, matching the ghost search.
fn indice_de(zonas: &Vec<ZonaLider>, nombre: &String) -> (r: usize)
    ensures
        indice_zona_bin(vista_zonas(zonas@), nombre@) == -1 ==> r == zonas@.len(),
        indice_zona_bin(vista_zonas(zonas@), nombre@) != -1 ==> r as int == indice_zona_bin(
            vista_zonas(zonas@),
            nombre@,
        ) && r < zonas@.len(),
        r <= zonas@.len(),
        r < zonas@.len() ==> indice_zona_bin(vista_zonas(zonas@), nombre@) == r as int,
{
    proof {
        lema_indice_zona_bin(vista_zonas(zonas@), nombre@);
    }
    let mut j: usize = 0;
    while j < zonas.len()
        invariant
            0 <= j <= zonas@.len(),
            forall|k: int| 0 <= k < j ==> (#[trigger] zonas@[k]).nombre@ != nombre@,
        decreases zonas@.len() - j,
    {
        if zonas[j].nombre == *nombre {
            proof {
                let vista = vista_zonas(zonas@);
                assert(vista[j as int].nombre == zonas@[j as int].nombre@);
                assert forall|k: int| 0 <= k < j implies (#[trigger] vista[k]).nombre
                    != nombre@ by {
                    assert(vista[k].nombre == zonas@[k].nombre@);
                }
                lema_indice_zona_bin_exacto(vista, nombre@, j as int);
            }
            return j;
        }
        j += 1;
    }
    proof {
        let vista = vista_zonas(zonas@);
        assert forall|k: int| 0 <= k < vista.len() implies (#[trigger] vista[k]).nombre
            != nombre@ by {
            assert(vista[k].nombre == zonas@[k].nombre@);
        }
        lema_indice_zona_bin(vista, nombre@);
        if indice_zona_bin(vista, nombre@) != -1 {
            assert(vista[indice_zona_bin(vista, nombre@)].nombre == nombre@);
        }
    }
    zonas.len()
}

/// The hourly dataset: the declared zone count and the name-keyed zone
/// collection, in first-appearance order with a later duplicate name
/// replacing the earlier entry.
#[derive(Debug, Clone)]
pub struct BinData {
    /// Declared number of zones.
    pub numzonas: u32,
    /// Decoded zones.
    pub zonas: Vec<ZonaLider>,
}

/// The ghost value of a zone vector.
pub open spec fn vista_zonas(zs: Seq<ZonaLider>) -> Seq<ZonaBinG> {
    zs.map_values(|z: ZonaLider| zbg(z))
}

/// The ghost value of the zone collection.
pub open spec fn bd_zonas(b: &BinData) -> Seq<ZonaBinG> {
    vista_zonas(b.zonas@)
}

impl BinData {
    /// Decode a whole dataset, exactly: the load succeeds precisely when
    /// the bytes cover the declared record count, and then yields the
    /// records of `zonas_bin_espec`; a shorter input fails with the
    /// truncation error and surfaces no zone.
    pub fn from_data(b: &[u8]) -> (r: Result<BinData, LiderError>)
        ensures
            (b@.len() >= 4 && 4 + le32(b@, 0) * REG_BYTES as int <= b@.len()) <==> r is Ok,
            r matches Ok(bd) ==> {
                &&& bd.numzonas as int == le32(b@, 0)
                &&& bd_zonas(&bd) == zonas_bin_espec(b@, le32(b@, 0))
            },
            r matches Err(e) ==> e is BinTruncado,
    {
        let n: usize = b.len();
        if n < 4 {
            return Err(LiderError::BinTruncado { esperados: 4, disponibles: n as u64 });
        }
        let numzonas = lee_u32(b, 0);
        proof {
            assert((numzonas as int) * (REG_BYTES as int) <= 4294967295 * (REG_BYTES as int))
                by (nonlinear_arith)
                requires
                    0 <= numzonas as int <= 4294967295,
                    REG_BYTES as int > 0,
            ;
        }
        let necesarios: u64 = 4 + (numzonas as u64) * (REG_BYTES as u64);
        if necesarios > n as u64 {
            return Err(
                LiderError::BinTruncado { esperados: necesarios, disponibles: n as u64 },
            );
        }
        let mut zonas: Vec<ZonaLider> = Vec::new();
        let mut i: usize = 0;
        while i < numzonas as usize
            invariant
                0 <= i <= numzonas,
                n == b@.len(),
                b@.len() <= usize::MAX,
                numzonas as int == le32(b@, 0),
                4 + numzonas * REG_BYTES as int <= n,
                vista_zonas(zonas@) == zonas_bin_espec(b@, i as int),
            decreases numzonas - i,
        {
            proof {
                assert(4 + (i as int) * (REG_BYTES as int) + REG_BYTES as int <= n as int
                    && (i as int) * (REG_BYTES as int) >= 0) by (nonlinear_arith)
                    requires
                        0 <= i as int,
                        i as int + 1 <= numzonas as int,
                        4 + (numzonas as int) * (REG_BYTES as int) <= n as int,
                        REG_BYTES as int > 0,
                ;
            }
            let off: usize = 4 + i * REG_BYTES;
            let z = zona_de_registro(b, off);
            // Insert with the documented last-wins rule for a repeated
            // name.
            let donde = indice_de(&zonas, &z.nombre);
            if donde < zonas.len() {
                zonas.set(donde, z);
                proof {
                    assert(vista_zonas(zonas@) =~= zonas_bin_espec(b@, (i + 1) as int));
                }
            } else {
                zonas.push(z);
                proof {
                    assert(vista_zonas(zonas@) =~= zonas_bin_espec(b@, (i + 1) as int));
                }
            }
            i += 1;
        }
        Ok(BinData { numzonas, zonas })
    }

    /// The zone with the given name, when present: the entry that the
    /// last record with that name produced.
    pub fn zona(&self, nombre: &String) -> (r: Option<&ZonaLider>)
        ensures
            indice_zona_bin(bd_zonas(self), nombre@) == -1 <==> r is None,
            r matches Some(z) ==> zbg(*z) == bd_zonas(self)[indice_zona_bin(
                bd_zonas(self),
                nombre@,
            )],
    {
        let donde = indice_de(&self.zonas, nombre);
        if donde < self.zonas.len() {
            proof {
                assert(bd_zonas(self)[donde as int] == zbg(self.zonas@[donde as int]));
            }
            Some(&self.zonas[donde])
        } else {
            None
        }
    }
}

} // verus!
