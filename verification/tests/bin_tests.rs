//! Tests of the binary hourly-dataset decoder over crafted records.

use visol::bin::{
    BinData, NHORAS, OF_ADY, OF_AREA, OF_DA_CAL, OF_G, OF_MULT, OF_NADY, OF_P, OF_T_MAX,
    OF_T_MIN, OF_UA_EXT, OF_UA_INT, OF_VENTINF, OF_VOLUMEN, REG_BYTES,
};

fn w_u32(reg: &mut [u8], off: usize, v: u32) {
    let b = v.to_le_bytes();
    reg[off..off + 4].copy_from_slice(&b);
}

fn w_i32(reg: &mut [u8], off: usize, v: i32) {
    let b = v.to_le_bytes();
    reg[off..off + 4].copy_from_slice(&b);
}

fn w_f32(reg: &mut [u8], off: usize, v: f32) {
    w_u32(reg, off, v.to_bits());
}

fn w_nombre(reg: &mut [u8], off: usize, nombre: &str) {
    let bytes = nombre.as_bytes();
    reg[off..off + bytes.len()].copy_from_slice(bytes);
}

const G_VALORES: [f32; 24] = [
    186.3824,
    -194.9448,
    3.184631,
    1.8466333,
    1.2096132,
    0.83193725,
    0.5903781,
    0.42930642,
    0.31856796,
    0.24052902,
    0.18438642,
    0.14326464,
    0.11267228,
    0.08959523,
    0.0719719,
    0.058364194,
    0.047740776,
    0.03937716,
    0.032728218,
    0.027403418,
    0.023101456,
    0.019599736,
    0.016730765,
    0.014363277,
];

const ADYACENTES: [&str; 5] = ["P01_E02", "P01_E04", "P02_E01", "P02_E03", "P02_E05"];

const UA_INT: [f32; 5] = [26.382734, 13.981942, 7.7620816, 8.6559, 1.0642923];

const VENTINF: [f32; 6] = [
    0.015308376,
    0.01476276,
    0.014628861,
    0.014651622,
    0.014688805,
    0.014711768,
];

/// The reference first record, with the values the assertions check.
fn registro_p01_e01() -> Vec<u8> {
    let mut reg = vec![0u8; REG_BYTES];
    w_nombre(&mut reg, 0, "\"P01_E01\"");
    w_f32(&mut reg, OF_AREA, 25.0373287200928);
    w_f32(&mut reg, OF_VOLUMEN, 62.5933227539062);
    w_i32(&mut reg, OF_MULT, 1);
    w_f32(&mut reg, OF_P, 1.0);
    w_f32(&mut reg, OF_P + 4, -0.9554443359375);
    for (k, g) in G_VALORES.iter().enumerate() {
        w_f32(&mut reg, OF_G + 4 * k, *g);
    }
    // The stored field is the zero-based index of the last adjacent zone.
    w_i32(&mut reg, OF_NADY, 4);
    w_f32(&mut reg, OF_UA_EXT, 28.203636);
    for (k, ua) in UA_INT.iter().enumerate() {
        w_f32(&mut reg, OF_UA_INT + 4 * k, *ua);
    }
    for (k, nombre) in ADYACENTES.iter().enumerate() {
        w_nombre(&mut reg, OF_ADY + 50 * k, &format!("\"{}\"", nombre));
    }
    for h in 0..NHORAS {
        w_i32(&mut reg, OF_DA_CAL + 4 * h, if h % 2 == 0 { 1 } else { 0 });
        w_f32(&mut reg, OF_T_MAX + 4 * h, 27.0);
        w_f32(&mut reg, OF_T_MIN + 4 * h, 17.0);
    }
    for (h, vv) in VENTINF.iter().enumerate() {
        w_f32(&mut reg, OF_VENTINF + 4 * h, *vv);
    }
    reg
}

/// A plain record carrying only a name, a surface and a multiplier.
fn registro_simple(nombre: &str, area: f32, mult: i32) -> Vec<u8> {
    let mut reg = vec![0u8; REG_BYTES];
    w_nombre(&mut reg, 0, nombre);
    w_f32(&mut reg, OF_AREA, area);
    w_i32(&mut reg, OF_MULT, mult);
    // No adjacent zones: the stored index is one below zero.
    w_i32(&mut reg, OF_NADY, -1);
    reg
}

/// The reference dataset: ten zones, the first being the detailed one.
fn fixture_bin() -> Vec<u8> {
    let mut datos = vec![];
    datos.extend_from_slice(&10u32.to_le_bytes());
    datos.extend_from_slice(&registro_p01_e01());
    for k in 2..=4 {
        datos.extend_from_slice(&registro_simple(&format!("P01_E0{}", k), 10.0, 1));
    }
    for k in 1..=6 {
        datos.extend_from_slice(&registro_simple(&format!("P02_E0{}", k), 5.0, 1));
    }
    datos
}

#[test]
fn read_bin_testfile() {
    let datos = fixture_bin();
    let res = BinData::from_data(&datos).unwrap();
    assert_eq!(10, res.numzonas);
    let nombre = String::from("P01_E01");
    let zone0 = res.zona(&nombre).unwrap();
    assert_eq!(zone0.nombre, "P01_E01");
    assert_eq!(f32::from_bits(zone0.area), 25.0373287200928);
    assert_eq!(zone0.multiplicador, 1);
    assert_eq!(f32::from_bits(zone0.volumen), 62.5933227539062);
    let p: Vec<f32> = zone0.p.iter().map(|&b| f32::from_bits(b)).collect();
    assert_eq!(p, &[1.0, -0.9554443359375]);
    let g: Vec<f32> = zone0.g.iter().map(|&b| f32::from_bits(b)).collect();
    assert_eq!(g, &G_VALORES);
    assert_eq!(zone0.adyacentes, &ADYACENTES);
    let ua: Vec<f32> = zone0.ua_int.iter().map(|&b| f32::from_bits(b)).collect();
    assert_eq!(ua, &UA_INT);
    assert_eq!(f32::from_bits(zone0.ua_ext), 28.203636);
    let vv: Vec<f32> = zone0.v_ventinf[0..6].iter().map(|&b| f32::from_bits(b)).collect();
    assert_eq!(vv, &VENTINF);
}

#[test]
fn registro_unico_reproduce_los_campos() {
    let mut datos = vec![];
    datos.extend_from_slice(&1u32.to_le_bytes());
    datos.extend_from_slice(&registro_p01_e01());
    let res = BinData::from_data(&datos).unwrap();
    assert_eq!(res.numzonas, 1);
    assert_eq!(res.zonas.len(), 1);
    let z = &res.zonas[0];
    assert_eq!(z.nombre, "P01_E01");
    assert_eq!(f32::from_bits(z.area), 25.0373287200928);
    assert_eq!(z.adyacentes.len(), 5);
    assert_eq!(z.ua_int.len(), 5);
    assert_eq!(z.p.len(), 2);
    assert_eq!(z.g.len(), 24);
    assert_eq!(z.da_cal.len(), NHORAS);
    assert_eq!(z.da_cal[0], 1);
    assert_eq!(z.da_cal[1], 0);
    assert_eq!(z.da_ref[0], 0);
    // The minimum-setpoint array reads the maximum-setpoint bytes, as
    // the producer's reader does.
    assert_eq!(f32::from_bits(z.t_max[0]), 27.0);
    assert_eq!(f32::from_bits(z.t_min[0]), 27.0);
}

#[test]
fn truncado_a_mitad_de_registro_falla() {
    let mut datos = vec![];
    datos.extend_from_slice(&1u32.to_le_bytes());
    let reg = registro_p01_e01();
    datos.extend_from_slice(&reg[0..REG_BYTES / 2]);
    let r = BinData::from_data(&datos);
    assert!(r.is_err());
    let e = r.err().unwrap();
    assert!(e.es_truncado());
    assert!(matches!(e, visol::error::LiderError::BinTruncado { .. }));
}

#[test]
fn cabecera_corta_falla() {
    let datos = vec![0u8, 1u8];
    let r = BinData::from_data(&datos);
    assert!(r.err().unwrap().es_truncado());
}

#[test]
fn cuenta_mayor_que_los_bytes_falla() {
    let mut datos = vec![];
    datos.extend_from_slice(&2u32.to_le_bytes());
    datos.extend_from_slice(&registro_p01_e01());
    let r = BinData::from_data(&datos);
    assert!(r.err().unwrap().es_truncado());
}

#[test]
fn bytes_sobrantes_se_ignoran() {
    let mut datos = vec![];
    datos.extend_from_slice(&1u32.to_le_bytes());
    datos.extend_from_slice(&registro_p01_e01());
    datos.extend_from_slice(&[0u8; 17]);
    let r = BinData::from_data(&datos);
    assert!(r.is_ok());
}

#[test]
fn nombre_repetido_gana_el_ultimo() {
    let mut datos = vec![];
    datos.extend_from_slice(&3u32.to_le_bytes());
    datos.extend_from_slice(&registro_simple("Z1", 1.0, 1));
    datos.extend_from_slice(&registro_simple("Z2", 2.0, 1));
    datos.extend_from_slice(&registro_simple("Z1", 9.0, 3));
    let res = BinData::from_data(&datos).unwrap();
    assert_eq!(res.numzonas, 3);
    assert_eq!(res.zonas.len(), 2);
    let z1 = res.zona(&String::from("Z1")).unwrap();
    assert_eq!(f32::from_bits(z1.area), 9.0);
    assert_eq!(z1.multiplicador, 3);
    // First-appearance order is kept.
    assert_eq!(res.zonas[0].nombre, "Z1");
    assert_eq!(res.zonas[1].nombre, "Z2");
}

#[test]
fn nombre_con_latin1_se_decodifica() {
    let mut reg = registro_simple("X", 1.0, 1);
    // "Sal[o]n" with the Latin-1 accented vowel, padded with zero bytes.
    reg[0] = b'S';
    reg[1] = b'a';
    reg[2] = b'l';
    reg[3] = 0xF3;
    reg[4] = b'n';
    reg[5] = 0;
    let mut datos = vec![];
    datos.extend_from_slice(&1u32.to_le_bytes());
    datos.extend_from_slice(&reg);
    let res = BinData::from_data(&datos).unwrap();
    assert_eq!(res.zonas[0].nombre, "Sal\u{f3}n");
}
