//! Unit tests of the value types, the numeric fields and the locator.

use visol::error::LiderError;
use visol::flujos::{Conceptos, Flujos};
use visol::locate::find_bin;
use visol::num::{decimal_de, entero_de};
use visol::piemode::PieMode;
use visol::types::{Elemento, PlantaLIDER, TipoObjeto, ZonaLIDER};
use visol::config::Config;

fn bytes(s: &str) -> Vec<u8> {
    s.bytes().collect()
}

#[test]
fn add_elements() {
    let c1 = Elemento {
        nombre: "uno".to_string(),
        flujos: Flujos {
            calpos: 1_000_000,
            calneg: 2_000_000,
            calnet: 3_000_000,
            refpos: 4_000_000,
            refneg: 5_000_000,
            refnet: 6_000_000,
        },
    };
    let c2 = Elemento {
        nombre: "dos".to_string(),
        flujos: Flujos {
            calpos: 1_000_000,
            calneg: 2_000_000,
            calnet: 3_000_000,
            refpos: 4_000_000,
            refneg: 5_000_000,
            refnet: 6_000_000,
        },
    };
    let suma = c1.flujos.suma(&c2.flujos);
    assert_eq!(suma.calpos, 2_000_000);
    assert_eq!(suma.refnet, 12_000_000);
}

#[test]
fn decimales_exactos() {
    assert_eq!(decimal_de(&bytes("25.04"), 10_000_000_000_000), Some(25_040_000));
    assert_eq!(decimal_de(&bytes("-0.5"), 10_000_000_000_000), Some(-500_000));
    assert_eq!(decimal_de(&bytes("+7"), 10_000_000_000_000), Some(7_000_000));
    assert_eq!(decimal_de(&bytes("12."), 10_000_000_000_000), Some(12_000_000));
    assert_eq!(decimal_de(&bytes(".25"), 10_000_000_000_000), Some(250_000));
    assert_eq!(decimal_de(&bytes("0.000001"), 10_000_000_000_000), Some(1));
    assert_eq!(decimal_de(&bytes(""), 10_000_000_000_000), None);
    assert_eq!(decimal_de(&bytes("."), 10_000_000_000_000), None);
    assert_eq!(decimal_de(&bytes("1,5"), 10_000_000_000_000), None);
    assert_eq!(decimal_de(&bytes("abc"), 10_000_000_000_000), None);
    assert_eq!(decimal_de(&bytes("1.2345678"), 10_000_000_000_000), None);
    assert_eq!(decimal_de(&bytes("10000001"), 10_000_000_000_000), None);
    assert_eq!(decimal_de(&bytes("2.5"), 1_000_000), None);
}

#[test]
fn enteros_exactos() {
    assert_eq!(entero_de(&bytes("42")), Some(42));
    assert_eq!(entero_de(&bytes("-7")), Some(-7));
    assert_eq!(entero_de(&bytes("0002")), Some(2));
    assert_eq!(entero_de(&bytes("2147483647")), Some(i32::MAX));
    assert_eq!(entero_de(&bytes("-2147483648")), Some(i32::MIN));
    assert_eq!(entero_de(&bytes("2147483648")), None);
    assert_eq!(entero_de(&bytes("4.2")), None);
    assert_eq!(entero_de(&bytes(" 2")), None);
    assert_eq!(entero_de(&bytes("")), None);
}

#[test]
fn minmax_de_flujos() {
    let f = Flujos {
        calpos: 5,
        calneg: -9,
        calnet: -4,
        refpos: 7,
        refneg: -1,
        refnet: 6,
    };
    assert_eq!(f.minmax(), (-9, 7));
    let fv = f.to_flows();
    assert_eq!(fv.calpos, vec![5]);
    assert_eq!(fv.refnet, vec![6]);
}

#[test]
fn escala_de_flujos() {
    let f = Flujos {
        calpos: 2,
        calneg: -3,
        calnet: -1,
        refpos: 4,
        refneg: -5,
        refnet: -1,
    };
    let g = f.escala(10);
    assert_eq!(g.calpos, 20);
    assert_eq!(g.refneg, -50);
}

#[test]
fn conceptos_desde_filas() {
    let filas: Vec<Vec<u8>> = vec![
        bytes("Paredes Exteriores, 1, 2, 3, 4, 5, 6"),
        bytes("Cubiertas, 0, 0, 0, 0, 0, 0"),
        bytes("Suelos, 0, 0, 0, 0, 0, 0"),
        {
            let mut n = bytes("Puentes T");
            n.push(0xE9);
            n.extend_from_slice(&bytes("rmicos, 0, 0, 0, 0, 0, 0"));
            n
        },
        bytes("Solar Ventanas, 0, 0, 0, 0, 0, 0"),
        {
            let mut n = bytes("Transmisi");
            n.push(0xF3);
            n.extend_from_slice(&bytes("n Ventanas, 0, 0, 0, 0, 0, 0"));
            n
        },
        bytes("Fuentes Internas, 0, 0, 0, 0, 0, 0"),
        {
            let mut n = bytes("Infiltraci");
            n.push(0xF3);
            n.extend_from_slice(&bytes("n, -2.5, 0, 0, 0, 0, 0"));
            n
        },
        bytes("TOTAL, -1.5, 2, 3, 4, 5, 6"),
    ];
    let c = Conceptos::from_vec(&filas).unwrap();
    assert_eq!(c.pext.calpos, 1_000_000);
    assert_eq!(c.pext.refnet, 6_000_000);
    assert_eq!(c.vent.calpos, -2_500_000);
    assert_eq!(c.total.calpos, -1_500_000);
    assert_eq!(c.minmax(), (-2_500_000, 6_000_000));
}

#[test]
fn algebra_de_conceptos() {
    let filas: Vec<Vec<u8>> = vec![
        bytes("Paredes Exteriores, 1, -2, -1, 3, -4, -1"),
        bytes("Cubiertas, 0, 0, 0, 0, 0, 0"),
        bytes("Suelos, 0, 0, 0, 0, 0, 0"),
        {
            let mut n = bytes("Puentes T");
            n.push(0xE9);
            n.extend_from_slice(&bytes("rmicos, 0, 0, 0, 0, 0, 0"));
            n
        },
        bytes("Solar Ventanas, 0, 0, 0, 0, 0, 0"),
        {
            let mut n = bytes("Transmisi");
            n.push(0xF3);
            n.extend_from_slice(&bytes("n Ventanas, 0, 0, 0, 0, 0, 0"));
            n
        },
        bytes("Fuentes Internas, 0, 0, 0, 0, 0, 0"),
        {
            let mut n = bytes("Infiltraci");
            n.push(0xF3);
            n.extend_from_slice(&bytes("n, 0, 0, 0, 0, 0, 0"));
            n
        },
        bytes("TOTAL, 1, -2, -1, 3, -4, -1"),
    ];
    let c = Conceptos::from_vec(&filas).unwrap();
    let doble = c.suma(&c);
    assert_eq!(doble.pext.calpos, 2_000_000);
    assert_eq!(doble.total.refneg, -8_000_000);
    let triple = c.escala(3);
    assert_eq!(triple.pext.calpos, 3_000_000);
    assert_eq!(triple.total.refneg, -12_000_000);
}

#[test]
fn conceptos_rechaza_nombre_desconocido() {
    let mut filas: Vec<Vec<u8>> = Vec::new();
    for _ in 0..9 {
        filas.push(bytes("Tejados, 0, 0, 0, 0, 0, 0"));
    }
    assert!(Conceptos::from_vec(&filas).is_err());
    let pocas: Vec<Vec<u8>> = vec![bytes("TOTAL, 0, 0, 0, 0, 0, 0")];
    assert!(Conceptos::from_vec(&pocas).is_err());
}

#[test]
fn elemento_desde_fila() {
    let e = Elemento::de_linea(&bytes(" \"Muro M1\" , 1.5, -0.5, 1.0, 0, 0, 0")).unwrap();
    assert_eq!(e.nombre, "Muro M1");
    assert_eq!(e.flujos.calpos, 1_500_000);
    assert_eq!(e.flujos.calneg, -500_000);
    assert!(Elemento::de_linea(&bytes("sin valores")).is_none());
    assert!(Elemento::de_linea(&bytes("nombre, 1, 2")).is_none());
    // Exactly one pair of surrounding quotes is stripped.
    let e = Elemento::de_linea(&bytes("\"\"M\"\", 1, 2, 3, 4, 5, 6")).unwrap();
    assert_eq!(e.nombre, "\"M\"");
}

#[test]
fn localiza_el_bin() {
    let lista = vec![
        String::from("otro.bin"),
        String::from("casa.bin"),
        String::from("ResumenRCC_casa.bin"),
    ];
    assert_eq!(find_bin("casa", &lista), Some(String::from("casa.bin")));
    let lista2 = vec![String::from("otro.bin"), String::from("ResumenRCC_casa.bin")];
    assert_eq!(find_bin("casa", &lista2), Some(String::from("ResumenRCC_casa.bin")));
    let lista3 = vec![String::from("zzz.bin"), String::from("aaa.bin")];
    assert_eq!(find_bin("casa", &lista3), Some(String::from("zzz.bin")));
    let vacia: Vec<String> = vec![];
    assert_eq!(find_bin("casa", &vacia), None);
}

#[test]
fn tipos_de_objeto() {
    assert_eq!(TipoObjeto::from_u8(0), TipoObjeto::Edificio);
    assert_eq!(TipoObjeto::from_u8(1), TipoObjeto::Planta);
    assert_eq!(TipoObjeto::from_u8(2), TipoObjeto::Zona);
    assert_eq!(TipoObjeto::from_u8(3), TipoObjeto::Elemento);
    assert_eq!(TipoObjeto::from_u8(77), TipoObjeto::Ninguno);
    assert_eq!(TipoObjeto::Planta.codigo(), 1);
    assert_eq!(TipoObjeto::default(), TipoObjeto::Edificio);
}

#[test]
fn planta_desde_nombre() {
    let p = PlantaLIDER::from_name("P01");
    assert_eq!(p.nombre, "P01");
    assert!(p.zonas.is_empty());
    assert_eq!(p.multiplicador(), 1);
}

#[test]
fn zona_desde_nombre() {
    let z = ZonaLIDER::from_name(String::from("P01_E01"));
    assert_eq!(z.nombre, "P01_E01");
    assert_eq!(z.multiplicador, 1);
    assert_eq!(z.superficie, 0);
    assert_eq!(z.calefaccion_meses.len(), 12);
    assert_eq!(z.refrigeracion_meses.len(), 12);
    assert!(z.elementos.is_empty());
}

#[test]
fn configuracion_de_serie() {
    let c = Config::default();
    assert!(c.autolimits);
    assert_eq!(c.maxlimit, 50);
    assert_eq!(c.minlimit, -150);
    assert_eq!(c.out_dpi, 150);
    assert_eq!(c.out_fmt, "%Y%m%d_%H%M%S");
    assert_eq!(c.out_basename, "ViSol");
}

#[test]
fn serie_del_modo_de_tarta() {
    let f = Flujos {
        calpos: 1,
        calneg: 2,
        calnet: 3,
        refpos: 4,
        refneg: 5,
        refnet: 6,
    };
    let fv = f.to_flows();
    assert_eq!(PieMode::CalPos.serie(&fv), &vec![1]);
    assert_eq!(PieMode::CalNeg.serie(&fv), &vec![2]);
    assert_eq!(PieMode::RefPos.serie(&fv), &vec![4]);
    assert_eq!(PieMode::RefNeg.serie(&fv), &vec![5]);
}

#[test]
fn mensajes_de_error() {
    let e = LiderError::Formato {
        contexto: String::from("Zona"),
        linea: String::from("linea mala"),
    };
    assert_eq!(e.mensaje(), "Formato incorrecto (Zona): linea mala");
    assert!(!e.es_truncado());
    let t = LiderError::BinTruncado { esperados: 100, disponibles: 10 };
    assert!(t.es_truncado());
    assert_eq!(t.mensaje(), "Archivo binario truncado");
}
