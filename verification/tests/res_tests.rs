//! Tests of the text-summary parser and the aggregation queries over a
//! reference building of two floors with four and six zones.

use visol::types::{EdificioLIDER, TipoObjeto};

fn push_ascii(v: &mut Vec<u8>, s: &str) {
    for b in s.bytes() {
        v.push(b);
    }
}

fn push_linea(v: &mut Vec<u8>, s: &str) {
    push_ascii(v, s);
    v.push(b'\n');
}

/// "Calefacci[o]n" with the Latin-1 accented vowel.
fn push_cal(v: &mut Vec<u8>) {
    push_ascii(v, "Calefacci");
    v.push(0xF3);
    push_ascii(v, "n");
}

fn push_ref(v: &mut Vec<u8>) {
    push_ascii(v, "Refrigeraci");
    v.push(0xF3);
    push_ascii(v, "n");
}

/// The nine demand-group rows of one zone, shared by every zone of the
/// fixture.
fn push_grupos(v: &mut Vec<u8>) {
    push_linea(v, "Concepto, Cal_positivo, Cal_negativo, Cal_neto, Ref_positivo, Ref_negativo, Ref_neto");
    push_linea(v, "Paredes Exteriores, 1.5, -2.5, -1.0, 0.5, -0.5, 0.0");
    push_linea(v, "Cubiertas, 0, 0, 0, 0, 0, 0");
    push_linea(v, "Suelos, 0, 0, 0, 0, 0, 0");
    push_ascii(v, "Puentes T");
    v.push(0xE9);
    push_linea(v, "rmicos, 0, 0, 0, 0, 0, 0");
    push_linea(v, "Solar Ventanas, 0, 0, 0, 0, 0, 0");
    push_ascii(v, "Transmisi");
    v.push(0xF3);
    push_linea(v, "n Ventanas, 0, 0, 0, 0, 0, 0");
    push_linea(v, "Fuentes Internas, 0, 0, 0, 0, 0, 0");
    push_ascii(v, "Infiltraci");
    v.push(0xF3);
    push_linea(v, "n, 0, 0, 0, 0, 0, 0");
    push_linea(v, "TOTAL, 1.5, -2.5, -1.0, 0.5, -0.5, 0.0");
}

fn push_zona(v: &mut Vec<u8>, numero: usize, nombre: &str, superficie: &str) {
    push_linea(v, &format!("Zona  {}, \"{}\"", numero, nombre));
    push_linea(v, superficie);
    push_grupos(v);
    push_linea(v, "Numero de Componentes");
    push_linea(v, "1");
    push_linea(v, "Componente, Cal_positivo, Cal_negativo, Cal_neto, Ref_positivo, Ref_negativo, Ref_neto");
    push_linea(v, "Muro_M1, 1.0, -1.0, 0.0, 2.0, -2.0, 0.0");
}

fn fila_meses(valor: &str) -> String {
    let mut r = String::new();
    for m in 0..12 {
        if m > 0 {
            r.push_str(", ");
        }
        r.push_str(valor);
    }
    r
}

/// The reference summary: two floors of four and six zones; the first
/// floor carries all the surface, the second none.
fn fixture_res() -> Vec<u8> {
    let mut v = Vec::new();
    push_linea(&mut v, "# archivo de resultados");
    push_linea(&mut v, "Numero de plantas");
    push_linea(&mut v, "2");
    push_linea(&mut v, "\"P01\"");
    push_linea(&mut v, "Numero de zonas");
    push_linea(&mut v, "4");
    push_zona(&mut v, 1, "P01_E01", "25.5");
    push_zona(&mut v, 2, "P01_E02", "10.0");
    push_zona(&mut v, 3, "P01_E03", "30.5");
    push_zona(&mut v, 4, "P01_E04", "36.0");
    push_linea(&mut v, "\"P02\"");
    push_linea(&mut v, "Numero de zonas");
    push_linea(&mut v, "6");
    for k in 1..=6 {
        push_zona(&mut v, k, &format!("P02_E0{}", k), "0.0");
    }
    push_linea(&mut v, "RESULTADOS A NIVEL EDIFICIO");
    push_cal(&mut v);
    push_ascii(&mut v, ", ");
    push_ref(&mut v);
    push_linea(&mut v, " anual");
    push_linea(&mut v, "-50.25, 20.5");
    push_cal(&mut v);
    push_linea(&mut v, " mensual");
    push_linea(&mut v, &fila_meses("-4.1875"));
    push_ref(&mut v);
    push_linea(&mut v, " mensual");
    push_linea(&mut v, &fila_meses("1.708333"));
    push_linea(&mut v, "Numero de zonas");
    push_linea(&mut v, "10");
    push_linea(&mut v, "Nombre, m2, multiplicador, Calefaccion, Refrigeracion");
    push_linea(&mut v, "\"P01_E01\", 25.5, 1, -30.0, 20.0");
    push_linea(&mut v, "\"P01_E02\", 10.0, 1, -30.0, 20.0");
    push_linea(&mut v, "\"P01_E03\", 30.5, 1, -30.0, 20.0");
    push_linea(&mut v, "\"P01_E04\", 36.0, 1, -30.0, 20.0");
    push_linea(&mut v, "\"P02_E01\", 0.0, 1, 0.0, 0.0");
    push_linea(&mut v, "\"P02_E02\", 0.0, 2, 0.0, 0.0");
    push_linea(&mut v, "\"P02_E03\", 0.0, 1, 0.0, 0.0");
    push_linea(&mut v, "\"P02_E04\", 0.0, 1, 0.0, 0.0");
    push_linea(&mut v, "\"P02_E05\", 0.0, 1, 0.0, 0.0");
    push_linea(&mut v, "\"P02_E06\", 0.0, 1, 0.0, 0.0");
    push_linea(&mut v, "TOTAL, 102.0, 0, 0");
    push_cal(&mut v);
    push_linea(&mut v, " mensual por zonas");
    for _ in 0..4 {
        push_linea(&mut v, &fila_meses("-2.5"));
    }
    for _ in 0..6 {
        push_linea(&mut v, &fila_meses("0"));
    }
    push_ref(&mut v);
    push_linea(&mut v, " mensual por zonas");
    for _ in 0..4 {
        push_linea(&mut v, &fila_meses("3.5"));
    }
    for _ in 0..6 {
        push_linea(&mut v, &fila_meses("0"));
    }
    v
}

#[test]
fn read_res_testfile() {
    let datos = fixture_res();
    let res = EdificioLIDER::from_data(&datos).unwrap();
    assert_eq!(res.plantas.len(), 2);
    assert_eq!(res.plantas[0].zonas.len(), 4);
    assert_eq!(res.plantas[1].zonas.len(), 6);
    assert_eq!(1, 1);
}

#[test]
fn parse_determinista() {
    let datos = fixture_res();
    let una = EdificioLIDER::from_data(&datos).unwrap();
    let otra = EdificioLIDER::from_data(&datos).unwrap();
    assert_eq!(una, otra);
}

#[test]
fn superficie_planta_es_suma_ponderada() {
    let datos = fixture_res();
    let ed = EdificioLIDER::from_data(&datos).unwrap();
    let p01 = &ed.plantas[0];
    let mut esperada: i64 = 0;
    for nombre in &p01.zonas {
        let z = ed.zona(nombre).unwrap();
        esperada += (z.multiplicador as i64) * z.superficie;
    }
    assert_eq!(p01.superficie(&ed), esperada);
    assert_eq!(p01.superficie(&ed), 102_000_000);
    assert_eq!(ed.plantas[1].superficie(&ed), 0);
}

#[test]
fn superficie_edificio_es_suma_de_plantas() {
    let datos = fixture_res();
    let ed = EdificioLIDER::from_data(&datos).unwrap();
    let mut suma_plantas: i64 = 0;
    for p in &ed.plantas {
        suma_plantas += p.superficie(&ed);
    }
    let mut suma_zonas: i64 = 0;
    for z in &ed.zonas {
        suma_zonas += (z.multiplicador as i64) * z.superficie;
    }
    assert_eq!(suma_plantas, suma_zonas);
    // The parsed TOTAL row states the same surface for this building.
    assert_eq!(suma_plantas, ed.superficie);
}

#[test]
fn mes_uniforme_recupera_el_valor() {
    let datos = fixture_res();
    let ed = EdificioLIDER::from_data(&datos).unwrap();
    let p01 = &ed.plantas[0];
    let cal = p01.calefaccion_meses(&ed);
    let refr = p01.refrigeracion_meses(&ed);
    assert_eq!(cal.len(), 12);
    for m in 0..12 {
        assert_eq!(cal[m], -2_500_000);
        assert_eq!(refr[m], 3_500_000);
    }
    assert_eq!(p01.calefaccion(&ed), -30_000_000);
    assert_eq!(p01.refrigeracion(&ed), 42_000_000);
}

#[test]
fn planta_sin_superficie_da_cero() {
    let datos = fixture_res();
    let ed = EdificioLIDER::from_data(&datos).unwrap();
    let p02 = &ed.plantas[1];
    assert_eq!(p02.superficie(&ed), 0);
    let cal = p02.calefaccion_meses(&ed);
    for m in 0..12 {
        assert_eq!(cal[m], 0);
    }
    assert_eq!(p02.calefaccion(&ed), 0);
    let conc = p02.conceptos(&ed);
    assert_eq!(conc.total.calpos, 0);
    assert_eq!(conc.pext.calneg, 0);
}

/// A one-floor, one-zone summary whose total row states `total` m2.
fn fixture_chica(total: &str) -> Vec<u8> {
    let mut v = Vec::new();
    push_linea(&mut v, "Numero de plantas");
    push_linea(&mut v, "1");
    push_linea(&mut v, "\"P01\"");
    push_linea(&mut v, "Numero de zonas");
    push_linea(&mut v, "1");
    push_zona(&mut v, 1, "P01_E01", "2.0");
    push_linea(&mut v, "RESULTADOS A NIVEL EDIFICIO");
    push_cal(&mut v);
    push_ascii(&mut v, ", ");
    push_ref(&mut v);
    push_linea(&mut v, " anual");
    push_linea(&mut v, "-1.0, 1.0");
    push_cal(&mut v);
    push_linea(&mut v, " mensual");
    push_linea(&mut v, &fila_meses("0"));
    push_ref(&mut v);
    push_linea(&mut v, " mensual");
    push_linea(&mut v, &fila_meses("0"));
    push_linea(&mut v, "Numero de zonas");
    push_linea(&mut v, "1");
    push_linea(&mut v, "Nombre, m2, multiplicador, Calefaccion, Refrigeracion");
    push_linea(&mut v, "\"P01_E01\", 2.0, 1, -1.0, 1.0");
    push_linea(&mut v, &format!("TOTAL, {}, 0, 0", total));
    push_cal(&mut v);
    push_linea(&mut v, " mensual por zonas");
    push_linea(&mut v, &fila_meses("0"));
    push_ref(&mut v);
    push_linea(&mut v, " mensual por zonas");
    push_linea(&mut v, &fila_meses("0"));
    v
}

#[test]
fn conceptos_del_edificio_normalizan_por_el_total() {
    // The building divides by the stated total surface: twice the zone
    // surface halves every breakdown value.
    let ed = EdificioLIDER::from_data(&fixture_chica("4.0")).unwrap();
    assert!(ed.superficie_cubierta());
    let conc = ed.conceptos();
    // The zone states pext.calpos 1.5; the floor keeps it; the building
    // scales by 2.0 / 4.0.
    assert_eq!(conc.pext.calpos, 750_000);
    assert_eq!(conc.pext.calneg, -1_250_000);
    let fv = ed.concepts_data(TipoObjeto::Edificio, "", "");
    assert_eq!(fv.calpos[0], 750_000);
}

#[test]
fn total_cero_da_desglose_cero() {
    // A zero stated surface is the guard case: the breakdown is exactly
    // zero, with no division.
    let ed = EdificioLIDER::from_data(&fixture_chica("0.0")).unwrap();
    let fv = ed.concepts_data(TipoObjeto::Edificio, "", "");
    assert_eq!(fv.calpos, vec![0]);
    assert_eq!(fv.calneg, vec![0]);
}

#[test]
fn total_negativo_se_rechaza() {
    let r = EdificioLIDER::from_data(&fixture_chica("-5.0"));
    assert!(r.is_err());
}

#[test]
fn conceptos_uniformes_se_conservan() {
    let datos = fixture_res();
    let ed = EdificioLIDER::from_data(&datos).unwrap();
    let p01 = &ed.plantas[0];
    let conc = p01.conceptos(&ed);
    assert_eq!(conc.pext.calpos, 1_500_000);
    assert_eq!(conc.pext.calneg, -2_500_000);
    assert_eq!(conc.pext.calnet, -1_000_000);
    assert_eq!(conc.total.refpos, 500_000);
    assert_eq!(conc.cub.calpos, 0);
    // The building normalises by the same surface, so it sees the same
    // breakdown.
    let del_edificio = ed.conceptos();
    assert_eq!(del_edificio, conc);
}

#[test]
fn basicdata_por_modo() {
    let datos = fixture_res();
    let ed = EdificioLIDER::from_data(&datos).unwrap();
    assert_eq!(
        ed.basicdata(0, ""),
        Some((1, 102_000_000, -50_250_000, 20_500_000))
    );
    assert_eq!(
        ed.basicdata(1, "P01"),
        Some((1, 102_000_000, -30_000_000, 42_000_000))
    );
    assert_eq!(
        ed.basicdata(2, "P01_E02"),
        Some((1, 10_000_000, -30_000_000, 20_000_000))
    );
    assert_eq!(ed.basicdata(1, "P09"), None);
    assert_eq!(ed.basicdata(2, "P09_E01"), None);
    assert_eq!(ed.basicdata(9, ""), Some((0, 0, 0, 0)));
}

#[test]
fn minmax_del_edificio() {
    let datos = fixture_res();
    let ed = EdificioLIDER::from_data(&datos).unwrap();
    let (mn, mx) = ed.minmaxmeses();
    assert_eq!(mn, -2_500_000);
    assert_eq!(mx, 3_500_000);
    let (cmn, cmx) = ed.minmaxconceptos();
    assert_eq!(cmn, -2_500_000);
    assert_eq!(cmx, 1_500_000);
}

#[test]
fn minmax_sin_zonas_da_centinelas() {
    let ed = EdificioLIDER::default();
    let (mn, mx) = ed.minmaxmeses();
    assert_eq!(mn, i64::MAX);
    assert_eq!(mx, i64::MIN);
    let (cmn, cmx) = ed.minmaxconceptos();
    assert_eq!(cmn, i64::MAX);
    assert_eq!(cmx, i64::MIN);
}

#[test]
fn formato_malo_corta_la_carga() {
    // A floor count that is not a number.
    let mut v = Vec::new();
    push_linea(&mut v, "Numero de plantas");
    push_linea(&mut v, "dos");
    let r = EdificioLIDER::from_data(&v);
    assert!(r.is_err());
    let e = r.err().unwrap();
    assert!(!e.es_truncado());
    assert!(e.mensaje().starts_with("Formato incorrecto"));
}

#[test]
fn marcador_ausente_corta_la_carga() {
    let mut v = Vec::new();
    push_linea(&mut v, "Numero de plantas");
    push_linea(&mut v, "1");
    // No floor name line follows.
    let r = EdificioLIDER::from_data(&v);
    assert!(r.is_err());
}

#[test]
fn resdata_conserva_el_texto() {
    let datos = fixture_res();
    let ed = EdificioLIDER::from_data(&datos).unwrap();
    // Latin-1 decoding maps each byte to the same code point.
    let esperado: String = datos.iter().map(|&b| b as char).collect();
    assert_eq!(ed.resdata, esperado);
}

#[test]
fn datos_mensuales_por_seleccion() {
    let datos = fixture_res();
    let ed = EdificioLIDER::from_data(&datos).unwrap();
    let (cal, refr) = ed.calref_monthly_data(TipoObjeto::Edificio, "");
    assert_eq!(cal, ed.calefaccion_meses);
    assert_eq!(refr, ed.refrigeracion_meses);
    let (cal, _) = ed.calref_monthly_data(TipoObjeto::Planta, "P01");
    assert_eq!(cal, vec![-2_500_000i64; 12]);
    let (cal, refr) = ed.calref_monthly_data(TipoObjeto::Zona, "P01_E03");
    assert_eq!(cal, vec![-2_500_000i64; 12]);
    assert_eq!(refr, vec![3_500_000i64; 12]);
    let (cal, _) = ed.calref_monthly_data(TipoObjeto::Zona, "NO_EXISTE");
    assert_eq!(cal, vec![0i64; 12]);
    let (cal, _) = ed.calref_monthly_data(TipoObjeto::Ninguno, "");
    assert_eq!(cal, vec![0i64; 12]);
}

#[test]
fn flujos_por_seleccion() {
    let datos = fixture_res();
    let ed = EdificioLIDER::from_data(&datos).unwrap();
    let fv = ed.concepts_data(TipoObjeto::Zona, "P01_E01", "");
    // Nine entries per flow type, in category order; the wall category
    // leads and the total closes.
    assert_eq!(fv.calpos.len(), 9);
    assert_eq!(fv.calpos[0], 1_500_000);
    assert_eq!(fv.calpos[8], 1_500_000);
    assert_eq!(fv.calneg[0], -2_500_000);
    assert_eq!(fv.calpos[1], 0);
    let fv = ed.concepts_data(TipoObjeto::Elemento, "Muro_M1", "P01_E01");
    assert_eq!(fv.calpos, vec![1_000_000]);
    assert_eq!(fv.refneg, vec![-2_000_000]);
    let fv = ed.concepts_data(TipoObjeto::Elemento, "NO_EXISTE", "P01_E01");
    assert_eq!(fv.calpos, vec![0]);
    let fv = ed.concepts_data(TipoObjeto::Ninguno, "", "");
    assert_eq!(fv.calpos, vec![0]);
    let fv = ed.concepts_data(TipoObjeto::Edificio, "", "");
    assert_eq!(fv.calpos[0], 1_500_000);
}

fn push_linea_crlf(v: &mut Vec<u8>, s: &str) {
    push_ascii(v, s);
    v.push(b'\r');
    v.push(b'\n');
}

#[test]
fn finales_crlf_y_lineas_extra() {
    // One floor with one zone, Windows line endings, and stray lines
    // between blocks, which the prefix search skips.
    let mut v = Vec::new();
    push_linea_crlf(&mut v, "Numero de plantas");
    push_linea_crlf(&mut v, "1");
    push_linea_crlf(&mut v, "texto intermedio sin marcador");
    push_linea_crlf(&mut v, "\"P01\"");
    push_linea_crlf(&mut v, "Numero de zonas");
    push_linea_crlf(&mut v, "1");
    push_linea_crlf(&mut v, "Zona  1, \"P01_E01\"");
    push_linea_crlf(&mut v, "7.25");
    push_linea_crlf(&mut v, "otra linea intermedia");
    let mut grupos = Vec::new();
    push_grupos(&mut grupos);
    // Rewrite the group block with CRLF endings.
    for tramo in grupos.split(|&b| b == b'\n') {
        if !tramo.is_empty() {
            v.extend_from_slice(tramo);
            v.push(b'\r');
            v.push(b'\n');
        }
    }
    push_linea_crlf(&mut v, "Numero de Componentes");
    push_linea_crlf(&mut v, "0");
    push_linea_crlf(&mut v, "Componente, Cal_positivo");
    let ed = EdificioLIDER::from_data(&v).unwrap();
    assert_eq!(ed.plantas.len(), 1);
    assert_eq!(ed.plantas[0].zonas.len(), 1);
    let z = ed.zona(&String::from("P01_E01")).unwrap();
    assert_eq!(z.superficie, 7_250_000);
    assert_eq!(z.planta, "P01");
    assert_eq!(z.conceptos.pext.calpos, 1_500_000);
    assert!(z.elementos.is_empty());
}

#[test]
fn zona_repetida_gana_la_ultima() {
    // Two floor-section zones with the same name: the collection keeps
    // one entry and both floor references resolve to it.
    let mut v = Vec::new();
    push_linea(&mut v, "Numero de plantas");
    push_linea(&mut v, "1");
    push_linea(&mut v, "\"P01\"");
    push_linea(&mut v, "Numero de zonas");
    push_linea(&mut v, "2");
    for _ in 0..2 {
        push_linea(&mut v, "Zona  1, \"REPE\"");
        push_linea(&mut v, "3.0");
        push_grupos(&mut v);
        push_linea(&mut v, "Numero de Componentes");
        push_linea(&mut v, "0");
        push_linea(&mut v, "Componente, Cal_positivo");
    }
    let ed = EdificioLIDER::from_data(&v).unwrap();
    assert_eq!(ed.plantas[0].zonas.len(), 2);
    assert_eq!(ed.zonas.len(), 1);
    assert_eq!(ed.plantas[0].superficie(&ed), 6_000_000);
}
