//! Errors of the two result-file decoders.

use vstd::prelude::*;

verus! {

/// A fatal condition found while decoding a result file.
///
/// A malformed text row or a missing marker aborts the whole load with
/// `Formato`, carrying the section that was being read and the offending
/// line. A binary dataset shorter than its declared record count aborts
/// with `BinTruncado`, carrying the byte counts involved.
#[derive(Debug, Clone)]
pub enum LiderError {
    /// A marker or row of the text format is missing or malformed.
    Formato { contexto: String, linea: String },
    /// The binary dataset ends before its declared records do.
    BinTruncado { esperados: u64, disponibles: u64 },
}

impl LiderError {
    /// A readable account of the error.
    pub fn mensaje(&self) -> (r: String)
        ensures
            self is Formato ==> r@ == "Formato incorrecto ("@ + self->contexto@ + "): "@
                + self->linea@,
            self is BinTruncado ==> r@ == "Archivo binario truncado"@,
    {
        match self {
            LiderError::Formato { contexto, linea } => {
                let mut r = String::new();
                r.append("Formato incorrecto (");
                r.append(contexto.as_str());
                r.append("): ");
                r.append(linea.as_str());
                proof {
                    assert(r@ =~= "Formato incorrecto ("@ + self->contexto@ + "): "@
                        + self->linea@);
                }
                r
            },
            LiderError::BinTruncado { .. } => {
                let mut r = String::new();
                r.append("Archivo binario truncado");
                proof {
                    assert(r@ =~= "Archivo binario truncado"@);
                }
                r
            },
        }
    }

    /// Whether this is the truncation-class error of the binary decoder.
    pub fn es_truncado(&self) -> (r: bool)
        ensures
            r == (self is BinTruncado),
    {
        match self {
            LiderError::BinTruncado { .. } => true,
            _ => false,
        }
    }
}

} // verus!
