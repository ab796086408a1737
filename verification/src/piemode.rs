//! Selection of the flow series a pie chart draws.

use vstd::prelude::*;

use crate::flujos::FlujosVec;

verus! {

/// Which season and direction a pie chart shows.
#[derive(Debug, Clone, Copy, PartialEq, Eq, Structural)]
pub enum PieMode {
    /// Gains over the heating season.
    CalPos,
    /// Losses over the heating season.
    CalNeg,
    /// Gains over the cooling season.
    RefPos,
    /// Losses over the cooling season.
    RefNeg,
}

impl PieMode {
    /// The flow series this mode draws.
    pub fn serie<'a>(&self, flujos: &'a FlujosVec) -> (r: &'a Vec<i64>)
        ensures
            *self == PieMode::CalPos ==> r@ == flujos.calpos@,
            *self == PieMode::CalNeg ==> r@ == flujos.calneg@,
            *self == PieMode::RefPos ==> r@ == flujos.refpos@,
            *self == PieMode::RefNeg ==> r@ == flujos.refneg@,
    {
        match self {
            PieMode::CalPos => &flujos.calpos,
            PieMode::CalNeg => &flujos.calneg,
            PieMode::RefPos => &flujos.refpos,
            PieMode::RefNeg => &flujos.refneg,
        }
    }
}

} // verus!
