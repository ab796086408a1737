//! Presentation-layer configuration values.

use vstd::prelude::*;
use vstd::string::StrSliceExecFns;

verus! {

/// Settings of the viewer around the model: chart scale limits and
/// screenshot output options.
#[derive(Debug, Clone, PartialEq)]
pub struct Config {
    /// Whether chart limits follow the data.
    pub autolimits: bool,
    /// Upper limit of the chart scales.
    pub maxlimit: i32,
    /// Lower limit of the chart scales.
    pub minlimit: i32,
    /// Resolution of exported screenshots.
    pub out_dpi: i32,
    /// Date and time format of screenshot names.
    pub out_fmt: String,
    /// Base name of exported screenshots.
    pub out_basename: String,
}

impl Default for Config {
    /// The stock configuration.
    fn default() -> (r: Config)
        ensures
            r.autolimits == true,
            r.maxlimit == 50,
            r.minlimit == -150,
            r.out_dpi == 150,
            r.out_fmt@ == "%Y%m%d_%H%M%S"@,
            r.out_basename@ == "ViSol"@,
    {
        Config {
            autolimits: true,
            maxlimit: 50,
            minlimit: -150,
            out_dpi: 150,
            out_fmt: "%Y%m%d_%H%M%S".to_owned(),
            out_basename: "ViSol".to_owned(),
        }
    }
}

} // verus!
