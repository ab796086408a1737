//! In-memory model of LIDER building-energy simulation results.
//!
//! The crate decodes the two result formats written by the simulation
//! tool, a Latin-1 text summary (`.res`) and a fixed-layout binary
//! hourly dataset (`.bin`), into a building / floor / zone / element
//! tree, and aggregates zone-level demand figures bottom-up over that
//! tree.
//!
//! - [`res`] parses the text summary into the [`types`] tree; every
//!   scalar is held exactly as a fixed-point count of millionths.
//! - [`bin`] decodes the hourly dataset byte-exactly; values that carry
//!   IEEE-754 singles are kept as their raw bit patterns.
//! - [`flujos`] is the flow algebra the roll-ups are built from, and
//!   [`agrega`] rolls zones up to floors and the building and answers
//!   the read-only queries.
//! - [`locate`] pairs a summary with its sibling dataset by name.
//!
//! A load either returns a complete, well-formed building or an error;
//! no partial model is ever surfaced. File reading and the presentation
//! layer sit outside the crate, which works on plain bytes.

pub mod agrega;
pub mod bin;
pub mod bytes;
pub mod config;
pub mod error;
pub mod flujos;
pub mod latin1;
pub mod locate;
pub mod num;
pub mod piemode;
pub mod res;
pub mod types;
