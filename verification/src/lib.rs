//! Turns the notes on visual acuity of one patient visit into records:
//! the method of each reading, its Snellen equivalent, its LogMAR with
//! and without the letters read beyond a line, what the name of the
//! field says about eye, distance and correction, and a label for the
//! quality of the data.
//!
//! All quantities are whole counts of millionths: distances, the parts
//! of a fraction and LogMAR values. The library computes no logarithm;
//! it is given a function that supplies them, and says of each result
//! how it depends on what that function returned. In the same way it is
//! given the front end that recognises the items of a text.

pub mod cache;
pub mod chartfiles;
pub mod charts;
pub mod dataquality;
pub mod disambiguation;
pub mod distanceunits;
pub mod errors;
pub mod logmar;
pub mod parser;
pub mod pipeline;
pub mod snellen_equivalent;
pub mod structure;
pub mod tabular;
pub mod text;
pub mod textmap;
pub mod vectors;
pub mod visit;
pub mod visitinput;

pub use crate::dataquality::DataQuality;
pub use crate::distanceunits::DistanceUnits;
pub use crate::errors::{OptionResult, VisualAcuityError};
pub use crate::logmar::LogMarPlusLetters;
pub use crate::pipeline::Parser;
pub use crate::structure::{
    FixationPreference, Fraction, NotTakenReason, ParsedItem, ParsedItemCollection, VAFormat,
};
pub use crate::visit::assembly::{EntryMetadata, Visit, VisitNote};
pub use crate::visit::metadata::{Correction, DistanceOfMeasurement, Laterality, PinHole};
pub use crate::visitinput::VisitInput;
