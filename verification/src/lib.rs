//! Attributes the time between consecutive GPS track points to the nearest
//! of a fixed set of named stages, and reports the accumulated duration per
//! stage, longest first.

pub mod accum;
pub mod attribution;
pub mod duration;
pub mod error;
pub mod geo;
pub mod instant;
pub mod report;
pub mod stage;
pub mod track;
