//! Rules engine of a four-faction, card-driven conflict simulation: the
//! sequence-of-play eligibility machine and the pre-battle maneuver phase.

pub mod capability;
pub mod catalog;
pub mod prebattle;
pub mod sequence;
