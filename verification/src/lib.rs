//! Randomised strength-workout generation from a personal exercise library.
//!
//! The crate holds the selection engine: the catalogue model, the snooze
//! tracker, the filter chain, the group-by-group generator and the mapping of
//! picked exercises to printable rows. Loading and saving the tabular files is
//! left to the caller.

pub mod catalog;
pub mod cooldown;
pub mod filters;
pub mod generator;
pub mod plan;
pub mod presentation;
pub mod random;
pub mod sequences;
pub mod snooze;
pub mod text;
