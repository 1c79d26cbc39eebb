//! Movement rules.
pub mod river;
