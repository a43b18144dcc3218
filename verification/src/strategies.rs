//! Strategy sleeves.
pub mod macro_futures_sleeve;
