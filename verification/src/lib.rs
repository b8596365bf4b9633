//! The thermodynamic and chemical state of a parcel of gas in one cell of a
//! tile-based world, with the operations that change it over discrete steps:
//! reaction, combustion, merging and partial extraction.
//!
//! Every amount (moles, temperature, specific heat, energy) is a [`quantity`]:
//! an exact non-negative fixed-point number, so that conservation of mass is a
//! theorem about integers.

pub mod constants;
pub mod exchange;
pub mod gas;
pub mod gasmixture;
pub mod ledger;
pub mod quantity;
pub mod reaction;
pub mod turf;
