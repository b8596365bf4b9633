//! The thresholds and rates of the reaction rules, as quantities.

use vstd::prelude::*;

verus! {

/// The volume of one cell: 2500 litres.
pub const CELL_VOLUME: u64 = 2_500_000_000;

/// The amount of a species, and the burn rate, below which nothing reacts:
/// 0.01 mol.
pub const MINIMUM_REACT_QUANTITY: u64 = 10_000;

/// The heat capacity at or below which no temperature is divided by it: 0.0003.
pub const MINIMUM_HEAT_CAPACITY: u64 = 300;

/// The temperature difference below which a merge keeps the receiver's
/// temperature: 0.5 K.
pub const MINIMUM_TEMPERATURE_DELTA_TO_CONSIDER: u64 = 500_000;

/// The temperature above which a fire can exist: 373.15 K.
pub const FIRE_MINIMUM_TEMPERATURE_TO_EXIST: u64 = 373_150_000;

/// The temperature at which plasma starts to burn: 373.15 K.
pub const PLASMA_MINIMUM_BURN_TEMPERATURE: u64 = 373_150_000;

/// The temperature above which plasma burns at its full rate: 1370 K.
pub const PLASMA_UPPER_TEMPERATURE: u64 = 1_370_000_000;

/// The ratio of oxygen to plasma above which the plasma limits the burn: 10.
pub const PLASMA_OXYGEN_FULLBURN: u64 = 10_000_000;

/// The energy that one mole of burnt plasma releases: 3 000 000.
pub const FIRE_PLASMA_ENERGY_RELEASED: u64 = 3_000_000_000_000;

/// The oxygen burnt per unit of plasma at the coldest burn: 1.4.
pub const OXYGEN_BURN_RATE_BASE: u64 = 1_400_000;

/// The temperature above which the exotic reaction runs: 900 K.
pub const EXOTIC_MINIMUM_TEMPERATURE: u64 = 900_000_000;

/// The energy that one mole of the exotic reaction releases: 10 000.
pub const EXOTIC_ENERGY_RELEASED: u64 = 10_000_000_000;

} // verus!
