//! What a tile of the world keeps beside the mixture that fills it.

use vstd::prelude::*;

verus! {

/// The mark of a fire on a tile.
pub struct Hotspot;

/// One overlay by which a tile shows its gas: three names that together
/// pick the image.
pub struct MutableAppearance(pub String, pub String, pub String);

/// The bookkeeping of one tile. Amounts are quantities, in millionths.
pub struct Turf {
    pub pressure_difference: u64,
    pub pressure_direction: u64,
    pub active_hotspot: Hotspot,
    pub max_process_cell_operations: u64,
    pub atmos_operations: u64,
    pub max_atmos_operations: u64,
    pub gas_overlays: Vec<MutableAppearance>,
    pub dist_to_space: u64,
}

} // verus!
