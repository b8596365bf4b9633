use gas::quantity::ONE;
use gas::turf::Hotspot;
use gas::turf::MutableAppearance;
use gas::turf::Turf;

#[test]
fn a_turf_keeps_what_it_is_given() {
    let overlay = MutableAppearance("icons".into(), "plasma".into(), "layer".into());
    let turf = Turf {
        pressure_difference: 3 * ONE,
        pressure_direction: 4,
        active_hotspot: Hotspot,
        max_process_cell_operations: 5,
        atmos_operations: 6,
        max_atmos_operations: 7,
        gas_overlays: vec![overlay],
        dist_to_space: 8 * ONE,
    };
    assert_eq!(turf.pressure_difference, 3 * ONE);
    assert_eq!(turf.pressure_direction, 4);
    assert_eq!(turf.max_process_cell_operations, 5);
    assert_eq!(turf.atmos_operations, 6);
    assert_eq!(turf.max_atmos_operations, 7);
    assert_eq!(turf.gas_overlays.len(), 1);
    assert_eq!(turf.gas_overlays[0].0, "icons");
    assert_eq!(turf.gas_overlays[0].1, "plasma");
    assert_eq!(turf.gas_overlays[0].2, "layer");
    assert_eq!(turf.dist_to_space, 8 * ONE);
}
