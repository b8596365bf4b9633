use gas::gas::Gas;
use gas::gasmixture::GasMixture;
use gas::quantity::ONE;
use gas::quantity::QUANTUM;

fn named(name: &str, moles: u64, heat: u64) -> Gas {
    Gas::new().name(name.into()).moles(moles).heat(heat)
}

fn receiver() -> GasMixture {
    GasMixture::new()
        .gases(vec![named("oxygen", 20 * ONE, 20 * ONE), named("nitrogen", 80 * ONE, 20 * ONE)])
        .temperature(300 * ONE)
}

fn giver() -> GasMixture {
    GasMixture::new()
        .gases(vec![named("oxygen", 10 * ONE, 20 * ONE), named("toxins", 5 * ONE, 200 * ONE)])
        .temperature(400 * ONE)
}

fn stock() -> GasMixture {
    GasMixture::new()
        .gases(vec![
            named("oxygen", 20 * ONE, 20 * ONE),
            named("nitrogen", 80 * ONE, 20 * ONE),
            named("x", 1_234_567, 3 * ONE),
        ])
        .trace_gases(vec![named("t", 5 * ONE, ONE)])
        .temperature(300 * ONE)
        .graphic("g".into())
}

#[test]
fn merging_an_empty_giver_keeps_the_total_moles() {
    let mut mix = receiver().trace_gases(vec![named("a", 3 * ONE, ONE)]);
    let before = mix.total_moles();
    let empty = GasMixture::new()
        .gases(vec![named("oxygen", 0, 20 * ONE), named("toxins", 0, 200 * ONE)])
        .trace_gases(vec![named("a", 0, ONE), named("b", 0, ONE)])
        .temperature(900 * ONE);
    mix.merge(empty);
    assert_eq!(mix.total_moles(), before);
    assert_eq!(mix.total_moles(), 103 * ONE);
    assert_eq!(mix.gases[0].moles, 20 * ONE);
    assert_eq!(mix.gases[1].moles, 80 * ONE);
    assert_eq!(mix.temperature, 300 * ONE);

    let mut grouped = receiver().group_multiplier(4 * ONE);
    grouped.merge(GasMixture::new().gases(vec![named("oxygen", 0, 0)]).group_multiplier(0));
    assert_eq!(grouped.total_moles(), 100 * ONE);

    let mut plain = receiver();
    plain.merge(GasMixture::new());
    assert_eq!(plain.total_moles(), 100 * ONE);
    assert_eq!(plain.gases, receiver().gases);
}

#[test]
fn merging_adds_the_moles_of_shared_species_and_drops_the_others() {
    let mut mix = receiver();
    mix.merge(giver());
    assert_eq!(mix.gases.len(), 2);
    assert_eq!(mix.gases[0].name, "oxygen");
    assert_eq!(mix.gases[0].moles, 30 * ONE);
    assert_eq!(mix.gases[1].name, "nitrogen");
    assert_eq!(mix.gases[1].moles, 80 * ONE);
    assert_eq!(mix.has_gas("toxins".into()), None);
    assert_eq!(mix.total_moles(), 110 * ONE);
}

#[test]
fn merging_adds_the_specific_heat_of_shared_species() {
    let mut mix = receiver();
    mix.merge(giver());
    assert_eq!(mix.gases[0].specific_heat, 40 * ONE);
    assert_eq!(mix.gases[1].specific_heat, 20 * ONE);
}

#[test]
fn merging_blends_the_temperature_by_heat_capacity() {
    assert_eq!(receiver().heat_capacity_full(), 2_000 * ONE);
    assert_eq!(giver().heat_capacity_full(), 1_200 * ONE);
    let mut mix = receiver();
    mix.merge(giver());
    assert_eq!(mix.temperature, 337_500_000);
}

#[test]
fn merging_keeps_the_temperature_for_a_small_difference() {
    let mut mix = receiver();
    mix.merge(giver().temperature(300_500_000));
    assert_eq!(mix.temperature, 300 * ONE);
    let mut below = receiver();
    below.merge(giver().temperature(299_500_000));
    assert_eq!(below.temperature, 300 * ONE);
    let mut above = receiver();
    above.merge(GasMixture::new().gases(vec![named("x", ONE, 3 * ONE)]).temperature(301 * ONE));
    assert_eq!(above.temperature, 300_001_497);
}

#[test]
fn merging_keeps_the_temperature_without_any_heat_capacity() {
    let mut mix = GasMixture::new().temperature(300 * ONE);
    mix.merge(GasMixture::new().temperature(400 * ONE));
    assert_eq!(mix.temperature, 300 * ONE);
}

#[test]
fn merging_scales_by_the_group_multipliers() {
    let mut mix = receiver().group_multiplier(2 * ONE);
    mix.merge(giver().group_multiplier(3 * ONE));
    assert_eq!(mix.gases[0].moles, 35 * ONE);
    assert_eq!(mix.gases[0].specific_heat, 50 * ONE);
    assert_eq!(mix.gases[1].moles, 80 * ONE);
    assert_eq!(mix.temperature, 347_368_421);
    assert_eq!(mix.group_multiplier, 2 * ONE);

    let mut small = receiver().group_multiplier(500_000);
    small.merge(giver().group_multiplier(ONE));
    assert_eq!(small.gases[0].moles, 30 * ONE);
}

#[test]
fn merging_joins_trace_gases_by_name() {
    let mut mix = receiver().trace_gases(vec![named("a", ONE, 4 * ONE)]);
    let from = giver().trace_gases(vec![
        named("a", 2 * ONE, 9 * ONE),
        named("b", 3 * ONE, 7 * ONE),
        named("b", ONE, 7 * ONE),
    ]);
    mix.merge(from);
    assert_eq!(mix.trace_gases, vec![named("a", 3 * ONE, 4 * ONE), named("b", 4 * ONE, 0)]);
}

#[test]
fn merging_leaves_flags_volume_and_archive_alone() {
    let mut mix = receiver().volume(9).fuel_burnt(4).graphic("g".into());
    mix.archive();
    mix.merge(giver().volume(1).fuel_burnt(8).graphic("h".into()));
    assert_eq!(mix.volume, 9);
    assert_eq!(mix.fuel_burnt, 4);
    assert_eq!(mix.graphic, "g");
    assert_eq!(mix.archived_gases, receiver().gases);
    assert_eq!(mix.archived_temp, 300 * ONE);
    assert!(!mix.combustion_active);
}

#[test]
fn check_then_merge_merges() {
    let mut mix = receiver();
    mix.check_then_merge(giver());
    assert_eq!(mix.gases[0].moles, 30 * ONE);
    assert_eq!(mix.temperature, 337_500_000);
}

#[test]
fn merging_holds_moles_at_the_largest_quantity() {
    let mut mix = GasMixture::new().gases(vec![named("a", u64::MAX - 5, 0)]);
    mix.merge(GasMixture::new().gases(vec![named("a", 9, 0)]));
    assert_eq!(mix.gases[0].moles, u64::MAX);
}

#[test]
fn removing_takes_each_species_by_its_part() {
    let mut mix = stock();
    assert_eq!(mix.total_moles(), 106_234_567);
    let taken = mix.remove(10 * ONE);
    assert_eq!(taken.gases[0].moles, 1_882_600);
    assert_eq!(taken.gases[1].moles, 7_530_500);
    assert_eq!(taken.gases[2].moles, 116_200);
    assert_eq!(mix.gases[0].moles, 18_117_400);
    assert_eq!(mix.gases[1].moles, 72_469_500);
    assert_eq!(mix.gases[2].moles, 1_118_367);
    assert_eq!(taken.total_moles(), 14_529_300);
}

#[test]
fn what_is_removed_and_what_remains_are_what_was_there() {
    let mut mix = stock();
    let taken = mix.remove(37_123_456);
    let before = stock();
    for i in 0..3 {
        assert_eq!(taken.gases[i].moles + mix.gases[i].moles, before.gases[i].moles);
        assert_eq!(taken.gases[i].moles % QUANTUM, 0);
    }
}

#[test]
fn removing_returns_a_copy_with_the_same_species_and_trace_gases() {
    let mut mix = stock();
    let taken = mix.remove(10 * ONE);
    assert_eq!(taken.gases.len(), 3);
    assert_eq!(taken.gases[0].name, "oxygen");
    assert_eq!(taken.gases[1].name, "nitrogen");
    assert_eq!(taken.gases[2].name, "x");
    assert_eq!(taken.gases[2].specific_heat, 3 * ONE);
    assert_eq!(taken.trace_gases, vec![named("t", 5 * ONE, ONE)]);
    assert_eq!(mix.trace_gases, vec![named("t", 5 * ONE, ONE)]);
    assert_eq!(taken.temperature, 300 * ONE);
    assert_eq!(taken.graphic, "g");
    assert_eq!(mix.temperature, 300 * ONE);
}

#[test]
fn removing_the_total_empties_every_main_species() {
    let mut mix = stock();
    let total = mix.total_moles();
    let taken = mix.remove(total);
    assert_eq!(mix.gases[0].moles, 0);
    assert_eq!(mix.gases[1].moles, 0);
    assert_eq!(mix.gases[2].moles, 0);
    assert_eq!(taken.gases[0].moles, 20 * ONE);
    assert_eq!(taken.gases[1].moles, 80 * ONE);
    assert_eq!(taken.gases[2].moles, 1_234_567);
    assert_eq!(taken.total_moles(), total);
}

#[test]
fn removing_the_total_leaves_what_the_rounding_leaves() {
    let mut mix = GasMixture::new().gases(vec![named("a", 1_234_533, ONE), named("b", 2 * ONE, ONE)]);
    let total = mix.total_moles();
    assert_eq!(total, 3_234_533);
    let taken = mix.remove(total);
    assert_eq!(mix.gases[0].moles, 33);
    assert_eq!(mix.gases[1].moles, 0);
    assert_eq!(taken.gases[0].moles, 1_234_500);
    assert_eq!(taken.total_moles(), total - 33);
}

#[test]
fn removing_more_than_the_total_takes_no_more_than_is_there() {
    let mut mix = stock();
    let taken = mix.remove(1_000 * ONE);
    assert_eq!(taken.gases[0].moles, 20 * ONE);
    assert_eq!(taken.gases[1].moles, 80 * ONE);
    assert_eq!(taken.gases[2].moles, 1_234_567);
    assert_eq!(mix.gases[0].moles, 0);
    assert_eq!(mix.gases[1].moles, 0);
    assert_eq!(mix.gases[2].moles, 0);
}

#[test]
fn removing_divides_by_the_group_multiplier() {
    let mut double = stock().group_multiplier(2 * ONE);
    let taken = double.remove(10 * ONE);
    assert_eq!(taken.gases[0].moles, 1_882_600);
    assert_eq!(double.gases[0].moles, 19_058_700);
    assert_eq!(double.gases[1].moles, 76_234_750);
    assert_eq!(double.gases[2].moles, 1_176_467);

    let mut half = stock().group_multiplier(500_000);
    half.remove(10 * ONE);
    assert_eq!(half.gases[0].moles, 16_234_800);
    assert_eq!(half.gases[1].moles, 64_939_000);
    assert_eq!(half.gases[2].moles, 1_002_167);
}

#[test]
fn removing_with_a_group_multiplier_of_zero_empties_what_it_touches() {
    let mut mix = stock().group_multiplier(0);
    let taken = mix.remove(10 * ONE);
    assert_eq!(taken.gases[0].moles, 1_882_600);
    assert_eq!(mix.gases[0].moles, 0);
    assert_eq!(mix.gases[1].moles, 0);
    assert_eq!(mix.gases[2].moles, 0);
    let mut nothing = stock().group_multiplier(0);
    nothing.remove(0);
    assert_eq!(nothing.gases, stock().gases);
}

#[test]
fn removing_from_an_empty_mixture_takes_nothing() {
    let mut mix = GasMixture::new().gases(vec![named("a", 0, ONE), named("b", 0, ONE)]);
    let taken = mix.remove(5 * ONE);
    assert_eq!(taken.gases, vec![named("a", 0, ONE), named("b", 0, ONE)]);
    assert_eq!(mix.gases, vec![named("a", 0, ONE), named("b", 0, ONE)]);
    assert_eq!(taken.total_moles(), 0);
}

#[test]
fn removing_nothing_changes_nothing() {
    let mut mix = stock();
    let taken = mix.remove(0);
    assert_eq!(mix.gases, stock().gases);
    assert_eq!(taken.gases[0].moles, 0);
    assert_eq!(taken.gases[1].moles, 0);
    assert_eq!(taken.gases[2].moles, 0);
}

#[test]
fn removing_never_touches_trace_gases() {
    let mut mix = GasMixture::new().trace_gases(vec![named("t", 5 * ONE, ONE)]).gases(vec![]);
    let total = mix.total_moles();
    let taken = mix.remove(total);
    assert_eq!(mix.trace_gases[0].moles, 5 * ONE);
    assert_eq!(taken.trace_gases[0].moles, 5 * ONE);
    assert_eq!(mix.total_moles(), 5 * ONE);
}

#[test]
fn merging_like_mixtures_conserves_moles() {
    let mut mix = receiver().trace_gases(vec![named("a", ONE, ONE)]);
    let from = GasMixture::new()
        .gases(vec![named("nitrogen", 7_500_000, 20 * ONE), named("oxygen", 2_250_000, 20 * ONE)])
        .trace_gases(vec![named("a", 500_000, ONE), named("b", 250_000, ONE)])
        .temperature(350 * ONE);
    let before = mix.total_moles() + from.total_moles();
    mix.merge(from);
    assert_eq!(mix.total_moles(), before);
    assert_eq!(mix.total_moles(), 111_500_000);
    assert_eq!(mix.gases[0].moles, 22_250_000);
    assert_eq!(mix.gases[1].moles, 87_500_000);
}

#[test]
fn merging_leaves_the_temperature_between_the_two() {
    let temperatures: [(u64, u64); 4] = [
        (300 * ONE, 400 * ONE),
        (400 * ONE, 300 * ONE),
        (1, u64::MAX),
        (u64::MAX, 0),
    ];
    for (own, other) in temperatures {
        let mut mix = receiver().temperature(own);
        mix.merge(giver().temperature(other));
        assert!(own.min(other) <= mix.temperature);
        assert!(mix.temperature <= own.max(other));
    }
}
