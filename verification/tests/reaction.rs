use gas::constants::FIRE_MINIMUM_TEMPERATURE_TO_EXIST;
use gas::constants::MINIMUM_REACT_QUANTITY;
use gas::constants::PLASMA_MINIMUM_BURN_TEMPERATURE;
use gas::constants::PLASMA_UPPER_TEMPERATURE;
use gas::gas::Gas;
use gas::gasmixture::GasMixture;
use gas::quantity::ONE;
use gas::reaction::least_of;
use gas::reaction::rate_of_burn;
use gas::reaction::scale_of_temperature;

fn named(name: &str, moles: u64, heat: u64) -> Gas {
    Gas::new().name(name.into()).moles(moles).heat(heat)
}

fn plasma_in_oxygen() -> GasMixture {
    GasMixture::new()
        .gases(vec![named("toxins", 100 * ONE, 10 * ONE), named("oxygen", 1_000 * ONE, ONE)])
        .temperature(1_500 * ONE)
}

fn warm_plasma() -> GasMixture {
    GasMixture::new()
        .gases(vec![
            named("oxygen", 500 * ONE, 20 * ONE),
            named("toxins", 40 * ONE, 200 * ONE),
            named("carbon_dioxide", 3 * ONE, 30 * ONE),
        ])
        .temperature(871_575_000)
}

fn exotic() -> GasMixture {
    GasMixture::new()
        .gases(vec![
            named("toxins", 8 * ONE, 200 * ONE),
            named("carbon_dioxide", 2 * ONE, 30 * ONE),
            named("farts", 50 * ONE, 69 * ONE),
        ])
        .temperature(1_000 * ONE)
}

#[test]
fn scale_of_temperature_runs_from_zero_to_one() {
    assert_eq!(scale_of_temperature(0), 0);
    assert_eq!(scale_of_temperature(PLASMA_MINIMUM_BURN_TEMPERATURE), 0);
    assert_eq!(scale_of_temperature(871_575_000), 500_000);
    assert_eq!(scale_of_temperature(PLASMA_UPPER_TEMPERATURE), ONE);
    assert_eq!(scale_of_temperature(PLASMA_UPPER_TEMPERATURE + 1), ONE);
    assert_eq!(scale_of_temperature(1_500 * ONE), ONE);
    assert_eq!(scale_of_temperature(u64::MAX), ONE);
}

#[test]
fn rate_of_burn_with_abundant_and_with_scarce_oxygen() {
    assert_eq!(rate_of_burn(40 * ONE, 500 * ONE, 500_000), 5 * ONE);
    assert_eq!(rate_of_burn(100 * ONE, 1_000 * ONE, ONE), 25 * ONE);
    assert_eq!(rate_of_burn(100 * ONE, 1_000 * ONE + 1, ONE), 25 * ONE);
    assert_eq!(rate_of_burn(100 * ONE, 200 * ONE, ONE), 5 * ONE);
    assert_eq!(rate_of_burn(100 * ONE, 2_000 * ONE, ONE), 25 * ONE);
    assert_eq!(rate_of_burn(100 * ONE, 2_000 * ONE, 0), 0);
}

#[test]
fn least_of_three() {
    assert_eq!(least_of(1, 2, 3), 1);
    assert_eq!(least_of(2, 1, 3), 1);
    assert_eq!(least_of(3, 2, 1), 1);
    assert_eq!(least_of(2, 2, 2), 2);
    assert_eq!(least_of(5, 4, 4), 4);
}

#[test]
fn plasma_burns_in_plenty_of_oxygen_above_the_upper_temperature() {
    let mut mix = plasma_in_oxygen();
    assert_eq!(mix.heat_capacity_full(), 2_000 * ONE);
    mix.react();
    assert_eq!(mix.gases[0].name, "toxins");
    assert_eq!(mix.gases[0].moles, 100 * ONE - 8_333_300);
    assert_eq!(mix.gases[1].name, "oxygen");
    assert_eq!(mix.gases[1].moles, 990 * ONE);
    assert_eq!(mix.gases.len(), 2);
    assert_eq!(mix.has_gas("carbon_dioxide".into()), None);
    assert_eq!(mix.fuel_burnt, 35 * ONE);
    assert_eq!(mix.heat_capacity_full(), 1_906_667_000);
    assert_eq!(mix.temperature, 40_909_083_757);
    assert!(mix.combustion_active);
    assert!(!mix.reaction_active);
}

#[test]
fn the_burnt_temperature_follows_the_energy_released() {
    let mut mix = plasma_in_oxygen();
    mix.react();
    let energy: f64 = 3_000_000.0 * 25.0;
    let expected = (1_500.0 * 2_000.0 + energy) / 1_906.667;
    let got = mix.temperature as f64 / ONE as f64;
    assert!((got - expected).abs() < 0.001);
}

#[test]
fn fire_returns_the_fuel_burnt_and_adds_to_it() {
    let mut mix = plasma_in_oxygen().fuel_burnt(5 * ONE);
    assert_eq!(mix.fire(), 40 * ONE);
    assert_eq!(mix.fuel_burnt, 40 * ONE);
    assert_eq!(mix.gases[0].moles, 91_666_700);
    assert!(!mix.combustion_active);
}

#[test]
fn plasma_burns_slower_between_the_two_temperatures() {
    let mut mix = warm_plasma();
    assert_eq!(mix.heat_capacity_full(), 18_090 * ONE);
    mix.react();
    assert_eq!(mix.gases[0].moles, 495_500_000);
    assert_eq!(mix.gases[1].moles, 38_333_300);
    assert_eq!(mix.gases[2].moles, 4_666_700);
    assert_eq!(mix.fuel_burnt, 9_500_000);
    assert_eq!(mix.temperature, 1_736_602_159);
    assert!(mix.combustion_active);
}

#[test]
fn fire_needs_plasma_oxygen_and_heat() {
    let mut cold = plasma_in_oxygen().temperature(PLASMA_MINIMUM_BURN_TEMPERATURE);
    assert_eq!(cold.fire(), 0);
    assert_eq!(cold.gases, plasma_in_oxygen().gases);
    assert_eq!(cold.temperature, PLASMA_MINIMUM_BURN_TEMPERATURE);

    let mut thin = GasMixture::new()
        .gases(vec![
            named("toxins", MINIMUM_REACT_QUANTITY, 10 * ONE),
            named("oxygen", 1_000 * ONE, ONE),
        ])
        .temperature(1_500 * ONE);
    assert_eq!(thin.fire(), 0);
    assert_eq!(thin.gases[0].moles, MINIMUM_REACT_QUANTITY);
    assert_eq!(thin.gases[1].moles, 1_000 * ONE);

    let mut airless = GasMixture::new()
        .gases(vec![named("toxins", 100 * ONE, 10 * ONE)])
        .temperature(1_500 * ONE);
    assert_eq!(airless.fire(), 0);
    assert_eq!(airless.gases[0].moles, 100 * ONE);

    let mut starved = GasMixture::new()
        .gases(vec![named("toxins", 100 * ONE, 10 * ONE), named("oxygen", 400_000, ONE)])
        .temperature(1_500 * ONE);
    assert_eq!(starved.fire(), 0);
    assert_eq!(starved.gases[1].moles, 400_000);
    assert_eq!(starved.temperature, 1_500 * ONE);
}

#[test]
fn fire_keeps_the_temperature_without_heat_capacity() {
    let mut mix = GasMixture::new()
        .gases(vec![named("toxins", 100 * ONE, 0), named("oxygen", 1_000 * ONE, 0)])
        .temperature(1_500 * ONE);
    assert_eq!(mix.fire(), 35 * ONE);
    assert_eq!(mix.gases[0].moles, 91_666_700);
    assert_eq!(mix.gases[1].moles, 990 * ONE);
    assert_eq!(mix.temperature, 1_500 * ONE);
}

#[test]
fn react_on_a_cold_mixture_only_resets_the_fuel_burnt() {
    let mut mix = plasma_in_oxygen()
        .temperature(FIRE_MINIMUM_TEMPERATURE_TO_EXIST)
        .fuel_burnt(7 * ONE)
        .trace_gases(vec![named("a", ONE, ONE)]);
    mix.react();
    assert_eq!(mix.fuel_burnt, 0);
    assert!(!mix.combustion_active);
    assert!(!mix.reaction_active);
    assert_eq!(mix.gases, plasma_in_oxygen().gases);
    assert_eq!(mix.trace_gases, vec![named("a", ONE, ONE)]);
    assert_eq!(mix.temperature, FIRE_MINIMUM_TEMPERATURE_TO_EXIST);
}

#[test]
fn react_below_the_least_amounts_only_resets_the_fuel_burnt() {
    let gases = vec![
        named("toxins", MINIMUM_REACT_QUANTITY, 200 * ONE),
        named("carbon_dioxide", 2 * ONE, 30 * ONE),
        named("farts", 50 * ONE, 69 * ONE),
        named("oxygen", 50 * ONE, 20 * ONE),
    ];
    let mut mix = GasMixture::new().gases(gases.clone()).temperature(2_000 * ONE).fuel_burnt(3);
    mix.react();
    assert_eq!(mix.fuel_burnt, 0);
    assert!(!mix.combustion_active);
    assert_eq!(mix.gases, gases);
    assert_eq!(mix.temperature, 2_000 * ONE);
}

#[test]
fn react_on_an_idle_mixture_keeps_a_raised_flag() {
    let mut mix = GasMixture::new().temperature(300 * ONE).fuel_burnt(9);
    mix.combustion_active = true;
    mix.react();
    assert!(mix.combustion_active);
    assert_eq!(mix.fuel_burnt, 0);
}

#[test]
fn the_exotic_reaction_turns_carbon_dioxide_into_plasma() {
    let mut mix = exotic().fuel_burnt(4 * ONE);
    mix.react();
    assert_eq!(mix.gases[0].moles, 9_500_000);
    assert_eq!(mix.gases[1].moles, 500_000);
    assert_eq!(mix.gases[2].moles, 49_925_000);
    assert_eq!(mix.heat_capacity_full(), 5_359_825_000);
    assert_eq!(mix.temperature, 1_002_798_598);
    assert!(mix.combustion_active);
    assert_eq!(mix.fuel_burnt, 0);
}

#[test]
fn the_exotic_reaction_needs_its_temperature_and_all_three_species() {
    let mut cool = exotic().temperature(900 * ONE);
    cool.react();
    assert_eq!(cool.gases, exotic().gases);
    assert!(!cool.combustion_active);

    let mut without = GasMixture::new()
        .gases(vec![named("toxins", 8 * ONE, 200 * ONE), named("farts", 50 * ONE, 69 * ONE)])
        .temperature(1_000 * ONE);
    let before = without.gases.clone();
    without.react();
    assert_eq!(without.gases, before);
    assert!(!without.combustion_active);
}

#[test]
fn the_exotic_rate_is_rounded_to_the_quantum() {
    let mut mix = GasMixture::new()
        .gases(vec![
            named("toxins", 1_000_001, 200 * ONE),
            named("carbon_dioxide", 7 * ONE, 30 * ONE),
            named("farts", 90 * ONE, 69 * ONE),
        ])
        .temperature(1_000 * ONE);
    mix.react();
    assert_eq!(mix.gases[0].moles, 1_250_001);
    assert_eq!(mix.gases[1].moles, 6_750_000);
    assert_eq!(mix.gases[2].moles, 89_987_500);
}

#[test]
fn the_exotic_reaction_keeps_the_temperature_without_heat_capacity() {
    let mut mix = GasMixture::new()
        .gases(vec![
            named("toxins", 8 * ONE, 0),
            named("carbon_dioxide", 2 * ONE, 0),
            named("farts", 50 * ONE, 0),
        ])
        .temperature(1_000 * ONE);
    mix.react();
    assert_eq!(mix.gases[0].moles, 9_500_000);
    assert_eq!(mix.temperature, 1_000 * ONE);
    assert!(mix.combustion_active);
}

#[test]
fn reactions_leave_trace_gases_and_names_alone() {
    let mut mix = warm_plasma().trace_gases(vec![named("a", ONE, ONE)]).volume(7).group_multiplier(3 * ONE);
    mix.react();
    assert_eq!(mix.trace_gases, vec![named("a", ONE, ONE)]);
    assert_eq!(mix.gases[0].name, "oxygen");
    assert_eq!(mix.gases[1].name, "toxins");
    assert_eq!(mix.gases[2].name, "carbon_dioxide");
    assert_eq!(mix.gases[0].specific_heat, 20 * ONE);
    assert_eq!(mix.volume, 7);
    assert_eq!(mix.group_multiplier, 3 * ONE);
}

#[test]
fn fire_keeps_the_temperature_at_the_least_heat_capacity() {
    let gases = vec![named("toxins", 100 * ONE, 0), named("oxygen", 1_000 * ONE, 0)];
    let mut at = GasMixture::new()
        .gases(gases.clone())
        .trace_gases(vec![named("a", ONE, 300)])
        .temperature(1_500 * ONE);
    assert_eq!(at.heat_capacity_full(), 300);
    at.fire();
    assert_eq!(at.gases[0].moles, 91_666_700);
    assert_eq!(at.temperature, 1_500 * ONE);

    let mut above = GasMixture::new()
        .gases(gases)
        .trace_gases(vec![named("a", ONE, 301)])
        .temperature(1_500 * ONE);
    assert_eq!(above.heat_capacity_full(), 301);
    above.fire();
    assert_eq!(above.temperature, 249_169_436_715_946_843);
}
