use gas::gas::Gas;
use gas::quantity::ONE;

#[test]
fn a_new_gas_has_no_name_and_nothing_present() {
    let gas = Gas::new();
    assert_eq!(gas.name, "");
    assert_eq!(gas.moles, 0);
    assert_eq!(gas.archived_moles, 0);
    assert_eq!(gas.specific_heat, 0);
    assert_eq!(gas, Gas::default());
}

#[test]
fn gas_builders_set_one_field_each() {
    let gas = Gas::new().name("Sleeping Agent".into()).heat(40 * ONE);
    assert_eq!(gas.name, "Sleeping Agent");
    assert_eq!(gas.moles, 0);
    assert_eq!(gas.specific_heat, 40 * ONE);
    let gas = gas.moles(3 * ONE);
    assert_eq!(gas.name, "Sleeping Agent");
    assert_eq!(gas.moles, 3 * ONE);
    assert_eq!(gas.specific_heat, 40 * ONE);
    assert_eq!(gas.archived_moles, 0);
}

#[test]
fn zero_keeps_the_name_only() {
    let gas = Gas::new().name("oxygen".into()).moles(5 * ONE).heat(20 * ONE).zero();
    assert_eq!(gas.name, "oxygen");
    assert_eq!(gas.moles, 0);
    assert_eq!(gas.specific_heat, 0);
}

#[test]
fn a_clone_is_equal_and_a_change_is_not() {
    let gas = Gas::new().name("oxygen".into()).moles(5 * ONE).heat(20 * ONE);
    let copy = gas.clone();
    assert_eq!(gas, copy);
    assert_ne!(gas, copy.clone().moles(6 * ONE));
    assert_ne!(gas, copy.clone().heat(21 * ONE));
    assert_ne!(gas, copy.name("toxins".into()));
}
