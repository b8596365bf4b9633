//! What happens inside one mixture in one step: the exotic reaction and the
//! burning of plasma.

use crate::constants::EXOTIC_ENERGY_RELEASED;
use crate::constants::EXOTIC_MINIMUM_TEMPERATURE;
use crate::constants::FIRE_MINIMUM_TEMPERATURE_TO_EXIST;
use crate::constants::FIRE_PLASMA_ENERGY_RELEASED;
use crate::constants::MINIMUM_HEAT_CAPACITY;
use crate::constants::MINIMUM_REACT_QUANTITY;
use crate::constants::OXYGEN_BURN_RATE_BASE;
use crate::constants::PLASMA_MINIMUM_BURN_TEMPERATURE;
use crate::constants::PLASMA_OXYGEN_FULLBURN;
use crate::constants::PLASMA_UPPER_TEMPERATURE;
use crate::gas::GasView;
use crate::gasmixture::GasMixture;
use crate::gasmixture::MixtureView;
use crate::ledger::lemma_position;
use crate::ledger::lemma_same_names_distinct;
use crate::ledger::moles_named;
use crate::ledger::position;
use crate::ledger::same_names;
use crate::ledger::set_moles;
use crate::ledger::with_moles;
use crate::quantity::blend;
use crate::quantity::blended;
use crate::quantity::lemma_blended_floor;
use crate::quantity::minus;
use crate::quantity::mul_div;
use crate::quantity::plus;
use crate::quantity::quantize;
use crate::quantity::quantized;
use crate::quantity::scaled;
use crate::quantity::ONE;
use vstd::prelude::*;

verus! {

/// The name of plasma among the main species.
pub open spec fn toxins() -> Seq<char> {
    "toxins"@
}

/// The name of oxygen among the main species.
pub open spec fn oxygen() -> Seq<char> {
    "oxygen"@
}

/// The name of carbon dioxide among the main species.
pub open spec fn carbon_dioxide() -> Seq<char> {
    "carbon_dioxide"@
}

/// The name of the fourth species of the exotic reaction.
pub open spec fn farts() -> Seq<char> {
    "farts"@
}

/// How far `temperature` stands between the temperature at which plasma
/// starts to burn (0) and the one above which it burns fully (`ONE`).
pub open spec fn temperature_scale(temperature: u64) -> u64 {
    if temperature > PLASMA_UPPER_TEMPERATURE {
        ONE
    } else {
        scaled(
            minus(temperature, PLASMA_MINIMUM_BURN_TEMPERATURE),
            ONE,
            (PLASMA_UPPER_TEMPERATURE - PLASMA_MINIMUM_BURN_TEMPERATURE) as u64,
        )
    }
}

/// The plasma that burns in one step: a quarter of the plasma times the
/// scale where oxygen is abundant, a quarter of what the oxygen allows times
/// the scale where it is not.
pub open spec fn burn_rate(plasma: u64, oxygen: u64, scale: u64) -> u64 {
    if oxygen > scaled(plasma, PLASMA_OXYGEN_FULLBURN, ONE) {
        scaled(plasma, scale, (4 * ONE) as u64)
    } else {
        scaled(oxygen, scale, (4 * PLASMA_OXYGEN_FULLBURN) as u64)
    }
}

/// The oxygen burnt per unit of plasma at the given scale.
pub open spec fn oxygen_burn_rate(scale: u64) -> u64 {
    minus(OXYGEN_BURN_RATE_BASE, scale)
}

/// The least of three quantities.
pub open spec fn least(a: u64, b: u64, c: u64) -> u64 {
    if a <= b && a <= c {
        a
    } else if b <= c {
        b
    } else {
        c
    }
}

impl MixtureView {
    /// The moles of the main species `name`, zero where there is none.
    pub open spec fn moles_of(self, name: Seq<char>) -> u64 {
        moles_named(self.gases, name)
    }

    /// The plasma that would burn in this step: zero without plasma above the
    /// least amount that reacts, without oxygen among the species, or at a
    /// temperature at which plasma does not burn.
    pub open spec fn plasma_burn_rate(self) -> u64 {
        if position(self.gases, toxins()) is Some && position(self.gases, oxygen()) is Some
            && self.moles_of(toxins()) > MINIMUM_REACT_QUANTITY {
            burn_rate(
                self.moles_of(toxins()),
                self.moles_of(oxygen()),
                temperature_scale(self.temperature),
            )
        } else {
            0
        }
    }

    /// Whether plasma burns in this step.
    pub open spec fn burns(self) -> bool {
        self.plasma_burn_rate() > MINIMUM_REACT_QUANTITY
    }

    /// The main species after the burn: a third of the rate leaves the plasma,
    /// the rate times the oxygen burn rate leaves the oxygen, and a third of
    /// the rate joins the carbon dioxide where the mixture has it, each
    /// rounded to the quantum.
    pub open spec fn burnt_gases(self) -> Seq<GasView> {
        let rate = self.plasma_burn_rate();
        let share = oxygen_burn_rate(temperature_scale(self.temperature));
        let plasma = position(self.gases, toxins()).unwrap();
        let oxygen = position(self.gases, oxygen()).unwrap();
        let first = with_moles(
            self.gases,
            plasma,
            minus(self.gases[plasma].moles, quantized(scaled(rate, 1, 3))),
        );
        let second = with_moles(
            first,
            oxygen,
            minus(first[oxygen].moles, quantized(scaled(rate, share, ONE))),
        );
        match position(self.gases, carbon_dioxide()) {
            Some(carbon) => with_moles(
                second,
                carbon,
                plus(second[carbon].moles, quantized(scaled(rate, 1, 3))),
            ),
            None => second,
        }
    }

    /// The mixture after `fire`. Where plasma burns, the species change as
    /// `burnt_gases` says, the fuel burnt grows by the rate times one plus the
    /// oxygen burn rate, and the temperature becomes the old temperature times
    /// the old heat capacity plus the energy released, over the new heat
    /// capacity; it stays where the new heat capacity is not above the
    /// minimum. Where nothing burns, nothing changes.
    pub open spec fn burnt(self) -> MixtureView {
        if self.burns() {
            let rate = self.plasma_burn_rate();
            let share = oxygen_burn_rate(temperature_scale(self.temperature));
            let after = MixtureView {
                gases: self.burnt_gases(),
                fuel_burnt: plus(self.fuel_burnt, scaled(rate, (ONE + share) as u64, ONE)),
                ..self
            };
            if after.heat_capacity() > MINIMUM_HEAT_CAPACITY {
                MixtureView {
                    temperature: blended(
                        self.temperature,
                        self.heat_capacity(),
                        FIRE_PLASMA_ENERGY_RELEASED,
                        rate,
                        after.heat_capacity() as int,
                    ),
                    ..after
                }
            } else {
                after
            }
        } else {
            self
        }
    }

    /// Whether the exotic reaction runs in this step: above its temperature,
    /// with plasma, carbon dioxide and the fourth species each above the
    /// least amount that reacts.
    pub open spec fn reacts_exotically(self) -> bool {
        &&& self.temperature > EXOTIC_MINIMUM_TEMPERATURE
        &&& position(self.gases, farts()) is Some
        &&& position(self.gases, toxins()) is Some
        &&& position(self.gases, carbon_dioxide()) is Some
        &&& self.moles_of(farts()) > MINIMUM_REACT_QUANTITY
        &&& self.moles_of(toxins()) > MINIMUM_REACT_QUANTITY
        &&& self.moles_of(carbon_dioxide()) > MINIMUM_REACT_QUANTITY
    }

    /// The rate of the exotic reaction: the least of three quarters of the
    /// carbon dioxide, a quarter of the plasma and a twentieth of the fourth
    /// species, rounded to the quantum.
    pub open spec fn exotic_rate(self) -> u64 {
        quantized(
            least(
                scaled(self.moles_of(carbon_dioxide()), 3, 4),
                scaled(self.moles_of(toxins()), 1, 4),
                scaled(self.moles_of(farts()), 1, 20),
            ),
        )
    }

    /// The mixture after the exotic reaction, where it runs: the rate leaves
    /// the carbon dioxide and joins the plasma, a twentieth of it leaves the
    /// fourth species, the temperature grows by the energy released over the
    /// new heat capacity (it stays where that is not above the minimum), and
    /// combustion is flagged. Where it does not run, nothing changes.
    pub open spec fn exotic_reacted(self) -> MixtureView {
        if self.reacts_exotically() {
            let rate = self.exotic_rate();
            let carbon = position(self.gases, carbon_dioxide()).unwrap();
            let plasma = position(self.gases, toxins()).unwrap();
            let fourth = position(self.gases, farts()).unwrap();
            let first = with_moles(self.gases, carbon, minus(self.gases[carbon].moles, rate));
            let second = with_moles(first, plasma, plus(first[plasma].moles, rate));
            let third = with_moles(
                second,
                fourth,
                minus(second[fourth].moles, scaled(rate, 1, 20)),
            );
            let after = MixtureView { gases: third, combustion_active: true, ..self };
            if after.heat_capacity() > MINIMUM_HEAT_CAPACITY {
                MixtureView {
                    temperature: plus(
                        self.temperature,
                        scaled(rate, EXOTIC_ENERGY_RELEASED, after.heat_capacity()),
                    ),
                    ..after
                }
            } else {
                after
            }
        } else {
            self
        }
    }

    /// Whether a step leaves the mixture as it is: the exotic reaction does
    /// not run, and the mixture is too cold for a fire or nothing would burn.
    pub open spec fn idle(self) -> bool {
        !self.reacts_exotically() && !(self.temperature > FIRE_MINIMUM_TEMPERATURE_TO_EXIST
            && self.burns())
    }

    /// The mixture after `react`: the exotic reaction, then the fuel burnt
    /// set to zero, then, above the temperature at which a fire can exist,
    /// the burn, with combustion flagged where fuel was burnt.
    pub open spec fn reacted(self) -> MixtureView {
        let settled = MixtureView { fuel_burnt: 0, ..self.exotic_reacted() };
        if settled.temperature > FIRE_MINIMUM_TEMPERATURE_TO_EXIST {
            let fired = settled.burnt();
            if fired.fuel_burnt > 0 {
                MixtureView { combustion_active: true, ..fired }
            } else {
                fired
            }
        } else {
            settled
        }
    }
}

/// Burning changes the moles of the main species and nothing else of them:
/// every species keeps its place, its name and its heat.
pub proof fn lemma_burnt_keeps_names(mixture: MixtureView)
    ensures
        same_names(mixture.gases, mixture.burnt().gases),
        mixture.burnt().trace_gases == mixture.trace_gases,
        mixture.wf() ==> mixture.burnt().wf(),
{
    lemma_position(mixture.gases, toxins());
    lemma_position(mixture.gases, oxygen());
    lemma_position(mixture.gases, carbon_dioxide());
    if mixture.wf() {
        lemma_same_names_distinct(mixture.gases, mixture.burnt().gases);
    }
}

/// The exotic reaction changes the moles of the main species and nothing
/// else of them.
pub proof fn lemma_exotic_keeps_names(mixture: MixtureView)
    ensures
        same_names(mixture.gases, mixture.exotic_reacted().gases),
        mixture.exotic_reacted().trace_gases == mixture.trace_gases,
        mixture.wf() ==> mixture.exotic_reacted().wf(),
{
    lemma_position(mixture.gases, toxins());
    lemma_position(mixture.gases, farts());
    lemma_position(mixture.gases, carbon_dioxide());
    if mixture.wf() {
        lemma_same_names_distinct(mixture.gases, mixture.exotic_reacted().gases);
    }
}

/// A step changes the moles of the main species and nothing else of them.
pub proof fn lemma_reacted_keeps_names(mixture: MixtureView)
    ensures
        same_names(mixture.gases, mixture.reacted().gases),
        mixture.reacted().trace_gases == mixture.trace_gases,
        mixture.wf() ==> mixture.reacted().wf(),
{
    let settled = MixtureView { fuel_burnt: 0, ..mixture.exotic_reacted() };
    lemma_exotic_keeps_names(mixture);
    lemma_burnt_keeps_names(settled);
    if mixture.wf() {
        lemma_same_names_distinct(mixture.gases, mixture.reacted().gases);
    }
}

/// A burn keeps the heat: the new temperature times the new heat capacity is
/// the old temperature times the old heat capacity and the energy released,
/// but for less than one new heat capacity, which the rounding takes. This
/// holds where the new heat capacity is above the minimum and the new
/// temperature below the largest quantity.
pub proof fn lemma_burn_keeps_heat(mixture: MixtureView)
    requires
        mixture.burns(),
        mixture.burnt().heat_capacity() > MINIMUM_HEAT_CAPACITY,
        mixture.burnt().temperature < u64::MAX,
    ensures
        mixture.burnt().temperature * mixture.burnt().heat_capacity() <= mixture.temperature
            * mixture.heat_capacity() + FIRE_PLASMA_ENERGY_RELEASED * mixture.plasma_burn_rate(),
        mixture.temperature * mixture.heat_capacity() + FIRE_PLASMA_ENERGY_RELEASED
            * mixture.plasma_burn_rate() < mixture.burnt().temperature
            * mixture.burnt().heat_capacity() + mixture.burnt().heat_capacity(),
{
    lemma_blended_floor(
        mixture.temperature,
        mixture.heat_capacity(),
        FIRE_PLASMA_ENERGY_RELEASED,
        mixture.plasma_burn_rate(),
        mixture.burnt().heat_capacity() as int,
    );
}

/// Computes `temperature_scale`.
pub fn scale_of_temperature(temperature: u64) -> (r: u64)
    ensures
        r == temperature_scale(temperature),
        r <= ONE,
{
    proof {
        reveal(scaled);
    }
    if temperature > PLASMA_UPPER_TEMPERATURE {
        ONE
    } else {
        mul_div(
            temperature.saturating_sub(PLASMA_MINIMUM_BURN_TEMPERATURE),
            ONE,
            PLASMA_UPPER_TEMPERATURE - PLASMA_MINIMUM_BURN_TEMPERATURE,
        )
    }
}

/// Computes `burn_rate`.
pub fn rate_of_burn(plasma: u64, oxygen: u64, scale: u64) -> (r: u64)
    ensures
        r == burn_rate(plasma, oxygen, scale),
{
    if oxygen > mul_div(plasma, PLASMA_OXYGEN_FULLBURN, ONE) {
        mul_div(plasma, scale, 4 * ONE)
    } else {
        mul_div(oxygen, scale, 4 * PLASMA_OXYGEN_FULLBURN)
    }
}

/// Computes `least`.
pub fn least_of(a: u64, b: u64, c: u64) -> (r: u64)
    ensures
        r == least(a, b, c),
{
    if a <= b && a <= c {
        a
    } else if b <= c {
        b
    } else {
        c
    }
}

impl GasMixture {
    /// Burns plasma, if any burns at this temperature, and returns the fuel
    /// burnt so far in this step.
    pub fn fire(&mut self) -> (r: u64)
        ensures
            final(self)@ == old(self)@.burnt(),
            r == final(self)@.fuel_burnt,
            old(self)@.wf() ==> final(self)@.wf(),
    {
        proof {
            lemma_burnt_keeps_names(self@);
        }
        let old_heat_capacity = self.heat_capacity_full();
        let tox_result = self.has_gas("toxins".to_owned());
        let oxy_result = self.has_gas("oxygen".to_owned());
        let carb_result = self.has_gas("carbon_dioxide".to_owned());
        proof {
            lemma_position(self@.gases, toxins());
            lemma_position(self@.gases, oxygen());
            lemma_position(self@.gases, carbon_dioxide());
        }
        if let Some(tox_idx) = tox_result {
            let tox_moles = self.gases[tox_idx].moles;
            if tox_moles > MINIMUM_REACT_QUANTITY {
                if let Some(oxy_idx) = oxy_result {
                    let temperature_scale = scale_of_temperature(self.temperature);
                    let oxygen_burn_rate = OXYGEN_BURN_RATE_BASE - temperature_scale;
                    let oxy_moles = self.gases[oxy_idx].moles;
                    let plasma_burn_rate = rate_of_burn(tox_moles, oxy_moles, temperature_scale);
                    if plasma_burn_rate > MINIMUM_REACT_QUANTITY {
                        let third = quantize(mul_div(plasma_burn_rate, 1, 3));
                        set_moles(&mut self.gases, tox_idx, tox_moles.saturating_sub(third));
                        let oxy_left = self.gases[oxy_idx].moles.saturating_sub(
                            quantize(mul_div(plasma_burn_rate, oxygen_burn_rate, ONE)),
                        );
                        set_moles(&mut self.gases, oxy_idx, oxy_left);
                        if let Some(carb_idx) = carb_result {
                            let carb_now = self.gases[carb_idx].moles.saturating_add(third);
                            set_moles(&mut self.gases, carb_idx, carb_now);
                        }
                        self.fuel_burnt = self.fuel_burnt.saturating_add(
                            mul_div(plasma_burn_rate, ONE + oxygen_burn_rate, ONE),
                        );
                        let new_heat_capacity = self.heat_capacity_full();
                        if new_heat_capacity > MINIMUM_HEAT_CAPACITY {
                            self.temperature = blend(
                                self.temperature,
                                old_heat_capacity,
                                FIRE_PLASMA_ENERGY_RELEASED,
                                plasma_burn_rate,
                                new_heat_capacity,
                                0,
                            );
                        }
                    }
                }
            }
        }
        self.fuel_burnt
    }

    /// Runs the exotic reaction, if its conditions hold.
    fn react_exotically(&mut self)
        ensures
            final(self)@ == old(self)@.exotic_reacted(),
    {
        let tox_result = self.has_gas("toxins".to_owned());
        let carb_result = self.has_gas("carbon_dioxide".to_owned());
        let fart_result = self.has_gas("farts".to_owned());
        proof {
            lemma_position(self@.gases, toxins());
            lemma_position(self@.gases, farts());
            lemma_position(self@.gases, carbon_dioxide());
        }
        if self.temperature > EXOTIC_MINIMUM_TEMPERATURE {
            if let Some(fart_idx) = fart_result {
                if let Some(tox_idx) = tox_result {
                    if let Some(carb_idx) = carb_result {
                        let tox_moles = self.gases[tox_idx].moles;
                        let carb_moles = self.gases[carb_idx].moles;
                        let fart_moles = self.gases[fart_idx].moles;
                        if fart_moles > MINIMUM_REACT_QUANTITY && tox_moles
                            > MINIMUM_REACT_QUANTITY && carb_moles > MINIMUM_REACT_QUANTITY {
                            let reaction_rate = quantize(
                                least_of(
                                    mul_div(carb_moles, 3, 4),
                                    mul_div(tox_moles, 1, 4),
                                    mul_div(fart_moles, 1, 20),
                                ),
                            );
                            set_moles(
                                &mut self.gases,
                                carb_idx,
                                carb_moles.saturating_sub(reaction_rate),
                            );
                            let tox_now = self.gases[tox_idx].moles.saturating_add(reaction_rate);
                            set_moles(&mut self.gases, tox_idx, tox_now);
                            let fart_now = self.gases[fart_idx].moles.saturating_sub(
                                mul_div(reaction_rate, 1, 20),
                            );
                            set_moles(&mut self.gases, fart_idx, fart_now);
                            let heat_capacity = self.heat_capacity_full();
                            if heat_capacity > MINIMUM_HEAT_CAPACITY {
                                self.temperature = self.temperature.saturating_add(
                                    mul_div(reaction_rate, EXOTIC_ENERGY_RELEASED, heat_capacity),
                                );
                            }
                            self.combustion_active = true;
                        }
                    }
                }
            }
        }
    }

    /// Runs the reactions of one step: the exotic reaction, then the fire.
    /// The fuel burnt starts again from zero. A mixture that is idle only
    /// loses its count of fuel burnt.
    pub fn react(&mut self)
        ensures
            final(self)@ == old(self)@.reacted(),
            old(self)@.idle() ==> final(self)@ == (MixtureView { fuel_burnt: 0, ..old(self)@ }),
            old(self)@.wf() ==> final(self)@.wf(),
    {
        proof {
            lemma_reacted_keeps_names(self@);
        }
        self.react_exotically();
        self.fuel_burnt = 0;
        if self.temperature > FIRE_MINIMUM_TEMPERATURE_TO_EXIST {
            if self.fire() > 0 {
                self.combustion_active = true;
            }
        }
    }
}

} // verus!
