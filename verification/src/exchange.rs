//! What passes between mixtures: merging one into another, and taking a
//! part out.

use crate::constants::MINIMUM_TEMPERATURE_DELTA_TO_CONSIDER;
use crate::gas::Gas;
use crate::gas::GasView;
use crate::gasmixture::GasMixture;
use crate::gasmixture::MixtureView;
use crate::ledger::distinct_names;
use crate::ledger::find;
use crate::ledger::lemma_distinct_position;
use crate::ledger::lemma_moles_sum_bounds;
use crate::ledger::lemma_moles_sum_by_moles;
use crate::ledger::lemma_moles_sum_gap;
use crate::ledger::lemma_moles_sum_with_moles;
use crate::ledger::lemma_position;
use crate::ledger::lemma_position_by_names;
use crate::ledger::lemma_sums_not_negative;
use crate::ledger::moles_named;
use crate::ledger::moles_sum;
use crate::ledger::position;
use crate::ledger::species;
use crate::ledger::with_moles;
use crate::quantity::abs_diff;
use crate::quantity::blend;
use crate::quantity::blended;
use crate::quantity::distance;
use crate::quantity::lemma_blended_between;
use crate::quantity::lemma_quantized_near;
use crate::quantity::lemma_scaled_unit;
use crate::quantity::lemma_scaled_whole;
use crate::quantity::minus;
use crate::quantity::mul_div;
use crate::quantity::plus;
use crate::quantity::quantize;
use crate::quantity::quantized;
use crate::quantity::saturate;
use crate::quantity::scaled;
use crate::quantity::ONE;
use crate::quantity::QUANTUM;
use vstd::prelude::*;

verus! {

/// The species of `given` with moles and specific heat multiplied by
/// `numerator / denominator`.
pub open spec fn rescaled(given: Seq<GasView>, numerator: u64, denominator: u64) -> Seq<GasView> {
    Seq::new(
        given.len(),
        |j: int|
            GasView {
                moles: scaled(given[j].moles, numerator, denominator),
                specific_heat: scaled(given[j].specific_heat, numerator, denominator),
                ..given[j]
            },
    )
}

/// The moles that species `i` of `gases` takes from `given`: those of every
/// species of `given` whose name `gases` finds at `i`.
pub open spec fn moles_into(gases: Seq<GasView>, i: int, given: Seq<GasView>) -> int
    decreases given.len(),
{
    if given.len() == 0 {
        0
    } else {
        moles_into(gases, i, given.drop_last()) + if position(gases, given.last().name) == Some(
            i,
        ) {
            given.last().moles as int
        } else {
            0
        }
    }
}

/// The specific heat that species `i` of `gases` takes from `given`.
pub open spec fn heat_into(gases: Seq<GasView>, i: int, given: Seq<GasView>) -> int
    decreases given.len(),
{
    if given.len() == 0 {
        0
    } else {
        heat_into(gases, i, given.drop_last()) + if position(gases, given.last().name) == Some(
            i,
        ) {
            given.last().specific_heat as int
        } else {
            0
        }
    }
}

/// The list `gases` after it took `given`: each species has its own moles
/// and specific heat and those that `given` holds under its name. Species of
/// `given` whose name `gases` does not hold are left out.
pub open spec fn absorbed(gases: Seq<GasView>, given: Seq<GasView>) -> Seq<GasView> {
    Seq::new(
        gases.len(),
        |i: int|
            GasView {
                moles: saturate(gases[i].moles + moles_into(gases, i, given)),
                specific_heat: saturate(gases[i].specific_heat + heat_into(gases, i, given)),
                ..gases[i]
            },
    )
}

/// The trace list `list` after it took the trace species `gas`: its moles
/// join the species of that name, or a new species of that name, without
/// heat, is added last with those moles.
pub open spec fn joined_one(list: Seq<GasView>, gas: GasView) -> Seq<GasView> {
    match position(list, gas.name) {
        Some(i) => with_moles(list, i, plus(list[i].moles, gas.moles)),
        None => list.push(GasView { moles: gas.moles, ..GasView::named(gas.name) }),
    }
}

/// The trace list `list` after it took the species of `given`, one after
/// the other.
pub open spec fn joined(list: Seq<GasView>, given: Seq<GasView>) -> Seq<GasView>
    decreases given.len(),
{
    if given.len() == 0 {
        list
    } else {
        joined_one(joined(list, given.drop_last()), given.last())
    }
}

/// No species takes less than nothing.
pub proof fn lemma_into_not_negative(gases: Seq<GasView>, i: int, given: Seq<GasView>)
    ensures
        0 <= moles_into(gases, i, given),
        0 <= heat_into(gases, i, given),
    decreases given.len(),
{
    if given.len() > 0 {
        lemma_into_not_negative(gases, i, given.drop_last());
    }
}

/// Adds to each species of `gases` what `given` holds under its name,
/// multiplied by `numerator / denominator` where `rescale` is set.
fn absorb(gases: &mut Vec<Gas>, given: &Vec<Gas>, rescale: bool, numerator: u64, denominator: u64)
    ensures
        species(final(gases)@) == absorbed(
            species(old(gases)@),
            if rescale {
                rescaled(species(given@), numerator, denominator)
            } else {
                species(given@)
            },
        ),
{
    let ghost start = species(gases@);
    let ghost arriving = if rescale {
        rescaled(species(given@), numerator, denominator)
    } else {
        species(given@)
    };
    let mut k: usize = 0;
    while k < given.len()
        invariant
            k <= given.len(),
            start == species(old(gases)@),
            arriving == if rescale {
                rescaled(species(given@), numerator, denominator)
            } else {
                species(given@)
            },
            gases.len() == start.len(),
            forall|i: int|
                0 <= i < gases.len() ==> (#[trigger] gases[i])@ == (GasView {
                    moles: saturate(start[i].moles + moles_into(start, i, arriving.take(k as int))),
                    specific_heat: saturate(
                        start[i].specific_heat + heat_into(start, i, arriving.take(k as int)),
                    ),
                    ..start[i]
                }),
        decreases given.len() - k,
    {
        let ghost before = arriving.take(k as int);
        let ghost after = arriving.take(k + 1);
        let ghost current = species(gases@);
        let found = find(gases, &given[k].name);
        proof {
            assert(after.drop_last() =~= before);
            assert(after.last() == arriving[k as int]);
            assert(arriving[k as int].name == given[k as int]@.name);
            assert forall|i: int| 0 <= i < current.len() implies current[i].name
                == start[i].name by {
                assert(current[i] == gases[i]@);
            }
            lemma_position_by_names(current, start, given[k as int]@.name);
            lemma_position(start, given[k as int]@.name);
            assert forall|i: int| 0 <= i < start.len() implies 0 <= moles_into(start, i, before)
                && 0 <= heat_into(start, i, before) by {
                lemma_into_not_negative(start, i, before);
            }
        }
        if let Some(idx) = found {
            let moles = if rescale {
                mul_div(given[k].moles, numerator, denominator)
            } else {
                given[k].moles
            };
            let heat = if rescale {
                mul_div(given[k].specific_heat, numerator, denominator)
            } else {
                given[k].specific_heat
            };
            gases[idx].moles = gases[idx].moles.saturating_add(moles);
            gases[idx].specific_heat = gases[idx].specific_heat.saturating_add(heat);
        }
        k += 1;
    }
    proof {
        assert(arriving.take(given.len() as int) =~= arriving);
        assert(species(gases@) =~= absorbed(start, arriving));
    }
}

/// Adds the moles of each species of `given` to the trace species of its
/// name in `list`, which it adds first where `list` has none.
fn join(list: &mut Vec<Gas>, given: &Vec<Gas>)
    ensures
        species(final(list)@) == joined(species(old(list)@), species(given@)),
{
    let ghost start = species(list@);
    let ghost arriving = species(given@);
    let mut k: usize = 0;
    while k < given.len()
        invariant
            k <= given.len(),
            start == species(old(list)@),
            arriving == species(given@),
            species(list@) == joined(start, arriving.take(k as int)),
        decreases given.len() - k,
    {
        let ghost current = species(list@);
        let found = find(list, &given[k].name);
        proof {
            assert(arriving.take(k + 1).drop_last() =~= arriving.take(k as int));
            lemma_position(current, given[k as int]@.name);
        }
        match found {
            Some(idx) => {
                list[idx].moles = list[idx].moles.saturating_add(given[k].moles);
                proof {
                    assert(species(list@) =~= joined_one(current, arriving[k as int]));
                }
            },
            None => {
                let gas = Gas::new().name(given[k].name.clone()).moles(given[k].moles);
                list.push(gas);
                proof {
                    assert(species(list@) =~= joined_one(current, arriving[k as int]));
                }
            },
        }
        k += 1;
    }
    proof {
        assert(arriving.take(given.len() as int) =~= arriving);
    }
}

impl MixtureView {
    /// Whether a merge of `giver` into this mixture multiplies what arrives
    /// by the ratio of the two group multipliers.
    pub open spec fn rescales(self, giver: MixtureView) -> bool {
        self.group_multiplier > ONE || giver.group_multiplier > ONE
    }

    /// The temperature after a merge of `giver`: the mean of the two
    /// temperatures, each weighted by its mixture's heat capacity times its
    /// group multiplier, where the temperatures differ by more than the least
    /// difference considered and the weights are not both zero; this
    /// mixture's temperature otherwise.
    pub open spec fn merged_temperature(self, giver: MixtureView) -> u64 {
        let own = scaled(self.heat_capacity(), self.group_multiplier, ONE);
        let given = scaled(giver.heat_capacity(), giver.group_multiplier, ONE);
        if distance(self.temperature, giver.temperature) > MINIMUM_TEMPERATURE_DELTA_TO_CONSIDER
            && own + given != 0 {
            blended(giver.temperature, given, self.temperature, own, own + given)
        } else {
            self.temperature
        }
    }

    /// The mixture after a merge of `giver` into it.
    pub open spec fn merged(self, giver: MixtureView) -> MixtureView {
        MixtureView {
            temperature: self.merged_temperature(giver),
            gases: absorbed(
                self.gases,
                if self.rescales(giver) {
                    rescaled(giver.gases, giver.group_multiplier, self.group_multiplier)
                } else {
                    giver.gases
                },
            ),
            trace_gases: joined(self.trace_gases, giver.trace_gases),
            ..self
        }
    }

    /// What a removal of `amount` takes of the main species `i`: its part of
    /// `amount` by its part of the total, rounded to the quantum, and no
    /// more than is present.
    pub open spec fn taken(self, i: int, amount: u64) -> u64 {
        let share = quantized(scaled(self.gases[i].moles, amount, self.total_moles()));
        if share <= self.gases[i].moles {
            share
        } else {
            self.gases[i].moles
        }
    }

    /// The mixture that a removal of `amount` returns: this mixture with,
    /// of each main species, what was taken.
    pub open spec fn removed(self, amount: u64) -> MixtureView {
        MixtureView {
            gases: Seq::new(
                self.gases.len(),
                |i: int| GasView { moles: self.taken(i, amount), ..self.gases[i] },
            ),
            ..self
        }
    }

    /// The mixture that a removal of `amount` leaves: each main species less
    /// what was taken over the group multiplier.
    pub open spec fn remaining(self, amount: u64) -> MixtureView {
        MixtureView {
            gases: Seq::new(
                self.gases.len(),
                |i: int|
                    GasView {
                        moles: minus(
                            self.gases[i].moles,
                            scaled(self.taken(i, amount), ONE, self.group_multiplier),
                        ),
                        ..self.gases[i]
                    },
            ),
            ..self
        }
    }
}

/// A trace list of distinct names that takes other species still has
/// distinct names.
pub proof fn lemma_joined_distinct(list: Seq<GasView>, given: Seq<GasView>)
    requires
        distinct_names(list),
    ensures
        distinct_names(joined(list, given)),
    decreases given.len(),
{
    if given.len() > 0 {
        let before = joined(list, given.drop_last());
        lemma_joined_distinct(list, given.drop_last());
        lemma_position(before, given.last().name);
    }
}

/// Merging and removing keep the names of a mixture distinct: the main
/// species keep their places and names, and the trace species theirs, with
/// new names added behind them.
pub proof fn lemma_exchange_keeps_wf(mixture: MixtureView, giver: MixtureView, amount: u64)
    requires
        mixture.wf(),
    ensures
        mixture.merged(giver).wf(),
        mixture.removed(amount).wf(),
        mixture.remaining(amount).wf(),
{
    lemma_joined_distinct(mixture.trace_gases, giver.trace_gases);
}

/// A merge leaves the temperature between that of the receiver and that of
/// the giver.
pub proof fn lemma_merged_temperature_between(receiver: MixtureView, giver: MixtureView)
    ensures
        receiver.temperature <= giver.temperature ==> receiver.temperature
            <= receiver.merged(giver).temperature <= giver.temperature,
        giver.temperature <= receiver.temperature ==> giver.temperature <= receiver.merged(
            giver,
        ).temperature <= receiver.temperature,
{
    let own = scaled(receiver.heat_capacity(), receiver.group_multiplier, ONE);
    let given = scaled(giver.heat_capacity(), giver.group_multiplier, ONE);
    if own + given != 0 {
        lemma_blended_between(giver.temperature, given, receiver.temperature, own);
    }
}

/// A giver without moles gives no species any.
pub proof fn lemma_nothing_into(gases: Seq<GasView>, i: int, given: Seq<GasView>)
    requires
        forall|j: int| 0 <= j < given.len() ==> given[j].moles == 0,
    ensures
        moles_into(gases, i, given) == 0,
    decreases given.len(),
{
    if given.len() > 0 {
        lemma_nothing_into(gases, i, given.drop_last());
    }
}

/// A trace list that takes species without moles holds in all what it held.
pub proof fn lemma_nothing_joined(list: Seq<GasView>, given: Seq<GasView>)
    requires
        forall|j: int| 0 <= j < given.len() ==> given[j].moles == 0,
    ensures
        moles_sum(joined(list, given)) == moles_sum(list),
    decreases given.len(),
{
    if given.len() > 0 {
        let before = joined(list, given.drop_last());
        lemma_nothing_joined(list, given.drop_last());
        lemma_position(before, given.last().name);
        match position(before, given.last().name) {
            Some(i) => {
                lemma_moles_sum_by_moles(joined_one(before, given.last()), before);
            },
            None => {
                assert(joined_one(before, given.last()).drop_last() =~= before);
            },
        }
    }
}

/// Merging a giver that holds no moles, in no main species and in no trace
/// species, leaves the total moles of the receiver as they were.
pub proof fn lemma_merge_of_nothing_keeps_total(receiver: MixtureView, giver: MixtureView)
    requires
        forall|j: int| 0 <= j < giver.gases.len() ==> giver.gases[j].moles == 0,
        forall|j: int| 0 <= j < giver.trace_gases.len() ==> giver.trace_gases[j].moles == 0,
    ensures
        receiver.merged(giver).total_moles() == receiver.total_moles(),
{
    let arriving = if receiver.rescales(giver) {
        rescaled(giver.gases, giver.group_multiplier, receiver.group_multiplier)
    } else {
        giver.gases
    };
    assert forall|j: int| 0 <= j < arriving.len() implies arriving[j].moles == 0 by {
        assert(giver.gases[j].moles == 0);
        lemma_scaled_unit(giver.group_multiplier, receiver.group_multiplier);
    }
    let after = absorbed(receiver.gases, arriving);
    assert forall|i: int| 0 <= i < after.len() implies after[i].moles
        == receiver.gases[i].moles by {
        lemma_nothing_into(receiver.gases, i, arriving);
    }
    lemma_moles_sum_by_moles(after, receiver.gases);
    lemma_nothing_joined(receiver.trace_gases, giver.trace_gases);
}

/// From a giver of distinct names, a species of a receiver of distinct names
/// takes the moles that the giver holds under its name.
pub proof fn lemma_into_distinct(gases: Seq<GasView>, i: int, given: Seq<GasView>)
    requires
        distinct_names(gases),
        distinct_names(given),
        0 <= i < gases.len(),
    ensures
        moles_into(gases, i, given) == moles_named(given, gases[i].name),
    decreases given.len(),
{
    if given.len() > 0 {
        let front = given.drop_last();
        let name = gases[i].name;
        lemma_into_distinct(gases, i, front);
        lemma_position(front, name);
        lemma_position(gases, given.last().name);
        lemma_distinct_position(gases, i);
        if given.last().name == name {
            if position(front, name) is Some {
                let j = position(front, name).unwrap();
                assert(given[j] == front[j]);
                assert(given[j].name == given[given.len() - 1].name);
            }
        } else {
            if position(front, name) is Some {
                let j = position(front, name).unwrap();
                assert(given[j] == front[j]);
            }
        }
    }
}

/// Between two mixtures that each stand for one cell and hold no name
/// twice, a merge adds to each main species of the receiver the moles that
/// the giver holds of it, and nothing where the giver holds none. The
/// receiver gains no species: what only the giver holds is left out.
pub proof fn lemma_merge_adds_shared_species(receiver: MixtureView, giver: MixtureView, i: int)
    requires
        receiver.group_multiplier == ONE,
        giver.group_multiplier == ONE,
        distinct_names(receiver.gases),
        distinct_names(giver.gases),
        0 <= i < receiver.gases.len(),
    ensures
        receiver.merged(giver).gases.len() == receiver.gases.len(),
        receiver.merged(giver).gases[i].name == receiver.gases[i].name,
        receiver.merged(giver).gases[i].moles == plus(
            receiver.gases[i].moles,
            moles_named(giver.gases, receiver.gases[i].name),
        ),
{
    lemma_into_distinct(receiver.gases, i, giver.gases);
}

/// The moles that the first `n` species of `gases` take from `given`,
/// together.
pub open spec fn into_sum(gases: Seq<GasView>, n: int, given: Seq<GasView>) -> int
    decreases n,
{
    if n <= 0 {
        0
    } else {
        into_sum(gases, n - 1, given) + moles_into(gases, n - 1, given)
    }
}

/// From no giver the species take nothing.
proof fn lemma_into_sum_of_none(gases: Seq<GasView>, n: int)
    ensures
        into_sum(gases, n, Seq::empty()) == 0,
    decreases n,
{
    if n > 0 {
        lemma_into_sum_of_none(gases, n - 1);
    }
}

/// One more species of the giver adds its moles to what the first `n`
/// species take, where one of them has its name.
proof fn lemma_into_sum_step(gases: Seq<GasView>, n: int, given: Seq<GasView>)
    requires
        given.len() > 0,
        0 <= n <= gases.len(),
    ensures
        into_sum(gases, n, given) == into_sum(gases, n, given.drop_last()) + match position(
            gases,
            given.last().name,
        ) {
            Some(p) => if p < n {
                given.last().moles as int
            } else {
                0
            },
            None => 0,
        },
    decreases n,
{
    lemma_position(gases, given.last().name);
    if n > 0 {
        lemma_into_sum_step(gases, n - 1, given);
        assert(moles_into(gases, n - 1, given) == moles_into(gases, n - 1, given.drop_last())
            + if position(gases, given.last().name) == Some(n - 1) {
            given.last().moles as int
        } else {
            0
        });
    }
}

/// No species takes more from a giver than the giver holds in all.
pub proof fn lemma_into_bounds(gases: Seq<GasView>, i: int, given: Seq<GasView>)
    ensures
        moles_into(gases, i, given) <= moles_sum(given),
    decreases given.len(),
{
    if given.len() > 0 {
        lemma_into_bounds(gases, i, given.drop_last());
    }
}

/// Where `gases` holds every name of `given`, its species take together
/// what `given` holds in all.
pub proof fn lemma_into_sum_is_total(gases: Seq<GasView>, given: Seq<GasView>)
    requires
        forall|j: int| 0 <= j < given.len() ==> position(gases, #[trigger] given[j].name) is Some,
    ensures
        into_sum(gases, gases.len() as int, given) == moles_sum(given),
    decreases given.len(),
{
    if given.len() == 0 {
        assert(given =~= Seq::empty());
        lemma_into_sum_of_none(gases, gases.len() as int);
    } else {
        let front = given.drop_last();
        assert forall|j: int| 0 <= j < front.len() implies position(
            gases,
            #[trigger] front[j].name,
        ) is Some by {
            assert(front[j] == given[j]);
        }
        lemma_into_sum_is_total(gases, front);
        lemma_into_sum_step(gases, gases.len() as int, given);
        assert(given.last() == given[given.len() - 1]);
        lemma_position(gases, given.last().name);
    }
}

/// Where the moles of both lists together fit a quantity, the first `n`
/// species hold after the taking what they held and what they took.
proof fn lemma_absorbed_sum(gases: Seq<GasView>, given: Seq<GasView>, n: int)
    requires
        0 <= n <= gases.len(),
        moles_sum(gases) + moles_sum(given) <= u64::MAX,
    ensures
        moles_sum(absorbed(gases, given).take(n)) == moles_sum(gases.take(n)) + into_sum(
            gases,
            n,
            given,
        ),
    decreases n,
{
    if n > 0 {
        let after = absorbed(gases, given);
        lemma_absorbed_sum(gases, given, n - 1);
        assert(after.take(n).drop_last() =~= after.take(n - 1));
        assert(gases.take(n).drop_last() =~= gases.take(n - 1));
        lemma_into_bounds(gases, n - 1, given);
        lemma_into_not_negative(gases, n - 1, given);
        lemma_moles_sum_bounds(gases, n - 1);
    }
}

/// A trace list that takes other species holds in all what both held,
/// where that fits a quantity.
pub proof fn lemma_joined_sum(list: Seq<GasView>, given: Seq<GasView>)
    requires
        moles_sum(list) + moles_sum(given) <= u64::MAX,
    ensures
        moles_sum(joined(list, given)) == moles_sum(list) + moles_sum(given),
    decreases given.len(),
{
    if given.len() > 0 {
        let before = joined(list, given.drop_last());
        lemma_sums_not_negative(given.drop_last());
        lemma_sums_not_negative(list);
        lemma_joined_sum(list, given.drop_last());
        lemma_position(before, given.last().name);
        match position(before, given.last().name) {
            Some(i) => {
                lemma_moles_sum_bounds(before, i);
                lemma_moles_sum_with_moles(
                    before,
                    i,
                    plus(before[i].moles, given.last().moles),
                );
            },
            None => {
                assert(joined_one(before, given.last()).drop_last() =~= before);
            },
        }
    }
}

/// A merge conserves moles: where neither mixture stands for more than one
/// cell, the receiver holds every main species of the giver, and the moles
/// of both together fit a quantity, the total moles after the merge are
/// those of the receiver and those of the giver.
pub proof fn lemma_merge_conserves_moles(receiver: MixtureView, giver: MixtureView)
    requires
        !receiver.rescales(giver),
        forall|j: int|
            0 <= j < giver.gases.len() ==> position(
                receiver.gases,
                #[trigger] giver.gases[j].name,
            ) is Some,
        moles_sum(receiver.gases) + moles_sum(receiver.trace_gases) + moles_sum(giver.gases)
            + moles_sum(giver.trace_gases) <= u64::MAX,
    ensures
        receiver.merged(giver).total_moles() == receiver.total_moles() + giver.total_moles(),
{
    lemma_sums_not_negative(receiver.gases);
    lemma_sums_not_negative(receiver.trace_gases);
    lemma_sums_not_negative(giver.gases);
    lemma_sums_not_negative(giver.trace_gases);
    let after = absorbed(receiver.gases, giver.gases);
    lemma_absorbed_sum(receiver.gases, giver.gases, receiver.gases.len() as int);
    assert(after.take(receiver.gases.len() as int) =~= after);
    assert(receiver.gases.take(receiver.gases.len() as int) =~= receiver.gases);
    lemma_into_sum_is_total(receiver.gases, giver.gases);
    lemma_joined_sum(receiver.trace_gases, giver.trace_gases);
}

/// From a mixture that stands for one cell, a removal takes no more of a
/// main species than is present, and what it leaves and what it returns of
/// the species are together what was there.
pub proof fn lemma_remove_conserves_species(mixture: MixtureView, amount: u64, i: int)
    requires
        mixture.group_multiplier == ONE,
        0 <= i < mixture.gases.len(),
    ensures
        mixture.removed(amount).gases[i].moles + mixture.remaining(amount).gases[i].moles
            == mixture.gases[i].moles,
{
    lemma_scaled_unit(mixture.taken(i, amount), ONE);
}

/// From a mixture that stands for one cell, a removal of the total moles
/// takes every main species but what the rounding to the quantum leaves:
/// less than half a quantum, and nothing of a species that holds a whole
/// number of quanta.
pub proof fn lemma_remove_total_empties_species(mixture: MixtureView, i: int)
    requires
        mixture.group_multiplier == ONE,
        0 <= i < mixture.gases.len(),
    ensures
        mixture.remaining(mixture.total_moles()).gases[i].moles < QUANTUM / 2,
        mixture.gases[i].moles % QUANTUM == 0 ==> mixture.remaining(
            mixture.total_moles(),
        ).gases[i].moles == 0,
{
    let total = mixture.total_moles();
    let moles = mixture.gases[i].moles;
    lemma_remove_conserves_species(mixture, total, i);
    lemma_sums_not_negative(mixture.gases);
    lemma_sums_not_negative(mixture.trace_gases);
    lemma_moles_sum_bounds(mixture.gases, i);
    if total > 0 {
        lemma_scaled_whole(moles, total);
    } else {
        lemma_scaled_unit(total, total);
    }
    lemma_quantized_near(moles);
}

/// From a mixture that stands for one cell, a removal of the total moles
/// returns a mixture that holds them but for what the rounding leaves: for
/// each main species less than half a quantum.
pub proof fn lemma_remove_total_returns_total(mixture: MixtureView)
    requires
        mixture.group_multiplier == ONE,
    ensures
        mixture.total_moles() - (QUANTUM / 2) * mixture.gases.len() <= mixture.removed(
            mixture.total_moles(),
        ).total_moles() <= mixture.total_moles(),
{
    let total = mixture.total_moles();
    let taken = mixture.removed(total).gases;
    assert forall|i: int| 0 <= i < taken.len() implies taken[i].moles <= (
    #[trigger] mixture.gases[i]).moles && mixture.gases[i].moles <= taken[i].moles + QUANTUM
        / 2 by {
        lemma_remove_conserves_species(mixture, total, i);
        lemma_remove_total_empties_species(mixture, i);
    }
    lemma_moles_sum_gap(mixture.gases, taken, (QUANTUM / 2) as int);
    lemma_sums_not_negative(taken);
    lemma_sums_not_negative(mixture.trace_gases);
}

impl GasMixture {
    /// Merges `giver` into this mixture. The main species of `giver` that
    /// this mixture does not hold are left out.
    pub fn merge(&mut self, giver: GasMixture)
        ensures
            final(self)@ == old(self)@.merged(giver@),
            old(self)@.wf() ==> final(self)@.wf(),
    {
        proof {
            if self@.wf() {
                lemma_exchange_keeps_wf(self@, giver@, 0);
            }
        }
        if abs_diff(self.temperature, giver.temperature) > MINIMUM_TEMPERATURE_DELTA_TO_CONSIDER {
            let self_heat_capacity = mul_div(self.heat_capacity_full(), self.group_multiplier, ONE);
            let giver_heat_capacity = mul_div(
                giver.heat_capacity_full(),
                giver.group_multiplier,
                ONE,
            );
            if self_heat_capacity != 0 || giver_heat_capacity != 0 {
                self.temperature = blend(
                    giver.temperature,
                    giver_heat_capacity,
                    self.temperature,
                    self_heat_capacity,
                    self_heat_capacity,
                    giver_heat_capacity,
                );
            }
        }
        let rescale = self.group_multiplier > ONE || giver.group_multiplier > ONE;
        absorb(
            &mut self.gases,
            &giver.gases,
            rescale,
            giver.group_multiplier,
            self.group_multiplier,
        );
        join(&mut self.trace_gases, &giver.trace_gases);
    }

    /// Merges `giver` into this mixture, as `merge` does.
    pub fn check_then_merge(&mut self, giver: GasMixture)
        ensures
            final(self)@ == old(self)@.merged(giver@),
            old(self)@.wf() ==> final(self)@.wf(),
    {
        self.merge(giver);
    }

    /// Takes `amount` moles out of the main species, of each its part by its
    /// part of the total, and returns them in a mixture that is otherwise a
    /// copy of this one. The trace species stay, and are copied.
    pub fn remove(&mut self, amount: u64) -> (r: GasMixture)
        ensures
            r@ == old(self)@.removed(amount),
            final(self)@ == old(self)@.remaining(amount),
            old(self)@.wf() ==> final(self)@.wf() && r@.wf(),
    {
        proof {
            if self@.wf() {
                lemma_exchange_keeps_wf(self@, self@, amount);
            }
        }
        let sum = self.total_moles();
        let mut removed = self.clone();
        let multiplier = self.group_multiplier;
        let ghost start = self@;
        let mut idx: usize = 0;
        while idx < self.gases.len()
            invariant
                idx <= self.gases.len(),
                start == old(self)@,
                sum == start.total_moles(),
                multiplier == start.group_multiplier,
                self.gases.len() == start.gases.len(),
                removed.gases.len() == start.gases.len(),
                self@ == (MixtureView { gases: self@.gases, ..start }),
                removed@ == (MixtureView { gases: removed@.gases, ..start }),
                forall|i: int|
                    0 <= i < idx ==> (#[trigger] self.gases[i])@ == start.remaining(
                        amount,
                    ).gases[i],
                forall|i: int| idx <= i < self.gases.len() ==> (#[trigger] self.gases[i])@ == start.gases[i],
                forall|i: int|
                    0 <= i < idx ==> (#[trigger] removed.gases[i])@ == start.removed(
                        amount,
                    ).gases[i],
                forall|i: int|
                    idx <= i < self.gases.len() ==> (#[trigger] removed.gases[i])@ == start.gases[i],
            decreases self.gases.len() - idx,
        {
            let moles = self.gases[idx].moles;
            let share = quantize(mul_div(moles, amount, sum));
            let taken = if share <= moles {
                share
            } else {
                moles
            };
            removed.gases[idx].moles = taken;
            self.gases[idx].moles = moles.saturating_sub(mul_div(taken, ONE, multiplier));
            idx += 1;
        }
        proof {
            assert(self@.gases =~= start.remaining(amount).gases);
            assert(removed@.gases =~= start.removed(amount).gases);
        }
        removed
    }
}

} // verus!
