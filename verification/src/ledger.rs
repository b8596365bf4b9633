//! Lists of species: finding one by name, and what a list holds in all.

use crate::gas::Gas;
use crate::gas::GasView;
use crate::quantity::saturate;
use vstd::prelude::*;

verus! {

/// The species of a list as contracts see them.
pub open spec fn species(gases: Seq<Gas>) -> Seq<GasView> {
    Seq::new(gases.len(), |i: int| gases[i]@)
}

/// The index of the first species of `gases` named `name`.
pub open spec fn position(gases: Seq<GasView>, name: Seq<char>) -> Option<int>
    decreases gases.len(),
{
    if gases.len() == 0 {
        None
    } else {
        match position(gases.drop_last(), name) {
            Some(i) => Some(i),
            None => if gases.last().name == name {
                Some(gases.len() - 1)
            } else {
                None
            },
        }
    }
}

/// The moles of all species of `gases` together.
pub open spec fn moles_sum(gases: Seq<GasView>) -> int
    decreases gases.len(),
{
    if gases.len() == 0 {
        0
    } else {
        moles_sum(gases.drop_last()) + gases.last().moles
    }
}

/// The moles of each species of `gases` times its specific heat, together.
/// Each product counts millionths of a millionth.
pub open spec fn heat_sum(gases: Seq<GasView>) -> int
    decreases gases.len(),
{
    if gases.len() == 0 {
        0
    } else {
        heat_sum(gases.drop_last()) + gases.last().moles * gases.last().specific_heat
    }
}

/// `position` finds the first species of that name, or none where no species
/// has it.
pub proof fn lemma_position(gases: Seq<GasView>, name: Seq<char>)
    ensures
        match position(gases, name) {
            Some(i) => 0 <= i < gases.len() && gases[i].name == name && forall|j: int|
                0 <= j < i ==> gases[j].name != name,
            None => forall|j: int| 0 <= j < gases.len() ==> gases[j].name != name,
        },
    decreases gases.len(),
{
    if gases.len() > 0 {
        let front = gases.drop_last();
        lemma_position(front, name);
        assert forall|j: int| 0 <= j < front.len() implies front[j] == gases[j] by {}
        match position(front, name) {
            Some(i) => {
                assert(gases[i] == front[i]);
                assert forall|j: int| 0 <= j < i implies gases[j].name != name by {
                    assert(front[j] == gases[j]);
                }
            },
            None => {
                assert forall|j: int| 0 <= j < gases.len() - 1 implies gases[j].name != name by {
                    assert(front[j] == gases[j]);
                }
            },
        }
    }
}

/// The first index at which a name stands is its `position`.
pub proof fn lemma_position_is_first(gases: Seq<GasView>, name: Seq<char>, i: int)
    requires
        0 <= i < gases.len(),
        gases[i].name == name,
        forall|j: int| 0 <= j < i ==> gases[j].name != name,
    ensures
        position(gases, name) == Some(i),
{
    lemma_position(gases, name);
}

/// No list holds less than nothing.
pub proof fn lemma_sums_not_negative(gases: Seq<GasView>)
    ensures
        0 <= moles_sum(gases),
        0 <= heat_sum(gases),
    decreases gases.len(),
{
    if gases.len() > 0 {
        lemma_sums_not_negative(gases.drop_last());
        assert(0 <= gases.last().moles * gases.last().specific_heat) by (nonlinear_arith);
    }
}

/// Two lists with the same names in the same places find every name at the
/// same index.
pub proof fn lemma_position_by_names(a: Seq<GasView>, b: Seq<GasView>, name: Seq<char>)
    requires
        a.len() == b.len(),
        forall|i: int| 0 <= i < a.len() ==> a[i].name == b[i].name,
    ensures
        position(a, name) == position(b, name),
    decreases a.len(),
{
    if a.len() > 0 {
        lemma_position_by_names(a.drop_last(), b.drop_last(), name);
    }
}

/// Whether no two species of `gases` have the same name.
pub open spec fn distinct_names(gases: Seq<GasView>) -> bool {
    forall|i: int, j: int| 0 <= i < j < gases.len() ==> gases[i].name != gases[j].name
}

/// The moles of the first species of `gases` named `name`, zero where there
/// is none.
pub open spec fn moles_named(gases: Seq<GasView>, name: Seq<char>) -> u64 {
    match position(gases, name) {
        Some(i) => gases[i].moles,
        None => 0,
    }
}

/// Whether `a` and `b` hold the same names in the same places.
pub open spec fn same_names(a: Seq<GasView>, b: Seq<GasView>) -> bool {
    a.len() == b.len() && forall|i: int| 0 <= i < a.len() ==> a[i].name == b[i].name
}

/// A list with the names of a list of distinct names has distinct names.
pub proof fn lemma_same_names_distinct(a: Seq<GasView>, b: Seq<GasView>)
    requires
        same_names(a, b),
        distinct_names(a),
    ensures
        distinct_names(b),
{
}

/// In a list of distinct names every species is the one that its name finds.
pub proof fn lemma_distinct_position(gases: Seq<GasView>, i: int)
    requires
        distinct_names(gases),
        0 <= i < gases.len(),
    ensures
        position(gases, gases[i].name) == Some(i),
{
    lemma_position_is_first(gases, gases[i].name, i);
}

/// Two lists that hold the same moles in the same places hold the same
/// moles in all.
pub proof fn lemma_moles_sum_by_moles(a: Seq<GasView>, b: Seq<GasView>)
    requires
        a.len() == b.len(),
        forall|i: int| 0 <= i < a.len() ==> a[i].moles == b[i].moles,
    ensures
        moles_sum(a) == moles_sum(b),
    decreases a.len(),
{
    if a.len() > 0 {
        lemma_moles_sum_by_moles(a.drop_last(), b.drop_last());
    }
}

/// Where each species of `a` holds at least what it holds in `b`, and at
/// most `gap` more, `a` holds in all at least what `b` holds, and at most
/// `gap` more for each species.
pub proof fn lemma_moles_sum_gap(a: Seq<GasView>, b: Seq<GasView>, gap: int)
    requires
        a.len() == b.len(),
        forall|i: int|
            0 <= i < a.len() ==> b[i].moles <= (#[trigger] a[i]).moles && a[i].moles <= b[i].moles
                + gap,
    ensures
        moles_sum(b) <= moles_sum(a) <= moles_sum(b) + gap * a.len(),
    decreases a.len(),
{
    let n = a.len() as int;
    if n > 0 {
        let front = a.drop_last();
        assert forall|i: int| 0 <= i < front.len() implies b.drop_last()[i].moles <= (
        #[trigger] front[i]).moles && front[i].moles <= b.drop_last()[i].moles + gap by {
            assert(front[i] == a[i]);
        }
        lemma_moles_sum_gap(front, b.drop_last(), gap);
        assert(a.last() == a[n - 1]);
        assert(gap * n == gap * (n - 1) + gap) by (nonlinear_arith);
    } else {
        assert(gap * n == 0) by (nonlinear_arith)
            requires
                n == 0,
        ;
    }
}

/// A list with other moles of one species holds in all what it held, less
/// the old moles of that species, and the new ones.
pub proof fn lemma_moles_sum_with_moles(gases: Seq<GasView>, i: int, moles: u64)
    requires
        0 <= i < gases.len(),
    ensures
        moles_sum(with_moles(gases, i, moles)) == moles_sum(gases) - gases[i].moles + moles,
    decreases gases.len(),
{
    let changed = with_moles(gases, i, moles);
    if i < gases.len() - 1 {
        assert(changed.drop_last() =~= with_moles(gases.drop_last(), i, moles));
        lemma_moles_sum_with_moles(gases.drop_last(), i, moles);
    } else {
        assert(changed.drop_last() =~= gases.drop_last());
    }
}

/// No species holds more than the list holds in all.
pub proof fn lemma_moles_sum_bounds(gases: Seq<GasView>, i: int)
    requires
        0 <= i < gases.len(),
    ensures
        gases[i].moles <= moles_sum(gases),
    decreases gases.len(),
{
    lemma_sums_not_negative(gases.drop_last());
    if i < gases.len() - 1 {
        lemma_moles_sum_bounds(gases.drop_last(), i);
    }
}

/// Whether `found` is what a search of `gases` for `name` returns.
pub open spec fn is_position(found: Option<usize>, gases: Seq<GasView>, name: Seq<char>) -> bool {
    match found {
        Some(i) => position(gases, name) == Some(i as int),
        None => position(gases, name) is None,
    }
}

/// Searches `gases` for the first species named `name`.
pub fn find(gases: &Vec<Gas>, name: &String) -> (r: Option<usize>)
    ensures
        is_position(r, species(gases@), name@),
{
    let mut i: usize = 0;
    while i < gases.len()
        invariant
            i <= gases.len(),
            forall|j: int| 0 <= j < i ==> species(gases@)[j].name != name@,
        decreases gases.len() - i,
    {
        if gases[i].name == *name {
            proof {
                lemma_position_is_first(species(gases@), name@, i as int);
            }
            return Some(i);
        }
        i += 1;
    }
    proof {
        lemma_position(species(gases@), name@);
    }
    None
}

/// The list `gases` with `moles` of its species `i` present.
pub open spec fn with_moles(gases: Seq<GasView>, i: int, moles: u64) -> Seq<GasView> {
    gases.update(i, GasView { moles, ..gases[i] })
}

/// Sets the moles of the species at index `i`.
pub fn set_moles(gases: &mut Vec<Gas>, i: usize, moles: u64)
    requires
        i < old(gases).len(),
    ensures
        final(gases).len() == old(gases).len(),
        species(final(gases)@) == with_moles(species(old(gases)@), i as int, moles),
{
    gases[i].moles = moles;
    proof {
        assert(species(gases@) =~= with_moles(species(old(gases)@), i as int, moles));
    }
}

/// `total` and the moles of `gases`, as a quantity.
pub fn add_moles(gases: &Vec<Gas>, total: u64) -> (r: u64)
    ensures
        r == saturate(total + moles_sum(species(gases@))),
{
    let ghost all = species(gases@);
    let mut acc: u64 = total;
    let mut i: usize = 0;
    while i < gases.len()
        invariant
            i <= gases.len(),
            all == species(gases@),
            acc == saturate(total + moles_sum(all.take(i as int))),
        decreases gases.len() - i,
    {
        proof {
            lemma_sums_not_negative(all.take(i as int));
            assert(all.take(i + 1).drop_last() =~= all.take(i as int));
        }
        acc = acc.saturating_add(gases[i].moles);
        i += 1;
    }
    proof {
        assert(all.take(gases.len() as int) =~= all);
    }
    acc
}

/// The largest wide value, or `x` where it is smaller.
pub open spec fn saturate_wide(x: int) -> u128 {
    if x <= 0 {
        0
    } else if x >= u128::MAX {
        u128::MAX
    } else {
        x as u128
    }
}

/// `total` and the heat of `gases`, held at the largest wide value.
pub fn add_heat(gases: &Vec<Gas>, total: u128) -> (r: u128)
    ensures
        r == saturate_wide(total + heat_sum(species(gases@))),
{
    let ghost all = species(gases@);
    let mut acc: u128 = total;
    let mut i: usize = 0;
    while i < gases.len()
        invariant
            i <= gases.len(),
            all == species(gases@),
            acc == saturate_wide(total + heat_sum(all.take(i as int))),
        decreases gases.len() - i,
    {
        let moles: u64 = gases[i].moles;
        let heat: u64 = gases[i].specific_heat;
        proof {
            lemma_sums_not_negative(all.take(i as int));
            assert(all.take(i + 1).drop_last() =~= all.take(i as int));
            assert(0 <= moles * heat <= 0xffff_ffff_ffff_ffff * 0xffff_ffff_ffff_ffff)
                by (nonlinear_arith)
                requires
                    0 <= moles <= 0xffff_ffff_ffff_ffff,
                    0 <= heat <= 0xffff_ffff_ffff_ffff,
            ;
        }
        acc = acc.saturating_add((moles as u128) * (heat as u128));
        i += 1;
    }
    proof {
        assert(all.take(gases.len() as int) =~= all);
    }
    acc
}

} // verus!
