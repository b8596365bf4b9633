//! One gas species as a mixture holds it.

use vstd::prelude::*;

verus! {

/// One species: its name, the amount present and its thermal property.
///
/// The name is the key by which a mixture finds the species. Amounts are
/// quantities, in millionths of a mole and of a unit of heat per mole.
#[derive(Debug)]
pub struct Gas {
    /// The key by which a mixture finds the species.
    pub name: String,
    /// The amount present.
    pub moles: u64,
    /// The amount that was present when it was last recorded.
    pub archived_moles: u64,
    /// The heat that one mole takes for one degree.
    pub specific_heat: u64,
}

/// What a `Gas` stands for in contracts.
pub ghost struct GasView {
    pub name: Seq<char>,
    pub moles: u64,
    pub archived_moles: u64,
    pub specific_heat: u64,
}

impl View for Gas {
    type V = GasView;

    open spec fn view(&self) -> GasView {
        GasView {
            name: self.name@,
            moles: self.moles,
            archived_moles: self.archived_moles,
            specific_heat: self.specific_heat,
        }
    }
}

impl GasView {
    /// A species of the given name with nothing present and no heat.
    pub open spec fn named(name: Seq<char>) -> GasView {
        GasView { name, moles: 0, archived_moles: 0, specific_heat: 0 }
    }
}

impl Clone for Gas {
    fn clone(&self) -> (r: Self)
        ensures
            r == *self,
    {
        Gas {
            name: self.name.clone(),
            moles: self.moles,
            archived_moles: self.archived_moles,
            specific_heat: self.specific_heat,
        }
    }
}

impl PartialEq for Gas {
    fn eq(&self, other: &Self) -> (r: bool) {
        self.name == other.name && self.moles == other.moles && self.archived_moles
            == other.archived_moles && self.specific_heat == other.specific_heat
    }
}

impl vstd::std_specs::cmp::PartialEqSpecImpl for Gas {
    open spec fn obeys_eq_spec() -> bool {
        true
    }

    open spec fn eq_spec(&self, other: &Self) -> bool {
        self@ == other@
    }
}

impl Default for Gas {
    fn default() -> (r: Self)
        ensures
            r@ == GasView::named(Seq::empty()),
    {
        Gas { name: String::new(), moles: 0, archived_moles: 0, specific_heat: 0 }
    }
}

impl Gas {
    /// A species without a name, with nothing present.
    pub fn new() -> (r: Self)
        ensures
            r@ == GasView::named(Seq::empty()),
    {
        Gas::default()
    }

    /// The same species under the name `name`.
    pub fn name(self, name: String) -> (r: Self)
        ensures
            r@ == (GasView { name: name@, ..self@ }),
    {
        let mut gas = self;
        gas.name = name;
        gas
    }

    /// The same species with `moles` present.
    pub fn moles(self, moles: u64) -> (r: Self)
        ensures
            r@ == (GasView { moles, ..self@ }),
    {
        let mut gas = self;
        gas.moles = moles;
        gas
    }

    /// The same species with `heat` as its specific heat.
    pub fn heat(self, heat: u64) -> (r: Self)
        ensures
            r@ == (GasView { specific_heat: heat, ..self@ }),
    {
        let mut gas = self;
        gas.specific_heat = heat;
        gas
    }

    /// The same species with nothing present and no heat.
    pub fn zero(self) -> (r: Self)
        ensures
            r@ == (GasView { moles: 0, specific_heat: 0, ..self@ }),
    {
        let mut gas = self;
        gas.moles = 0;
        gas.specific_heat = 0;
        gas
    }
}

} // verus!
