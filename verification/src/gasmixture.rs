//! The gas state of one cell.

use crate::constants::CELL_VOLUME;
use crate::gas::Gas;
use crate::gas::GasView;
use crate::ledger::add_heat;
use crate::ledger::add_moles;
use crate::ledger::distinct_names;
use crate::ledger::find;
use crate::ledger::heat_sum;
use crate::ledger::is_position;
use crate::ledger::lemma_position;
use crate::ledger::lemma_sums_not_negative;
use crate::ledger::moles_sum;
use crate::ledger::position;
use crate::ledger::saturate_wide;
use crate::ledger::species;
use crate::quantity::narrow;
use crate::quantity::saturate;
use crate::quantity::ONE;
use vstd::prelude::*;

verus! {

/// The gas of one cell: the main species, the trace species, one temperature
/// for all of them, and the copy of the state that `archive` took last.
#[derive(Debug)]
pub struct GasMixture {
    /// Raised for those who watch the cell; no operation here raises it.
    pub reaction_active: bool,
    /// Raised by `react` where the exotic reaction ran or fuel was burnt.
    pub combustion_active: bool,
    /// The main species, found by name.
    pub gases: Vec<Gas>,
    /// The main species as `archive` found them last.
    pub archived_gases: Vec<Gas>,
    /// The one temperature of all species, in millionths of a kelvin.
    pub temperature: u64,
    /// The temperature as `archive` found it last.
    pub archived_temp: u64,
    /// The volume that the mixture fills, in millionths of a litre.
    pub volume: u64,
    /// The number of cells that the mixture stands for, in millionths.
    pub group_multiplier: u64,
    /// The name of the image that shows the mixture.
    pub graphic: String,
    /// The graphic as `archive` found it last.
    pub archived_graphic: String,
    /// The species added while the world runs, found by name.
    pub trace_gases: Vec<Gas>,
    /// The fuel burnt in the last step, in millionths of a mole.
    pub fuel_burnt: u64,
}

/// What a search for a species returns: its index, if the mixture holds it.
pub struct GasResult(pub Option<usize>);

impl core::ops::Deref for GasResult {
    type Target = Option<usize>;

    fn deref(&self) -> (r: &Option<usize>)
        ensures
            *r == self.0,
    {
        &self.0
    }
}

/// What a `GasMixture` stands for in contracts.
pub ghost struct MixtureView {
    pub reaction_active: bool,
    pub combustion_active: bool,
    pub gases: Seq<GasView>,
    pub archived_gases: Seq<GasView>,
    pub temperature: u64,
    pub archived_temp: u64,
    pub volume: u64,
    pub group_multiplier: u64,
    pub graphic: Seq<char>,
    pub archived_graphic: Seq<char>,
    pub trace_gases: Seq<GasView>,
    pub fuel_burnt: u64,
}

impl View for GasMixture {
    type V = MixtureView;

    open spec fn view(&self) -> MixtureView {
        MixtureView {
            reaction_active: self.reaction_active,
            combustion_active: self.combustion_active,
            gases: species(self.gases@),
            archived_gases: species(self.archived_gases@),
            temperature: self.temperature,
            archived_temp: self.archived_temp,
            volume: self.volume,
            group_multiplier: self.group_multiplier,
            graphic: self.graphic@,
            archived_graphic: self.archived_graphic@,
            trace_gases: species(self.trace_gases@),
            fuel_burnt: self.fuel_burnt,
        }
    }
}

impl MixtureView {
    /// The mixture of a fresh cell: one unnamed species with nothing present,
    /// no trace species, the volume of a cell, standing for one cell.
    pub open spec fn fresh() -> MixtureView {
        MixtureView {
            reaction_active: false,
            combustion_active: false,
            gases: seq![GasView::named(Seq::empty())],
            archived_gases: seq![GasView::named(Seq::empty())],
            temperature: 0,
            archived_temp: 0,
            volume: CELL_VOLUME,
            group_multiplier: ONE,
            graphic: Seq::empty(),
            archived_graphic: Seq::empty(),
            trace_gases: Seq::empty(),
            fuel_burnt: 0,
        }
    }

    /// Whether no two main species and no two trace species have the same
    /// name.
    pub open spec fn wf(self) -> bool {
        distinct_names(self.gases) && distinct_names(self.trace_gases)
    }

    /// The moles of the main and the trace species together.
    pub open spec fn total_moles(self) -> u64 {
        saturate(moles_sum(self.gases) + moles_sum(self.trace_gases))
    }

    /// The moles of each main and trace species times its specific heat,
    /// together, rounded down.
    pub open spec fn heat_capacity(self) -> u64 {
        saturate((heat_sum(self.gases) + heat_sum(self.trace_gases)) / (ONE as int))
    }

    /// The mixture after its gases, temperature and graphic were copied into
    /// the archive.
    pub open spec fn archived(self) -> MixtureView {
        MixtureView {
            archived_gases: self.gases,
            archived_temp: self.temperature,
            archived_graphic: self.graphic,
            ..self
        }
    }

    /// The mixture with nothing present: every main species without moles
    /// and without heat, and no trace species.
    pub open spec fn zeroed(self) -> MixtureView {
        MixtureView {
            gases: Seq::new(
                self.gases.len(),
                |i: int| GasView { moles: 0, specific_heat: 0, ..self.gases[i] },
            ),
            trace_gases: Seq::empty(),
            ..self
        }
    }

    /// The mixture that also tracks the trace species `name`: unchanged where
    /// it did, else with that species added last, nothing of it present.
    pub open spec fn with_trace(self, name: Seq<char>) -> MixtureView {
        if position(self.trace_gases, name) is Some {
            self
        } else {
            MixtureView { trace_gases: self.trace_gases.push(GasView::named(name)), ..self }
        }
    }

    /// The mixture that no longer tracks the trace species `name`: unchanged
    /// where it did not.
    pub open spec fn without_trace(self, name: Seq<char>) -> MixtureView {
        match position(self.trace_gases, name) {
            Some(i) => MixtureView { trace_gases: self.trace_gases.remove(i), ..self },
            None => self,
        }
    }
}

/// Archiving leaves the gases, the temperature and the graphic as they are,
/// and archiving twice in a row gives what archiving once gives.
pub proof fn lemma_archive_is_idempotent(mixture: MixtureView)
    ensures
        mixture.archived().gases == mixture.gases,
        mixture.archived().temperature == mixture.temperature,
        mixture.archived().graphic == mixture.graphic,
        mixture.archived().archived() == mixture.archived(),
{
}

/// Tracking one more trace species, and tracking one less, keep the names
/// of a mixture distinct.
pub proof fn lemma_trace_changes_keep_wf(mixture: MixtureView, name: Seq<char>)
    requires
        mixture.wf(),
    ensures
        mixture.with_trace(name).wf(),
        mixture.without_trace(name).wf(),
{
    lemma_position(mixture.trace_gases, name);
}

impl Clone for GasMixture {
    fn clone(&self) -> (r: Self)
        ensures
            r@ == self@,
    {
        let r = GasMixture {
            reaction_active: self.reaction_active,
            combustion_active: self.combustion_active,
            gases: self.gases.clone(),
            archived_gases: self.archived_gases.clone(),
            temperature: self.temperature,
            archived_temp: self.archived_temp,
            volume: self.volume,
            group_multiplier: self.group_multiplier,
            graphic: self.graphic.clone(),
            archived_graphic: self.archived_graphic.clone(),
            trace_gases: self.trace_gases.clone(),
            fuel_burnt: self.fuel_burnt,
        };
        proof {
            assert(r@.gases =~= self@.gases);
            assert(r@.archived_gases =~= self@.archived_gases);
            assert(r@.trace_gases =~= self@.trace_gases);
        }
        r
    }
}

impl Default for GasMixture {
    fn default() -> (r: Self)
        ensures
            r@ == MixtureView::fresh(),
    {
        let r = GasMixture {
            reaction_active: false,
            combustion_active: false,
            gases: vec![Gas::default()],
            archived_gases: vec![Gas::default()],
            temperature: 0,
            archived_temp: 0,
            volume: CELL_VOLUME,
            group_multiplier: ONE,
            graphic: String::new(),
            archived_graphic: String::new(),
            trace_gases: Vec::new(),
            fuel_burnt: 0,
        };
        proof {
            assert(r@.gases =~= MixtureView::fresh().gases);
            assert(r@.archived_gases =~= MixtureView::fresh().archived_gases);
            assert(r@.trace_gases =~= MixtureView::fresh().trace_gases);
        }
        r
    }
}

/// Takes the moles and the heat from every species of `gases`.
fn zero_all(gases: &mut Vec<Gas>)
    ensures
        species(final(gases)@) == Seq::new(
            old(gases).len() as nat,
            |i: int| GasView { moles: 0, specific_heat: 0, ..old(gases)[i]@ },
        ),
{
    let mut i: usize = 0;
    while i < gases.len()
        invariant
            i <= gases.len(),
            gases.len() == old(gases).len(),
            forall|j: int| 0 <= j < i ==> gases[j]@ == (GasView { moles: 0, specific_heat: 0, ..old(gases)[j]@ }),
            forall|j: int| i <= j < gases.len() ==> gases[j] == old(gases)[j],
        decreases gases.len() - i,
    {
        gases[i].moles = 0;
        gases[i].specific_heat = 0;
        i += 1;
    }
    proof {
        assert(species(gases@) =~= Seq::new(
            old(gases).len() as nat,
            |i: int| GasView { moles: 0, specific_heat: 0, ..old(gases)[i]@ },
        ));
    }
}

impl GasMixture {
    /// The mixture of a fresh cell.
    pub fn new() -> (r: Self)
        ensures
            r@ == MixtureView::fresh(),
            r@.wf(),
    {
        GasMixture::default()
    }

    /// The same mixture with `gas` as its main species.
    pub fn gases(self, gas: Vec<Gas>) -> (r: Self)
        ensures
            r@ == (MixtureView { gases: species(gas@), ..self@ }),
    {
        let mut mixture = self;
        mixture.gases = gas;
        mixture
    }

    /// The same mixture at `temperature`.
    pub fn temperature(self, temperature: u64) -> (r: Self)
        ensures
            r@ == (MixtureView { temperature, ..self@ }),
    {
        let mut mixture = self;
        mixture.temperature = temperature;
        mixture
    }

    /// The same mixture in the volume `volume`.
    pub fn volume(self, volume: u64) -> (r: Self)
        ensures
            r@ == (MixtureView { volume, ..self@ }),
    {
        let mut mixture = self;
        mixture.volume = volume;
        mixture
    }

    /// The same mixture standing for `multiplier` cells.
    pub fn group_multiplier(self, multiplier: u64) -> (r: Self)
        ensures
            r@ == (MixtureView { group_multiplier: multiplier, ..self@ }),
    {
        let mut mixture = self;
        mixture.group_multiplier = multiplier;
        mixture
    }

    /// The same mixture shown as `graphic`.
    pub fn graphic(self, graphic: String) -> (r: Self)
        ensures
            r@ == (MixtureView { graphic: graphic@, ..self@ }),
    {
        let mut mixture = self;
        mixture.graphic = graphic;
        mixture
    }

    /// The same mixture with `gases` as its trace species.
    pub fn trace_gases(self, gases: Vec<Gas>) -> (r: Self)
        ensures
            r@ == (MixtureView { trace_gases: species(gases@), ..self@ }),
    {
        let mut mixture = self;
        mixture.trace_gases = gases;
        mixture
    }

    /// The same mixture with `amount` of fuel burnt.
    pub fn fuel_burnt(self, amount: u64) -> (r: Self)
        ensures
            r@ == (MixtureView { fuel_burnt: amount, ..self@ }),
    {
        let mut mixture = self;
        mixture.fuel_burnt = amount;
        mixture
    }

    /// Copies the main species into the archive.
    fn archive_gas(&mut self)
        ensures
            final(self)@ == (MixtureView { archived_gases: old(self)@.gases, ..old(self)@ }),
    {
        self.archived_gases = self.gases.clone();
        proof {
            assert(self@.archived_gases =~= old(self)@.gases);
        }
    }

    /// Copies the temperature into the archive.
    fn archive_temperature(&mut self)
        ensures
            final(self)@ == (MixtureView { archived_temp: old(self)@.temperature, ..old(self)@ }),
    {
        self.archived_temp = self.temperature;
    }

    /// Copies the graphic into the archive.
    fn archive_graphic(&mut self)
        ensures
            final(self)@ == (MixtureView { archived_graphic: old(self)@.graphic, ..old(self)@ }),
    {
        self.archived_graphic = self.graphic.clone();
    }

    /// Copies the gases, the temperature and the graphic into the archive, and
    /// leaves them as they are.
    pub fn archive(&mut self)
        ensures
            final(self)@ == old(self)@.archived(),
            old(self)@.wf() ==> final(self)@.wf(),
    {
        self.archive_gas();
        self.archive_temperature();
        self.archive_graphic();
    }

    /// Empties the mixture: every main species loses its moles and its heat,
    /// and the trace species go.
    pub fn zero(&mut self)
        ensures
            final(self)@ == old(self)@.zeroed(),
            old(self)@.wf() ==> final(self)@.wf(),
    {
        zero_all(&mut self.gases);
        self.clear_trace_gases();
        proof {
            assert(self@.gases =~= old(self)@.zeroed().gases);
        }
    }

    /// Drops every trace species.
    pub fn clear_trace_gases(&mut self)
        ensures
            final(self)@ == (MixtureView { trace_gases: Seq::empty(), ..old(self)@ }),
            old(self)@.wf() ==> final(self)@.wf(),
    {
        self.trace_gases.clear();
        proof {
            assert(self@.trace_gases =~= Seq::empty());
        }
    }

    /// Stops tracking the trace species that has the name of `trace_gas`.
    /// Where the mixture tracks none of that name, nothing changes.
    pub fn remove_trace_gas(&mut self, trace_gas: &Gas)
        ensures
            final(self)@ == old(self)@.without_trace(trace_gas@.name),
            old(self)@.wf() ==> final(self)@.wf(),
    {
        proof {
            if self@.wf() {
                lemma_trace_changes_keep_wf(self@, trace_gas@.name);
            }
        }
        let found = self.has_trace_gas(trace_gas.name.clone());
        if let Some(idx) = found {
            proof {
                lemma_position(self@.trace_gases, trace_gas@.name);
            }
            self.trace_gases.remove(idx);
            proof {
                assert(self@.trace_gases =~= old(self)@.trace_gases.remove(idx as int));
            }
        }
    }

    /// Starts tracking the trace species `name`, with nothing of it present.
    /// Where the mixture tracks it already, nothing changes.
    pub fn add_trace_gas_by_name(&mut self, name: String)
        ensures
            final(self)@ == old(self)@.with_trace(name@),
            old(self)@.wf() ==> final(self)@.wf(),
    {
        proof {
            if self@.wf() {
                lemma_trace_changes_keep_wf(self@, name@);
            }
        }
        let found = self.has_trace_gas(name.clone());
        if found.is_none() {
            let trace_gas = Gas::new().name(name);
            self.trace_gases.push(trace_gas);
            proof {
                assert(self@.trace_gases =~= old(self)@.trace_gases.push(GasView::named(name@)));
            }
        }
    }

    /// A copy of the trace species `name`, if the mixture tracks it.
    pub fn get_trace_gas_by_name(&self, name: String) -> (r: Option<Gas>)
        ensures
            match position(self@.trace_gases, name@) {
                Some(i) => r is Some && r.unwrap()@ == self@.trace_gases[i],
                None => r is None,
            },
    {
        let found = self.has_trace_gas(name);
        if let Some(idx) = found {
            proof {
                lemma_position(self@.trace_gases, name@);
            }
            Some(self.trace_gases[idx].clone())
        } else {
            None
        }
    }

    /// The moles of the main and the trace species together.
    pub fn total_moles(&self) -> (r: u64)
        ensures
            r == self@.total_moles(),
    {
        proof {
            lemma_sums_not_negative(self@.gases);
            lemma_sums_not_negative(self@.trace_gases);
        }
        let main = add_moles(&self.gases, 0);
        add_moles(&self.trace_gases, main)
    }

    /// The heat that one degree takes: the moles of each main and trace
    /// species times its specific heat, together.
    pub fn heat_capacity_full(&self) -> (r: u64)
        ensures
            r == self@.heat_capacity(),
    {
        proof {
            lemma_sums_not_negative(self@.gases);
            lemma_sums_not_negative(self@.trace_gases);
        }
        let main = add_heat(&self.gases, 0);
        let all = add_heat(&self.trace_gases, main);
        proof {
            let heat = heat_sum(self@.gases) + heat_sum(self@.trace_gases);
            assert(all == saturate_wide(heat));
            if heat >= u128::MAX {
                assert(all / (ONE as u128) > u64::MAX);
                assert(heat / (ONE as int) >= u128::MAX / (ONE as u128));
            }
        }
        narrow(all / (ONE as u128))
    }

    /// The index of the main species `name`: the first of that name.
    pub fn has_gas(&self, name: String) -> (r: Option<usize>)
        ensures
            is_position(r, self@.gases, name@),
    {
        find(&self.gases, &name)
    }

    /// The index of the trace species `name`: the first of that name.
    pub fn has_trace_gas(&self, name: String) -> (r: Option<usize>)
        ensures
            is_position(r, self@.trace_gases, name@),
    {
        find(&self.trace_gases, &name)
    }
}

} // verus!
