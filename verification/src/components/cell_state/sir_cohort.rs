//! The compartmental epidemic model: each cell holds a whole cohort.

use vstd::prelude::*;

verus! {

/// A cohort of people in one cell, parted into the susceptible, the
/// infectious and the recovered. From one generation to the next people
/// change compartment; nobody joins or leaves the cohort.
#[derive(Debug, Clone, Copy, PartialEq, Eq, Structural)]
pub struct SirCohort {
    /// Those who can catch the infection.
    pub susceptible: u64,
    /// Those who carry it.
    pub infectious: u64,
    /// Those who have had it and are immune for now.
    pub recovered: u64,
}

/// How many people change compartment in one generation. The numbers are
/// drawn at random by the caller: each is a binomial sample over the
/// compartment that the people leave.
#[derive(Debug, Clone, Copy, PartialEq, Eq, Structural)]
pub struct Draws {
    /// Infectious people who recover.
    pub recoveries: u64,
    /// Recovered people whose immunity wanes, so that they are susceptible
    /// again.
    pub waned: u64,
    /// Susceptible people who catch the infection.
    pub infections: u64,
}

impl SirCohort {
    /// The size of the cohort.
    pub open spec fn population(self) -> nat {
        (self.susceptible + self.infectious + self.recovered) as nat
    }

    /// The number of infectious people in all of `cells`.
    pub open spec fn infectious_in(cells: Seq<Self>) -> nat
        decreases cells.len(),
    {
        if cells.len() == 0 {
            0
        } else {
            Self::infectious_in(cells.drop_last()) + cells.last().infectious as nat
        }
    }

    /// The numerator of the chance that a susceptible person catches the
    /// infection in one generation, with `around` infectious people in the
    /// neighbouring cells. The chance is nine tenths of the weighted mix of
    /// half the cell's own infectious people and a sixteenth of those
    /// around, over the size of the cohort; `pressure` over `capacity` is
    /// that number with the fractions cleared.
    pub open spec fn pressure(self, around: nat) -> nat {
        9 * (8 * self.infectious as nat + around)
    }

    /// The denominator that goes with `pressure`.
    pub open spec fn capacity(self) -> nat {
        160 * self.population()
    }

    /// Whether `draws` can be taken out of the compartments of `self`, and
    /// the cohort after them can still be counted in `u64`.
    pub open spec fn admits(self, draws: Draws) -> bool {
        &&& draws.recoveries <= self.infectious
        &&& draws.waned <= self.recovered
        &&& draws.infections <= self.susceptible
        &&& self.susceptible + draws.waned - draws.infections <= u64::MAX
        &&& self.infectious - draws.recoveries + draws.infections <= u64::MAX
        &&& self.recovered + draws.recoveries - draws.waned <= u64::MAX
    }

    /// The cohort after the people of `draws` have changed compartment.
    pub open spec fn after(self, draws: Draws) -> Self {
        SirCohort {
            susceptible: (self.susceptible + draws.waned - draws.infections) as u64,
            infectious: (self.infectious - draws.recoveries + draws.infections) as u64,
            recovered: (self.recovered + draws.recoveries - draws.waned) as u64,
        }
    }

    /// The size of the cohort.
    pub fn total(&self) -> (total: u128)
        ensures
            total == self.population(),
    {
        self.susceptible as u128 + self.infectious as u128 + self.recovered as u128
    }

    /// Adds up the infectious people of the neighbouring cells.
    pub fn neighbor_infectious(neighbor_cells: &[Self]) -> (around: u128)
        ensures
            around == Self::infectious_in(neighbor_cells@),
    {
        let mut around: u128 = 0;
        let mut i: usize = 0;
        while i < neighbor_cells.len()
            invariant
                i <= neighbor_cells.len(),
                around == Self::infectious_in(neighbor_cells@.take(i as int)),
                around <= i * u64::MAX,
            decreases neighbor_cells.len() - i,
        {
            proof {
                assert(neighbor_cells@.take(i as int + 1).drop_last() =~= neighbor_cells@.take(
                    i as int,
                ));
                assert((i + 1) * u64::MAX <= u64::MAX * u64::MAX) by (nonlinear_arith)
                    requires
                        i + 1 <= u64::MAX,
                ;
                assert((i + 1) * u64::MAX == i * u64::MAX + u64::MAX) by (nonlinear_arith);
                assert(u64::MAX * u64::MAX < u128::MAX) by (nonlinear_arith);
            }
            around = around + neighbor_cells[i].infectious as u128;
            i = i + 1;
        }
        assert(neighbor_cells@.take(neighbor_cells.len() as int) =~= neighbor_cells@);
        around
    }

    /// The chance that a susceptible person catches the infection in one
    /// generation, as a numerator and a denominator that is not 0.
    ///
    /// In an empty cohort nobody can, so the chance is 0. Where the
    /// infectious people around are so many that the formula gives more
    /// than 1, there is no such chance and nothing is handed back: the cell
    /// cannot be updated in this generation.
    pub fn infection_odds(&self, around: u128) -> (odds: Option<(u128, u128)>)
        ensures
            odds == if self.population() == 0 {
                Some((0u128, 1u128))
            } else if self.pressure(around as nat) <= self.capacity() {
                Some((self.pressure(around as nat) as u128, self.capacity() as u128))
            } else {
                None
            },
    {
        let total = self.total();
        if total == 0 {
            return Some((0, 1));
        }
        let capacity: u128 = 160 * total;
        if around > capacity {
            return None;
        }
        let pressure: u128 = 9 * (8 * (self.infectious as u128) + around);
        if pressure <= capacity {
            Some((pressure, capacity))
        } else {
            None
        }
    }

    /// Moves the people of `draws` from compartment to compartment. The
    /// size of the cohort stays what it was.
    ///
    /// Draws that ask for more people than a compartment holds are no
    /// binomial samples over it, and nothing is handed back for them; nor
    /// where a compartment would outgrow `u64`.
    pub fn apply(&self, draws: Draws) -> (next: Option<Self>)
        ensures
            next == if self.admits(draws) {
                Some(self.after(draws))
            } else {
                None
            },
            next matches Some(cohort) ==> cohort.population() == self.population(),
    {
        if draws.recoveries > self.infectious || draws.waned > self.recovered || draws.infections
            > self.susceptible {
            return None;
        }
        let susceptible: u128 = self.susceptible as u128 + draws.waned as u128
            - draws.infections as u128;
        let infectious: u128 = self.infectious as u128 - draws.recoveries as u128
            + draws.infections as u128;
        let recovered: u128 = self.recovered as u128 + draws.recoveries as u128
            - draws.waned as u128;
        if susceptible > u64::MAX as u128 || infectious > u64::MAX as u128 || recovered
            > u64::MAX as u128 {
            return None;
        }
        Some(
            SirCohort {
                susceptible: susceptible as u64,
                infectious: infectious as u64,
                recovered: recovered as u64,
            },
        )
    }
}

} // verus!
