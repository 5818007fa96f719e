//! The epidemic model with one person per cell and waning immunity.

use crate::error::RuleConfigurationError;
use vstd::prelude::*;

verus! {

/// The unit of the chances of the rule: a chance of `MILLION` is certainty.
pub const MILLION: u32 = 1_000_000;

/// The chances that drive the rule, in millionths.
#[derive(Debug, Clone, Copy, PartialEq, Eq, Structural)]
pub struct SirRates {
    waning: u32,
    recovery: u32,
    infection: u32,
}

impl SirRates {
    /// The chance that a recovered person loses immunity in one generation.
    pub closed spec fn waning(self) -> u32 {
        self.waning
    }

    /// The chance that an infectious person recovers in one generation.
    pub closed spec fn recovery(self) -> u32 {
        self.recovery
    }

    /// The chance that one infectious neighbour infects a susceptible
    /// person in one generation.
    pub closed spec fn infection(self) -> u32 {
        self.infection
    }

    /// The rates with the chances `waning`, `recovery` and `infection`, in
    /// millionths. A chance above certainty is refused; of several, the
    /// first in this order is named.
    pub fn new(waning: u32, recovery: u32, infection: u32) -> (result: Result<
        Self,
        RuleConfigurationError,
    >)
        ensures
            match result {
                Ok(rates) => {
                    &&& waning <= MILLION && recovery <= MILLION && infection <= MILLION
                    &&& rates.waning() == waning
                    &&& rates.recovery() == recovery
                    &&& rates.infection() == infection
                },
                Err(RuleConfigurationError::InvalidProbability { millionths }) => millionths
                    > MILLION && millionths == if waning > MILLION {
                    waning
                } else if recovery > MILLION {
                    recovery
                } else {
                    infection
                },
                Err(_) => false,
            },
    {
        if waning > MILLION {
            Err(RuleConfigurationError::InvalidProbability { millionths: waning })
        } else if recovery > MILLION {
            Err(RuleConfigurationError::InvalidProbability { millionths: recovery })
        } else if infection > MILLION {
            Err(RuleConfigurationError::InvalidProbability { millionths: infection })
        } else {
            Ok(SirRates { waning, recovery, infection })
        }
    }
}

/// The state of a person: susceptible, infectious or recovered.
#[derive(Debug, Clone, Copy, PartialEq, Eq, Structural)]
pub enum SirState {
    /// Can catch the infection.
    Susceptible,
    /// Carries it.
    Infectious,
    /// Has had it and is immune for now.
    Recovered,
}

impl SirState {
    /// The number of infectious people among `cells`.
    pub open spec fn infectious_among(cells: Seq<Self>) -> nat {
        cells.filter(|c: Self| c is Infectious).len()
    }

    /// The state that follows `self` when the existing neighbours hold
    /// `neighbors` and chance has come up with `draw`, a number that is
    /// equally likely to be any from 0 to `MILLION - 1`.
    ///
    /// A recovered person turns susceptible with the chance of waning, an
    /// infectious one recovers with the chance of recovery, and a
    /// susceptible one is infected with the chance of infection times the
    /// number of infectious neighbours. Otherwise the state stays.
    pub open spec fn next_state(self, neighbors: Seq<Self>, rates: SirRates, draw: u32) -> Self {
        match self {
            SirState::Recovered => if draw < rates.waning() {
                SirState::Susceptible
            } else {
                SirState::Recovered
            },
            SirState::Infectious => if draw < rates.recovery() {
                SirState::Recovered
            } else {
                SirState::Infectious
            },
            SirState::Susceptible => if draw < rates.infection() * Self::infectious_among(
                neighbors,
            ) {
                SirState::Infectious
            } else {
                SirState::Susceptible
            },
        }
    }

    /// Counts the infectious people among `cells`.
    fn count_infectious(cells: &[Self]) -> (count: usize)
        ensures
            count == Self::infectious_among(cells@),
    {
        let mut count: usize = 0;
        let mut i: usize = 0;
        while i < cells.len()
            invariant
                i <= cells.len(),
                count <= i,
                count == Self::infectious_among(cells@.take(i as int)),
            decreases cells.len() - i,
        {
            proof {
                let infectious = |c: Self| c is Infectious;
                cells@.take(i as int).lemma_filter_len_push(infectious, cells@[i as int]);
                assert(cells@.take(i as int + 1) =~= cells@.take(i as int).push(cells@[i as int]));
            }
            if let SirState::Infectious = cells[i] {
                count = count + 1;
            }
            i = i + 1;
        }
        assert(cells@.take(cells.len() as int) =~= cells@);
        count
    }

    /// The state of the following generation for a person in state `self`
    /// whose existing neighbours hold `neighbor_cells`, where chance has
    /// come up with `draw`.
    pub fn step(&self, neighbor_cells: &[Self], rates: &SirRates, draw: u32) -> (next: Self)
        ensures
            next == self.next_state(neighbor_cells@, *rates, draw),
    {
        match self {
            SirState::Recovered => if draw < rates.waning {
                SirState::Susceptible
            } else {
                SirState::Recovered
            },
            SirState::Infectious => if draw < rates.recovery {
                SirState::Recovered
            } else {
                SirState::Infectious
            },
            SirState::Susceptible => {
                let around = Self::count_infectious(neighbor_cells);
                assert(rates.infection * around <= u32::MAX * usize::MAX) by (nonlinear_arith)
                    requires
                        rates.infection <= u32::MAX,
                        around <= usize::MAX,
                ;
                assert(u32::MAX * usize::MAX <= u128::MAX) by (nonlinear_arith)
                    requires
                        usize::MAX <= u64::MAX,
                ;
                if (draw as u128) < rates.infection as u128 * around as u128 {
                    SirState::Infectious
                } else {
                    SirState::Susceptible
                }
            },
        }
    }
}

} // verus!
