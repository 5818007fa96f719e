//! Batching: how the population is shared out over the ticks of a round.

use vstd::prelude::*;

verus! {

/// How many cells get their turn in one tick.
///
/// A round is the run of ticks in which every cell gets its turn once. The
/// population is cut into as many consecutive batches as the round has
/// ticks, and tick number `turn` of a round updates batch number `turn`.
#[derive(Debug, Clone, Copy, PartialEq, Eq, Structural)]
pub enum BatchPolicy {
    /// Every cell in every tick.
    Off,
    /// One of `parts` shares of the population in each tick. The shares
    /// differ in size by one cell at most.
    FixedFraction { parts: usize },
    /// `count` cells in each tick; the last batch of a round takes what is
    /// left.
    FixedCount { count: usize },
}

impl BatchPolicy {
    /// Whether the policy lets a round end: there is at least one share, and
    /// a batch holds at least one cell.
    pub open spec fn valid(self) -> bool {
        match self {
            BatchPolicy::Off => true,
            BatchPolicy::FixedFraction { parts } => parts >= 1,
            BatchPolicy::FixedCount { count } => count >= 1,
        }
    }

    /// The number of ticks in a round over `population` cells.
    pub open spec fn round_len(self, population: nat) -> nat {
        match self {
            BatchPolicy::Off => 1,
            BatchPolicy::FixedFraction { parts } => parts as nat,
            BatchPolicy::FixedCount { count } => if population == 0 {
                1
            } else if population % (count as nat) == 0 {
                population / (count as nat)
            } else {
                population / (count as nat) + 1
            },
        }
    }

    /// The id of the first cell of batch number `turn`; batch `turn` ends
    /// where batch `turn + 1` begins.
    pub open spec fn bound(self, population: nat, turn: nat) -> nat {
        match self {
            BatchPolicy::Off => if turn == 0 {
                0
            } else {
                population
            },
            BatchPolicy::FixedFraction { parts } => if turn >= parts {
                population
            } else {
                turn * population / (parts as nat)
            },
            BatchPolicy::FixedCount { count } => if turn * (count as nat) >= population {
                population
            } else {
                turn * (count as nat)
            },
        }
    }

    /// Whether the cell `id` gets its turn in tick number `turn` of a round.
    pub open spec fn in_batch(self, population: nat, turn: nat, id: nat) -> bool {
        self.bound(population, turn) <= id < self.bound(population, turn + 1)
    }

    /// Tells whether the policy is valid.
    pub fn is_valid(&self) -> (valid: bool)
        ensures
            valid == self.valid(),
    {
        match self {
            BatchPolicy::Off => true,
            BatchPolicy::FixedFraction { parts } => *parts >= 1,
            BatchPolicy::FixedCount { count } => *count >= 1,
        }
    }

    /// The number of ticks in a round over `population` cells.
    pub fn round_length(&self, population: usize) -> (len: usize)
        requires
            self.valid(),
        ensures
            len == self.round_len(population as nat),
            len >= 1,
    {
        match self {
            BatchPolicy::Off => 1,
            BatchPolicy::FixedFraction { parts } => *parts,
            BatchPolicy::FixedCount { count } => {
                proof {
                    self.lemma_round_len_bounds(population as nat);
                }
                if population == 0 {
                    1
                } else if population % *count == 0 {
                    population / *count
                } else {
                    population / *count + 1
                }
            },
        }
    }

    /// The first cell of batch number `turn` and the first cell after it.
    pub fn batch_bounds(&self, population: usize, turn: usize) -> (bounds: (usize, usize))
        requires
            self.valid(),
            turn < self.round_len(population as nat),
        ensures
            bounds.0 == self.bound(population as nat, turn as nat),
            bounds.1 == self.bound(population as nat, turn as nat + 1),
            bounds.0 <= bounds.1 <= population,
    {
        proof {
            self.lemma_bounds_ordered(population as nat, turn as nat);
            self.lemma_round_len_bounds(population as nat);
        }
        (self.boundary(population, turn), self.boundary(population, turn + 1))
    }

    /// Computes `bound`.
    fn boundary(&self, population: usize, turn: usize) -> (id: usize)
        requires
            self.valid(),
        ensures
            id == self.bound(population as nat, turn as nat),
    {
        match self {
            BatchPolicy::Off => if turn == 0 {
                0
            } else {
                population
            },
            BatchPolicy::FixedFraction { parts } => {
                if turn >= *parts {
                    population
                } else {
                    proof {
                        Self::lemma_share_within(population as nat, *parts as nat, turn as nat);
                        assert(turn * population <= usize::MAX * usize::MAX) by (nonlinear_arith)
                            requires
                                turn <= usize::MAX,
                                population <= usize::MAX,
                        ;
                        assert(usize::MAX * usize::MAX <= u128::MAX) by (nonlinear_arith)
                            requires
                                usize::MAX <= u64::MAX,
                        ;
                    }
                    ((turn as u128 * population as u128) / (*parts as u128)) as usize
                }
            },
            BatchPolicy::FixedCount { count } => {
                proof {
                    assert(turn * *count <= usize::MAX * usize::MAX) by (nonlinear_arith)
                        requires
                            turn <= usize::MAX,
                            *count <= usize::MAX,
                    ;
                    assert(usize::MAX * usize::MAX <= u128::MAX) by (nonlinear_arith)
                        requires
                            usize::MAX <= u64::MAX,
                    ;
                }
                let reach: u128 = turn as u128 * *count as u128;
                if reach >= population as u128 {
                    population
                } else {
                    reach as usize
                }
            },
        }
    }

    /// A round has at least one tick. Where every batch holds a fixed
    /// number of cells and there are cells at all, it has no more ticks
    /// than there are cells.
    pub proof fn lemma_round_len_bounds(self, population: nat)
        requires
            self.valid(),
        ensures
            self.round_len(population) >= 1,
            self is FixedCount && population > 0 ==> self.round_len(population) <= population,
    {
        if let BatchPolicy::FixedCount { count } = self {
            let n = population as int;
            let c = count as int;
            vstd::arithmetic::div_mod::lemma_fundamental_div_mod(n, c);
            vstd::arithmetic::div_mod::lemma_mod_bound(n, c);
            assert(n > 0 ==> 0 <= n / c <= n && (n % c == 0 ==> n / c >= 1) && (n % c != 0 ==> n
                / c < n)) by (nonlinear_arith)
                requires
                    n == c * (n / c) + n % c,
                    0 <= n % c < c,
                    c >= 1,
            ;
        }
    }

    /// A share of the population ends within the population.
    proof fn lemma_share_within(population: nat, parts: nat, turn: nat)
        requires
            parts >= 1,
            turn <= parts,
        ensures
            turn * population / parts <= population,
    {
        assert(turn * population <= parts * population) by (nonlinear_arith)
            requires
                turn <= parts,
        ;
        vstd::arithmetic::div_mod::lemma_div_is_ordered(
            (turn * population) as int,
            (parts * population) as int,
            parts as int,
        );
        vstd::arithmetic::div_mod::lemma_div_multiples_vanish(population as int, parts as int);
    }

    /// The batches of a round follow one another within the population.
    pub proof fn lemma_bounds_ordered(self, population: nat, turn: nat)
        requires
            self.valid(),
        ensures
            self.bound(population, turn) <= self.bound(population, turn + 1) <= population,
    {
        match self {
            BatchPolicy::Off => {},
            BatchPolicy::FixedFraction { parts } => {
                let parts = parts as nat;
                if turn < parts {
                    Self::lemma_share_within(population, parts, turn);
                    Self::lemma_share_within(population, parts, turn + 1);
                    assert(turn * population <= (turn + 1) * population) by (nonlinear_arith);
                    vstd::arithmetic::div_mod::lemma_div_is_ordered(
                        (turn * population) as int,
                        ((turn + 1) * population) as int,
                        parts as int,
                    );
                    if turn + 1 == parts {
                        vstd::arithmetic::div_mod::lemma_div_multiples_vanish(
                            population as int,
                            parts as int,
                        );
                    }
                }
            },
            BatchPolicy::FixedCount { count } => {
                assert(turn * count <= (turn + 1) * count) by (nonlinear_arith);
            },
        }
    }

    /// A round begins with the first cell and ends with the last.
    pub proof fn lemma_round_spans_population(self, population: nat)
        requires
            self.valid(),
        ensures
            self.bound(population, 0) == 0,
            self.bound(population, self.round_len(population)) == population,
    {
        match self {
            BatchPolicy::Off => {},
            BatchPolicy::FixedFraction { parts } => {},
            BatchPolicy::FixedCount { count } => {
                let c = count as nat;
                if population > 0 {
                    vstd::arithmetic::div_mod::lemma_fundamental_div_mod(
                        population as int,
                        c as int,
                    );
                    vstd::arithmetic::div_mod::lemma_mod_bound(population as int, c as int);
                    let q = population / c;
                    let len = self.round_len(population);
                    assert(len * c >= population) by (nonlinear_arith)
                        requires
                            population == c * q + population % c,
                            0 <= population % c < c,
                            len == if population % c == 0 {
                                q
                            } else {
                                q + 1
                            },
                    ;
                }
                assert(0 * count == 0);
            },
        }
    }

    /// Within a round every cell gets its turn, and one turn only.
    pub proof fn lemma_one_turn_per_round(self, population: nat, id: nat)
        requires
            self.valid(),
            id < population,
        ensures
            exists|turn: nat|
                turn < self.round_len(population) && #[trigger] self.in_batch(
                    population,
                    turn,
                    id,
                ),
            forall|a: nat, b: nat|
                #![trigger self.in_batch(population, a, id), self.in_batch(population, b, id)]
                self.in_batch(population, a, id) && self.in_batch(population, b, id) ==> a == b,
    {
        self.lemma_round_spans_population(population);
        let turn = self.lemma_turn_exists(population, id, self.round_len(population));
        assert(self.in_batch(population, turn, id));
        assert forall|a: nat, b: nat|
            #![trigger self.in_batch(population, a, id), self.in_batch(population, b, id)]
            self.in_batch(population, a, id) && self.in_batch(population, b, id) implies a
            == b by {
            if a < b {
                self.lemma_bounds_monotone(population, a + 1, b);
            } else if b < a {
                self.lemma_bounds_monotone(population, b + 1, a);
            }
        }
    }

    /// Later batches begin later.
    pub proof fn lemma_bounds_monotone(self, population: nat, early: nat, late: nat)
        requires
            self.valid(),
            early <= late,
        ensures
            self.bound(population, early) <= self.bound(population, late),
        decreases late - early,
    {
        if early < late {
            self.lemma_bounds_monotone(population, early, (late - 1) as nat);
            self.lemma_bounds_ordered(population, (late - 1) as nat);
        }
    }

    /// Finds the batch of `id` among the first `limit` batches, when batch
    /// `limit` begins behind `id`.
    proof fn lemma_turn_exists(self, population: nat, id: nat, limit: nat) -> (turn: nat)
        requires
            self.valid(),
            self.bound(population, 0) == 0,
            id < self.bound(population, limit),
        ensures
            turn < limit,
            self.in_batch(population, turn, id),
        decreases limit,
    {
        if limit == 0 {
            0
        } else if self.bound(population, (limit - 1) as nat) <= id {
            (limit - 1) as nat
        } else {
            self.lemma_turn_exists(population, id, (limit - 1) as nat)
        }
    }
}

} // verus!
