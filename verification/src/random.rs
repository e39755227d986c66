//! The random-source capability.
//!
//! No operation of the engine reaches for ambient randomness: every draw
//! flows through one caller-supplied source passed into every operation that
//! needs it, so a fixed seed and fixed strategy configuration reproduce a
//! bit-identical evolutionary trajectory. The crate ships a small
//! deterministic generator, [`SplitMix64`], as one such source; callers bind
//! their own (a seeded stream cipher, for instance) by implementing
//! [`RandomSource`].

use vstd::prelude::*;
use vstd::arithmetic::div_mod::lemma_div_is_ordered;
use vstd::arithmetic::div_mod::lemma_fundamental_div_mod_converse_div;

use crate::scalar::Scalar;

verus! {

/// A source of randomness over gene scalars of type `G`.
///
/// The contracts state only what holds of every outcome of a draw — a drawn
/// index is in range, a probability of zero never fires, a probability of
/// one always fires, a weighted draw never lands on a zero weight, a zero
/// perturbation coefficient moves nothing — never which value comes out.
pub trait RandomSource<G: Scalar>: Sized {
    /// The range that every freshly drawn gene of this source lies in.
    /// The default claims nothing; a source that promises a range gives it
    /// a definition.
    open spec fn gene_range(g: G) -> bool {
        true
    }

    /// One fair coin flip.
    fn next_coin(&mut self) -> bool;

    /// One Bernoulli draw: `true` with probability `numer / denom`.
    fn next_ratio(&mut self, numer: u32, denom: u32) -> (r: bool)
        requires
            0 < denom,
            numer <= denom,
        ensures
            numer == 0 ==> !r,
            numer == denom ==> r,
    ;

    /// One index drawn uniformly below `bound`.
    fn next_index(&mut self, bound: usize) -> (r: usize)
        requires
            bound > 0,
        ensures
            r < bound,
    ;

    /// One index drawn with probability proportional to its weight, or
    /// `None` where the weights admit no such draw (a negative weight, or a
    /// total of zero). A returned index never carries a zero weight: a
    /// zero-weight entry has zero probability.
    fn next_weighted(&mut self, weights: &Vec<G>) -> (r: Option<usize>)
        ensures
            r matches Some(i) ==> i < weights@.len() && weights@[i as int] != G::zero_spec(),
    ;

    /// One fresh gene, drawn from this source's gene range.
    fn next_gene(&mut self) -> (r: G)
        ensures
            Self::gene_range(r),
    ;

    /// `gene` moved by a random fraction of `coefficient`, downward when
    /// `negative` holds; a zero coefficient moves nothing.
    fn next_perturbed(&mut self, gene: G, coefficient: G, negative: bool) -> (r: G)
        ensures
            coefficient == G::zero_spec() ==> r == gene,
    ;
}

/// How many thousandths make one unit in the fixed-point binding below.
pub const MILLIS_PER_UNIT: i64 = 1000;

/// A small deterministic pseudo-random generator over a 64-bit state, after
/// the splitmix64 output function. It exists so the engine can be driven,
/// and its draws reasoned about, without anything outside this crate.
pub struct SplitMix64 {
    state: u64,
}

impl SplitMix64 {
    /// A source whose whole trajectory is fixed by `seed`.
    pub fn new(seed: u64) -> Self {
        SplitMix64 { state: seed }
    }

    /// The next raw 64-bit draw.
    pub fn next_u64(&mut self) -> u64 {
        self.state = add_wrap64(self.state, 0x9E3779B97F4A7C15);
        let mut z: u64 = self.state;
        z = mul_wrap64(z ^ (z >> 30), 0xBF58476D1CE4E5B9);
        z = mul_wrap64(z ^ (z >> 27), 0x94D049BB133111EB);
        z ^ (z >> 31)
    }
}

fn add_wrap64(a: u64, b: u64) -> u64 {
    #[verifier::truncate]
    let r = (a as u128 + b as u128) as u64;
    r
}

fn mul_wrap64(a: u64, b: u64) -> u64 {
    proof {
        assert((a as u128) * (b as u128)
            <= 0xFFFF_FFFF_FFFF_FFFF_u128 * 0xFFFF_FFFF_FFFF_FFFF_u128) by (nonlinear_arith)
            requires
                a as u128 <= 0xFFFF_FFFF_FFFF_FFFF_u128,
                b as u128 <= 0xFFFF_FFFF_FFFF_FFFF_u128,
        ;
    }
    #[verifier::truncate]
    let r = (a as u128 * b as u128) as u64;
    r
}

/// The fixed-point binding: draws over `i64` scalars counting thousandths.
impl RandomSource<i64> for SplitMix64 {
    /// Fresh genes lie within one unit of zero: a thousand thousandths
    /// either way.
    open spec fn gene_range(g: i64) -> bool {
        -MILLIS_PER_UNIT <= g <= MILLIS_PER_UNIT
    }

    fn next_coin(&mut self) -> bool {
        self.next_u64() & 1 == 1
    }

    fn next_ratio(&mut self, numer: u32, denom: u32) -> (r: bool) {
        let draw = self.next_u64() % (denom as u64);
        draw < numer as u64
    }

    fn next_index(&mut self, bound: usize) -> (r: usize) {
        (self.next_u64() % (bound as u64)) as usize
    }

    fn next_weighted(&mut self, weights: &Vec<i64>) -> (r: Option<usize>) {
        let mut total: i64 = 0;
        let mut i: usize = 0;
        while i < weights.len()
            invariant
                0 <= total,
                i <= weights@.len(),
                forall|k: int| 0 <= k < i ==> weights@[k] >= 0,
            decreases weights@.len() - i,
        {
            let w = weights[i];
            if w < 0 {
                return None;
            }
            if total > i64::MAX - w {
                total = i64::MAX;
            } else {
                total = total + w;
            }
            i = i + 1;
        }
        if total <= 0 {
            return None;
        }
        let draw = (self.next_u64() % (total as u64)) as i64;
        let mut acc: i64 = 0;
        let mut j: usize = 0;
        while j < weights.len()
            invariant
                0 <= acc <= total,
                acc <= draw,
                forall|k: int| 0 <= k < weights@.len() ==> weights@[k] >= 0,
            decreases weights@.len() - j,
        {
            let w = weights[j];
            if w >= 0 && total - acc >= w {
                acc = acc + w;
            } else {
                acc = total;
            }
            if draw < acc {
                return Some(j);
            }
            j = j + 1;
        }
        None
    }

    fn next_gene(&mut self) -> (r: i64) {
        (self.next_u64() % (2 * MILLIS_PER_UNIT as u64 + 1)) as i64 - MILLIS_PER_UNIT
    }

    /// Besides the capability's own promise, the fixed-point perturbation
    /// is bounded: the gene moves by at most the coefficient's magnitude.
    fn next_perturbed(&mut self, gene: i64, coefficient: i64, negative: bool) -> (r: i64)
        ensures
            r - gene <= (if coefficient >= 0 {
                coefficient as int
            } else {
                -(coefficient as int)
            }),
            gene - r <= (if coefficient >= 0 {
                coefficient as int
            } else {
                -(coefficient as int)
            }),
    {
        let fraction = (self.next_u64() % (MILLIS_PER_UNIT as u64)) as i64;
        let magnitude = if coefficient < 0 {
            if coefficient < -999_999 {
                999_999
            } else {
                -coefficient
            }
        } else if coefficient > 999_999 {
            999_999
        } else {
            coefficient
        };
        proof {
            assert(0 <= magnitude * fraction <= magnitude * 1000) by (nonlinear_arith)
                requires
                    0 <= magnitude,
                    0 <= fraction <= 999,
            ;
            lemma_div_is_ordered(magnitude * fraction, magnitude * 1000, 1000);
            lemma_fundamental_div_mod_converse_div(magnitude * 1000, 1000, magnitude as int, 0);
        }
        let mut delta = (magnitude * fraction) / MILLIS_PER_UNIT;
        if negative {
            delta = -delta;
        }
        if gene > i64::MAX - 1_000_000_000 || gene < i64::MIN + 1_000_000_000 {
            gene
        } else {
            gene + delta
        }
    }
}

} // verus!
