//! The selection capability, and the fitness-proportionate selector.

use vstd::prelude::*;

use crate::error::Error;
use crate::individual::Individual;
use crate::random::RandomSource;
use crate::scalar::Scalar;

verus! {

/// A parent picker: selects one member of a population, by index, with a
/// probability depending on fitness. Fails with `EmptyPopulation` exactly
/// when there is nothing to pick from.
pub trait SelectionMethod: Sized {
    /// The index of one selected individual.
    fn select<G: Scalar, R: RandomSource<G>, I: Individual<G>>(
        &self,
        rng: &mut R,
        population: &Vec<I>,
    ) -> (r: Result<usize, Error>)
        ensures
            r is Ok <==> population@.len() > 0,
            r matches Ok(i) ==> i < population@.len(),
            r is Err ==> r == Err::<usize, Error>(Error::EmptyPopulation),
    ;
}

/// Fitness-proportionate (roulette-wheel) selection: each individual is
/// drawn with probability proportional to its fitness. A weighted draw
/// never lands on a zero weight ([`RandomSource::next_weighted`]'s
/// contract), so a zero-fitness individual is never drawn from a mixed
/// population. Only where the fitness distribution admits no weighted draw
/// at all — a negative weight, or a total of zero — does the selector fall
/// back to a uniform draw over the whole population rather than failing.
pub struct RouletteWheelSelection;

impl RouletteWheelSelection {
    /// A roulette-wheel selector.
    pub fn new() -> (r: Self) {
        RouletteWheelSelection
    }
}

impl SelectionMethod for RouletteWheelSelection {
    fn select<G: Scalar, R: RandomSource<G>, I: Individual<G>>(
        &self,
        rng: &mut R,
        population: &Vec<I>,
    ) -> (r: Result<usize, Error>) {
        if population.len() == 0 {
            return Err(Error::EmptyPopulation);
        }
        let mut weights: Vec<G> = Vec::new();
        let mut i: usize = 0;
        while i < population.len()
            invariant
                i <= population@.len(),
                weights@.len() == i,
            decreases population@.len() - i,
        {
            weights.push(population[i].fitness());
            i = i + 1;
        }
        match rng.next_weighted(&weights) {
            Some(index) => Ok(index),
            None => Ok(rng.next_index(population.len())),
        }
    }
}

} // verus!
