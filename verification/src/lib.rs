//! A deterministic evolutionary-computation engine for the parameter vectors
//! ("chromosomes") of small feed-forward neural networks.
//!
//! The crate provides a genetic algorithm (fitness-proportionate selection,
//! uniform crossover, bounded per-gene mutation), a feed-forward network that
//! flattens to and from a gene-compatible parameter sequence, and a compact
//! base-52 text codec for chromosomes.
//!
//! All code is generic over the scalar gene type: callers pick the numeric
//! representation through the [`Scalar`](scalar::Scalar) capability, and all
//! randomness flows through one caller-supplied
//! [`RandomSource`](random::RandomSource), so a fixed seed reproduces a
//! bit-identical evolutionary trajectory.

use vstd::prelude::*;

pub mod chromosome;
pub mod crossover;
pub mod dna;
pub mod error;
pub mod individual;
pub mod mutation;
pub mod network;
pub mod random;
pub mod scalar;
pub mod selection;

pub use chromosome::Chromosome;
pub use crossover::CrossoverMethod;
pub use crossover::UniformCrossover;
pub use error::Error;
pub use individual::Individual;
pub use mutation::GaussianMutation;
pub use mutation::MutationMethod;
pub use network::Layer;
pub use network::LayerTopology;
pub use network::Network;
pub use network::Neuron;
pub use random::RandomSource;
pub use random::SplitMix64;
pub use scalar::Scalar;
pub use selection::RouletteWheelSelection;
pub use selection::SelectionMethod;

verus! {

/// One generation of evolution, orchestrated over the three strategy
/// capabilities plus the caller's [`Individual`] capability. Constructed
/// once and reused across generations.
pub struct GeneticAlgorithm<S, C, M> {
    selection_method: S,
    crossover_method: C,
    mutation_method: M,
}

impl<S, C, M> GeneticAlgorithm<S, C, M> {
    /// The selection strategy the engine was built with.
    pub closed spec fn selection(self) -> S {
        self.selection_method
    }

    /// The crossover strategy the engine was built with.
    pub closed spec fn crossover(self) -> C {
        self.crossover_method
    }

    /// The mutation strategy the engine was built with.
    pub closed spec fn mutation(self) -> M {
        self.mutation_method
    }

    /// An engine over the given selection, crossover and mutation
    /// strategies.
    pub fn new(selection_method: S, crossover_method: C, mutation_method: M) -> (r: Self)
        ensures
            r.selection() == selection_method,
            r.crossover() == crossover_method,
            r.mutation() == mutation_method,
    {
        GeneticAlgorithm { selection_method, crossover_method, mutation_method }
    }

    /// One generation: for each of the population's slots, in order, two
    /// parents are selected from the same input population (with
    /// replacement), crossed over, the child mutated in place, and a fresh
    /// individual built from it. The input population is only read; the
    /// output has exactly its size. All randomness flows through `rng`, in
    /// a fixed order per slot: parent A, parent B, crossover, mutation.
    ///
    /// Fails with `EmptyPopulation` exactly on an empty population, and
    /// with `ArityMismatch` where crossover meets parents of unequal
    /// length.
    pub fn evolve<G: Scalar, R: RandomSource<G>, I: Individual<G>>(
        &self,
        rng: &mut R,
        population: &Vec<I>,
    ) -> (r: Result<Vec<I>, Error>) where
        S: SelectionMethod,
        C: CrossoverMethod,
        M: MutationMethod<G>,

        ensures
            population@.len() == 0 <==> r == Err::<Vec<I>, Error>(Error::EmptyPopulation),
            r matches Ok(next) ==> next@.len() == population@.len(),
            r is Err ==> r == Err::<Vec<I>, Error>(Error::EmptyPopulation) || r == Err::<
                Vec<I>,
                Error,
            >(Error::ArityMismatch),
            population@.len() > 0 && (forall|a: int, b: int|
                #![trigger population@[a].chromosome_spec(), population@[b].chromosome_spec()]
                0 <= a < population@.len() && 0 <= b < population@.len()
                    ==> population@[a].chromosome_spec().len()
                    == population@[b].chromosome_spec().len()) ==> r is Ok,
    {
        if population.len() == 0 {
            return Err(Error::EmptyPopulation);
        }
        let mut next_population: Vec<I> = Vec::new();
        let mut slot: usize = 0;
        while slot < population.len()
            invariant
                population@.len() > 0,
                slot <= population@.len(),
                next_population@.len() == slot,
            decreases population@.len() - slot,
        {
            let parent_a = match self.selection_method.select(rng, population) {
                Ok(index) => index,
                Err(e) => {
                    proof {
                        assert(false);
                    }
                    return Err(e);
                },
            };
            let parent_b = match self.selection_method.select(rng, population) {
                Ok(index) => index,
                Err(e) => {
                    proof {
                        assert(false);
                    }
                    return Err(e);
                },
            };
            let chromosome_a = population[parent_a].chromosome();
            let chromosome_b = population[parent_b].chromosome();
            let mut child = match self.crossover_method.crossover(rng, chromosome_a, chromosome_b) {
                Ok(c) => c,
                Err(e) => {
                    proof {
                        assert(population@[parent_a as int].chromosome_spec().len()
                            != population@[parent_b as int].chromosome_spec().len());
                    }
                    return Err(e);
                },
            };
            self.mutation_method.mutate(rng, &mut child);
            next_population.push(I::create(child));
            slot = slot + 1;
        }
        Ok(next_population)
    }
}

} // verus!
