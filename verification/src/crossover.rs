//! The crossover capability, and uniform crossover.

use vstd::prelude::*;

use crate::chromosome::Chromosome;
use crate::error::Error;
use crate::random::RandomSource;
use crate::scalar::Scalar;

verus! {

/// Combines two parent chromosomes into one child of the same length.
/// Fails with `ArityMismatch` exactly when the parents' lengths differ.
pub trait CrossoverMethod: Sized {
    /// The child of the two parents.
    fn crossover<G: Scalar, R: RandomSource<G>>(
        &self,
        rng: &mut R,
        parent_a: &Chromosome<G>,
        parent_b: &Chromosome<G>,
    ) -> (r: Result<Chromosome<G>, Error>)
        ensures
            r is Ok <==> parent_a@.len() == parent_b@.len(),
            r matches Ok(c) ==> c@.len() == parent_a@.len(),
            r is Err ==> r == Err::<Chromosome<G>, Error>(Error::ArityMismatch),
    ;
}

/// Uniform crossover: each gene index independently copies from one parent
/// or the other with probability one half, one fair coin flip per gene.
pub struct UniformCrossover;

impl UniformCrossover {
    /// A uniform-crossover operator.
    pub fn new() -> (r: Self) {
        UniformCrossover
    }
}

impl Default for UniformCrossover {
    /// A uniform-crossover operator.
    fn default() -> (r: Self)
        ensures
            r == (UniformCrossover),
    {
        UniformCrossover
    }
}

impl CrossoverMethod for UniformCrossover {
    fn crossover<G: Scalar, R: RandomSource<G>>(
        &self,
        rng: &mut R,
        parent_a: &Chromosome<G>,
        parent_b: &Chromosome<G>,
    ) -> (r: Result<Chromosome<G>, Error>)
        ensures
            r matches Ok(c) ==> forall|i: int|
                0 <= i < c@.len() ==> #[trigger] c@[i] == parent_a@[i] || c@[i] == parent_b@[i],
    {
        if parent_a.len() != parent_b.len() {
            return Err(Error::ArityMismatch);
        }
        let mut genes: Vec<G> = Vec::new();
        let mut i: usize = 0;
        while i < parent_a.len()
            invariant
                parent_a@.len() == parent_b@.len(),
                i <= parent_a@.len(),
                genes@.len() == i,
                forall|j: int|
                    0 <= j < i ==> #[trigger] genes@[j] == parent_a@[j] || genes@[j]
                        == parent_b@[j],
            decreases parent_a@.len() - i,
        {
            if rng.next_coin() {
                genes.push(parent_a.get(i));
            } else {
                genes.push(parent_b.get(i));
            }
            i = i + 1;
        }
        Ok(Chromosome::from_genes(genes))
    }
}

} // verus!
