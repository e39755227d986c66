//! The individual capability: what the caller's population members expose
//! to the engine.

use vstd::prelude::*;

use crate::chromosome::Chromosome;

verus! {

/// A population member pairing a chromosome with a fitness score. The
/// caller implements this for its own population type; the engine only
/// reads fitness and chromosome and builds fresh individuals from evolved
/// chromosomes.
pub trait Individual<G: Copy>: Sized {
    /// What the individual's fitness denotes. The default leaves it
    /// unspecified; a verified implementation gives it a definition.
    open spec fn fitness_spec(&self) -> G {
        arbitrary()
    }

    /// What the individual's gene sequence denotes. The default leaves it
    /// unspecified; a verified implementation gives it a definition.
    open spec fn chromosome_spec(&self) -> Seq<G> {
        arbitrary()
    }

    /// A fresh individual built from a bare chromosome, with a fresh
    /// fitness baseline to be recomputed by the caller's evaluation phase.
    fn create(chromosome: Chromosome<G>) -> (r: Self)
        ensures
            r.chromosome_spec() == chromosome@,
    ;

    /// The scalar quality measure biasing selection probability.
    fn fitness(&self) -> (r: G)
        ensures
            r == self.fitness_spec(),
    ;

    /// A read-only view of the individual's heritable parameters.
    fn chromosome(&self) -> (r: &Chromosome<G>)
        ensures
            r@ == self.chromosome_spec(),
    ;
}

} // verus!
