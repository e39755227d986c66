//! The mutation capability, and bounded per-gene perturbation.

use vstd::prelude::*;

use crate::chromosome::Chromosome;
use crate::error::Error;
use crate::random::RandomSource;
use crate::scalar::Scalar;

verus! {

/// Perturbs a chromosome in place; the length never changes.
pub trait MutationMethod<G: Scalar>: Sized {
    /// Mutates `child` in place.
    fn mutate<R: RandomSource<G>>(&self, rng: &mut R, child: &mut Chromosome<G>)
        ensures
            final(child)@.len() == old(child)@.len(),
    ;
}

/// Bounded per-gene perturbation: for every gene independently, a fair sign
/// is drawn, then a Bernoulli decision with the configured chance; a
/// mutating gene moves by the sign times a random fraction of the
/// configured coefficient.
///
/// The chance is an exact rational `chance_num / chance_den` in the unit
/// interval; the coefficient is a scalar of the caller's gene type.
pub struct GaussianMutation<G> {
    chance_num: u32,
    chance_den: u32,
    coefficient: G,
}

impl<G: Copy> GaussianMutation<G> {
    /// The numerator of the per-gene mutation chance.
    pub closed spec fn chance_num(self) -> u32 {
        self.chance_num
    }

    /// The denominator of the per-gene mutation chance.
    pub closed spec fn chance_den(self) -> u32 {
        self.chance_den
    }

    /// The maximum perturbation magnitude.
    pub closed spec fn coefficient(self) -> G {
        self.coefficient
    }

    /// A mutation operator with chance `chance_num / chance_den`. Fails
    /// with `InvalidConfig` exactly when that is no probability: a zero
    /// denominator, or a numerator above the denominator.
    pub fn new(chance_num: u32, chance_den: u32, coefficient: G) -> (r: Result<Self, Error>)
        ensures
            r is Ok <==> (0 < chance_den && chance_num <= chance_den),
            r matches Ok(m) ==> m.chance_num() == chance_num && m.chance_den() == chance_den
                && m.coefficient() == coefficient,
            r is Err ==> r == Err::<Self, Error>(Error::InvalidConfig),
    {
        if chance_den == 0 || chance_num > chance_den {
            return Err(Error::InvalidConfig);
        }
        Ok(GaussianMutation { chance_num, chance_den, coefficient })
    }
}

impl<G: Scalar> MutationMethod<G> for GaussianMutation<G> {
    fn mutate<R: RandomSource<G>>(&self, rng: &mut R, child: &mut Chromosome<G>)
        ensures
            self.chance_num() == 0 ==> final(child)@ == old(child)@,
            self.coefficient() == G::zero_spec() ==> final(child)@ == old(child)@,
    {
        // The constructor admits only valid chances, so the second branch
        // is never taken; it keeps the trait contract free of a
        // precondition on the configuration.
        let (num, den) = if self.chance_den > 0 && self.chance_num <= self.chance_den {
            (self.chance_num, self.chance_den)
        } else {
            (0, 1)
        };
        let mut i: usize = 0;
        while i < child.len()
            invariant
                child@.len() == old(child)@.len(),
                i <= child@.len(),
                num == 0 ==> child@ == old(child)@,
                self.coefficient() == G::zero_spec() ==> child@ == old(child)@,
                0 < den,
                num <= den,
                self.chance_num() == 0 ==> num == 0,
            decreases child@.len() - i,
        {
            let negative = rng.next_coin();
            let hit = rng.next_ratio(num, den);
            if hit {
                let gene = child.get(i);
                let moved = rng.next_perturbed(gene, self.coefficient, negative);
                proof {
                    if moved == gene {
                        assert(child@.update(i as int, moved) =~= child@);
                    }
                }
                child.set(i, moved);
            }
            i = i + 1;
        }
    }
}

} // verus!
