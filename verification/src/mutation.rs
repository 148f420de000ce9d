//! Gene-by-gene random perturbation.

use vstd::prelude::*;

use crate::chromosome::{genes_valid, Chromosome};
use crate::fixed::{in_range, mul_scaled, sat_add, SCALE, VAL_LIMIT};
use crate::genetic_algorithm::MutationMethod;
use crate::rng::{rng_coin, rng_range};
use rand::rngs::StdRng;
use vstd::arithmetic::div_mod::lemma_multiply_divide_lt;
use vstd::arithmetic::mul::lemma_mul_inequality;

verus! {

/// Perturbs each gene independently: with probability `chance / SCALE` the
/// gene is displaced by `coeff` times a uniform fraction of one, with a sign
/// chosen by an independent fair coin flip.
#[derive(Clone, Copy, Debug)]
pub struct GaussianMutation {
    /// Probability of changing a gene, as a fraction of `SCALE`:
    /// 0 leaves every gene alone, `SCALE` touches every gene.
    chance: i64,
    /// Magnitude of the change, in fixed point: a touched gene moves by at
    /// most this much in either direction.
    coeff: i64,
}

impl GaussianMutation {
    /// A configuration the constructor accepts: a chance that is a
    /// probability and a nonnegative magnitude within the stored range.
    #[verifier::type_invariant]
    spec fn inv(&self) -> bool {
        0 <= self.chance <= SCALE && 0 <= self.coeff <= VAL_LIMIT
    }

    /// The configured chance, as a fraction of `SCALE`.
    pub closed spec fn s_chance(&self) -> i64 {
        self.chance
    }

    /// The configured magnitude.
    pub closed spec fn s_coeff(&self) -> i64 {
        self.coeff
    }

    /// Configure a mutation strategy. A negative magnitude acts as its
    /// absolute value, since the sign of each displacement is drawn by an
    /// independent coin flip anyway.
    pub fn new(chance: i64, coeff: i64) -> (r: GaussianMutation)
        requires
            0 <= chance <= SCALE,
            -VAL_LIMIT <= coeff <= VAL_LIMIT,
        ensures
            r.s_chance() == chance,
            r.s_coeff() == if coeff < 0 {
                -(coeff as int)
            } else {
                coeff as int
            },
    {
        let magnitude = if coeff < 0 {
            -coeff
        } else {
            coeff
        };
        GaussianMutation { chance, coeff: magnitude }
    }
}

impl MutationMethod for GaussianMutation {
    /// Zero chance or zero magnitude leaves the chromosome exactly as it
    /// was; otherwise every gene either keeps its old value or moves by
    /// strictly less than `coeff` (the displacement is `coeff` times a
    /// uniform fraction strictly below one).
    open spec fn m_ens(&self, before: Seq<i64>, after: Seq<i64>) -> bool {
        &&& (self.s_chance() == 0 ==> after == before)
        &&& (self.s_coeff() == 0 ==> after == before)
        &&& forall|i: int|
            0 <= i < after.len() ==> #[trigger] after[i] == before[i] || -self.s_coeff()
                < after[i] - before[i] < self.s_coeff()
    }

    fn mutate(&self, rng: &mut StdRng, child: &mut Chromosome) {
        proof {
            use_type_invariant(self);
        }
        let n = child.len();
        let mut i: usize = 0;
        while i < n
            invariant
                i <= n,
                n == old(child)@.len(),
                child@.len() == n,
                0 <= self.s_chance() <= SCALE,
                0 <= self.s_coeff() <= VAL_LIMIT,
                genes_valid(old(child)@),
                genes_valid(child@),
                forall|j: int| i <= j < n ==> #[trigger] child@[j] == old(child)@[j],
                forall|j: int|
                    0 <= j < i ==> #[trigger] child@[j] == old(child)@[j] || -self.s_coeff()
                        < child@[j] - old(child)@[j] < self.s_coeff(),
                self.s_chance() == 0 ==> forall|j: int|
                    0 <= j < n ==> #[trigger] child@[j] == old(child)@[j],
                self.s_coeff() == 0 ==> forall|j: int|
                    0 <= j < n ==> #[trigger] child@[j] == old(child)@[j],
            decreases n - i,
        {
            let sign = rng_coin(rng);
            let roll = rng_range(rng, 0, SCALE - 1);
            if roll < self.chance {
                let u = rng_range(rng, 0, SCALE - 1);
                let d = mul_scaled(self.coeff, u);
                proof {
                    let c = self.s_coeff() as int;
                    assert(0 <= c * u) by (nonlinear_arith)
                        requires
                            c >= 0,
                            u >= 0,
                    ;
                    if c >= 1 {
                        assert(c * u < (SCALE as int) * c) by (nonlinear_arith)
                            requires
                                0 <= u < SCALE,
                                c >= 1,
                        ;
                        lemma_multiply_divide_lt(c * u, SCALE as int, c);
                    }
                    lemma_mul_inequality(0, c * u, 1);
                    assert(0 <= d && (c >= 1 ==> d < c) && (c == 0 ==> d == 0));
                }
                let g = child.gene(i);
                let new_gene = if sign {
                    sat_add(g, -d)
                } else {
                    sat_add(g, d)
                };
                proof {
                    assert(in_range(child@[i as int] as int));
                    assert(new_gene == child@[i as int] || -self.s_coeff() < new_gene - child@[
                        i as int] < self.s_coeff());
                }
                child.set_gene(i, new_gene);
            }
            i = i + 1;
        }
        proof {
            if self.s_chance() == 0 || self.s_coeff() == 0 {
                assert(child@ =~= old(child)@);
            }
        }
    }
}

} // verus!
