//! The simplest concrete individual: its fitness is its gene sum.
//!
//! The engine is generic over [`Individual`]; this implementation recomputes
//! its fitness from the chromosome alone (the sum of the genes, clamped at
//! zero and truncated to whole units), which makes it convenient for
//! exercising the evolutionary loop on bare chromosomes.

use vstd::prelude::*;

use crate::chromosome::Chromosome;
use crate::fixed::{sat_add, SCALE};
use crate::genetic_algorithm::Individual;

verus! {

/// Saturating sum of a gene sequence.
pub open spec fn s_gene_sum(s: Seq<i64>) -> int
    decreases s.len(),
{
    if s.len() == 0 {
        0
    } else {
        crate::fixed::sat(s_gene_sum(s.drop_last()) + s.last())
    }
}

/// The fitness a gene sequence encodes: its saturating sum, clamped at zero,
/// in whole units.
pub open spec fn s_sum_fitness(s: Seq<i64>) -> u64 {
    let total = s_gene_sum(s);
    if total <= 0 {
        0
    } else {
        (total / (SCALE as int)) as u64
    }
}

/// An individual whose fitness is the clamped, truncated sum of its genes.
pub struct SumIndividual {
    pub chromosome: Chromosome,
}

impl Individual for SumIndividual {
    open spec fn sfit(&self) -> u64 {
        s_sum_fitness(self.chromosome@)
    }

    open spec fn schrom(&self) -> Seq<i64> {
        self.chromosome@
    }

    fn fitness(&self) -> (r: u64) {
        let n = self.chromosome.len();
        let mut total: i64 = 0;
        let mut i: usize = 0;
        while i < n
            invariant
                i <= n,
                n == self.chromosome@.len(),
                total == s_gene_sum(self.chromosome@.take(i as int)),
                crate::fixed::in_range(total as int),
            decreases n - i,
        {
            proof {
                assert(self.chromosome@.take(i as int + 1).drop_last() =~= self.chromosome@.take(
                    i as int));
            }
            total = sat_add(total, self.chromosome.gene(i));
            i = i + 1;
        }
        proof {
            assert(self.chromosome@.take(n as int) =~= self.chromosome@);
        }
        if total <= 0 {
            0
        } else {
            (total / SCALE) as u64
        }
    }

    fn chromosome(&self) -> &Chromosome {
        &self.chromosome
    }

    fn create(chromosome: Chromosome) -> Self {
        SumIndividual { chromosome }
    }
}

} // verus!
