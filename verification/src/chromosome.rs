//! The chromosome: an ordered, fixed-length sequence of genes.

use vstd::prelude::*;

use crate::fixed::in_range;

verus! {

/// Every gene within the stored fixed-point range.
pub open spec fn genes_valid(s: Seq<i64>) -> bool {
    forall|i: int| 0 <= i < s.len() ==> in_range(#[trigger] s[i] as int)
}

/// An ordered sequence of fixed-point genes; the unit the genetic algorithm
/// operates on.
#[derive(Clone, Debug)]
pub struct Chromosome {
    genes: Vec<i64>,
}

impl View for Chromosome {
    type V = Seq<i64>;

    closed spec fn view(&self) -> Seq<i64> {
        self.genes@
    }
}

impl Chromosome {
    /// Wrap a gene list.
    pub fn new(genes: Vec<i64>) -> (r: Chromosome)
        ensures
            r@ == genes@,
    {
        Chromosome { genes }
    }

    /// Number of genes.
    pub fn len(&self) -> (r: usize)
        ensures
            r == self@.len(),
    {
        self.genes.len()
    }

    /// Read one gene.
    pub fn gene(&self, i: usize) -> (r: i64)
        requires
            i < self@.len(),
        ensures
            r == self@[i as int],
    {
        self.genes[i]
    }

    /// Overwrite one gene.
    pub fn set_gene(&mut self, i: usize, v: i64)
        requires
            i < old(self)@.len(),
        ensures
            final(self)@ == old(self)@.update(i as int, v),
    {
        self.genes.set(i, v);
    }

    /// The genes as a plain vector, in order.
    pub fn genes(&self) -> (r: &Vec<i64>)
        ensures
            r@ == self@,
    {
        &self.genes
    }
}

} // verus!
