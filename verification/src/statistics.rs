//! Fitness statistics of one generation.

use vstd::prelude::*;

use crate::fixed::{SCALE, VAL_LIMIT};
use vstd::arithmetic::div_mod::{lemma_div_is_ordered, lemma_div_multiples_vanish};
use vstd::arithmetic::mul::lemma_mul_inequality;

verus! {

/// Largest fitness score the engine accepts (one million).
pub const FIT_MAX: u64 = 1_000_000;

/// Largest population the engine accepts (one million individuals).
pub const POP_MAX: usize = 1_000_000;

/// Sum of a sequence of fitness scores.
pub open spec fn sum_u64(s: Seq<u64>) -> int
    decreases s.len(),
{
    if s.len() == 0 {
        0
    } else {
        sum_u64(s.drop_last()) + s.last()
    }
}

/// Smallest element of a nonempty sequence of fitness scores.
pub open spec fn seq_min(s: Seq<u64>) -> u64
    recommends
        s.len() > 0,
    decreases s.len(),
{
    if s.len() <= 1 {
        s[0]
    } else {
        let m = seq_min(s.drop_last());
        if s.last() < m {
            s.last()
        } else {
            m
        }
    }
}

/// Largest element of a nonempty sequence of fitness scores.
pub open spec fn seq_max(s: Seq<u64>) -> u64
    recommends
        s.len() > 0,
    decreases s.len(),
{
    if s.len() <= 1 {
        s[0]
    } else {
        let m = seq_max(s.drop_last());
        if s.last() > m {
            s.last()
        } else {
            m
        }
    }
}

/// The sum of a nonempty sequence lies between `len * min` and `len * max`.
pub proof fn lemma_sum_bounds(s: Seq<u64>)
    requires
        s.len() > 0,
    ensures
        s.len() * seq_min(s) <= sum_u64(s) <= s.len() * seq_max(s),
    decreases s.len(),
{
    if s.len() == 1 {
        assert(sum_u64(s) == sum_u64(s.drop_last()) + s.last());
        assert(sum_u64(s.drop_last()) == 0);
        assert(s.last() == s[0]);
    } else {
        let t = s.drop_last();
        lemma_sum_bounds(t);
        assert(seq_min(s) <= seq_min(t) && seq_min(s) <= s.last());
        assert(seq_max(s) >= seq_max(t) && seq_max(s) >= s.last());
        lemma_mul_inequality(seq_min(s) as int, seq_min(t) as int, t.len() as int);
        lemma_mul_inequality(seq_max(t) as int, seq_max(s) as int, t.len() as int);
        assert(t.len() * seq_min(s) + seq_min(s) == s.len() * seq_min(s)) by (nonlinear_arith)
            requires
                t.len() == s.len() - 1,
        ;
        assert(t.len() * seq_max(s) + seq_max(s) == s.len() * seq_max(s)) by (nonlinear_arith)
            requires
                t.len() == s.len() - 1,
        ;
    }
}

/// The sum of a sequence whose elements are all at most `bound` is at most
/// `len * bound`.
pub proof fn lemma_sum_le(s: Seq<u64>, bound: u64)
    requires
        forall|i: int| 0 <= i < s.len() ==> s[i] <= bound,
    ensures
        sum_u64(s) <= s.len() * bound,
    decreases s.len(),
{
    if s.len() > 0 {
        let t = s.drop_last();
        assert(forall|i: int| 0 <= i < t.len() ==> t[i] == s[i]);
        lemma_sum_le(t, bound);
        assert(t.len() * bound + bound == s.len() * bound) by (nonlinear_arith)
            requires
                t.len() == s.len() - 1,
        ;
    }
}

/// A sum only grows when every element grows.
pub proof fn lemma_sum_mono(a: Seq<u64>, b: Seq<u64>)
    requires
        a.len() == b.len(),
        forall|i: int| 0 <= i < a.len() ==> #[trigger] a[i] <= b[i],
    ensures
        sum_u64(a) <= sum_u64(b),
    decreases a.len(),
{
    if a.len() > 0 {
        let ta = a.drop_last();
        let tb = b.drop_last();
        assert(forall|i: int| 0 <= i < ta.len() ==> #[trigger] ta[i] <= tb[i]) by {
            assert(forall|i: int| 0 <= i < ta.len() ==> ta[i] == a[i] && tb[i] == b[i]);
        }
        lemma_sum_mono(ta, tb);
    }
}

/// The minimum only grows when every element grows.
pub proof fn lemma_seq_min_mono(a: Seq<u64>, b: Seq<u64>)
    requires
        a.len() == b.len() > 0,
        forall|i: int| 0 <= i < a.len() ==> #[trigger] a[i] <= b[i],
    ensures
        seq_min(a) <= seq_min(b),
    decreases a.len(),
{
    if a.len() > 1 {
        let ta = a.drop_last();
        let tb = b.drop_last();
        assert(forall|i: int| 0 <= i < ta.len() ==> #[trigger] ta[i] <= tb[i]) by {
            assert(forall|i: int| 0 <= i < ta.len() ==> ta[i] == a[i] && tb[i] == b[i]);
        }
        lemma_seq_min_mono(ta, tb);
    }
}

/// The maximum only grows when every element grows.
pub proof fn lemma_seq_max_mono(a: Seq<u64>, b: Seq<u64>)
    requires
        a.len() == b.len() > 0,
        forall|i: int| 0 <= i < a.len() ==> #[trigger] a[i] <= b[i],
    ensures
        seq_max(a) <= seq_max(b),
    decreases a.len(),
{
    if a.len() > 1 {
        let ta = a.drop_last();
        let tb = b.drop_last();
        assert(forall|i: int| 0 <= i < ta.len() ==> #[trigger] ta[i] <= tb[i]) by {
            assert(forall|i: int| 0 <= i < ta.len() ==> ta[i] == a[i] && tb[i] == b[i]);
        }
        lemma_seq_max_mono(ta, tb);
    }
}

/// If every element grows by at most `d`, so do the minimum and maximum.
pub proof fn lemma_min_max_growth(a: Seq<u64>, b: Seq<u64>, d: int)
    requires
        a.len() == b.len() > 0,
        d >= 0,
        forall|i: int| 0 <= i < a.len() ==> #[trigger] a[i] <= b[i] <= a[i] + d,
    ensures
        seq_min(a) <= seq_min(b) <= seq_min(a) + d,
        seq_max(a) <= seq_max(b) <= seq_max(a) + d,
    decreases a.len(),
{
    if a.len() > 1 {
        let ta = a.drop_last();
        let tb = b.drop_last();
        assert(forall|i: int| 0 <= i < ta.len() ==> #[trigger] ta[i] <= tb[i] <= ta[i] + d) by {
            assert(forall|i: int| 0 <= i < ta.len() ==> ta[i] == a[i] && tb[i] == b[i]);
        }
        lemma_min_max_growth(ta, tb, d);
    }
}

/// If every element grows by at most `d`, the sum grows by at most `len * d`.
pub proof fn lemma_sum_growth(a: Seq<u64>, b: Seq<u64>, d: int)
    requires
        a.len() == b.len(),
        d >= 0,
        forall|i: int| 0 <= i < a.len() ==> #[trigger] a[i] <= b[i] <= a[i] + d,
    ensures
        sum_u64(a) <= sum_u64(b) <= sum_u64(a) + a.len() * d,
    decreases a.len(),
{
    if a.len() == 0 {
        assert(a.len() * d == 0) by (nonlinear_arith)
            requires
                a.len() == 0,
        ;
    } else {
        let ta = a.drop_last();
        let tb = b.drop_last();
        assert(forall|i: int| 0 <= i < ta.len() ==> #[trigger] ta[i] <= tb[i] <= ta[i] + d) by {
            assert(forall|i: int| 0 <= i < ta.len() ==> ta[i] == a[i] && tb[i] == b[i]);
        }
        lemma_sum_growth(ta, tb, d);
        assert(ta.len() * d + d == a.len() * d) by (nonlinear_arith)
            requires
                ta.len() == a.len() - 1,
        ;
    }
}

/// The maximum of a sequence whose elements are all at most `bound` is at
/// most `bound`.
pub proof fn lemma_seq_max_le(s: Seq<u64>, bound: u64)
    requires
        s.len() > 0,
        forall|i: int| 0 <= i < s.len() ==> #[trigger] s[i] <= bound,
    ensures
        seq_max(s) <= bound,
    decreases s.len(),
{
    if s.len() > 1 {
        let t = s.drop_last();
        assert(forall|i: int| 0 <= i < t.len() ==> #[trigger] t[i] <= bound) by {
            assert(forall|i: int| 0 <= i < t.len() ==> t[i] == s[i]);
        }
        lemma_seq_max_le(t, bound);
    }
}

/// Summary of one generation's fitness distribution, in fixed point.
#[derive(Clone, Copy, Debug, PartialEq, Eq, Structural)]
pub struct Statistics {
    /// Smallest fitness, times `SCALE`.
    pub min_fitness: i64,
    /// Largest fitness, times `SCALE`.
    pub max_fitness: i64,
    /// Arithmetic mean of the fitness scores, times `SCALE`, truncated.
    pub avg_fitness: i64,
}

impl Statistics {
    /// Exact minimum, maximum and truncated mean of a fitness list.
    pub fn new(fitnesses: &Vec<u64>) -> (r: Statistics)
        requires
            0 < fitnesses@.len() <= POP_MAX,
            forall|i: int| 0 <= i < fitnesses@.len() ==> fitnesses@[i] <= FIT_MAX,
        ensures
            r.min_fitness == SCALE * seq_min(fitnesses@),
            r.max_fitness == SCALE * seq_max(fitnesses@),
            r.avg_fitness == (SCALE * sum_u64(fitnesses@)) / fitnesses@.len() as int,
            r.min_fitness <= r.avg_fitness <= r.max_fitness,
            0 <= r.min_fitness <= VAL_LIMIT,
            0 <= r.max_fitness <= VAL_LIMIT,
    {
        let n = fitnesses.len();
        let mut min: u64 = fitnesses[0];
        let mut max: u64 = fitnesses[0];
        let mut total: u64 = fitnesses[0];
        proof {
            assert(fitnesses@.take(1).drop_last() =~= Seq::<u64>::empty());
            assert(sum_u64(Seq::<u64>::empty()) == 0);
            assert(fitnesses@.take(1).last() == fitnesses@[0]);
            assert(seq_min(fitnesses@.take(1)) == fitnesses@[0]);
            assert(seq_max(fitnesses@.take(1)) == fitnesses@[0]);
            assert(sum_u64(fitnesses@.take(1)) == fitnesses@[0]);
        }
        let mut i: usize = 1;
        while i < n
            invariant
                1 <= i <= n,
                n == fitnesses@.len() <= POP_MAX,
                forall|k: int| 0 <= k < fitnesses@.len() ==> fitnesses@[k] <= FIT_MAX,
                min == seq_min(fitnesses@.take(i as int)),
                max == seq_max(fitnesses@.take(i as int)),
                total == sum_u64(fitnesses@.take(i as int)),
                max <= FIT_MAX,
                total <= i * FIT_MAX,
            decreases n - i,
        {
            proof {
                assert(fitnesses@.take(i as int + 1).drop_last() =~= fitnesses@.take(i as int));
                assert(fitnesses@.take(i as int + 1).last() == fitnesses@[i as int]);
                lemma_mul_inequality(i as int, POP_MAX as int, FIT_MAX as int);
                assert((i + 1) * FIT_MAX == i * FIT_MAX + FIT_MAX) by (nonlinear_arith);
            }
            let f = fitnesses[i];
            if f < min {
                min = f;
            }
            if f > max {
                max = f;
            }
            total = total + f;
            i = i + 1;
        }
        proof {
            assert(fitnesses@.take(n as int) =~= fitnesses@);
            lemma_mul_inequality(n as int, POP_MAX as int, FIT_MAX as int);
            lemma_sum_bounds(fitnesses@);
        }
        let avg: u64 = ((SCALE as u64) * total) / (n as u64);
        proof {
            let s = fitnesses@;
            let nn = n as int;
            assert((SCALE as int) * (nn * seq_min(s)) <= (SCALE as int) * sum_u64(s)
                <= (SCALE as int) * (nn * seq_max(s))) by (nonlinear_arith)
                requires
                    nn * seq_min(s) <= sum_u64(s) <= nn * seq_max(s),
            ;
            assert((SCALE as int) * (nn * seq_min(s)) == ((SCALE as int) * seq_min(s)) * nn)
                by (nonlinear_arith);
            assert((SCALE as int) * (nn * seq_max(s)) == ((SCALE as int) * seq_max(s)) * nn)
                by (nonlinear_arith);
            lemma_div_is_ordered(((SCALE as int) * seq_min(s)) * nn, (SCALE as int) * sum_u64(s),
                nn);
            lemma_div_is_ordered((SCALE as int) * sum_u64(s), ((SCALE as int) * seq_max(s)) * nn,
                nn);
            lemma_div_multiples_vanish((SCALE as int) * seq_min(s), nn);
            lemma_div_multiples_vanish((SCALE as int) * seq_max(s), nn);
            assert(((SCALE as int) * seq_min(s)) * nn == nn * ((SCALE as int) * seq_min(s)))
                by (nonlinear_arith);
            assert(((SCALE as int) * seq_max(s)) * nn == nn * ((SCALE as int) * seq_max(s)))
                by (nonlinear_arith);
            lemma_mul_inequality(seq_min(s) as int, FIT_MAX as int, SCALE as int);
            lemma_mul_inequality(seq_max(s) as int, FIT_MAX as int, SCALE as int);
        }
        Statistics {
            min_fitness: (SCALE as u64 * min) as i64,
            max_fitness: (SCALE as u64 * max) as i64,
            avg_fitness: avg as i64,
        }
    }
}

} // verus!
