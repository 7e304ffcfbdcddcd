//! Linearly weighted moving average over a bounded window.

use vstd::prelude::*;
use crate::base::{
    Error, PeriodType, ValueType, MAX_VALUE, lemma_div_bound, valid_value, valid_values,
    window_step,
};

verus! {

/// Sum of the weights `1 + 2 + ... + n`.
pub open spec fn weight_total(n: nat) -> int
    decreases n,
{
    if n == 0 {
        0
    } else {
        weight_total((n - 1) as nat) + n
    }
}

/// Weighted sum of the window `s`, oldest sample first: the sample `i`
/// positions from the front carries weight `i + 1`, so the newest sample
/// weighs most and weights decay linearly with age.
pub open spec fn wsum(s: Seq<ValueType>) -> int
    decreases s.len(),
{
    if s.len() == 0 {
        0
    } else {
        wsum(s.drop_last()) + s.len() * s.last()
    }
}

/// Output of a weighted moving average holding the window `w`: the weighted
/// mean (rounded down) of the samples in it, under the linear weights above.
pub open spec fn wma_out(w: Seq<ValueType>) -> int
    recommends
        w.len() >= 1,
{
    wsum(w) / weight_total(w.len())
}

pub proof fn lemma_weight_total_closed(n: nat)
    ensures
        2 * weight_total(n) == n * (n + 1),
    decreases n,
{
    if n > 0 {
        let m = (n - 1) as nat;
        lemma_weight_total_closed(m);
        assert(weight_total(n) == weight_total(m) + n);
        assert(m * (m + 1) + 2 * n == n * (n + 1)) by (nonlinear_arith)
            requires
                m == n - 1,
                n >= 1,
        ;
    } else {
        assert(n * (n + 1) == 0) by (nonlinear_arith)
            requires
                n == 0,
        ;
    }
}

pub proof fn lemma_weight_total_bounds(n: nat)
    requires
        n <= 256,
    ensures
        0 <= weight_total(n) <= 32896,
        n >= 1 ==> weight_total(n) >= 1,
{
    lemma_weight_total_closed(n);
    assert(n * (n + 1) <= 256 * 257) by (nonlinear_arith)
        requires
            0 <= n <= 256,
    ;
    assert(n >= 1 ==> n * (n + 1) >= 2) by (nonlinear_arith);
}

pub proof fn lemma_wsum_bounds(s: Seq<ValueType>, b: ValueType)
    requires
        forall|i: int| 0 <= i < s.len() ==> #[trigger] s[i] <= b,
    ensures
        0 <= wsum(s) <= weight_total(s.len()) * b,
    decreases s.len(),
{
    if s.len() > 0 {
        lemma_wsum_bounds(s.drop_last(), b);
        assert(s.last() <= b);
        assert(s.len() * s.last() <= s.len() * b) by (nonlinear_arith)
            requires
                s.last() <= b,
                s.len() >= 0,
        ;
        assert(weight_total((s.len() - 1) as nat) * b + s.len() * b == weight_total(s.len()) * b)
            by (nonlinear_arith)
            requires
                weight_total(s.len()) == weight_total((s.len() - 1) as nat) + s.len(),
        ;
    }
}

/// The weighted sum of an all-zero window is zero.
pub proof fn lemma_wsum_zero(s: Seq<ValueType>)
    requires
        crate::base::all_zero(s),
    ensures
        wsum(s) == 0,
    decreases s.len(),
{
    if s.len() > 0 {
        lemma_wsum_zero(s.drop_last());
        assert(s[s.len() - 1] == 0);
        assert(s.len() * 0 == 0) by (nonlinear_arith);
    }
}

/// Weighted mean of the last `period` samples with linearly decaying
/// weights, seeded with the first sample; while fewer than `period` samples
/// have been seen, the weighted mean of the samples seen so far.
#[derive(Debug, Clone, PartialEq, Eq)]
pub struct WMA {
    pub period: PeriodType,
    pub window: Vec<ValueType>,
}

impl WMA {
    pub open spec fn wf(self) -> bool {
        &&& self.period >= 1
        &&& 1 <= self.window@.len() <= self.period
        &&& valid_values(self.window@)
    }

    /// Builds the method from its window length and the first sample; the
    /// seed output is the sample itself. Fails exactly when `period < 1`.
    pub fn new(period: PeriodType, value: ValueType) -> (r: Result<WMA, Error>)
        requires
            valid_value(value),
        ensures
            r is Ok <==> period >= 1,
            r matches Ok(m) ==> m.wf() && m.period == period && m.window@ == seq![value],
            r matches Err(e) ==> e == Error::WrongMethodParameters,
    {
        if period < 1 {
            Err(Error::WrongMethodParameters)
        } else {
            let mut window: Vec<ValueType> = Vec::new();
            window.push(value);
            proof {
                assert(window@ =~= seq![value]);
            }
            Ok(WMA { period, window })
        }
    }

    /// The weighted mean (rounded down) of the samples currently in the
    /// window.
    fn weighted_mean(&self) -> (r: ValueType)
        requires
            self.wf(),
        ensures
            r == wma_out(self.window@),
            valid_value(r),
    {
        let n = self.window.len();
        let mut ws: u64 = 0;
        let mut tw: u64 = 0;
        let mut i: usize = 0;
        while i < n
            invariant
                self.wf(),
                n == self.window@.len(),
                0 <= i <= n,
                ws == wsum(self.window@.take(i as int)),
                tw == weight_total(i as nat),
                ws <= weight_total(i as nat) * MAX_VALUE,
                tw <= 32896,
            decreases n - i,
        {
            proof {
                lemma_weight_total_bounds((i + 1) as nat);
                assert(self.window@.take(i + 1).drop_last() =~= self.window@.take(i as int));
                assert(self.window@[i as int] <= MAX_VALUE);
                assert((i + 1) * self.window@[i as int] <= (i + 1) * MAX_VALUE) by (nonlinear_arith)
                    requires
                        self.window@[i as int] <= MAX_VALUE,
                        i >= 0,
                ;
                assert(weight_total(i as nat) * MAX_VALUE + (i + 1) * MAX_VALUE == weight_total(
                    (i + 1) as nat,
                ) * MAX_VALUE) by (nonlinear_arith)
                    requires
                        weight_total((i + 1) as nat) == weight_total(i as nat) + i + 1,
                ;
                assert(weight_total((i + 1) as nat) * MAX_VALUE <= 32896 * MAX_VALUE)
                    by (nonlinear_arith)
                    requires
                        weight_total((i + 1) as nat) <= 32896,
                ;
            }
            let weight = (i as u64) + 1;
            ws = ws + weight * self.window[i];
            tw = tw + weight;
            i = i + 1;
        }
        proof {
            assert(self.window@.take(n as int) =~= self.window@);
            lemma_weight_total_bounds(n as nat);
            lemma_wsum_bounds(self.window@, MAX_VALUE);
            lemma_div_bound(wsum(self.window@), MAX_VALUE as int, weight_total(n as nat));
        }
        ws / tw
    }

    /// Consumes one sample and returns the updated weighted mean: the sample
    /// joins the window, and once the window is full the oldest sample
    /// leaves.
    pub fn next(&mut self, x: ValueType) -> (r: ValueType)
        requires
            old(self).wf(),
            valid_value(x),
        ensures
            final(self).wf(),
            final(self).period == old(self).period,
            final(self).window@ == window_step(old(self).window@, x, old(self).period),
            r == wma_out(final(self).window@),
            valid_value(r),
    {
        if self.window.len() < self.period as usize {
            self.window.push(x);
        } else {
            self.window.remove(0);
            self.window.push(x);
            proof {
                assert(self.window@ =~= old(self).window@.subrange(
                    1,
                    old(self).window@.len() as int,
                ).push(x));
            }
        }
        proof {
            assert(valid_values(self.window@));
        }
        self.weighted_mean()
    }

    /// Returns the last produced output without consuming anything.
    pub fn peek(&self) -> (r: ValueType)
        requires
            self.wf(),
        ensures
            r == wma_out(self.window@),
    {
        self.weighted_mean()
    }
}

} // verus!
