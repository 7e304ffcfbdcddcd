//! Simple moving average over a bounded window.

use vstd::prelude::*;
use crate::base::{
    Error, PeriodType, ValueType, MAX_VALUE, lemma_div_bound, lemma_seq_sum_bounds, seq_sum,
    valid_value, valid_values, window_step,
};

verus! {

/// Output of a simple moving average holding the window `w`: the arithmetic
/// mean (rounded down) of the samples in it. Until `period` samples have been
/// seen the window is partial and this is the mean of the samples seen so far.
pub open spec fn sma_out(w: Seq<ValueType>) -> int
    recommends
        w.len() >= 1,
{
    seq_sum(w) / w.len() as int
}

/// Arithmetic mean of the last `period` samples, seeded with the first
/// sample; while fewer than `period` samples have been seen, the mean of all
/// samples seen so far.
#[derive(Debug, Clone, PartialEq, Eq)]
pub struct SMA {
    pub period: PeriodType,
    pub window: Vec<ValueType>,
}

impl SMA {
    pub open spec fn wf(self) -> bool {
        &&& self.period >= 1
        &&& 1 <= self.window@.len() <= self.period
        &&& valid_values(self.window@)
    }

    /// Builds the method from its window length and the first sample; the
    /// seed output is the sample itself. Fails exactly when `period < 1`.
    pub fn new(period: PeriodType, value: ValueType) -> (r: Result<SMA, Error>)
        requires
            valid_value(value),
        ensures
            r is Ok <==> period >= 1,
            r matches Ok(m) ==> m.wf() && m.period == period && m.window@ == seq![value],
            r matches Err(e) ==> e == Error::WrongMethodParameters,
    {
        if period < 1 {
            Err(Error::WrongMethodParameters)
        } else {
            let mut window: Vec<ValueType> = Vec::new();
            window.push(value);
            proof {
                assert(window@ =~= seq![value]);
            }
            Ok(SMA { period, window })
        }
    }

    /// The mean (rounded down) of the samples currently in the window.
    fn mean(&self) -> (r: ValueType)
        requires
            self.wf(),
        ensures
            r == sma_out(self.window@),
            valid_value(r),
    {
        let n = self.window.len();
        let mut sum: u64 = 0;
        let mut i: usize = 0;
        while i < n
            invariant
                self.wf(),
                n == self.window@.len(),
                0 <= i <= n,
                sum == seq_sum(self.window@.take(i as int)),
                sum <= i * MAX_VALUE,
            decreases n - i,
    {
            proof {
                assert(self.window@.take(i + 1).drop_last() =~= self.window@.take(i as int));
                assert(self.window@[i as int] <= MAX_VALUE);
                assert(i * MAX_VALUE + MAX_VALUE == (i + 1) * MAX_VALUE) by (nonlinear_arith);
                assert((i + 1) * MAX_VALUE <= 256 * MAX_VALUE) by (nonlinear_arith)
                    requires
                        i + 1 <= 256,
                ;
            }
            sum = sum + self.window[i];
            i = i + 1;
        }
        proof {
            assert(self.window@.take(n as int) =~= self.window@);
            lemma_seq_sum_bounds(self.window@, MAX_VALUE);
            lemma_div_bound(seq_sum(self.window@), MAX_VALUE as int, n as int);
        }
        sum / (n as u64)
    }

    /// Consumes one sample and returns the updated mean: the sample joins the
    /// window, and once the window is full the oldest sample leaves.
    pub fn next(&mut self, x: ValueType) -> (r: ValueType)
        requires
            old(self).wf(),
            valid_value(x),
        ensures
            final(self).wf(),
            final(self).period == old(self).period,
            final(self).window@ == window_step(old(self).window@, x, old(self).period),
            r == sma_out(final(self).window@),
            valid_value(r),
    {
        if self.window.len() < self.period as usize {
            self.window.push(x);
        } else {
            self.window.remove(0);
            self.window.push(x);
            proof {
                assert(self.window@ =~= old(self).window@.subrange(
                    1,
                    old(self).window@.len() as int,
                ).push(x));
            }
        }
        proof {
            assert(valid_values(self.window@));
        }
        self.mean()
    }

    /// Returns the last produced output without consuming anything.
    pub fn peek(&self) -> (r: ValueType)
        requires
            self.wf(),
        ensures
            r == sma_out(self.window@),
    {
        self.mean()
    }
}

} // verus!
