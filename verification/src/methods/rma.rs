//! Wilder's running moving average.

use vstd::prelude::*;
use crate::base::{
    Error, PeriodType, ValueType, MAX_VALUE, lemma_div_bound, lemma_div_strict, valid_value,
};

verus! {

/// One step of the RMA recurrence with window `p`:
/// `y_t = (1/p)*x_t + (1 - 1/p)*y_{t-1}`, computed exactly over the
/// integers as `(x_t + (p-1)*y_{t-1}) / p`.
pub open spec fn rma_step(y: int, x: ValueType, p: PeriodType) -> int {
    (x + (p - 1) * y) / (p as int)
}

/// The RMA value after the whole input sequence `xs` has been consumed by a
/// method seeded with `x0`.
pub open spec fn rma_run(x0: ValueType, xs: Seq<ValueType>, p: PeriodType) -> int
    decreases xs.len(),
{
    if xs.len() == 0 {
        x0 as int
    } else {
        rma_step(rma_run(x0, xs.drop_last(), p), xs.last(), p)
    }
}

/// The step keeps a bounded value bounded.
pub proof fn lemma_rma_step_bound(y: int, x: ValueType, p: PeriodType)
    requires
        0 <= y <= MAX_VALUE,
        valid_value(x),
        p >= 1,
    ensures
        0 <= rma_step(y, x, p) <= MAX_VALUE,
{
    assert(0 <= (p - 1) * y <= (p - 1) * MAX_VALUE) by (nonlinear_arith)
        requires
            0 <= y <= MAX_VALUE,
            p >= 1,
    ;
    assert(x + (p - 1) * y <= p * MAX_VALUE) by (nonlinear_arith)
        requires
            x <= MAX_VALUE,
            (p - 1) * y <= (p - 1) * MAX_VALUE,
            p >= 1,
    ;
    lemma_div_bound(x + (p - 1) * y, MAX_VALUE as int, p as int);
}

/// A zero value fed a zero sample stays zero.
pub proof fn lemma_rma_step_zero(p: PeriodType)
    requires
        p >= 1,
    ensures
        rma_step(0, 0, p) == 0,
{
    assert((p - 1) * 0 == 0) by (nonlinear_arith);
    vstd::arithmetic::div_mod::lemma_div_of0(p as int);
}

/// A positive value fed a zero sample strictly shrinks.
pub proof fn lemma_rma_step_decreases(y: int, p: PeriodType)
    requires
        1 <= y <= MAX_VALUE,
        p >= 1,
    ensures
        0 <= rma_step(y, 0, p) < y,
{
    assert(0 <= (p - 1) * y < p * y) by (nonlinear_arith)
        requires
            y >= 1,
            p >= 1,
    ;
    lemma_div_strict(0 + (p - 1) * y, y, p as int);
}

/// Wilder's smoothing: seeded with the first sample, then advanced by
/// `rma_step` once per sample.
#[derive(Debug, Clone, Copy, PartialEq, Eq, Structural)]
pub struct RMA {
    pub period: PeriodType,
    pub value: ValueType,
}

impl RMA {
    pub open spec fn wf(self) -> bool {
        &&& self.period >= 1
        &&& valid_value(self.value)
    }

    /// Builds the method from its window length and the first sample; the
    /// seed output is the sample itself. Fails exactly when `period < 1`.
    pub fn new(period: PeriodType, value: ValueType) -> (r: Result<RMA, Error>)
        requires
            valid_value(value),
        ensures
            r is Ok <==> period >= 1,
            r matches Ok(m) ==> m.wf() && m.period == period && m.value == value,
            r matches Err(e) ==> e == Error::WrongMethodParameters,
    {
        if period < 1 {
            Err(Error::WrongMethodParameters)
        } else {
            Ok(RMA { period, value })
        }
    }

    /// Consumes one sample and returns the updated average.
    pub fn next(&mut self, x: ValueType) -> (r: ValueType)
        requires
            old(self).wf(),
            valid_value(x),
        ensures
            final(self).wf(),
            final(self).period == old(self).period,
            final(self).value == rma_step(old(self).value as int, x, old(self).period),
            r == final(self).value,
            valid_value(r),
    {
        let p = self.period as u64;
        proof {
            assert((p - 1) * self.value <= (p - 1) * MAX_VALUE) by (nonlinear_arith)
                requires
                    self.value <= MAX_VALUE,
                    p >= 1,
            ;
            assert(x + (p - 1) * self.value <= p * MAX_VALUE) by (nonlinear_arith)
                requires
                    x <= MAX_VALUE,
                    (p - 1) * self.value <= (p - 1) * MAX_VALUE,
                    p >= 1,
            ;
            lemma_div_bound(x + (p - 1) * self.value, MAX_VALUE as int, p as int);
        }
        let num = x + (p - 1) * self.value;
        self.value = num / p;
        self.value
    }

    /// Returns the last produced output without consuming anything.
    pub fn peek(&self) -> (r: ValueType)
        ensures
            r == self.value,
    {
        self.value
    }
}

/// The RMA recurrence law: over any input sequence, the output after `t`
/// samples is the seed at `t = 0` and `rma_step` of the previous output and
/// the `t`-th sample thereafter.
pub proof fn lemma_rma_recurrence(x0: ValueType, xs: Seq<ValueType>, p: PeriodType, t: int)
    requires
        0 <= t <= xs.len(),
    ensures
        t == 0 ==> rma_run(x0, xs.take(t), p) == x0,
        t > 0 ==> rma_run(x0, xs.take(t), p) == rma_step(
            rma_run(x0, xs.take(t - 1), p),
            xs[t - 1],
            p,
        ),
{
    if t > 0 {
        assert(xs.take(t).drop_last() =~= xs.take(t - 1));
        assert(xs.take(t).last() == xs[t - 1]);
    }
}

} // verus!
