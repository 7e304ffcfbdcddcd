//! Exponential moving average.

use vstd::prelude::*;
use crate::base::{
    Error, PeriodType, ValueType, MAX_VALUE, lemma_div_bound, lemma_div_strict, valid_value,
};

verus! {

/// One step of the EMA recurrence with window `w`:
/// `y_t = a*x_t + (1-a)*y_{t-1}` with `a = 2/(w+1)`, computed exactly over
/// the integers as `(2*x_t + (w-1)*y_{t-1}) / (w+1)`.
pub open spec fn ema_step(y: int, x: ValueType, p: PeriodType) -> int {
    (2 * x + (p - 1) * y) / (p + 1)
}

/// The step keeps a bounded value bounded.
pub proof fn lemma_ema_step_bound(y: int, x: ValueType, p: PeriodType)
    requires
        0 <= y <= MAX_VALUE,
        valid_value(x),
        p >= 1,
    ensures
        0 <= ema_step(y, x, p) <= MAX_VALUE,
{
    assert(0 <= (p - 1) * y <= (p - 1) * MAX_VALUE) by (nonlinear_arith)
        requires
            0 <= y <= MAX_VALUE,
            p >= 1,
    ;
    assert(2 * x + (p - 1) * y <= (p + 1) * MAX_VALUE) by (nonlinear_arith)
        requires
            x <= MAX_VALUE,
            (p - 1) * y <= (p - 1) * MAX_VALUE,
            p >= 1,
    ;
    lemma_div_bound(2 * x + (p - 1) * y, MAX_VALUE as int, p + 1);
}

/// A zero value fed a zero sample stays zero.
pub proof fn lemma_ema_step_zero(p: PeriodType)
    requires
        p >= 1,
    ensures
        ema_step(0, 0, p) == 0,
{
    assert((p - 1) * 0 == 0) by (nonlinear_arith);
    vstd::arithmetic::div_mod::lemma_div_of0(p + 1);
}

/// A positive value fed a zero sample strictly shrinks.
pub proof fn lemma_ema_step_decreases(y: int, p: PeriodType)
    requires
        1 <= y <= MAX_VALUE,
        p >= 1,
    ensures
        0 <= ema_step(y, 0, p) < y,
{
    assert(0 <= (p - 1) * y < (p + 1) * y) by (nonlinear_arith)
        requires
            y >= 1,
            p >= 1,
    ;
    lemma_div_strict(2 * 0 + (p - 1) * y, y, p + 1);
}

/// Exponential smoothing: seeded with the first sample, then advanced by
/// `ema_step` once per sample.
#[derive(Debug, Clone, Copy, PartialEq, Eq, Structural)]
pub struct EMA {
    pub period: PeriodType,
    pub value: ValueType,
}

impl EMA {
    pub open spec fn wf(self) -> bool {
        &&& self.period >= 1
        &&& valid_value(self.value)
    }

    /// Builds the method from its window length and the first sample; the
    /// seed output is the sample itself. Fails exactly when `period < 1`.
    pub fn new(period: PeriodType, value: ValueType) -> (r: Result<EMA, Error>)
        requires
            valid_value(value),
        ensures
            r is Ok <==> period >= 1,
            r matches Ok(m) ==> m.wf() && m.period == period && m.value == value,
            r matches Err(e) ==> e == Error::WrongMethodParameters,
    {
        if period < 1 {
            Err(Error::WrongMethodParameters)
        } else {
            Ok(EMA { period, value })
        }
    }

    /// Consumes one sample and returns the updated average.
    pub fn next(&mut self, x: ValueType) -> (r: ValueType)
        requires
            old(self).wf(),
            valid_value(x),
        ensures
            final(self).wf(),
            final(self).period == old(self).period,
            final(self).value == ema_step(old(self).value as int, x, old(self).period),
            r == final(self).value,
            valid_value(r),
    {
        let p = self.period as u64;
        proof {
            assert((p - 1) * self.value <= (p - 1) * MAX_VALUE) by (nonlinear_arith)
                requires
                    self.value <= MAX_VALUE,
                    p >= 1,
            ;
            assert(2 * x + (p - 1) * self.value <= (p + 1) * MAX_VALUE) by (nonlinear_arith)
                requires
                    x <= MAX_VALUE,
                    (p - 1) * self.value <= (p - 1) * MAX_VALUE,
                    p >= 1,
            ;
            lemma_div_bound(2 * x + (p - 1) * self.value, MAX_VALUE as int, p as int + 1);
        }
        let num = 2 * x + (p - 1) * self.value;
        self.value = num / (p + 1);
        self.value
    }

    /// Returns the last produced output without consuming anything.
    pub fn peek(&self) -> (r: ValueType)
        ensures
            r == self.value,
    {
        self.value
    }
}

} // verus!
