//! The True Range stream: remembers the previous close internally so callers
//! need only feed raw candles.

use vstd::prelude::*;
use crate::base::{ValueType, valid_value};
use crate::candle::Candle;

verus! {

/// A small stateful method over candles: its output is the True Range of the
/// incoming candle against the remembered previous close, and the very first
/// tick (the seed) uses the bar's own `high - low` because no previous close
/// exists yet.
#[derive(Debug, Clone, Copy, PartialEq, Eq, Structural)]
pub struct TR {
    pub prev_close: ValueType,
    pub value: ValueType,
}

impl TR {
    pub open spec fn wf(self) -> bool {
        &&& valid_value(self.prev_close)
        &&& valid_value(self.value)
    }

    /// Seeds the stream from the first candle. Construction cannot fail: the
    /// method has no tunable parameters.
    pub fn new(candle: &Candle) -> (r: TR)
        requires
            candle.valid(),
        ensures
            r.wf(),
            r.prev_close == candle.close,
            r.value == candle.spec_true_range_self(),
    {
        TR { prev_close: candle.close, value: candle.true_range_self() }
    }

    /// Consumes one candle: returns its True Range against the remembered
    /// previous close, then remembers the candle's own close.
    pub fn next(&mut self, candle: &Candle) -> (r: ValueType)
        requires
            old(self).wf(),
            candle.valid(),
        ensures
            final(self).wf(),
            r == candle.spec_true_range(old(self).prev_close),
            final(self).prev_close == candle.close,
            final(self).value == r,
            valid_value(r),
    {
        let r = candle.true_range(self.prev_close);
        self.prev_close = candle.close;
        self.value = r;
        r
    }

    /// Returns the last produced output without consuming anything.
    pub fn peek(&self) -> (r: ValueType)
        ensures
            r == self.value,
    {
        self.value
    }
}

} // verus!
