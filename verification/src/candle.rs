//! One OHLCV time-bar and its derived True Range quantities.

use vstd::prelude::*;
use crate::base::{ValueType, valid_value};

verus! {

/// One time-bar: open, high, low, close and volume, conceptually immutable
/// per tick.
#[derive(Debug, Clone, Copy, PartialEq, Eq, Structural)]
pub struct Candle {
    pub open: ValueType,
    pub high: ValueType,
    pub low: ValueType,
    pub close: ValueType,
    pub volume: ValueType,
}

impl Candle {
    /// A candle the library accepts: every field within the arithmetic bound,
    /// and the low not above the high.
    pub open spec fn valid(self) -> bool {
        &&& valid_value(self.open)
        &&& valid_value(self.high)
        &&& valid_value(self.low)
        &&& valid_value(self.close)
        &&& valid_value(self.volume)
        &&& self.low <= self.high
    }

    /// True Range against a previous close:
    /// `max(high, prev_close) - min(low, prev_close)`.
    pub open spec fn spec_true_range(self, prev_close: ValueType) -> int {
        vstd::math::max(self.high as int, prev_close as int) - vstd::math::min(
            self.low as int,
            prev_close as int,
        )
    }

    /// True Range of the bar by itself, used before any previous close
    /// exists: `high - low`.
    pub open spec fn spec_true_range_self(self) -> int {
        self.high - self.low
    }

    /// True Range against an externally supplied previous close. It is never
    /// negative, and it reduces to `high - low` whenever the previous close
    /// lies within the bar's range.
    pub fn true_range(&self, prev_close: ValueType) -> (r: ValueType)
        ensures
            r == self.spec_true_range(prev_close),
            r >= 0,
            self.low <= prev_close <= self.high ==> r == self.spec_true_range_self(),
            valid_value(self.high) && valid_value(prev_close) ==> valid_value(r),
    {
        let hi = if self.high >= prev_close {
            self.high
        } else {
            prev_close
        };
        let lo = if self.low <= prev_close {
            self.low
        } else {
            prev_close
        };
        hi - lo
    }

    /// True Range of the bar by itself.
    pub fn true_range_self(&self) -> (r: ValueType)
        requires
            self.low <= self.high,
        ensures
            r == self.spec_true_range_self(),
            valid_value(self.high) ==> valid_value(r),
    {
        self.high - self.low
    }
}

} // verus!
