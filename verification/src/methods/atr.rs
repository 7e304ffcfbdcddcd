//! Average True Range as a single `Method` over candles.
//!
//! This is the single-smoothing shape: one configured moving average
//! directly smooths the True Range stream, and the True Range stream keeps
//! the previous close of the candles it has seen.

use vstd::prelude::*;
use crate::base::{Error, PeriodType, ValueType, valid_value};
use crate::candle::Candle;
use crate::helpers::{
    MA, MAInstance, lemma_ma_zero_settles, ma_feed_zeros, ma_out, ma_settle_bound, ma_step,
    hist_wf,
};
use crate::methods::tr::TR;

verus! {

/// Which smoothing algorithm an ATR method applies to its True Range
/// stream.
#[derive(Debug, Clone, Copy, PartialEq, Eq, Structural)]
pub enum ATRSmooth {
    RMA,
    SMA,
    EMA,
    WMA,
}

/// Construction parameters of the ATR method: the smoothing algorithm and
/// its window length.
#[derive(Debug, Clone, Copy, PartialEq, Eq, Structural)]
pub struct ATRParams {
    pub smooth: ATRSmooth,
    pub length: PeriodType,
}

impl ATRParams {
    /// The moving-average selector these parameters describe.
    pub open spec fn spec_selector(self) -> MA {
        match self.smooth {
            ATRSmooth::RMA => MA::RMA(self.length),
            ATRSmooth::SMA => MA::SMA(self.length),
            ATRSmooth::EMA => MA::EMA(self.length),
            ATRSmooth::WMA => MA::WMA(self.length),
        }
    }

    pub fn selector(&self) -> (r: MA)
        ensures
            r == self.spec_selector(),
    {
        match self.smooth {
            ATRSmooth::RMA => MA::RMA(self.length),
            ATRSmooth::SMA => MA::SMA(self.length),
            ATRSmooth::EMA => MA::EMA(self.length),
            ATRSmooth::WMA => MA::WMA(self.length),
        }
    }
}

/// The Average True Range method: a True Range stream smoothed by one
/// configured moving average.
#[derive(Debug, Clone, PartialEq, Eq)]
pub struct ATR {
    pub tr: TR,
    pub ma: MAInstance,
    pub value: ValueType,
}

impl ATR {
    pub open spec fn wf(self) -> bool {
        &&& self.tr.wf()
        &&& self.ma.wf()
        &&& valid_value(self.value)
    }

    /// Builds the method from its parameters and the first candle: the True
    /// Range stream is seeded from the candle, the moving average is seeded
    /// from that seed True Range, and the seed output is the moving
    /// average's seed output. Fails exactly when the window length is below
    /// one.
    pub fn new(params: ATRParams, candle: &Candle) -> (r: Result<ATR, Error>)
        requires
            candle.valid(),
        ensures
            r is Ok <==> params.length >= 1,
            r matches Err(e) ==> e == Error::WrongMethodParameters,
            r matches Ok(m) ==> ({
                &&& m.wf()
                &&& m.tr.prev_close == candle.close
                &&& m.ma.ctor() == params.spec_selector()
                &&& m.ma.hist() == seq![candle.spec_true_range_self() as ValueType]
                &&& m.value == candle.spec_true_range_self()
            }),
    {
        if params.length < 1 {
            return Err(Error::WrongMethodParameters);
        }
        let tr = TR::new(candle);
        let seed = tr.peek();
        let ma = match params.selector().init(seed) {
            Ok(m) => m,
            Err(_) => {
                return Err(Error::WrongMethodParameters);
            },
        };
        Ok(ATR { tr, ma, value: seed })
    }

    /// Consumes one candle: takes its True Range against the remembered
    /// previous close and hands it to the moving average, whose updated
    /// output is the new ATR value.
    pub fn next(&mut self, candle: &Candle) -> (r: ValueType)
        requires
            old(self).wf(),
            candle.valid(),
        ensures
            final(self).wf(),
            final(self).tr.prev_close == candle.close,
            final(self).tr.value == candle.spec_true_range(old(self).tr.prev_close),
            final(self).ma.ctor() == old(self).ma.ctor(),
            final(self).ma.hist() == ma_step(
                old(self).ma.ctor(),
                old(self).ma.hist(),
                candle.spec_true_range(old(self).tr.prev_close) as ValueType,
            ),
            r == ma_out(final(self).ma.ctor(), final(self).ma.hist()),
            final(self).value == r,
            valid_value(r),
    {
        let t = self.tr.next(candle);
        let r = self.ma.next(t);
        self.value = r;
        r
    }

    /// Returns the last produced output without consuming anything.
    pub fn peek(&self) -> (r: ValueType)
        ensures
            r == self.value,
    {
        self.value
    }
}

/// The moving-average state of an ATR method after it has consumed `t`
/// copies of one constant candle (a bar with `high == low == close`), as
/// pinned tick by tick by the contract of `ATR::next`: every True Range of
/// such a bar against its own close is zero.
pub open spec fn atr_const_hist(m: ATR, candle: Candle, t: nat) -> Seq<ValueType>
    decreases t,
{
    if t == 0 {
        m.ma.hist()
    } else if t == 1 {
        ma_step(m.ma.ctor(), m.ma.hist(), candle.spec_true_range(m.tr.prev_close) as ValueType)
    } else {
        ma_step(
            m.ma.ctor(),
            atr_const_hist(m, candle, (t - 1) as nat),
            candle.spec_true_range(candle.close) as ValueType,
        )
    }
}

/// ATR convergence under constant candles: whatever previous close the
/// method remembers, once it is fed only copies of one constant candle the
/// True Range is zero on every tick after the first, so the output settles
/// at exactly zero as smoothing progresses.
pub proof fn lemma_atr_constant_candles(m: ATR, candle: Candle, t: nat)
    requires
        m.wf(),
        candle.valid(),
        candle.high == candle.low,
        candle.close == candle.high,
        t >= 1 + ma_settle_bound(m.ma.ctor(), atr_const_hist(m, candle, 1)),
    ensures
        ma_out(m.ma.ctor(), atr_const_hist(m, candle, t)) == 0,
{
    let c = m.ma.ctor();
    let x1 = candle.spec_true_range(m.tr.prev_close) as ValueType;
    let h1 = atr_const_hist(m, candle, 1);
    assert(hist_wf(c, m.ma.hist())) by {
        crate::helpers::lemma_instance_hist_wf(m.ma);
    }
    assert(valid_value(x1));
    crate::helpers::lemma_ma_step_wf(c, m.ma.hist(), x1);
    assert(hist_wf(c, h1));
    let rest = (t - 1) as nat;
    assert(atr_const_hist(m, candle, t) == ma_feed_zeros(c, h1, rest)) by {
        lemma_atr_const_hist_feed(m, candle, rest);
    }
    lemma_ma_zero_settles(c, h1, rest);
}

/// After the first tick the constant-candle run is exactly a zero-fed
/// moving average.
proof fn lemma_atr_const_hist_feed(m: ATR, candle: Candle, t: nat)
    requires
        candle.high == candle.low,
        candle.close == candle.high,
    ensures
        atr_const_hist(m, candle, (t + 1) as nat) == ma_feed_zeros(
            m.ma.ctor(),
            atr_const_hist(m, candle, 1),
            t,
        ),
    decreases t,
{
    if t > 0 {
        lemma_atr_const_hist_feed(m, candle, (t - 1) as nat);
    }
}

} // verus!
