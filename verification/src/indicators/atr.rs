//! The Average True Range indicator: configuration, validation, dynamic
//! parameter mutation, and the live instance.
//!
//! Of the two legitimate ATR composition shapes this indicator implements
//! the double-smoothing one: each bar's own True Range (`high - low`,
//! with no previous-close memory) is smoothed by `method1`, and that
//! result is smoothed again by `method2`. The single-smoothing shape,
//! with a remembered previous close, is the ATR method in
//! `crate::methods::atr`.

use vstd::prelude::*;
use crate::base::{Error, IndicatorResult, PeriodType, ValueType};
use crate::candle::Candle;
use crate::helpers::{MA, MAInstance, ma_out, ma_step, spec_parse_ma};
use crate::text::{parse_u8, spec_parse_u8, str_eq};

verus! {

/// Configuration of the ATR indicator: the two smoothing selectors and the
/// indicator's own declared period.
#[derive(Debug, Clone, Copy, PartialEq, Eq, Structural)]
pub struct ATR {
    pub method1: MA,
    pub method2: MA,
    pub period: PeriodType,
}

impl ATR {
    /// Every declared period is at least one.
    pub open spec fn spec_valid(self) -> bool {
        &&& self.method1.spec_period() >= 1
        &&& self.method2.spec_period() >= 1
        &&& self.period >= 1
    }

    /// Checks the declared periods.
    pub fn validate(&self) -> (r: bool)
        ensures
            r == self.spec_valid(),
    {
        self.method1.period() >= 1 && self.method2.period() >= 1 && self.period >= 1
    }

    /// Dynamic parameter mutation: looks the name up in the indicator's
    /// fixed parameter set, parses the value, and either applies it or
    /// fails with a parameter-parse error carrying the name and the
    /// offending value; an unknown name always fails. On every failure the
    /// configuration is left unchanged.
    pub fn set(&mut self, name: &str, value: String) -> (r: Result<(), Error>)
        ensures
            name@ == "method1"@ ==> match spec_parse_ma(value@) {
                Some(m) => r is Ok && *final(self) == (ATR { method1: m, ..*old(self) }),
                None => r is Err,
            },
            name@ == "method2"@ ==> match spec_parse_ma(value@) {
                Some(m) => r is Ok && *final(self) == (ATR { method2: m, ..*old(self) }),
                None => r is Err,
            },
            name@ == "period"@ ==> match spec_parse_u8(value@) {
                Some(p) => r is Ok && *final(self) == (ATR { period: p, ..*old(self) }),
                None => r is Err,
            },
            name@ != "method1"@ && name@ != "method2"@ && name@ != "period"@ ==> r is Err,
            r is Err ==> *final(self) == *old(self),
            r matches Err(e) ==> (e matches Error::ParameterParse(n, v) && n@ == name@ && v@
                == value@),
    {
        proof {
            reveal_strlit("method1");
            reveal_strlit("method2");
            reveal_strlit("period");
            assert(("method1")@[6] == '1' && ("method2")@[6] == '2');
            assert(("method1")@ != ("method2")@);
            assert(("period")@.len() == 6 && ("method1")@.len() == 7);
            assert(("method1")@ != ("period")@ && ("method2")@ != ("period")@);
        }
        if str_eq(name, "method1") {
            match MA::parse(value.as_str()) {
                Some(m) => {
                    self.method1 = m;
                    Ok(())
                },
                None => Err(Error::ParameterParse(String::from_str(name), value)),
            }
        } else if str_eq(name, "method2") {
            match MA::parse(value.as_str()) {
                Some(m) => {
                    self.method2 = m;
                    Ok(())
                },
                None => Err(Error::ParameterParse(String::from_str(name), value)),
            }
        } else if str_eq(name, "period") {
            match parse_u8(value.as_str()) {
                Some(p) => {
                    self.period = p;
                    Ok(())
                },
                None => Err(Error::ParameterParse(String::from_str(name), value)),
            }
        } else {
            Err(Error::ParameterParse(String::from_str(name), value))
        }
    }

    /// The indicator's output shape: exactly one primary value and no
    /// signals.
    pub fn size(&self) -> (r: (u8, u8))
        ensures
            r == (1u8, 0u8),
    {
        (1, 0)
    }

    /// The configuration-to-instance transition: validates, then seeds the
    /// first smoother from the seed candle's own True Range and the second
    /// smoother from zero. Fails exactly when validation fails.
    pub fn init(self, candle: &Candle) -> (r: Result<ATRInstance, Error>)
        requires
            candle.valid(),
        ensures
            r is Ok <==> self.spec_valid(),
            r matches Err(e) ==> e == Error::WrongConfig,
            r matches Ok(inst) ==> ({
                &&& inst.wf()
                &&& inst.cfg == self
                &&& inst.tr_ma.hist() == seq![candle.spec_true_range_self() as ValueType]
                &&& inst.ma.hist() == seq![0 as ValueType]
            }),
    {
        if !self.validate() {
            return Err(Error::WrongConfig);
        }
        let tr = candle.true_range_self();
        let tr_ma = match self.method1.init(tr) {
            Ok(m) => m,
            Err(_) => {
                return Err(Error::WrongConfig);
            },
        };
        let ma = match self.method2.init(0) {
            Ok(m) => m,
            Err(_) => {
                return Err(Error::WrongConfig);
            },
        };
        Ok(ATRInstance { cfg: self, tr_ma, ma })
    }
}

impl Default for ATR {
    /// Wilder smoothing of window fourteen for both smoothers.
    fn default() -> (r: ATR)
        ensures
            r == (ATR { method1: MA::RMA(14), method2: MA::RMA(14), period: 14 }),
    {
        ATR { method1: MA::RMA(14), method2: MA::RMA(14), period: 14 }
    }
}

/// One modelled tick of the ATR instance: the bar's own True Range runs
/// through the first smoother, its output through the second; the result is
/// the second smoother's output, together with both updated states.
pub open spec fn atr_tick(
    cfg: ATR,
    h1: Seq<ValueType>,
    h2: Seq<ValueType>,
    candle: Candle,
) -> (Seq<ValueType>, Seq<ValueType>, int) {
    let t = candle.spec_true_range_self() as ValueType;
    let h1n = ma_step(cfg.method1, h1, t);
    let v1 = ma_out(cfg.method1, h1n) as ValueType;
    let h2n = ma_step(cfg.method2, h2, v1);
    (h1n, h2n, ma_out(cfg.method2, h2n))
}

/// The indicator's output sequence over a whole candle sequence, one value
/// per tick.
pub open spec fn atr_run(
    cfg: ATR,
    h1: Seq<ValueType>,
    h2: Seq<ValueType>,
    candles: Seq<Candle>,
) -> Seq<int>
    decreases candles.len(),
{
    if candles.len() == 0 {
        Seq::empty()
    } else {
        let tick = atr_tick(cfg, h1, h2, candles.first());
        seq![tick.2] + atr_run(cfg, tick.0, tick.1, candles.drop_first())
    }
}

/// A live ATR indicator: it owns its now-immutable configuration and the
/// two smoothing states, and advances forever, one candle at a time.
#[derive(Debug, Clone, PartialEq, Eq)]
pub struct ATRInstance {
    pub cfg: ATR,
    pub tr_ma: MAInstance,
    pub ma: MAInstance,
}

impl ATRInstance {
    pub open spec fn wf(self) -> bool {
        &&& self.cfg.spec_valid()
        &&& self.tr_ma.wf()
        &&& self.ma.wf()
        &&& self.tr_ma.ctor() == self.cfg.method1
        &&& self.ma.ctor() == self.cfg.method2
    }

    /// Read-only view of the owned configuration.
    pub fn config(&self) -> (r: &ATR)
        ensures
            *r == self.cfg,
    {
        &self.cfg
    }

    /// Advances all internal methods in dependency order (True Range, first
    /// smoother, second smoother) and returns the indicator's result: one
    /// primary value, no signals, exactly as one `atr_tick` of the model.
    pub fn next(&mut self, candle: &Candle) -> (r: IndicatorResult)
        requires
            old(self).wf(),
            candle.valid(),
        ensures
            final(self).wf(),
            final(self).cfg == old(self).cfg,
            ({
                let tick = atr_tick(
                    old(self).cfg,
                    old(self).tr_ma.hist(),
                    old(self).ma.hist(),
                    *candle,
                );
                &&& final(self).tr_ma.hist() == tick.0
                &&& final(self).ma.hist() == tick.1
                &&& r.values@ == seq![tick.2 as ValueType]
            }),
            r.values@.len() == 1,
            r.signals@.len() == 0,
    {
        let tr = candle.true_range_self();
        let v1 = self.tr_ma.next(tr);
        let v2 = self.ma.next(v1);
        let mut values: Vec<ValueType> = Vec::new();
        values.push(v2);
        let signals: Vec<i8> = Vec::new();
        proof {
            assert(values@ =~= seq![v2]);
            assert(signals@ =~= Seq::<i8>::empty());
        }
        IndicatorResult::new(values, signals)
    }
}

/// Determinism of the indicator: two instances with the same configuration
/// and the same internal states yield, for one and the same candle
/// sequence, identical output sequences — the modelled run is a function of
/// configuration, states and candles alone.
pub proof fn lemma_instance_determinism(a: ATRInstance, b: ATRInstance, candles: Seq<Candle>)
    requires
        a.cfg == b.cfg,
        a.tr_ma.hist() == b.tr_ma.hist(),
        a.ma.hist() == b.ma.hist(),
    ensures
        atr_run(a.cfg, a.tr_ma.hist(), a.ma.hist(), candles) == atr_run(
            b.cfg,
            b.tr_ma.hist(),
            b.ma.hist(),
            candles,
        ),
{
}

} // verus!
