//! The runtime-selectable moving average: a tagged selector (`MA`) that picks
//! one of the four algorithms and a window length, and the tagged instance
//! (`MAInstance`) that dispatches the `Method` operations to whichever
//! variant was chosen at construction time. This is what lets an indicator
//! be configured with any smoothing algorithm loaded from data.

use vstd::prelude::*;
use crate::base::{
    Error, PeriodType, ValueType, all_zero, lemma_seq_sum_zero, valid_value, valid_values,
    window_step,
};
use crate::methods::ema::{
    EMA, ema_step, lemma_ema_step_bound, lemma_ema_step_decreases, lemma_ema_step_zero,
};
use crate::methods::rma::{
    RMA, rma_step, lemma_rma_step_bound, lemma_rma_step_decreases, lemma_rma_step_zero,
};
use crate::methods::sma::{SMA, sma_out};
use crate::methods::wma::{
    WMA, lemma_weight_total_bounds, lemma_wsum_zero, weight_total, wma_out,
};
use crate::text::{dec_digits, lemma_dec_digits_roundtrip, parse_u8, spec_parse_u8, u8_to_string};

verus! {

/// Selector for a moving-average algorithm together with its window length.
#[derive(Debug, Clone, Copy, PartialEq, Eq, Structural)]
pub enum MA {
    SMA(PeriodType),
    EMA(PeriodType),
    RMA(PeriodType),
    WMA(PeriodType),
}

/// A live moving average of whichever variant the selector chose.
#[derive(Debug, Clone, PartialEq, Eq)]
pub enum MAInstance {
    Sma(SMA),
    Ema(EMA),
    Rma(RMA),
    Wma(WMA),
}

impl MA {
    /// The declared window length.
    pub open spec fn spec_period(self) -> PeriodType {
        match self {
            MA::SMA(p) => p,
            MA::EMA(p) => p,
            MA::RMA(p) => p,
            MA::WMA(p) => p,
        }
    }

    pub fn period(&self) -> (r: PeriodType)
        ensures
            r == self.spec_period(),
    {
        match self {
            MA::SMA(p) => *p,
            MA::EMA(p) => *p,
            MA::RMA(p) => *p,
            MA::WMA(p) => *p,
        }
    }

    /// Builds the chosen variant, seeded with the first sample; the seed
    /// output is the sample itself. Fails exactly when the declared window
    /// length is below one.
    pub fn init(self, value: ValueType) -> (r: Result<MAInstance, Error>)
        requires
            valid_value(value),
        ensures
            r is Ok <==> self.spec_period() >= 1,
            r matches Ok(m) ==> m.wf() && m.ctor() == self && m.hist() == seq![value],
            r matches Err(e) ==> e == Error::WrongMethodParameters,
    {
        match self {
            MA::SMA(p) => match SMA::new(p, value) {
                Ok(m) => Ok(MAInstance::Sma(m)),
                Err(e) => Err(e),
            },
            MA::EMA(p) => match EMA::new(p, value) {
                Ok(m) => Ok(MAInstance::Ema(m)),
                Err(e) => Err(e),
            },
            MA::RMA(p) => match RMA::new(p, value) {
                Ok(m) => Ok(MAInstance::Rma(m)),
                Err(e) => Err(e),
            },
            MA::WMA(p) => match WMA::new(p, value) {
                Ok(m) => Ok(MAInstance::Wma(m)),
                Err(e) => Err(e),
            },
        }
    }
}

/// Current output of a moving average with selector `c` and state `h`.
pub open spec fn ma_out(c: MA, h: Seq<ValueType>) -> int {
    match c {
        MA::SMA(_) => sma_out(h),
        MA::EMA(_) => h[0] as int,
        MA::RMA(_) => h[0] as int,
        MA::WMA(_) => wma_out(h),
    }
}

/// How the state of a moving average with selector `c` advances on one
/// sample: the windowed variants slide their window, the recurrence
/// variants replace their single value.
pub open spec fn ma_step(c: MA, h: Seq<ValueType>, x: ValueType) -> Seq<ValueType> {
    match c {
        MA::SMA(p) => window_step(h, x, p),
        MA::EMA(p) => seq![ema_step(h[0] as int, x, p) as ValueType],
        MA::RMA(p) => seq![rma_step(h[0] as int, x, p) as ValueType],
        MA::WMA(p) => window_step(h, x, p),
    }
}

/// A well-formed state for selector `c`.
pub open spec fn hist_wf(c: MA, h: Seq<ValueType>) -> bool {
    &&& c.spec_period() >= 1
    &&& valid_values(h)
    &&& match c {
        MA::SMA(p) => 1 <= h.len() <= p,
        MA::EMA(_) => h.len() == 1,
        MA::RMA(_) => h.len() == 1,
        MA::WMA(p) => 1 <= h.len() <= p,
    }
}

impl MAInstance {
    /// The selector this instance was built from.
    pub open spec fn ctor(self) -> MA {
        match self {
            MAInstance::Sma(m) => MA::SMA(m.period),
            MAInstance::Ema(m) => MA::EMA(m.period),
            MAInstance::Rma(m) => MA::RMA(m.period),
            MAInstance::Wma(m) => MA::WMA(m.period),
        }
    }

    /// The mathematical state: the held window for the windowed variants,
    /// the single current value for the recurrence variants.
    pub open spec fn hist(self) -> Seq<ValueType> {
        match self {
            MAInstance::Sma(m) => m.window@,
            MAInstance::Ema(m) => seq![m.value],
            MAInstance::Rma(m) => seq![m.value],
            MAInstance::Wma(m) => m.window@,
        }
    }

    pub open spec fn wf(self) -> bool {
        match self {
            MAInstance::Sma(m) => m.wf(),
            MAInstance::Ema(m) => m.wf(),
            MAInstance::Rma(m) => m.wf(),
            MAInstance::Wma(m) => m.wf(),
        }
    }

    /// Consumes one sample, advancing the chosen variant by its own
    /// recurrence, and returns the updated output.
    pub fn next(&mut self, x: ValueType) -> (r: ValueType)
        requires
            old(self).wf(),
            valid_value(x),
        ensures
            final(self).wf(),
            final(self).ctor() == old(self).ctor(),
            final(self).hist() == ma_step(old(self).ctor(), old(self).hist(), x),
            r == ma_out(final(self).ctor(), final(self).hist()),
            valid_value(r),
    {
        match self {
            MAInstance::Sma(m) => m.next(x),
            MAInstance::Ema(m) => m.next(x),
            MAInstance::Rma(m) => m.next(x),
            MAInstance::Wma(m) => m.next(x),
        }
    }

    /// Returns the last produced output without consuming anything.
    pub fn peek(&self) -> (r: ValueType)
        requires
            self.wf(),
        ensures
            r == ma_out(self.ctor(), self.hist()),
    {
        match self {
            MAInstance::Sma(m) => m.peek(),
            MAInstance::Ema(m) => m.peek(),
            MAInstance::Rma(m) => m.peek(),
            MAInstance::Wma(m) => m.peek(),
        }
    }
}

/// The lower-case tag of each algorithm in its external string form.
pub open spec fn ma_name(m: MA) -> Seq<char> {
    match m {
        MA::SMA(_) => seq!['s', 'm', 'a'],
        MA::EMA(_) => seq!['e', 'm', 'a'],
        MA::RMA(_) => seq!['r', 'm', 'a'],
        MA::WMA(_) => seq!['w', 'm', 'a'],
    }
}

/// External string form of a selector: the algorithm tag, a dash, and the
/// window length in decimal.
pub open spec fn ma_string(m: MA) -> Seq<char> {
    ma_name(m) + seq!['-'] + dec_digits(m.spec_period() as nat)
}

/// What parsing a selector from its external string form yields: a known
/// three-letter tag, a dash, and a window length that fits; anything else
/// is rejected.
pub open spec fn spec_parse_ma(s: Seq<char>) -> Option<MA> {
    if s.len() < 4 || s[3] != '-' {
        None
    } else {
        match spec_parse_u8(s.skip(4)) {
            Some(p) => {
                let tag = s.take(3);
                if tag == seq!['s', 'm', 'a'] {
                    Some(MA::SMA(p))
                } else if tag == seq!['e', 'm', 'a'] {
                    Some(MA::EMA(p))
                } else if tag == seq!['r', 'm', 'a'] {
                    Some(MA::RMA(p))
                } else if tag == seq!['w', 'm', 'a'] {
                    Some(MA::WMA(p))
                } else {
                    None
                }
            },
            None => None,
        }
    }
}

impl MA {
    /// Prints the selector in its external string form, e.g. a Wilder
    /// average of window length fourteen prints as `rma-14`.
    pub fn to_config_string(&self) -> (r: String)
        ensures
            r@ == ma_string(*self),
    {
        proof {
            reveal_strlit("sma");
            reveal_strlit("ema");
            reveal_strlit("rma");
            reveal_strlit("wma");
            reveal_strlit("-");
        }
        let mut s = match self {
            MA::SMA(_) => String::from_str("sma"),
            MA::EMA(_) => String::from_str("ema"),
            MA::RMA(_) => String::from_str("rma"),
            MA::WMA(_) => String::from_str("wma"),
        };
        s.append("-");
        let digits = u8_to_string(self.period());
        s.append(digits.as_str());
        proof {
            assert(s@ =~= ma_string(*self));
        }
        s
    }

    /// Parses a selector from its external string form; succeeds exactly on
    /// a known tag, a dash, and a window length that fits.
    pub fn parse(s: &str) -> (r: Option<MA>)
        ensures
            r == spec_parse_ma(s@),
    {
        let n = s.unicode_len();
        if n < 4 {
            return None;
        }
        if s.get_char(3) != '-' {
            return None;
        }
        let digits = s.substring_char(4, n);
        let p = match parse_u8(digits) {
            Some(p) => p,
            None => {
                proof {
                    assert(digits@ =~= s@.skip(4));
                }
                return None;
            },
        };
        proof {
            assert(digits@ =~= s@.skip(4));
        }
        let c0 = s.get_char(0);
        let c1 = s.get_char(1);
        let c2 = s.get_char(2);
        proof {
            assert(s@.take(3) =~= seq![s@[0], s@[1], s@[2]]);
        }
        if c0 == 's' && c1 == 'm' && c2 == 'a' {
            proof {
                assert(s@.take(3) =~= seq!['s', 'm', 'a']);
            }
            Some(MA::SMA(p))
        } else if c0 == 'e' && c1 == 'm' && c2 == 'a' {
            proof {
                assert(s@.take(3) =~= seq!['e', 'm', 'a']);
            }
            Some(MA::EMA(p))
        } else if c0 == 'r' && c1 == 'm' && c2 == 'a' {
            proof {
                assert(s@.take(3) =~= seq!['r', 'm', 'a']);
            }
            Some(MA::RMA(p))
        } else if c0 == 'w' && c1 == 'm' && c2 == 'a' {
            proof {
                assert(s@.take(3) =~= seq!['w', 'm', 'a']);
            }
            Some(MA::WMA(p))
        } else {
            None
        }
    }
}

/// Round trip of the selector's external form: printing any selector and
/// parsing the result yields the selector back.
pub proof fn lemma_ma_string_roundtrip(m: MA)
    ensures
        spec_parse_ma(ma_string(m)) == Some(m),
{
    lemma_dec_digits_roundtrip(m.spec_period() as nat);
    let s = ma_string(m);
    assert(s.take(3) =~= ma_name(m));
    assert(s.skip(4) =~= dec_digits(m.spec_period() as nat));
    assert(s[3] == '-');
}

/// A well-formed instance carries a well-formed model state.
pub proof fn lemma_instance_hist_wf(m: MAInstance)
    requires
        m.wf(),
    ensures
        hist_wf(m.ctor(), m.hist()),
{
}

/// One step preserves well-formedness of the state.
pub proof fn lemma_ma_step_wf(c: MA, h: Seq<ValueType>, x: ValueType)
    requires
        hist_wf(c, h),
        valid_value(x),
    ensures
        hist_wf(c, ma_step(c, h, x)),
{
    match c {
        MA::SMA(_) => {},
        MA::EMA(p) => {
            lemma_ema_step_bound(h[0] as int, x, p);
        },
        MA::RMA(p) => {
            lemma_rma_step_bound(h[0] as int, x, p);
        },
        MA::WMA(_) => {},
    }
}

/// The output of an all-zero well-formed state is zero.
pub proof fn lemma_ma_out_all_zero(c: MA, h: Seq<ValueType>)
    requires
        hist_wf(c, h),
        all_zero(h),
    ensures
        ma_out(c, h) == 0,
{
    match c {
        MA::SMA(_) => {
            lemma_seq_sum_zero(h);
            vstd::arithmetic::div_mod::lemma_div_of0(h.len() as int);
        },
        MA::EMA(_) => {},
        MA::RMA(_) => {},
        MA::WMA(_) => {
            lemma_wsum_zero(h);
            lemma_weight_total_bounds(h.len());
            vstd::arithmetic::div_mod::lemma_div_of0(weight_total(h.len()));
        },
    }
}

/// The state after `t` zero samples have been fed.
pub open spec fn ma_feed_zeros(c: MA, h: Seq<ValueType>, t: nat) -> Seq<ValueType>
    decreases t,
{
    if t == 0 {
        h
    } else {
        ma_step(c, ma_feed_zeros(c, h, (t - 1) as nat), 0)
    }
}

/// The last `k` entries of `s` are zero.
pub open spec fn suffix_zero(s: Seq<ValueType>, k: int) -> bool {
    forall|j: int| 0 <= j < s.len() && j >= s.len() - k ==> #[trigger] s[j] == 0
}

/// Feeding a zero sample extends a window's zero suffix by one.
pub proof fn lemma_window_step_suffix(h: Seq<ValueType>, p: PeriodType, k: int)
    requires
        1 <= h.len() <= p,
        suffix_zero(h, k),
    ensures
        suffix_zero(window_step(h, 0, p), k + 1),
{
    let w = window_step(h, 0, p);
    if h.len() < p {
        assert forall|j: int| 0 <= j < w.len() && j >= w.len() - (k + 1) implies w[j] == 0 by {
            if j < h.len() {
                assert(h[j] == 0);
            }
        }
    } else {
        assert forall|j: int| 0 <= j < w.len() && j >= w.len() - (k + 1) implies w[j] == 0 by {
            if j < h.len() - 1 {
                assert(w[j] == h[j + 1]);
                assert(h[j + 1] == 0);
            }
        }
    }
}

/// After feeding `t` zero samples, a windowed state is well formed and its
/// last `t` entries are zero.
pub proof fn lemma_windowed_feed_zeros(c: MA, h: Seq<ValueType>, t: nat)
    requires
        hist_wf(c, h),
        c is SMA || c is WMA,
    ensures
        hist_wf(c, ma_feed_zeros(c, h, t)),
        suffix_zero(ma_feed_zeros(c, h, t), t as int),
    decreases t,
{
    if t > 0 {
        let prev = ma_feed_zeros(c, h, (t - 1) as nat);
        lemma_windowed_feed_zeros(c, h, (t - 1) as nat);
        lemma_ma_step_wf(c, prev, 0);
        lemma_window_step_suffix(prev, c.spec_period(), t - 1);
    }
}

/// After feeding `t` zero samples, a recurrence state is well formed and its
/// value has shrunk by at least `t`, stopping at zero.
pub proof fn lemma_smooth_feed_zeros(c: MA, h: Seq<ValueType>, t: nat)
    requires
        hist_wf(c, h),
        c is EMA || c is RMA,
    ensures
        hist_wf(c, ma_feed_zeros(c, h, t)),
        ma_feed_zeros(c, h, t).len() == 1,
        ma_feed_zeros(c, h, t)[0] <= vstd::math::max(h[0] - t, 0),
    decreases t,
{
    if t > 0 {
        let prev = ma_feed_zeros(c, h, (t - 1) as nat);
        lemma_smooth_feed_zeros(c, h, (t - 1) as nat);
        lemma_ma_step_wf(c, prev, 0);
        let vp = prev[0];
        match c {
            MA::EMA(p) => {
                if vp == 0 {
                    lemma_ema_step_zero(p);
                } else {
                    lemma_ema_step_decreases(vp as int, p);
                }
            },
            MA::RMA(p) => {
                if vp == 0 {
                    lemma_rma_step_zero(p);
                } else {
                    lemma_rma_step_decreases(vp as int, p);
                }
            },
            _ => {},
        }
    }
}

/// How many zero samples are certainly enough for the output to reach zero:
/// a full window turnover for the windowed variants, a full drain of the
/// current value for the recurrence variants.
pub open spec fn ma_settle_bound(c: MA, h: Seq<ValueType>) -> int {
    match c {
        MA::SMA(p) => p as int,
        MA::EMA(_) => h[0] as int,
        MA::RMA(_) => h[0] as int,
        MA::WMA(p) => p as int,
    }
}

/// Fed nothing but zero samples, every moving-average variant settles to an
/// output of exactly zero once `ma_settle_bound` samples have gone in.
pub proof fn lemma_ma_zero_settles(c: MA, h: Seq<ValueType>, t: nat)
    requires
        hist_wf(c, h),
        t >= ma_settle_bound(c, h),
    ensures
        hist_wf(c, ma_feed_zeros(c, h, t)),
        ma_out(c, ma_feed_zeros(c, h, t)) == 0,
{
    let fed = ma_feed_zeros(c, h, t);
    match c {
        MA::SMA(_) => {
            lemma_windowed_feed_zeros(c, h, t);
            assert(all_zero(fed));
            lemma_ma_out_all_zero(c, fed);
        },
        MA::WMA(_) => {
            lemma_windowed_feed_zeros(c, h, t);
            assert(all_zero(fed));
            lemma_ma_out_all_zero(c, fed);
        },
        MA::EMA(_) => {
            lemma_smooth_feed_zeros(c, h, t);
            assert(all_zero(fed));
            lemma_ma_out_all_zero(c, fed);
        },
        MA::RMA(_) => {
            lemma_smooth_feed_zeros(c, h, t);
            assert(all_zero(fed));
            lemma_ma_out_all_zero(c, fed);
        },
    }
}

} // verus!
