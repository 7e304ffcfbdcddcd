//! Shared scalar types, bounds, the error taxonomy, the indicator result
//! container, and the sequence arithmetic that the moving-average contracts
//! are stated over.

use vstd::prelude::*;

verus! {

/// Scalar sample/output type of every method in the library.
pub type ValueType = u64;

/// Window length type of every moving average.
pub type PeriodType = u8;

/// Largest scalar the library's arithmetic is specified over. Keeping every
/// candle field and method sample at or below this bound makes every running
/// sum and weighted sum fit in a `u64` with room to spare.
pub const MAX_VALUE: u64 = 0x1_0000_0000_0000;

/// A scalar the library accepts as a candle field or method sample.
pub open spec fn valid_value(v: ValueType) -> bool {
    v <= MAX_VALUE
}

/// Every element of `s` is at most `MAX_VALUE`.
pub open spec fn valid_values(s: Seq<ValueType>) -> bool {
    forall|i: int| 0 <= i < s.len() ==> valid_value(#[trigger] s[i])
}

/// Every element of `s` is zero.
pub open spec fn all_zero(s: Seq<ValueType>) -> bool {
    forall|i: int| 0 <= i < s.len() ==> #[trigger] s[i] == 0
}

/// Sum of a sequence of samples, as a mathematical integer.
pub open spec fn seq_sum(s: Seq<ValueType>) -> int
    decreases s.len(),
{
    if s.len() == 0 {
        0
    } else {
        seq_sum(s.drop_last()) + s.last()
    }
}

pub proof fn lemma_seq_sum_bounds(s: Seq<ValueType>, b: ValueType)
    requires
        forall|i: int| 0 <= i < s.len() ==> #[trigger] s[i] <= b,
    ensures
        0 <= seq_sum(s) <= s.len() * b,
    decreases s.len(),
{
    if s.len() > 0 {
        lemma_seq_sum_bounds(s.drop_last(), b);
        assert(s.last() <= b);
        assert((s.len() - 1) * b + b == s.len() * b) by (nonlinear_arith);
    }
}

pub proof fn lemma_seq_sum_zero(s: Seq<ValueType>)
    requires
        all_zero(s),
    ensures
        seq_sum(s) == 0,
    decreases s.len(),
{
    if s.len() > 0 {
        lemma_seq_sum_zero(s.drop_last());
    }
}

/// For nonnegative `a` and positive `d`, the quotient `a / d` stays below
/// any `b` with `a <= d * b`.
pub proof fn lemma_div_bound(a: int, b: int, d: int)
    requires
        0 <= a,
        0 < d,
        a <= d * b,
    ensures
        0 <= a / d <= b,
{
    vstd::arithmetic::div_mod::lemma_div_pos_is_pos(a, d);
    vstd::arithmetic::div_mod::lemma_div_is_ordered(a, d * b, d);
    vstd::arithmetic::div_mod::lemma_div_multiples_vanish(b, d);
}

/// For nonnegative `a` and positive `d`, the quotient `a / d` is strictly
/// below any `b` with `a < d * b`.
pub proof fn lemma_div_strict(a: int, b: int, d: int)
    requires
        0 <= a,
        0 < d,
        a < d * b,
    ensures
        0 <= a / d < b,
{
    vstd::arithmetic::div_mod::lemma_div_pos_is_pos(a, d);
    vstd::arithmetic::div_mod::lemma_div_is_ordered(a, d * b - 1, d);
    assert(d * b - 1 == d * (b - 1) + (d - 1)) by (nonlinear_arith);
    vstd::arithmetic::div_mod::lemma_div_multiples_vanish_fancy(b - 1, d - 1, d);
}

/// How a bounded window of the last `period` samples advances when one more
/// sample arrives: the sample is appended, and once the window is full the
/// oldest sample leaves.
pub open spec fn window_step(w: Seq<ValueType>, x: ValueType, period: PeriodType) -> Seq<ValueType> {
    if w.len() < period {
        w.push(x)
    } else {
        w.subrange(1, w.len() as int).push(x)
    }
}

/// The closed set of failure kinds of the library.
#[derive(Debug, Clone, PartialEq, Eq)]
pub enum Error {
    /// A named configuration field could not be parsed from its external
    /// string form, or the field name is unknown; carries the field name and
    /// the offending value.
    ParameterParse(String, String),
    /// `validate` rejected the configuration at `init` time.
    WrongConfig,
    /// A method was asked to construct with invalid parameters.
    WrongMethodParameters,
}

/// Fixed-shape output of one indicator tick: an ordered sequence of primary
/// values and an ordered sequence of discrete signal values.
#[derive(Debug, Clone, PartialEq, Eq)]
pub struct IndicatorResult {
    pub values: Vec<ValueType>,
    pub signals: Vec<i8>,
}

impl IndicatorResult {
    pub fn new(values: Vec<ValueType>, signals: Vec<i8>) -> (r: IndicatorResult)
        ensures
            r.values@ == values@,
            r.signals@ == signals@,
    {
        IndicatorResult { values, signals }
    }
}

} // verus!
