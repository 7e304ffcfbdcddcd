//! Incremental (streaming) transforms over financial candle data.
//!
//! Every building block is a `Method`: a stateful stream transformer that is
//! constructed once from its parameters and a first sample, then advanced one
//! sample at a time in O(1) or O(window) work, never re-scanning history.
//! On top of that sit the moving-average family (SMA/EMA/RMA/WMA), the True
//! Range computation, and the indicator lifecycle (a validated `Config` turned
//! into a live `Instance`), illustrated by the Average True Range indicator.
//!
//! All values are scalar integers (`ValueType`); candle fields and method
//! samples are bounded so that every recurrence is computed exactly, with no
//! overflow.

pub mod base;
pub mod candle;
pub mod helpers;
pub mod indicators;
pub mod methods;
pub mod text;
