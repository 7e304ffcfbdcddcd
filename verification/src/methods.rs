//! The concrete `Method` implementations: the four moving averages, the
//! True Range stream, and the Average True Range method built from them.

pub mod atr;
pub mod ema;
pub mod rma;
pub mod sma;
pub mod tr;
pub mod wma;
