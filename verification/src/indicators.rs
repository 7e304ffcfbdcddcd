//! The indicator lifecycle worked example: the Average True Range
//! indicator's configuration and live instance.

pub mod atr;
