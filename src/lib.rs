//! Reference data for a fixed universe of crypto trading pairs: the rules that
//! turn exchange instrument listings into normalized records (symbol, tick size,
//! lot size) keyed by product type, exchange and symbol.
pub mod binance;
pub mod model;
pub mod normalize;
pub mod okx;
