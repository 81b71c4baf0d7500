//! Affiliate tracking: exchange rate synchronisation and commission accrual.
//!
//! Money is counted in whole millionths of a currency unit and exchange rates
//! in whole billionths, so that every amount, rate and commission is an
//! integer and every rule below is exact.
//! Points in time are seconds since the Unix epoch, in UTC.

pub mod config;
pub mod exchange;
pub mod notifier;
pub mod responder;
pub mod storage;
mod text;
pub mod track;
