//! Converts a salary quoted in dollars to reais at the current exchange rate
//! and compares it with the salary at the rate of the last payment.
//!
//! All figures are exact fixed-point integers: rates in millionths of a real
//! per dollar, amounts in billionths of a real. Texts are read by
//! [`decimal`], replies of the rates service are judged by [`fetch`], the
//! figures come from [`projection`], and [`money`] writes them rounded to
//! cents. [`gradient`] colours the banner line by line.

pub mod decimal;
pub mod fetch;
pub mod gradient;
pub mod money;
pub mod projection;
pub mod report;
pub mod status;
