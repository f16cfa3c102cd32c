use vstd::prelude::*;
use crate::decimal::{decimal_of, parse_rate};

verus! {

/// One quote of a currency pair as the rates service sends it. Every figure
/// arrives as text; only `bid` is read.
#[derive(Clone, Debug)]
pub struct ExchangeRate {
    pub code: String,
    pub code_in: String,
    pub name: String,
    pub high: String,
    pub low: String,
    pub var_bid: String,
    pub pct_change: String,
    pub bid: String,
    pub ask: String,
    pub timestamp: String,
    pub create_date: String,
}

/// The service's answer: the quote of the dollar in reais.
#[derive(Clone, Debug)]
pub struct ExchangeRates {
    pub usd_brl: ExchangeRate,
}

/// Why no rate could be had.
#[derive(Clone, Copy, Debug, PartialEq, Eq, Structural)]
pub enum FetchError {
    /// The service could not be reached (name lookup, connection, timeout).
    Network,
    /// The service answered with a status outside 200..=299.
    Http(u16),
    /// The body was not a quote of the expected shape.
    Decode,
    /// The bid is missing its digits, is zero, or does not fit.
    InvalidRate,
}

/// What came back from asking the service for a quote.
#[derive(Clone, Debug)]
pub enum Reply {
    /// No answer arrived.
    Unreachable,
    /// An answer arrived with this status; `body` is the decoded quote, or
    /// `None` where the body did not decode.
    Received { status: u16, body: Option<ExchangeRates> },
}

/// The bid in millionths that a quote's text denotes, where it is a positive
/// decimal that fits in a `u64`.
pub open spec fn bid_value(bid: Seq<char>) -> Option<nat> {
    if decimal_of(bid).is_some() && 0 < decimal_of(bid).unwrap() <= u64::MAX {
        decimal_of(bid)
    } else {
        None
    }
}

pub open spec fn is_success(status: u16) -> bool {
    200 <= status <= 299
}

/// The rate, or the error, that a reply leads to.
pub open spec fn reply_outcome(reply: Reply) -> Result<nat, FetchError> {
    match reply {
        Reply::Unreachable => Err(FetchError::Network),
        Reply::Received { status, body } => {
            if !is_success(status) {
                Err(FetchError::Http(status))
            } else {
                match body {
                    None => Err(FetchError::Decode),
                    Some(rates) => match bid_value(rates.usd_brl.bid@) {
                        Some(v) => Ok(v),
                        None => Err(FetchError::InvalidRate),
                    },
                }
            }
        },
    }
}

pub open spec fn exit_code_of(e: FetchError) -> i32 {
    match e {
        FetchError::Network => 2,
        FetchError::Http(_) => 3,
        FetchError::Decode => 4,
        FetchError::InvalidRate => 5,
    }
}

impl FetchError {
    /// The process exit code that reports this kind of failure: one of its
    /// own for each kind, never zero.
    pub fn exit_code(&self) -> (r: i32)
        ensures
            r == exit_code_of(*self),
    {
        match self {
            FetchError::Network => 2,
            FetchError::Http(_) => 3,
            FetchError::Decode => 4,
            FetchError::InvalidRate => 5,
        }
    }
}

impl ExchangeRates {
    /// The bid of the quote in millionths; `InvalidRate` where it is no
    /// positive decimal that fits in a `u64`.
    pub fn bid(&self) -> (r: Result<u64, FetchError>)
        ensures
            r matches Ok(v) ==> bid_value(self.usd_brl.bid@) == Some(v as nat),
            r matches Err(e) ==> bid_value(self.usd_brl.bid@) is None && e == FetchError::InvalidRate,
    {
        match parse_rate(self.usd_brl.bid.as_str()) {
            Some(v) => {
                if v > 0 {
                    Ok(v)
                } else {
                    Err(FetchError::InvalidRate)
                }
            },
            None => Err(FetchError::InvalidRate),
        }
    }
}

/// Decides what a reply from the rates service yields: the current bid in
/// millionths, or the kind of failure, checked in the order transport,
/// status, body, bid.
pub fn rate_from_reply(reply: &Reply) -> (r: Result<u64, FetchError>)
    ensures
        r matches Ok(v) ==> reply_outcome(*reply) == Ok::<nat, FetchError>(v as nat),
        r matches Err(e) ==> reply_outcome(*reply) == Err::<nat, FetchError>(e),
{
    match reply {
        Reply::Unreachable => Err(FetchError::Network),
        Reply::Received { status, body } => {
            if *status < 200 || *status > 299 {
                Err(FetchError::Http(*status))
            } else {
                match body {
                    None => Err(FetchError::Decode),
                    Some(rates) => rates.bid(),
                }
            }
        },
    }
}

} // verus!
