//! The failure taxonomy of the service, with its human-readable messages.
//!
//! Every failure above the web façade propagates as one of these
//! variants; the façade maps an unrecognized instrument name to a
//! client-error response before any of them can arise, and maps all of
//! them to a server-error response carrying [`ServiceError::message`].

use crate::dec::{push_dec_u64, spec_dec};
use crate::retry::{spec_method_name, HttpMethod};
use crate::token::{spec_display_name, Token};
use vstd::prelude::*;
use vstd::string::StringExecFns;

verus! {

/// A failure of the data pipeline.
#[derive(Debug)]
pub enum ServiceError {
    /// The executor was asked to use a method it does not support; no
    /// attempt is spent.
    UnsupportedMethod { method: HttpMethod },
    /// An attempt answered 504, which aborts the call at once.
    FatalHttp { url: String, status: u16 },
    /// Every attempt of the budget was spent without a 200 answer.
    AttemptsExhausted { url: String },
    /// The upstream document lacks the close-price array or the
    /// timestamp array.
    MalformedUpstreamData { token: Token },
    /// Two series share no common date.
    NoOverlap,
    /// After alignment the two series still differ in length; a
    /// defensive check, not expected with consistent upstream data.
    AlignmentInconsistency { token_1: Token, token_2: Token },
    /// A volatility request found no price data at all.
    EmptySeries,
    /// Fewer than two price points were available for log returns.
    InsufficientSamples,
}

/// The message text of each failure.
pub open spec fn spec_message(e: ServiceError) -> Seq<char> {
    match e {
        ServiceError::UnsupportedMethod { method } => "The method <"@ + spec_method_name(method)
            + "> is not supported."@,
        ServiceError::FatalHttp { url, status } => "URL: "@ + url@ + " Status: "@ + spec_dec(
            status as nat,
        ) + " | Can't process request."@,
        ServiceError::AttemptsExhausted { url } => "Attempts reached. Check URL: "@ + url@,
        ServiceError::MalformedUpstreamData { token } => "Not possible to fetch yearly token<"@
            + spec_display_name(token) + "> data."@,
        ServiceError::NoOverlap => "No common timestamps found between the two tokens."@,
        ServiceError::AlignmentInconsistency { token_1, token_2 } =>
            "The historical data amount from token_1<"@ + spec_display_name(token_1)
            + "> is not equal to token_2<"@ + spec_display_name(token_2) + ">."@,
        ServiceError::EmptySeries => "No price data available for the specified token."@,
        ServiceError::InsufficientSamples => "Not enough price points to calculate log returns."@,
    }
}

impl ServiceError {
    /// The human-readable description of the failure.
    pub fn message(&self) -> (r: String)
        ensures
            r@ == spec_message(*self),
    {
        match self {
            ServiceError::UnsupportedMethod { method } => {
                let mut out = String::from_str("The method <");
                out.append(method.name());
                out.append("> is not supported.");
                out
            },
            ServiceError::FatalHttp { url, status } => {
                let mut out = String::from_str("URL: ");
                out.append(url.as_str());
                out.append(" Status: ");
                push_dec_u64(&mut out, *status as u64);
                out.append(" | Can't process request.");
                out
            },
            ServiceError::AttemptsExhausted { url } => {
                let mut out = String::from_str("Attempts reached. Check URL: ");
                out.append(url.as_str());
                out
            },
            ServiceError::MalformedUpstreamData { token } => {
                let mut out = String::from_str("Not possible to fetch yearly token<");
                out.append(token.as_string());
                out.append("> data.");
                out
            },
            ServiceError::NoOverlap => String::from_str(
                "No common timestamps found between the two tokens.",
            ),
            ServiceError::AlignmentInconsistency { token_1, token_2 } => {
                let mut out = String::from_str("The historical data amount from token_1<");
                out.append(token_1.as_string());
                out.append("> is not equal to token_2<");
                out.append(token_2.as_string());
                out.append(">.");
                out
            },
            ServiceError::EmptySeries => String::from_str(
                "No price data available for the specified token.",
            ),
            ServiceError::InsufficientSamples => String::from_str(
                "Not enough price points to calculate log returns.",
            ),
        }
    }
}

} // verus!
