//! Validation of the two endpoints' query parameters.
//!
//! The web façade decodes the query string and hands the raw parameter
//! values here; what comes back is either the parsed instruments or the
//! exact body of the client-error response.

use crate::token::{spec_token_of, Token};
use vstd::prelude::*;
use vstd::string::StringExecFns;

verus! {

/// The query parameters of the covariance endpoint.
pub struct CovarianceQuery {
    pub token_1: Option<String>,
    pub token_2: Option<String>,
}

/// The query parameter of the volatility endpoint.
pub struct VolatilityQuery {
    pub token: Option<String>,
}

/// Validates a covariance query: both parameters must be present and
/// name a recognized instrument.
///
/// A missing parameter is reported before an unrecognized one, and
/// `token_1` before `token_2`; the error string is the exact body of
/// the client-error response.
pub fn validate_covariance_query(q: &CovarianceQuery) -> (r: Result<(Token, Token), String>)
    ensures
        r is Ok <==> (q.token_1 is Some && spec_token_of((q.token_1->0)@) is Some && q.token_2
            is Some && spec_token_of((q.token_2->0)@) is Some),
        r matches Ok(t) ==> spec_token_of((q.token_1->0)@) == Some(t.0) && spec_token_of(
            (q.token_2->0)@,
        ) == Some(t.1),
        q.token_1 is None ==> (r matches Err(m) && m@ == "Missing query parameter: token_1"@),
        (q.token_1 is Some && q.token_2 is None) ==> (r matches Err(m) && m@
            == "Missing query parameter: token_2"@),
        (q.token_1 is Some && spec_token_of((q.token_1->0)@) is None && q.token_2 is Some) ==> (
        r matches Err(m) && m@ == "Invalid token_1 value: "@ + (q.token_1->0)@),
        (q.token_1 is Some && spec_token_of((q.token_1->0)@) is Some && q.token_2 is Some
            && spec_token_of((q.token_2->0)@) is None) ==> (r matches Err(m) && m@
            == "Invalid token_2 value: "@ + (q.token_2->0)@),
{
    let s1 = match &q.token_1 {
        Some(s) => s,
        None => {
            return Err(String::from_str("Missing query parameter: token_1"));
        },
    };
    let s2 = match &q.token_2 {
        Some(s) => s,
        None => {
            return Err(String::from_str("Missing query parameter: token_2"));
        },
    };
    let token_1 = match Token::from_str(s1.as_str()) {
        Some(t) => t,
        None => {
            let mut m = String::from_str("Invalid token_1 value: ");
            m.append(s1.as_str());
            return Err(m);
        },
    };
    let token_2 = match Token::from_str(s2.as_str()) {
        Some(t) => t,
        None => {
            let mut m = String::from_str("Invalid token_2 value: ");
            m.append(s2.as_str());
            return Err(m);
        },
    };
    Ok((token_1, token_2))
}

/// Validates a volatility query: the parameter must be present and name
/// a recognized instrument.  The error string is the exact body of the
/// client-error response.
pub fn validate_volatility_query(q: &VolatilityQuery) -> (r: Result<Token, String>)
    ensures
        r is Ok <==> (q.token is Some && spec_token_of((q.token->0)@) is Some),
        r matches Ok(t) ==> spec_token_of((q.token->0)@) == Some(t),
        q.token is None ==> (r matches Err(m) && m@ == "Missing query parameter: token"@),
        (q.token is Some && spec_token_of((q.token->0)@) is None) ==> (r matches Err(m) && m@
            == "Invalid token value: "@ + (q.token->0)@),
{
    let s = match &q.token {
        Some(s) => s,
        None => {
            return Err(String::from_str("Missing query parameter: token"));
        },
    };
    match Token::from_str(s.as_str()) {
        Some(t) => Ok(t),
        None => {
            let mut m = String::from_str("Invalid token value: ");
            m.append(s.as_str());
            Err(m)
        },
    }
}

} // verus!
