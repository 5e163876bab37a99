//! Deribit's answer to a subscription request, and its validation.
use crate::error::SocketError;
use crate::text::{decimal_text, u64_text};
use vstd::prelude::*;

verus! {

/// Deribit's error object.
#[derive(Clone, Debug, PartialEq, Eq)]
pub struct DeribitError {
    pub code: i64,
    pub message: String,
}

/// The result of a subscription request: the channels subscribed, or an error.
#[derive(Clone, Debug, PartialEq, Eq)]
pub enum DeribitSubResult {
    Success { result: Vec<String> },
    Error { error: DeribitError },
}

/// Deribit's JSON-RPC answer to a subscription request.
#[derive(Clone, Debug, PartialEq, Eq)]
pub struct DeribitSubResponse {
    pub jsonrpc: String,
    pub id: u64,
    pub result: DeribitSubResult,
}

/// The decimal text of a signed integer, as `i64`'s `Display` writes it.
pub open spec fn signed_text(n: int) -> Seq<char> {
    if n < 0 {
        "-"@ + decimal_text((-n) as nat)
    } else {
        decimal_text(n as nat)
    }
}

/// The decimal text of `n`, as `i64`'s `Display` writes it.
pub fn i64_text(n: i64) -> (r: String)
    ensures
        r@ == signed_text(n as int),
{
    if n < 0 {
        let m: u64 = if n == i64::MIN {
            9223372036854775808u64
        } else {
            (-n) as u64
        };
        let mut r = String::from_str("-");
        let digits = u64_text(m);
        r.append(digits.as_str());
        r
    } else {
        u64_text(n as u64)
    }
}

/// The message of a refused subscription.
pub open spec fn sub_failure_msg(code: i64, message: Seq<char>) -> Seq<char> {
    "received failure subscription response code: "@ + signed_text(code as int) + " with message: "@ + message
}

impl DeribitSubResponse {
    /// Accepts a successful answer as it is; an error answer fails to subscribe,
    /// with its code and message.
    pub fn validate(self) -> (r: Result<Self, SocketError>)
        ensures
            self.result is Success ==> r == Ok::<Self, SocketError>(self),
            self.result matches DeribitSubResult::Error { error } ==> r matches Err(SocketError::Subscribe(m))
                && m@ == sub_failure_msg(error.code, error.message@),
    {
        match &self.result {
            DeribitSubResult::Success { .. } => Ok(self),
            DeribitSubResult::Error { error } => {
                let mut m = String::from_str("received failure subscription response code: ");
                let code = i64_text(error.code);
                m.append(code.as_str());
                m.append(" with message: ");
                m.append(error.message.as_str());
                Err(SocketError::Subscribe(m))
            },
        }
    }
}

} // verus!
