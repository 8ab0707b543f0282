//! What to do with a response that reports a rate limit: how long to wait,
//! and whether to send the request again.
//!
//! The caller sends the request, hands over what came back, sleeps and
//! retries as it is told. Attempts are counted from zero.

use crate::model::FormField;
use crate::number::{parse_u64, parsed_u64};
use crate::product::text_of;
use crate::text::{chars_of, trim, trim_chars};
use vstd::prelude::*;

verus! {

/// The status of a response that reports a rate limit.
pub const TOO_MANY_REQUESTS: u16 = 429;

/// Retry policy for responses that report a rate limit.
#[derive(Clone, Copy, Debug)]
pub struct RobloxRateLimitMiddleware {
    pub max_429_retries: usize,
    pub cushion_ms: u64,
}

/// What to do with a response.
#[derive(Clone, Copy, Debug, PartialEq, Eq, Structural)]
pub enum RetryDecision {
    /// Hand the response to the caller.
    Deliver,
    /// Sleep for `seconds` and `cushion_ms` more; then send the request
    /// again if `then_retry`, else hand the response to the caller.
    Wait { seconds: u64, cushion_ms: u64, then_retry: bool },
}

/// The seconds that a header names: its text, trimmed, read as a number.
pub open spec fn header_seconds(value: Option<Seq<char>>) -> Option<u64> {
    match value {
        Some(text) => parsed_u64(trim(text)),
        None => None,
    }
}

/// The seconds to wait: what `retry-after` names; else what the reset header
/// names; else one.
pub open spec fn retry_wait_seconds(
    retry_after: Option<Seq<char>>,
    reset: Option<Seq<char>>,
) -> u64 {
    match header_seconds(retry_after) {
        Some(seconds) => seconds,
        None => match header_seconds(reset) {
            Some(seconds) => seconds,
            None => 1,
        },
    }
}

fn seconds_of_header(value: &Option<String>) -> (out: Option<u64>)
    ensures
        out == header_seconds(text_of(*value)),
{
    match value {
        Some(text) => {
            let chars = chars_of(text.as_str());
            let trimmed = trim_chars(&chars);
            parse_u64(&trimmed)
        },
        None => None,
    }
}

impl RobloxRateLimitMiddleware {
    /// The default policy: five retries, with 75 ms added to every wait.
    pub fn new() -> (policy: Self)
        ensures
            policy.max_429_retries == 5,
            policy.cushion_ms == 75,
    {
        RobloxRateLimitMiddleware { max_429_retries: 5, cushion_ms: 75 }
    }

    /// The same policy with another cap on retries.
    pub fn with_max_429_retries(self, n: usize) -> (policy: Self)
        ensures
            policy.max_429_retries == n,
            policy.cushion_ms == self.cushion_ms,
    {
        RobloxRateLimitMiddleware { max_429_retries: n, cushion_ms: self.cushion_ms }
    }

    /// The seconds to wait after a rate-limited response with these values
    /// of the headers `retry-after` and `x-ratelimit-reset`; a header that
    /// is missing or is no text is given as `None`.
    pub fn retry_wait_from_headers(retry_after: &Option<String>, reset: &Option<String>) -> (seconds:
        u64)
        ensures
            seconds == retry_wait_seconds(text_of(*retry_after), text_of(*reset)),
    {
        match seconds_of_header(retry_after) {
            Some(seconds) => seconds,
            None => match seconds_of_header(reset) {
                Some(seconds) => seconds,
                None => 1,
            },
        }
    }

    /// What to do with the response to attempt number `attempt`. Any
    /// response but a rate-limited one is delivered, and so is a
    /// rate-limited one once the retries are used up. Otherwise the caller
    /// waits, and then retries if the request can be sent again
    /// (`can_retry`), or else delivers the response.
    pub open spec fn decision(
        self,
        attempt: usize,
        status: u16,
        can_retry: bool,
        retry_after: Option<Seq<char>>,
        reset: Option<Seq<char>>,
    ) -> RetryDecision {
        if status != TOO_MANY_REQUESTS || attempt >= self.max_429_retries {
            RetryDecision::Deliver
        } else {
            RetryDecision::Wait {
                seconds: retry_wait_seconds(retry_after, reset),
                cushion_ms: self.cushion_ms,
                then_retry: can_retry,
            }
        }
    }

    /// What to do with the response to attempt number `attempt`.
    pub fn on_response(
        &self,
        attempt: usize,
        status: u16,
        can_retry: bool,
        retry_after: &Option<String>,
        reset: &Option<String>,
    ) -> (out: RetryDecision)
        ensures
            out == self.decision(
                attempt,
                status,
                can_retry,
                text_of(*retry_after),
                text_of(*reset),
            ),
    {
        if status != TOO_MANY_REQUESTS || attempt >= self.max_429_retries {
            RetryDecision::Deliver
        } else {
            RetryDecision::Wait {
                seconds: Self::retry_wait_from_headers(retry_after, reset),
                cushion_ms: self.cushion_ms,
                then_retry: can_retry,
            }
        }
    }
}

/// The header that carries the credential: `x-api-key` with the token, where
/// one is set; none where none is set.
pub fn api_key_header(token: &Option<String>) -> (out: Option<FormField>)
    ensures
        out is Some <==> token is Some,
        out matches Some(h) ==> h@ == ("x-api-key"@, token->0@),
{
    match token {
        Some(t) => Some(FormField { key: "x-api-key".to_owned(), value: t.clone() }),
        None => None,
    }
}

} // verus!
