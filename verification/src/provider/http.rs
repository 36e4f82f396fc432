use vstd::prelude::*;

use crate::provider::search::ProviderError;
use crate::text::{append, owned};

verus! {

/// The longest wait between two attempts, in seconds.
pub const MAXIMUM_RETRY_SECONDS: u64 = 15;

/// Whether an HTTP status asks to try again later: too many requests, or a server error.
pub fn transient_status(status: u16) -> (r: bool)
    ensures
        r == (status == 429 || status >= 500),
{
    status == 429 || status >= 500
}

/// The wait before the next attempt, and the back-off for the attempt after:
/// the server's requested delay (else the current back-off) clamped to one to
/// fifteen seconds; the back-off doubles up to fifteen seconds.
pub open spec fn retry_delay_spec(requested: Option<u64>, retry_seconds: u64) -> (u64, u64) {
    let wanted = match requested {
        Some(s) => s,
        None => retry_seconds,
    };
    (
        if wanted < 1 { 1 } else if wanted > MAXIMUM_RETRY_SECONDS { MAXIMUM_RETRY_SECONDS } else { wanted },
        if 2 * retry_seconds > MAXIMUM_RETRY_SECONDS { MAXIMUM_RETRY_SECONDS } else { (2 * retry_seconds) as u64 },
    )
}

/// How long to wait before the next attempt, and the back-off for the attempt after.
pub fn retry_delay(requested: Option<u64>, retry_seconds: u64) -> (r: (u64, u64))
    ensures
        r == retry_delay_spec(requested, retry_seconds),
{
    let wanted = match requested {
        Some(s) => s,
        None => retry_seconds,
    };
    let delay = if wanted < 1 {
        1
    } else if wanted > MAXIMUM_RETRY_SECONDS {
        MAXIMUM_RETRY_SECONDS
    } else {
        wanted
    };
    let next = if retry_seconds > MAXIMUM_RETRY_SECONDS / 2 { MAXIMUM_RETRY_SECONDS } else { retry_seconds * 2 };
    (delay, next)
}

/// Whether a wait of `delay` seconds starting `elapsed` seconds into a retry window
/// of `window` seconds would end past the window.
pub fn retry_window_exceeded(elapsed: u64, delay: u64, window: u64) -> (r: bool)
    ensures
        r == (elapsed + delay > window),
{
    elapsed > window || delay > window - elapsed
}

/// The error given when transient failures outlast the retry window.
pub fn retry_window_error() -> (r: ProviderError)
    ensures
        r matches ProviderError::Network(m) && m@ == "transient failures continued for the 60-second retry window"@,
{
    ProviderError::Network(owned("transient failures continued for the 60-second retry window"))
}

/// What one attempt of a request came to.
#[derive(Debug)]
pub enum AttemptOutcome {
    /// The server answered with `status`, asking to retry after `retry_after` seconds if it said so.
    Answered { status: u16, retry_after: Option<u64> },
    /// The request failed in a way that may pass: an I/O error, a timeout, an unknown host or a refused connection.
    TransientFailure,
    /// The request failed for good, as described.
    Failed(String),
}

/// What to do after an attempt.
#[derive(Debug)]
pub enum AttemptAction {
    /// Hand the answer on.
    Deliver,
    /// Wait this many seconds, then try again.
    RetryAfter(u64),
    /// Give up with this error.
    Fail(ProviderError),
}

/// After an attempt of the request named `label`, with back-off `retry_seconds`:
/// a 2xx answer is delivered; a transient status or failure is retried after
/// the delay `retry_delay` gives, advancing the back-off; any other status fails
/// as that HTTP status, any other failure as a network error naming the request.
pub fn after_attempt(label: &'static str, outcome: AttemptOutcome, retry_seconds: u64) -> (r: (AttemptAction, u64))
    ensures
        match outcome {
            AttemptOutcome::Answered { status, retry_after } => if 200 <= status <= 299 {
                r.0 is Deliver && r.1 == retry_seconds
            } else if status == 429 || status >= 500 {
                r.0 == AttemptAction::RetryAfter(retry_delay_spec(retry_after, retry_seconds).0)
                    && r.1 == retry_delay_spec(retry_after, retry_seconds).1
            } else {
                r.0 matches AttemptAction::Fail(ProviderError::HttpStatus { operation, status: s })
                    && operation@ == label@ && s == status && r.1 == retry_seconds
            },
            AttemptOutcome::TransientFailure => r.0 == AttemptAction::RetryAfter(retry_delay_spec(None, retry_seconds).0)
                && r.1 == retry_delay_spec(None, retry_seconds).1,
            AttemptOutcome::Failed(m) => r.0 matches AttemptAction::Fail(ProviderError::Network(text))
                && text@ == label@ + ": "@ + m@ && r.1 == retry_seconds,
        },
{
    match outcome {
        AttemptOutcome::Answered { status, retry_after } => {
            if 200 <= status && status <= 299 {
                (AttemptAction::Deliver, retry_seconds)
            } else if transient_status(status) {
                let (delay, next) = retry_delay(retry_after, retry_seconds);
                (AttemptAction::RetryAfter(delay), next)
            } else {
                (AttemptAction::Fail(ProviderError::HttpStatus { operation: label, status }), retry_seconds)
            }
        },
        AttemptOutcome::TransientFailure => {
            let (delay, next) = retry_delay(None, retry_seconds);
            (AttemptAction::RetryAfter(delay), next)
        },
        AttemptOutcome::Failed(message) => {
            let mut text = owned(label);
            append(&mut text, ": ");
            append(&mut text, message.as_str());
            (AttemptAction::Fail(ProviderError::Network(text)), retry_seconds)
        },
    }
}

} // verus!
