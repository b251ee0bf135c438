//! One request: what the transport returned, and the outcome it resolves to.
//!
//! Policy on transport failures: a timeout is an ordinary outcome; any other
//! transport failure ends the run. The failure's kind tells whether the host
//! ran out of file descriptors, which decides the guidance given to the
//! operator.
use vstd::prelude::*;
use crate::failure::{classify_failure, failure_kind_of, FailureKind};
use crate::result::{class_of_status, classify_status, Classification, RequestResult};

verus! {

#[verifier::external_type_specification]
#[verifier::external_body]
pub struct ExResponse(reqwest::Response);

#[verifier::external_type_specification]
#[verifier::external_body]
pub struct ExError(reqwest::Error);

#[verifier::external_type_specification]
#[verifier::external_body]
pub struct ExStatusCode(reqwest::StatusCode);

/// Relies on reqwest::Response::status: the status code of the response.
pub assume_specification[ reqwest::Response::status ](r: &reqwest::Response) -> reqwest::StatusCode;

/// Relies on http::StatusCode::as_u16: a status code is built only from a
/// value in 100..=999.
pub assume_specification[ reqwest::StatusCode::as_u16 ](s: &reqwest::StatusCode) -> (r: u16)
    ensures
        100 <= r <= 999,
;

/// Relies on reqwest::Error::is_timeout: whether the failure was a timeout.
pub assume_specification[ reqwest::Error::is_timeout ](e: &reqwest::Error) -> bool;

/// Relies on reqwest::Error's Display and std::error::Error::source: the
/// message of the error followed by those of its causes, outermost first.
#[verifier::external_body]
fn cause_chain(err: &reqwest::Error) -> (r: Vec<String>)
    ensures
        r@.len() >= 1,
{
    let mut chain = vec![err.to_string()];
    let mut cause = std::error::Error::source(err);
    while let Some(e) = cause {
        chain.push(e.to_string());
        cause = e.source();
    }
    chain
}

/// What the transport returned for one request, as plain values.
#[derive(Clone, Debug, PartialEq, Eq)]
pub enum Reply {
    /// A response with this status code.
    Status(u16),
    /// The transport gave up waiting.
    TimedOut,
    /// Another failure, with the messages of its cause chain, outermost first.
    Failed(Vec<String>),
}

/// A failure that ends the run.
#[derive(Clone, Debug, PartialEq, Eq)]
pub struct Failure {
    pub kind: FailureKind,
    pub causes: Vec<String>,
}

/// The reply for a failed call: a timeout comes first, whatever the cause
/// chain says; any other failure carries its chain on.
pub fn reply_for_failure(timed_out: bool, chain: Vec<String>) -> (r: Reply)
    ensures
        timed_out ==> r == Reply::TimedOut,
        !timed_out ==> r == Reply::Failed(chain),
{
    if timed_out {
        Reply::TimedOut
    } else {
        Reply::Failed(chain)
    }
}

/// Reads what the transport returned into a `Reply`: a response gives its
/// status code; a failure is decided by `reply_for_failure` from the error's
/// timeout flag and its cause chain.
pub fn reply_of(res: &Result<reqwest::Response, reqwest::Error>) -> (r: Reply)
    ensures
        res is Ok <==> r is Status,
        r matches Reply::Status(code) ==> 100 <= code <= 999,
        r matches Reply::Failed(chain) ==> chain@.len() >= 1,
{
    match res {
        Ok(resp) => Reply::Status(resp.status().as_u16()),
        Err(e) => reply_for_failure(e.is_timeout(), cause_chain(e)),
    }
}

/// Resolves a reply, taken `duration_ms` after dispatch, to the outcome of the
/// request, or to the failure that ends the run.
pub fn outcome_of_reply(reply: Reply, duration_ms: u128) -> (r: Result<RequestResult, Failure>)
    requires
        reply matches Reply::Status(code) ==> 100 <= code <= 999,
    ensures
        match reply {
            Reply::Status(code) => r == Ok::<RequestResult, Failure>(
                RequestResult { class: class_of_status(code), duration_ms },
            ),
            Reply::TimedOut => r == Ok::<RequestResult, Failure>(
                RequestResult { class: Classification::Timeout, duration_ms },
            ),
            Reply::Failed(chain) => r matches Err(f) && f.kind == failure_kind_of(chain@)
                && f.causes@ == chain@,
        },
{
    match reply {
        Reply::Status(code) => Ok(RequestResult::new(classify_status(code), duration_ms)),
        Reply::TimedOut => Ok(RequestResult::new(Classification::Timeout, duration_ms)),
        Reply::Failed(chain) => {
            let kind = classify_failure(&chain);
            Err(Failure { kind, causes: chain })
        },
    }
}

} // verus!
