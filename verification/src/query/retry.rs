//! What to do after one exchange with the registry: finish the request, or
//! wait and send it again.

use vstd::prelude::*;
use vstd::arithmetic::power2::{pow2, lemma2_to64};
use vstd::string::StringExecFns;
use crate::query::decimal::{parse_u64, parsed_u64};
use crate::query::registry::{chosen, pick_chosen, RorResponse};

verus! {

/// How many times one request is sent at most.
pub const MAX_ATTEMPTS: u32 = 3;

/// Why a request failed.
#[derive(Debug, Clone)]
pub enum RequestError {
    /// The registry answered with a status that is neither a success nor a
    /// rate limit. `status` is the status line as the transport renders it.
    Http { code: u16, status: String },
    /// No reply came: the connection failed or timed out.
    Transport { error: String },
    /// A successful reply whose body could not be decoded.
    Decode { error: String },
    /// Every attempt was spent.
    RetriesExhausted,
}

impl RequestError {
    /// Whether this is a server-side error: a status from 500 to 599.
    pub open spec fn is_server_error(&self) -> bool {
        self matches RequestError::Http { code, .. } && 500 <= *code && *code <= 599
    }

    /// Whether this is a successful reply whose body could not be decoded.
    pub open spec fn is_undecodable(&self) -> bool {
        self is Decode
    }

    /// The description of this error.
    pub open spec fn message_text(&self) -> Seq<char> {
        match self {
            RequestError::Http { status, .. } => "HTTP "@ + status@,
            RequestError::Transport { error } => error@,
            RequestError::Decode { error } => error@,
            RequestError::RetriesExhausted => "Max retries exceeded"@,
        }
    }

    /// Whether this is a server-side error.
    pub fn is_server(&self) -> (r: bool)
        ensures
            r == self.is_server_error(),
    {
        match self {
            RequestError::Http { code, .. } => 500 <= *code && *code <= 599,
            _ => false,
        }
    }

    /// Whether this is a successful reply whose body could not be decoded.
    pub fn is_decode(&self) -> (r: bool)
        ensures
            r == self.is_undecodable(),
    {
        match self {
            RequestError::Decode { .. } => true,
            _ => false,
        }
    }

    /// The description of this error.
    pub fn message(&self) -> (r: String)
        ensures
            r@ == self.message_text(),
    {
        match self {
            RequestError::Http { status, .. } => {
                let mut out = "HTTP ".to_owned();
                out.append(status.as_str());
                out
            },
            RequestError::Transport { error } => error.clone(),
            RequestError::Decode { error } => error.clone(),
            RequestError::RetriesExhausted => "Max retries exceeded".to_owned(),
        }
    }
}

/// How one attempt to reach the registry went.
#[derive(Debug)]
pub enum Exchange {
    /// The registry answered. `status` is the status line as the transport
    /// renders it, `retry_after` the text of that header where the reply has
    /// one, and `body` the decoded body or the decoding error. The body is
    /// read only where `code` is a success.
    Reply { code: u16, status: String, retry_after: Option<String>, body: Result<RorResponse, String> },
    /// No reply came.
    Failed { error: String },
}

/// What follows one exchange.
#[derive(Debug)]
pub enum RequestStep {
    /// The request is over, with the accepted identifier, no match, or an
    /// error.
    Done(Result<Option<String>, RequestError>),
    /// Wait this many seconds, then send the same request again.
    Retry { wait_secs: u64 },
}

/// Whether `code` is a success status.
pub open spec fn is_success(code: u16) -> bool {
    200 <= code < 300
}

/// Whether `code` is a success status, the only kind of reply whose body is
/// read.
pub fn is_success_status(code: u16) -> (r: bool)
    ensures
        r == is_success(code),
{
    200 <= code && code < 300
}

/// The seconds to wait before the attempt after attempt number `attempt`:
/// one, doubled with each attempt.
pub open spec fn backoff(attempt: u32) -> u64
    recommends
        attempt < MAX_ATTEMPTS,
{
    pow2(attempt as nat) as u64
}

/// The seconds to wait after a rate-limited reply: what its retry-after
/// header says where that is a number, else the backoff.
pub open spec fn retry_wait(retry_after: Option<String>, attempt: u32) -> u64 {
    match retry_after {
        Some(text) => match parsed_u64(text@) {
            Some(secs) => secs,
            None => backoff(attempt),
        },
        None => backoff(attempt),
    }
}

/// What follows the exchange that was attempt number `attempt` of a request,
/// counted from zero.
pub open spec fn request_step_spec(attempt: u32, exchange: Exchange) -> RequestStep {
    if attempt >= MAX_ATTEMPTS {
        RequestStep::Done(Err(RequestError::RetriesExhausted))
    } else {
        match exchange {
            Exchange::Reply { code, status, retry_after, body } => {
                if is_success(code) {
                    match body {
                        Ok(response) => RequestStep::Done(Ok(chosen(response.items@))),
                        Err(error) => RequestStep::Done(Err(RequestError::Decode { error })),
                    }
                } else if code == 429 {
                    RequestStep::Retry { wait_secs: retry_wait(retry_after, attempt) }
                } else {
                    RequestStep::Done(Err(RequestError::Http { code, status }))
                }
            },
            Exchange::Failed { error } => {
                if attempt + 1 < MAX_ATTEMPTS {
                    RequestStep::Retry { wait_secs: backoff(attempt) }
                } else {
                    RequestStep::Done(Err(RequestError::Transport { error }))
                }
            },
        }
    }
}

/// The backoff before the attempt after attempt number `attempt`.
pub fn backoff_secs(attempt: u32) -> (secs: u64)
    requires
        attempt < MAX_ATTEMPTS,
    ensures
        secs == backoff(attempt),
        secs == 1 || secs == 2 || secs == 4,
{
    proof {
        lemma2_to64();
    }
    if attempt == 0 {
        1
    } else if attempt == 1 {
        2
    } else {
        4
    }
}

/// Decides what follows the exchange that was attempt number `attempt` of a
/// request, counted from zero.
pub fn request_step(attempt: u32, exchange: Exchange) -> (step: RequestStep)
    ensures
        step == request_step_spec(attempt, exchange),
{
    if attempt >= MAX_ATTEMPTS {
        return RequestStep::Done(Err(RequestError::RetriesExhausted));
    }
    match exchange {
        Exchange::Reply { code, status, retry_after, body } => {
            if is_success_status(code) {
                match body {
                    Ok(response) => RequestStep::Done(Ok(pick_chosen(&response.items))),
                    Err(error) => RequestStep::Done(Err(RequestError::Decode { error })),
                }
            } else if code == 429 {
                let wait_secs = match &retry_after {
                    Some(text) => match parse_u64(text.as_str()) {
                        Some(secs) => secs,
                        None => backoff_secs(attempt),
                    },
                    None => backoff_secs(attempt),
                };
                RequestStep::Retry { wait_secs }
            } else {
                RequestStep::Done(Err(RequestError::Http { code, status }))
            }
        },
        Exchange::Failed { error } => {
            if attempt + 1 < MAX_ATTEMPTS {
                RequestStep::Retry { wait_secs: backoff_secs(attempt) }
            } else {
                RequestStep::Done(Err(RequestError::Transport { error }))
            }
        },
    }
}

} // verus!
