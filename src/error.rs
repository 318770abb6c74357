use vstd::prelude::*;
use crate::text::{dec, push_char, push_decimal};

verus! {

/// Why an operation of the core did not succeed.
#[derive(Clone, Copy, Debug, PartialEq, Eq, Structural)]
pub enum CoreError {
    /// A live instance already exists for the same game, team and challenge.
    Conflict,
    /// No such challenge, instance or record.
    NotFound,
    /// A control-plane call failed or timed out.
    ClusterUnavailable,
    /// The challenge's declaration is malformed.
    PlanInvalid,
    /// The verification procedure crashed or timed out.
    VerificationError,
    /// A capacity limit was reached.
    QuotaExceeded,
    /// A static submission found no running instance to compare with.
    NoInstance,
}

impl CoreError {
    /// Whether trying the same request again may succeed.
    pub open spec fn spec_is_retryable(self) -> bool {
        self == CoreError::ClusterUnavailable || self == CoreError::VerificationError
            || self == CoreError::QuotaExceeded || self == CoreError::NoInstance
    }

    pub fn is_retryable(&self) -> (r: bool)
        ensures
            r == self.spec_is_retryable(),
    {
        match self {
            CoreError::ClusterUnavailable => true,
            CoreError::VerificationError => true,
            CoreError::QuotaExceeded => true,
            CoreError::NoInstance => true,
            _ => false,
        }
    }

    /// The HTTP status under which the error is reported.
    pub open spec fn spec_http_status(self) -> u16 {
        match self {
            CoreError::Conflict => 409,
            CoreError::NotFound => 404,
            CoreError::ClusterUnavailable => 503,
            CoreError::PlanInvalid => 422,
            CoreError::VerificationError => 500,
            CoreError::QuotaExceeded => 429,
            CoreError::NoInstance => 404,
        }
    }

    pub fn http_status(&self) -> (r: u16)
        ensures
            r == self.spec_http_status(),
    {
        match self {
            CoreError::Conflict => 409,
            CoreError::NotFound => 404,
            CoreError::ClusterUnavailable => 503,
            CoreError::PlanInvalid => 422,
            CoreError::VerificationError => 500,
            CoreError::QuotaExceeded => 429,
            CoreError::NoInstance => 404,
        }
    }
}

/// An error as reported to a client: a status code and a message.
#[derive(Clone, Debug)]
pub struct ErrorResponse {
    pub code: u16,
    pub message: String,
}

/// Whether a number is a status code that HTTP can carry (three digits).
pub open spec fn is_status_code(code: u16) -> bool {
    100 <= code && code <= 999
}

impl ErrorResponse {
    pub fn new(code: u16, message: &str) -> (r: ErrorResponse)
        ensures
            r.code == code,
            r.message@ == message@,
    {
        ErrorResponse { code, message: String::from_str(message) }
    }

    /// The response for a core error, with the error's status and name.
    pub fn from_error(e: CoreError) -> (r: ErrorResponse)
        ensures
            r.code == e.spec_http_status(),
    {
        let message = match e {
            CoreError::Conflict => "instance already running",
            CoreError::NotFound => "not found",
            CoreError::ClusterUnavailable => "cluster unavailable",
            CoreError::PlanInvalid => "challenge declaration invalid",
            CoreError::VerificationError => "verification failed to run",
            CoreError::QuotaExceeded => "quota exceeded",
            CoreError::NoInstance => "no running instance",
        };
        ErrorResponse::new(e.http_status(), message)
    }

    /// The status under which the response is sent: its code where that is a
    /// valid status code, else 500.
    pub fn status_code(&self) -> (r: u16)
        ensures
            r == if is_status_code(self.code) { self.code } else { 500 },
    {
        if 100 <= self.code && self.code <= 999 {
            self.code
        } else {
            500
        }
    }

    /// The response as one line of text: the code, a colon, a space and the message.
    pub fn to_text(&self) -> (r: String)
        ensures
            r@ == dec(self.code as nat) + seq![':', ' '] + self.message@,
    {
        let mut r = String::new();
        push_decimal(&mut r, self.code as u64);
        push_char(&mut r, ':');
        push_char(&mut r, ' ');
        r.append(self.message.as_str());
        proof {
            assert(r@ =~= dec(self.code as nat) + seq![':', ' '] + self.message@);
        }
        r
    }
}

} // verus!
