//! Errors of the Tragentics API client, mapped from the HTTP status and the
//! platform's `{"error": "..."}` body.
use vstd::prelude::*;

use crate::text::{decimal, push_decimal};

verus! {

/// An API failure, by class.
#[derive(Debug, Clone)]
pub enum ApiError {
    /// 401: invalid key, revoked, archived or auto-disabled (the message says which).
    Unauthorized { message: String },
    /// 403: token/agent mismatch or auto-disabled.
    Forbidden { message: String },
    /// 404: agent not found.
    NotFound { message: String },
    /// 409: agent no longer available.
    Conflict { message: String },
    /// 429: rate limited; the delay comes from the Retry-After header (seconds).
    RateLimited { retry_after_secs: u64 },
    /// 5xx from the platform.
    Server { status: u16, message: String },
    /// Any other unexpected HTTP status.
    Other { status: u16, message: String },
    /// No HTTP response at all (DNS, TLS, connect, timeout).
    Network { message: String },
    /// The response body did not have the expected shape.
    Decode { message: String },
}

impl ApiError {
    /// The short machine label of each error class.
    pub open spec fn label_of(&self) -> Seq<char> {
        match self {
            ApiError::Unauthorized { .. } => "unauthorized"@,
            ApiError::Forbidden { .. } => "forbidden"@,
            ApiError::NotFound { .. } => "not_found"@,
            ApiError::Conflict { .. } => "conflict"@,
            ApiError::RateLimited { .. } => "rate_limited"@,
            ApiError::Server { .. } => "server_error"@,
            ApiError::Other { .. } => "http_error"@,
            ApiError::Network { .. } => "network"@,
            ApiError::Decode { .. } => "decode"@,
        }
    }

    /// The human-readable message: the carried message, or for a rate limit
    /// "Rate limited — retry after {n}s".
    pub open spec fn message_of(&self) -> Seq<char> {
        match self {
            ApiError::Unauthorized { message } => message@,
            ApiError::Forbidden { message } => message@,
            ApiError::NotFound { message } => message@,
            ApiError::Conflict { message } => message@,
            ApiError::Server { message, .. } => message@,
            ApiError::Other { message, .. } => message@,
            ApiError::Network { message } => message@,
            ApiError::Decode { message } => message@,
            ApiError::RateLimited { retry_after_secs } => "Rate limited — retry after "@ + decimal(
                *retry_after_secs as nat,
            ) + "s"@,
        }
    }

    /// The HTTP status behind the error, where there was a response.
    pub open spec fn http_status_of(&self) -> Option<u16> {
        match self {
            ApiError::Unauthorized { .. } => Some(401u16),
            ApiError::Forbidden { .. } => Some(403u16),
            ApiError::NotFound { .. } => Some(404u16),
            ApiError::Conflict { .. } => Some(409u16),
            ApiError::RateLimited { .. } => Some(429u16),
            ApiError::Server { status, .. } => Some(*status),
            ApiError::Other { status, .. } => Some(*status),
            ApiError::Network { .. } => None,
            ApiError::Decode { .. } => None,
        }
    }

    /// Short machine label used in history records and the activity feed.
    pub fn label(&self) -> (r: &'static str)
        ensures
            r@ == self.label_of(),
    {
        match self {
            ApiError::Unauthorized { .. } => "unauthorized",
            ApiError::Forbidden { .. } => "forbidden",
            ApiError::NotFound { .. } => "not_found",
            ApiError::Conflict { .. } => "conflict",
            ApiError::RateLimited { .. } => "rate_limited",
            ApiError::Server { .. } => "server_error",
            ApiError::Other { .. } => "http_error",
            ApiError::Network { .. } => "network",
            ApiError::Decode { .. } => "decode",
        }
    }

    pub fn message(&self) -> (r: String)
        ensures
            r@ == self.message_of(),
    {
        match self {
            ApiError::Unauthorized { message } => message.clone(),
            ApiError::Forbidden { message } => message.clone(),
            ApiError::NotFound { message } => message.clone(),
            ApiError::Conflict { message } => message.clone(),
            ApiError::Server { message, .. } => message.clone(),
            ApiError::Other { message, .. } => message.clone(),
            ApiError::Network { message } => message.clone(),
            ApiError::Decode { message } => message.clone(),
            ApiError::RateLimited { retry_after_secs } => {
                let mut s = String::from_str("Rate limited — retry after ");
                push_decimal(&mut s, *retry_after_secs);
                s.append("s");
                s
            },
        }
    }

    pub fn http_status(&self) -> (r: Option<u16>)
        ensures
            r == self.http_status_of(),
    {
        match self {
            ApiError::Unauthorized { .. } => Some(401),
            ApiError::Forbidden { .. } => Some(403),
            ApiError::NotFound { .. } => Some(404),
            ApiError::Conflict { .. } => Some(409),
            ApiError::RateLimited { .. } => Some(429),
            ApiError::Server { status, .. } => Some(*status),
            ApiError::Other { status, .. } => Some(*status),
            ApiError::Network { .. } => None,
            ApiError::Decode { .. } => None,
        }
    }
}

} // verus!
