use vstd::prelude::*;

verus! {

/// Error kinds surfaced by the routing kernel.
pub enum LLMPoolError {
    InvalidQuery(String),
    DeadlineExceeded(i32),
    ProviderError(String),
    EnsembleError(String),
    ConfigError(String),
    AuthError(String),
    RateLimitExceeded,
    CircuitBreakerOpen(String),
    CacheError(String),
    Internal(String),
}

/// Boundary status codes that errors are mapped to.
#[derive(Clone, Copy, Debug, PartialEq, Eq, Structural)]
pub enum StatusKind {
    InvalidArgument,
    DeadlineExceeded,
    Unauthenticated,
    ResourceExhausted,
    Internal,
}

pub open spec fn status_kind_of(e: LLMPoolError) -> StatusKind {
    match e {
        LLMPoolError::InvalidQuery(_) => StatusKind::InvalidArgument,
        LLMPoolError::DeadlineExceeded(_) => StatusKind::DeadlineExceeded,
        LLMPoolError::AuthError(_) => StatusKind::Unauthenticated,
        LLMPoolError::RateLimitExceeded => StatusKind::ResourceExhausted,
        _ => StatusKind::Internal,
    }
}

impl LLMPoolError {
    /// The boundary status code for this error.
    pub fn status_kind(&self) -> (r: StatusKind)
        ensures
            r == status_kind_of(*self),
    {
        match self {
            LLMPoolError::InvalidQuery(_) => StatusKind::InvalidArgument,
            LLMPoolError::DeadlineExceeded(_) => StatusKind::DeadlineExceeded,
            LLMPoolError::AuthError(_) => StatusKind::Unauthenticated,
            LLMPoolError::RateLimitExceeded => StatusKind::ResourceExhausted,
            _ => StatusKind::Internal,
        }
    }
}

} // verus!
