//! Error taxonomy of the execution engine.

use vstd::prelude::*;

verus! {

/// Everything that can go wrong while serving a compile request.
///
/// `UnsupportedLanguage` and `RateLimitExceeded` are client-visible input
/// errors; `ContainerCreationFailed`, `ExecutionTimeout`,
/// `ResourceLimitExceeded` and `RuntimeUnavailable` are infrastructure
/// failures surfaced in the response's `error` field; `CacheUnavailable` is
/// absorbed by the cache-aside layer and never reaches a caller.
#[derive(Clone, Copy, Debug, PartialEq, Eq, Structural)]
pub enum CompilerError {
    /// The request named a language the registry has no template for.
    UnsupportedLanguage,
    /// The runtime could not create (or register) a sandbox container.
    ContainerCreationFailed,
    /// The exec attempt ran past the configured wall-clock timeout.
    ExecutionTimeout,
    /// The resource monitor force-removed the container mid-attempt.
    ResourceLimitExceeded,
    /// The result cache backend could not be reached.
    CacheUnavailable,
    /// The request was rejected by the fixed-rate token check.
    RateLimitExceeded,
    /// The container runtime daemon could not be reached; transient.
    RuntimeUnavailable,
}

impl CompilerError {
    /// Only daemon-connectivity faults are worth another attempt; client
    /// errors, timeouts and monitor terminations are terminal.
    pub open spec fn spec_is_transient(self) -> bool {
        self is RuntimeUnavailable
    }

    /// Whether the retry policy may try the failed operation again.
    pub fn is_transient(&self) -> (r: bool)
        ensures
            r == self.spec_is_transient(),
    {
        match self {
            CompilerError::RuntimeUnavailable => true,
            _ => false,
        }
    }

    /// The generic, client-safe description of each failure.
    pub open spec fn spec_message(self) -> Seq<char> {
        match self {
            CompilerError::UnsupportedLanguage => "Unsupported language"@,
            CompilerError::ContainerCreationFailed => "Container creation failed"@,
            CompilerError::ExecutionTimeout => "Execution timed out"@,
            CompilerError::ResourceLimitExceeded => "Resource limit exceeded"@,
            CompilerError::CacheUnavailable => "Cache unavailable"@,
            CompilerError::RateLimitExceeded => "Rate limit exceeded. Please try again later."@,
            CompilerError::RuntimeUnavailable => "Container runtime unavailable"@,
        }
    }

    /// A generic, client-safe description of the failure.
    pub fn message(&self) -> (r: String)
        ensures
            r@ == self.spec_message(),
    {
        match self {
            CompilerError::UnsupportedLanguage => String::from_str("Unsupported language"),
            CompilerError::ContainerCreationFailed => String::from_str("Container creation failed"),
            CompilerError::ExecutionTimeout => String::from_str("Execution timed out"),
            CompilerError::ResourceLimitExceeded => String::from_str("Resource limit exceeded"),
            CompilerError::CacheUnavailable => String::from_str("Cache unavailable"),
            CompilerError::RateLimitExceeded => String::from_str(
                "Rate limit exceeded. Please try again later.",
            ),
            CompilerError::RuntimeUnavailable => String::from_str("Container runtime unavailable"),
        }
    }
}

} // verus!
