//! The gateway's error taxonomy, as plain variants.

use vstd::prelude::*;

verus! {

/// Everything a gateway request can fail with. The HTTP layer maps each
/// variant to its status and payload.
#[derive(Clone, Copy, Debug, PartialEq, Eq, Structural)]
pub enum AppError {
    InternalError,
    NotFound,
    InvalidInput,
    UploadError,
    RateLimitExceeded,
    Database,
    Json,
    VectorFormat,
    Internal,
    VectorNotFound,
}

} // verus!
