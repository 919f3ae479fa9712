//! The gateway's request, upload and file-size limits.
//!
//! The per-address counters live in the gateway's cache backend; the driver
//! reads a counter and this module decides whether the window is exhausted.
//! The file-size check is wholly in-process.

use vstd::prelude::*;
use crate::gateway::error::AppError;

verus! {

/// The gateway's rate limits, plus where its counters live.
pub struct RateLimiter {
    pub redis_url: String,
    pub max_requests_per_minute: u32,
    pub max_uploads_per_hour: u32,
    pub max_file_size: usize,
}

impl RateLimiter {
    /// The stock limits: 60 requests a minute, 100 uploads an hour, files up
    /// to 2 GB.
    pub fn new(redis_url: String) -> (r: RateLimiter)
        ensures
            r.redis_url@ == redis_url@,
            r.max_requests_per_minute == 60,
            r.max_uploads_per_hour == 100,
            r.max_file_size == 2147483648usize,
    {
        RateLimiter {
            redis_url,
            max_requests_per_minute: 60,
            max_uploads_per_hour: 100,
            max_file_size: 2147483648,
        }
    }

    /// A counter read from the window exhausts the request allowance exactly
    /// when it has reached the per-minute limit; an absent counter never
    /// does.
    pub fn request_limit_reached(&self, count: Option<u32>) -> (r: bool)
        ensures
            r == (count matches Some(c) && c >= self.max_requests_per_minute),
    {
        match count {
            Some(c) => c >= self.max_requests_per_minute,
            None => false,
        }
    }

    /// A counter read from the window exhausts the upload allowance exactly
    /// when it has reached the per-hour limit.
    pub fn upload_limit_reached(&self, count: Option<u32>) -> (r: bool)
        ensures
            r == (count matches Some(c) && c >= self.max_uploads_per_hour),
    {
        match count {
            Some(c) => c >= self.max_uploads_per_hour,
            None => false,
        }
    }

    /// Rejects a file strictly larger than the allowed size with
    /// `InvalidInput`, and accepts anything else.
    pub fn check_file_size(&self, size: usize) -> (r: Result<(), AppError>)
        ensures
            r is Ok <==> size <= self.max_file_size,
            r matches Err(e) ==> e is InvalidInput,
    {
        if size > self.max_file_size {
            Err(AppError::InvalidInput)
        } else {
            Ok(())
        }
    }
}

} // verus!
