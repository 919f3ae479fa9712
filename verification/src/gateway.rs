//! The media-gateway prototype's plain-value logic: configuration
//! validation, upload limits, and the video records.

pub mod config;
pub mod error;
pub mod rate_limit;
pub mod video;
