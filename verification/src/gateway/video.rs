//! The gateway's video records, as plain values.

use vstd::prelude::*;

verus! {

/// One tracked video upload.
#[derive(Clone, Debug)]
pub struct Video {
    pub id: String,
    pub filename: String,
    pub status: VideoStatus,
    pub created_at: i64,
    pub updated_at: i64,
    pub error_message: Option<String>,
    pub metadata: Option<VideoMetadata>,
    pub archived: Option<bool>,
    pub archive_path: Option<String>,
}

/// What is known about a stored video file.
#[derive(Clone, Debug)]
pub struct VideoMetadata {
    pub duration: Option<String>,
    pub size: Option<u64>,
    pub format: Option<String>,
}

/// Where a video stands in its processing lifecycle.
#[derive(Clone, Copy, Debug, PartialEq, Eq, Structural)]
pub enum VideoStatus {
    Uploading,
    Processing,
    Complete,
    Error,
}

} // verus!
