//! The data shapes the coordinator's HTTP surface exchanges with its
//! clients, and the registry's row type.

use vstd::prelude::*;

verus! {

/// One logical version of an app, aggregating every platform row that
/// shares the version: all platforms and all per-platform checksums.
/// `sha256s` maps each platform to the hex digest of its artifact.
#[derive(Debug, Clone)]
pub struct VersionResponse {
    pub app_name: String,
    pub version: String,
    pub timestamp: String,
    pub platforms: Vec<String>,
    pub sha256s: Vec<(String, String)>,
}

/// The newest registry row carrying a given platform.
#[derive(Debug, Clone)]
pub struct LatestVersionResponse {
    pub app_name: String,
    pub platform: String,
    pub version: String,
    pub timestamp: String,
    pub sha256: String,
}

/// Outcome of a whole upload: every platform that was written.
#[derive(Debug, Clone)]
pub struct UploadResponse {
    pub success: bool,
    pub message: String,
    pub app_name: String,
    pub version: String,
    pub platforms: Vec<String>,
}

/// The structured body every error response carries.
#[derive(Debug, Clone)]
pub struct ErrorResponse {
    pub error: String,
}

/// Outcome of deleting a version across all of its platforms.
#[derive(Debug, Clone)]
pub struct DeleteResponse {
    pub success: bool,
    pub message: String,
    pub app_name: String,
    pub version: String,
}

/// One registry row: an `(app_name, version, platform)` triple bound to a
/// checksum and a server-assigned timestamp. `id` is the registry's
/// insertion counter; rows written later carry strictly greater ids.
#[derive(Debug, Clone)]
pub struct AppVersion {
    pub id: Option<i64>,
    pub app_name: String,
    pub version: String,
    pub platform: String,
    pub timestamp: String,
    pub sha256: String,
    pub created_at: Option<String>,
    pub updated_at: Option<String>,
}

impl AppVersion {
    /// A copy equal to `self`, field by field.
    pub fn clone_row(&self) -> (r: AppVersion)
        ensures
            r == *self,
    {
        AppVersion {
            id: self.id,
            app_name: self.app_name.clone(),
            version: self.version.clone(),
            platform: self.platform.clone(),
            timestamp: self.timestamp.clone(),
            sha256: self.sha256.clone(),
            created_at: match &self.created_at {
                Some(s) => Some(s.clone()),
                None => None,
            },
            updated_at: match &self.updated_at {
                Some(s) => Some(s.clone()),
                None => None,
            },
        }
    }
}

/// Reply to creating a multipart upload session.
#[derive(Debug, Clone)]
pub struct MultipartCreateResponse {
    pub key: String,
    pub upload_id: String,
}

/// Reply to uploading one part: the tag the store issued for it.
#[derive(Debug, Clone)]
pub struct MultipartPartResponse {
    pub part_number: u16,
    pub etag: String,
}

/// Reply to completing a multipart upload: the final object's tag.
#[derive(Debug, Clone)]
pub struct MultipartCompleteResponse {
    pub success: bool,
    pub etag: String,
}

/// Body of the finish call that commits a registry row, carrying the
/// checksum the client computed of the bytes it actually sent.
#[derive(Debug, Clone)]
pub struct CompleteVersionRequest {
    pub version: String,
    pub platform: String,
    pub sha256: String,
}

/// Reply to the finish call.
#[derive(Debug, Clone)]
pub struct CompleteVersionResponse {
    pub success: bool,
    pub message: String,
    pub app_name: String,
    pub version: String,
    pub platform: String,
}

} // verus!
