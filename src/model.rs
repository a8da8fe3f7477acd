//! Configuration and the typed results of the object operations.
use vstd::prelude::*;

verus! {

/// One signing and addressing context: account, credentials, bucket and region,
/// with an optional custom domain and an optional virtual directory.
#[derive(Debug, Clone)]
pub struct CosConfig {
    pub app_id: String,
    pub secret_id: String,
    pub secret_key: String,
    pub bucket: String,
    pub region: String,
    pub domain: Option<String>,
    pub dir: Option<String>,
}

/// Options of an upload.
#[derive(Debug, Clone)]
pub struct UploadOptions {
    pub callback: Option<String>,
    pub headers: Option<CosHeaders>,
}

/// Extra headers of an upload; `pic_operations` is the image-processing instruction.
#[derive(Debug, Clone)]
pub struct CosHeaders {
    pub content_type: Option<String>,
    pub pic_operations: Option<String>,
}

/// The outcome of an upload.
#[derive(Debug, Clone)]
pub struct UploadResult {
    pub success: bool,
    pub key: String,
    pub url: String,
    pub etag: Option<String>,
    pub size: u64,
}

/// The outcome of a download.
#[derive(Debug, Clone)]
pub struct DownloadResult {
    pub success: bool,
    pub file_path: String,
    pub size: u64,
}

/// The outcome of a batch delete.
#[derive(Debug, Clone)]
pub struct DeleteResult {
    pub success: bool,
    pub deleted_count: usize,
    pub failed_keys: Vec<String>,
}

/// The result of an existence probe.
#[derive(Debug, Clone)]
pub struct ObjectMetadata {
    pub exists: bool,
    pub size: Option<u64>,
    pub etag: Option<String>,
    pub last_modified: Option<String>,
    pub content_type: Option<String>,
}

/// One page of a listing.
#[derive(Debug, Clone)]
pub struct ListObjectsResult {
    pub objects: Vec<ObjectInfo>,
    pub is_truncated: bool,
    pub next_marker: Option<String>,
}

/// One entry of a listing.
#[derive(Debug, Clone)]
pub struct ObjectInfo {
    pub key: String,
    pub size: u64,
    pub etag: String,
    pub last_modified: String,
}

/// The upload's image-processing instruction, if any.
pub open spec fn pic_operations_of(options: Option<UploadOptions>) -> Option<Seq<char>> {
    match options {
        Some(o) => match o.headers {
            Some(h) => match h.pic_operations {
                Some(p) => Some(p@),
                None => None,
            },
            None => None,
        },
        None => None,
    }
}

/// Reads the image-processing instruction out of the upload options.
pub fn pic_operations(options: &Option<UploadOptions>) -> (r: Option<&String>)
    ensures
        match r {
            Some(p) => pic_operations_of(*options) == Some(p@),
            None => pic_operations_of(*options) is None,
        },
{
    match options {
        Some(o) => match &o.headers {
            Some(h) => match &h.pic_operations {
                Some(p) => Some(p),
                None => None,
            },
            None => None,
        },
        None => None,
    }
}

} // verus!
