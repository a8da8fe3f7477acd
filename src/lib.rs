//! A signed client for a COS-compatible object store: request signing, key
//! resolution, request construction and response interpretation.
//!
//! The library performs no I/O. Each operation is split into the signed
//! request it prepares and the interpretation of the answer it is handed;
//! the caller moves the bytes in between.

mod client;
mod commands;
mod delete;
mod model;
mod objects;
mod primitives;
mod request;
mod scan;
mod signing;
mod text;
mod upload;

pub use client::{host, location, CosClient};
pub use commands::{client_id, decode_payload, greet, staging_file_name};
pub use delete::{delete_response, error_keys, DeletePlan};
pub use scan::count_occurrences;
pub use model::{
    pic_operations, CosConfig, CosHeaders, DeleteResult, DownloadResult, ListObjectsResult,
    ObjectInfo, ObjectMetadata, UploadOptions, UploadResult,
};
pub use objects::{download_response, head_response, list_response, listing_entries, object_info, object_size};
pub use request::{CosError, Operation, SignedRequest};
pub use signing::Entry;
pub use text::{
    int_string, join_all, join_str, last_index, less_than, nat_string, parse_u64, same_text,
    slice, starts_with,
};
pub use upload::{
    content_type_of_path, file_extension, infer_content_type, trim_etag, trim_quotes_str,
    UploadPlan, UploadStep,
};
