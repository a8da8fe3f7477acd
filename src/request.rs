//! Signed requests and the failures of the object operations.
use vstd::prelude::*;
use crate::signing::{entry_views, Entry};

verus! {

/// A request ready to be sent: method, URL, headers besides the host, body.
pub struct SignedRequest {
    pub method: String,
    pub url: String,
    pub headers: Vec<Entry>,
    pub body: String,
}

/// What a signed request holds.
pub struct RequestView {
    pub method: Seq<char>,
    pub url: Seq<char>,
    pub headers: Seq<(Seq<char>, Seq<char>)>,
    pub body: Seq<char>,
}

impl SignedRequest {
    pub open spec fn view(&self) -> RequestView {
        RequestView {
            method: self.method@,
            url: self.url@,
            headers: entry_views(self.headers@),
            body: self.body@,
        }
    }
}

/// The object operations.
#[derive(Debug, Clone, Copy, PartialEq, Eq)]
pub enum Operation {
    Upload,
    Download,
    Head,
    Delete,
    List,
}

/// A failure of an object operation.
#[derive(Debug, Clone)]
pub enum CosError {
    /// The service answered with a status that is not a success.
    Status { operation: Operation, status: u16, body: String },
    /// The object does not exist.
    NotFound,
    /// The object exists but its size was not reported.
    MissingSize,
    /// The payload is not valid base64.
    InvalidPayload,
}

/// Whether an HTTP status is a success.
pub open spec fn is_success(status: u16) -> bool {
    200 <= status <= 299
}

} // verus!
