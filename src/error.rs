use vstd::prelude::*;

verus! {

/// A call that did not complete within its time budget.
#[derive(Debug, Clone, Copy, PartialEq, Eq, Structural)]
pub struct RequestTimeoutError;

impl RequestTimeoutError {
    /// What the error says.
    pub fn message(&self) -> (r: &'static str)
        ensures
            r@ == "request timed out"@,
    {
        "request timed out"
    }
}

/// Why a download batch failed.
#[derive(Debug, Clone, Copy, PartialEq, Eq, Structural)]
pub enum DownloadError {
    /// The URL's path has no final segment to name a file after.
    InvalidDestination,
    /// A call's time budget ran out before it completed.
    RequestTimeout(RequestTimeoutError),
    /// A call completed without a body, or with an empty one.
    EmptyResponse,
    /// The connection or the protocol failed, or the response was too large.
    TransportError,
    /// Writing a fetched body to its destination failed.
    FilesystemError,
    /// A body that is not UTF-8 was asked for as text.
    NotText,
}

} // verus!
