use vstd::prelude::*;
use vstd::utf8::{decode_utf8, valid_utf8};

use crate::error::DownloadError;

verus! {

/// What a batch records for one URL.
#[derive(Debug, Clone)]
pub struct DownloadResponse {
    /// The HTTP status, or 200 for a body read from the cache.
    pub status: u16,
    /// The body.
    pub raw: Option<Vec<u8>>,
    /// The file the body was written to or read from, if any.
    pub downloaded_to: Option<String>,
}

/// The view of a [`DownloadResponse`].
pub struct ResponseView {
    pub status: u16,
    pub raw: Option<Seq<u8>>,
    pub downloaded_to: Option<Seq<char>>,
}

pub open spec fn bytes_view(raw: Option<Vec<u8>>) -> Option<Seq<u8>> {
    match raw {
        Some(b) => Some(b@),
        None => None,
    }
}

pub open spec fn path_view(path: Option<String>) -> Option<Seq<char>> {
    match path {
        Some(p) => Some(p@),
        None => None,
    }
}

impl View for DownloadResponse {
    type V = ResponseView;

    open spec fn view(&self) -> ResponseView {
        ResponseView {
            status: self.status,
            raw: bytes_view(self.raw),
            downloaded_to: path_view(self.downloaded_to),
        }
    }
}

/// Relies on std::str::from_utf8: it accepts exactly the valid UTF-8 byte
/// strings, and the text is their decoding.
#[verifier::external_body]
fn utf8_text(bytes: &[u8]) -> (text: Option<String>)
    ensures
        text is Some <==> valid_utf8(bytes@),
        text matches Some(t) ==> t@ == decode_utf8(bytes@),
{
    match std::str::from_utf8(bytes) {
        Ok(t) => Some(t.to_owned()),
        Err(_) => None,
    }
}

impl DownloadResponse {
    /// Returns the body as text.
    pub fn response_text(&self) -> (r: Result<String, DownloadError>)
        ensures
            match self@.raw {
                None => r == Err::<String, DownloadError>(DownloadError::EmptyResponse),
                Some(b) => if valid_utf8(b) {
                    r matches Ok(t) && t@ == decode_utf8(b)
                } else {
                    r == Err::<String, DownloadError>(DownloadError::NotText)
                },
            },
    {
        match &self.raw {
            None => Err(DownloadError::EmptyResponse),
            Some(bytes) => match utf8_text(bytes.as_slice()) {
                Some(text) => Ok(text),
                None => Err(DownloadError::NotText),
            },
        }
    }
}

} // verus!
