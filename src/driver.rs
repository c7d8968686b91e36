use vstd::prelude::*;

use crate::error::{DownloadError, RequestTimeoutError};
use crate::response::{DownloadResponse, ResponseView};

verus! {

/// Milliseconds a call may take, from its issue to its last byte.
pub const CALL_TIMEOUT_MS: u64 = 10000;

/// Milliseconds that one wait on the multiplexer lasts at most.
pub const POLL_INTERVAL_MS: u64 = 100;

/// The largest response body accepted, in bytes.
pub const MAX_RESPONSE_BYTES: usize = 1024 * 1024 * 20;

/// Connections that the pool keeps at most.
pub const MAX_CONNECTIONS: usize = 10;

/// What one wait on the multiplexer brought for a call.
#[derive(Debug)]
pub enum PollEvent {
    /// The multiplexer reported that this call's time budget ran out.
    TimedOut,
    /// Nothing that completes this call happened.
    Idle,
    /// The connection or the protocol failed.
    Failed,
    /// The call completed, with its status and body where it had them.
    Completed(Option<(u16, Vec<u8>)>),
}

/// The view of a [`PollEvent`].
pub enum PollEventView {
    TimedOut,
    Idle,
    Failed,
    Completed(Option<(u16, Seq<u8>)>),
}

impl View for PollEvent {
    type V = PollEventView;

    open spec fn view(&self) -> PollEventView {
        match self {
            PollEvent::TimedOut => PollEventView::TimedOut,
            PollEvent::Idle => PollEventView::Idle,
            PollEvent::Failed => PollEventView::Failed,
            PollEvent::Completed(None) => PollEventView::Completed(None),
            PollEvent::Completed(Some((status, body))) => PollEventView::Completed(
                Some((*status, body@)),
            ),
        }
    }
}

/// How a call ends on `event`, where its bodies may hold `max_response`
/// bytes at most: not yet, or with a response or an error.
pub open spec fn call_outcome(event: PollEventView, max_response: nat) -> Option<
    Result<ResponseView, DownloadError>,
> {
    match event {
        PollEventView::TimedOut => Some(Err(DownloadError::RequestTimeout(RequestTimeoutError))),
        PollEventView::Idle => None,
        PollEventView::Failed => Some(Err(DownloadError::TransportError)),
        PollEventView::Completed(None) => Some(Err(DownloadError::EmptyResponse)),
        PollEventView::Completed(Some((status, body))) => if body.len() == 0 {
            Some(Err(DownloadError::EmptyResponse))
        } else if body.len() > max_response {
            Some(Err(DownloadError::TransportError))
        } else {
            Some(Ok(ResponseView { status, raw: Some(body), downloaded_to: None }))
        },
    }
}

/// The view of a call's ending.
pub open spec fn ending_view(r: Option<Result<DownloadResponse, DownloadError>>) -> Option<
    Result<ResponseView, DownloadError>,
> {
    match r {
        None => None,
        Some(Ok(resp)) => Some(Ok(resp@)),
        Some(Err(e)) => Some(Err(e)),
    }
}

/// Decides how a call ends on `event`: `None` while it goes on.
pub fn on_poll(event: PollEvent, max_response: usize) -> (r: Option<
    Result<DownloadResponse, DownloadError>,
>)
    ensures
        ending_view(r) == call_outcome(event@, max_response as nat),
        event@ matches PollEventView::Completed(Some((_, body))) && body.len() > max_response
            ==> r == Some(Err::<DownloadResponse, DownloadError>(DownloadError::TransportError)),
{
    match event {
        PollEvent::TimedOut => Some(Err(DownloadError::RequestTimeout(RequestTimeoutError))),
        PollEvent::Idle => None,
        PollEvent::Failed => Some(Err(DownloadError::TransportError)),
        PollEvent::Completed(None) => Some(Err(DownloadError::EmptyResponse)),
        PollEvent::Completed(Some((status, body))) => {
            if body.len() == 0 {
                Some(Err(DownloadError::EmptyResponse))
            } else if body.len() > max_response {
                Some(Err(DownloadError::TransportError))
            } else {
                Some(Ok(DownloadResponse { status, raw: Some(body), downloaded_to: None }))
            }
        },
    }
}

} // verus!
