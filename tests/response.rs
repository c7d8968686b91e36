use offregisters_lib::error::{DownloadError, RequestTimeoutError};
use offregisters_lib::response::DownloadResponse;

#[test]
fn response_text_decodes_body() {
    let r = DownloadResponse {
        status: 200,
        raw: Some(b"Microsoft NCSI".to_vec()),
        downloaded_to: None,
    };
    assert_eq!(r.response_text(), Ok("Microsoft NCSI".to_string()));
    let r = DownloadResponse {
        status: 200,
        raw: Some("h\u{e9}".as_bytes().to_vec()),
        downloaded_to: None,
    };
    assert_eq!(r.response_text(), Ok("h\u{e9}".to_string()));
}

#[test]
fn response_text_without_body_is_empty_response() {
    let r = DownloadResponse { status: 204, raw: None, downloaded_to: None };
    assert_eq!(r.response_text(), Err(DownloadError::EmptyResponse));
}

#[test]
fn response_text_of_bad_utf8_is_not_text() {
    let r = DownloadResponse { status: 200, raw: Some(vec![0x66, 0xff, 0x6f]), downloaded_to: None };
    assert_eq!(r.response_text(), Err(DownloadError::NotText));
}

#[test]
fn timeout_message() {
    assert_eq!(RequestTimeoutError.message(), "request timed out");
}
