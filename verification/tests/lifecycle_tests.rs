use dkk_download::machine::{Action, FetchOutcome, HttpOutcome, Phase, Session};
use dkk_download::protocol::RemoteError;

fn contains(haystack: &[u8], needle: &[u8]) -> bool {
    haystack.windows(needle.len().max(1)).any(|w| w == needle)
}

fn response(code: u16, body: &[u8]) -> HttpOutcome {
    HttpOutcome::Response { code, body: Some(body.to_vec()) }
}

#[test]
fn polling_waits_until_ready() {
    // A scripted remote: processing three times, then ready. The machine
    // must ask for exactly three delayed polls before it asks for the fetch.
    let mut s = Session::new();
    let a = s.on_submit_outcome(response(202, br#"{"downloadRequestId":"abc123"}"#));
    let mut poll_url = match a {
        Action::Poll { delay_millis, url } => {
            assert_eq!(delay_millis, 0);
            url
        }
        _ => panic!("an accepted submission must lead to a poll"),
    };
    let mut waits = 0;
    for _ in 0..3 {
        let a = s.on_poll_outcome(response(200, b"{}"));
        match a {
            Action::Poll { delay_millis, url } => {
                assert_eq!(delay_millis, 1000);
                waits += 1;
                poll_url = url;
            }
            _ => panic!("processing must lead to another poll"),
        }
        assert!(matches!(s.phase, Phase::Polling { .. }));
    }
    assert_eq!(waits, 3);
    assert_eq!(
        poll_url,
        b"https://downloads.pdok.nl/kadastralekaart/api/v4_0/full/custom/abc123/status".to_vec()
    );
    let a = s.on_poll_outcome(response(201, br#"{"_links":{"download":{"href":"/dl/abc123.zip"}}}"#));
    match a {
        Action::Fetch { url } => {
            assert_eq!(url, b"https://downloads.pdok.nl/dl/abc123.zip".to_vec());
        }
        _ => panic!("ready must lead to the fetch"),
    }
    assert!(matches!(s.phase, Phase::Ready { .. }));
}

#[test]
fn full_run_delivers_all_bytes() {
    // Submission accepted as "abc123"; two processing polls with progress
    // 10 then 55; then ready; then a 1024-byte download with a declared
    // length of 1024, streamed in chunks into the sink.
    let mut s = Session::new();
    s.on_submit_outcome(response(202, br#"{"downloadRequestId":"abc123"}"#));
    s.on_poll_outcome(response(200, br#"{"progress":10}"#));
    assert_eq!(s.reporter.displayed_percent(), Some(10));
    s.on_poll_outcome(response(200, br#"{"progress":55}"#));
    assert_eq!(s.reporter.displayed_percent(), Some(55));
    assert_eq!(s.reporter.tick_count(), 2);
    s.on_poll_outcome(response(201, br#"{"_links":{"download":{"href":"/dl/abc123.zip"}}}"#));
    s.on_fetch_outcome(FetchOutcome::Response {
        code: 200,
        content_length: Some(1024),
        body: None,
    });
    assert!(matches!(s.phase, Phase::Downloading));
    let archive = vec![7u8; 1024];
    let mut sink: Vec<u8> = Vec::new();
    for chunk in archive.chunks(400) {
        sink.extend_from_slice(chunk);
        s.on_chunk(chunk.len() as u64);
    }
    s.on_stream_end();
    assert_eq!(sink.len(), 1024);
    assert_eq!(sink, archive);
    assert!(matches!(s.phase, Phase::Done));
    assert!(s.reporter.is_finished());
    assert_eq!(s.reporter.bytes_transferred(), 1024);
    assert_eq!(s.reporter.total_bytes(), Some(1024));
}

#[test]
fn failed_submission_halts_before_any_poll() {
    let mut s = Session::new();
    let a = s.on_submit_outcome(response(500, b"Internal Server Error"));
    assert!(matches!(a, Action::Halt));
    match &s.phase {
        Phase::Failed { error } => {
            let msg = error.describe();
            assert!(contains(&msg, b"500"));
            assert!(contains(&msg, b"Internal Server Error"));
        }
        _ => panic!("a rejected submission must fail the run"),
    }
}

#[test]
fn submission_without_id_fails() {
    let mut s = Session::new();
    let a = s.on_submit_outcome(response(202, b"{}"));
    assert!(matches!(a, Action::Halt));
    assert!(matches!(s.phase, Phase::Failed { error: RemoteError::MalformedResponse }));
}

#[test]
fn transport_failure_fails_the_run() {
    let mut s = Session::new();
    let a = s.on_submit_outcome(HttpOutcome::TransportFailure {
        detail: b"connection refused".to_vec(),
    });
    assert!(matches!(a, Action::Halt));
    assert!(matches!(s.phase, Phase::Failed { error: RemoteError::Transport { .. } }));
}

#[test]
fn poll_error_leaves_polling() {
    let mut s = Session::new();
    s.on_submit_outcome(response(202, br#"{"downloadRequestId":"abc123"}"#));
    let a = s.on_poll_outcome(response(503, b"busy"));
    assert!(matches!(a, Action::Halt));
    match &s.phase {
        Phase::Failed { error: RemoteError::UnexpectedStatus { code, .. } } => {
            assert_eq!(*code, 503);
        }
        _ => panic!("an unexpected poll status must fail the run"),
    }
}

#[test]
fn ready_without_link_fails() {
    let mut s = Session::new();
    s.on_submit_outcome(response(202, br#"{"downloadRequestId":"abc123"}"#));
    let a = s.on_poll_outcome(response(201, b"{}"));
    assert!(matches!(a, Action::Halt));
    assert!(matches!(s.phase, Phase::Failed { error: RemoteError::MalformedResponse }));
}

#[test]
fn fetch_error_fails_the_run() {
    let mut s = Session::new();
    s.on_submit_outcome(response(202, br#"{"downloadRequestId":"abc123"}"#));
    s.on_poll_outcome(response(201, br#"{"_links":{"download":{"href":"/dl/abc123.zip"}}}"#));
    s.on_fetch_outcome(FetchOutcome::Response { code: 404, content_length: None, body: None });
    match &s.phase {
        Phase::Failed { error: RemoteError::UnexpectedStatus { code, .. } } => {
            assert_eq!(*code, 404);
        }
        _ => panic!("an unexpected fetch status must fail the run"),
    }
}

#[test]
fn broken_stream_fails_the_run() {
    let mut s = Session::new();
    s.on_submit_outcome(response(202, br#"{"downloadRequestId":"abc123"}"#));
    s.on_poll_outcome(response(201, br#"{"_links":{"download":{"href":"/dl/abc123.zip"}}}"#));
    s.on_fetch_outcome(FetchOutcome::Response {
        code: 200,
        content_length: Some(10),
        body: None,
    });
    s.on_chunk(4);
    s.on_stream_failure(b"connection reset".to_vec());
    assert!(matches!(s.phase, Phase::Failed { error: RemoteError::Transport { .. } }));
}

#[test]
fn download_without_declared_length_still_counts() {
    let mut s = Session::new();
    s.on_submit_outcome(response(202, br#"{"downloadRequestId":"abc123"}"#));
    s.on_poll_outcome(response(201, br#"{"_links":{"download":{"href":"/dl/abc123.zip"}}}"#));
    s.on_fetch_outcome(FetchOutcome::Response { code: 200, content_length: None, body: None });
    s.on_chunk(0);
    s.on_stream_end();
    assert!(matches!(s.phase, Phase::Done));
    assert_eq!(s.reporter.bytes_transferred(), 0);
    assert_eq!(s.reporter.total_bytes(), None);
}
