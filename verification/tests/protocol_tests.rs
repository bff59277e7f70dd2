use dkk_download::protocol::{
    classify_fetch, classify_poll, classify_submit, download_url, status_url, submit_url,
    JobStatus, RemoteError, Verb,
};

fn contains(haystack: &[u8], needle: &[u8]) -> bool {
    haystack.windows(needle.len().max(1)).any(|w| w == needle)
}

#[test]
fn submit_success_yields_handle() {
    let handle = classify_submit(202, Some(br#"{"downloadRequestId":"abc123"}"#.to_vec()))
        .expect("accepted submission must succeed");
    assert_eq!(handle.request_id, b"abc123".to_vec());
}

#[test]
fn submit_missing_id_is_malformed() {
    let r = classify_submit(202, Some(b"{}".to_vec()));
    assert!(matches!(r, Err(RemoteError::MalformedResponse)));
    let r = classify_submit(202, None);
    assert!(matches!(r, Err(RemoteError::MalformedResponse)));
}

#[test]
fn submit_other_codes_are_classified_errors() {
    for code in [200u16, 201, 204, 301, 400, 401, 404, 429, 500, 502, 503] {
        let r = classify_submit(code, Some(b"oops".to_vec()));
        match r {
            Err(RemoteError::UnexpectedStatus { code: c, body, verb }) => {
                assert_eq!(c, code);
                assert_eq!(body, Some(b"oops".to_vec()));
                assert_eq!(verb, Verb::Post);
            }
            _ => panic!("status {} must be an unexpected-status error", code),
        }
    }
}

#[test]
fn poll_processing_reads_optional_progress() {
    match classify_poll(200, Some(br#"{"progress":55}"#.to_vec())) {
        Ok(JobStatus::Processing { progress }) => assert_eq!(progress, Some(55)),
        _ => panic!("processing status must classify as processing"),
    }
    match classify_poll(200, Some(b"{}".to_vec())) {
        Ok(JobStatus::Processing { progress }) => assert_eq!(progress, None),
        _ => panic!("processing without progress must still be processing"),
    }
    match classify_poll(200, None) {
        Ok(JobStatus::Processing { progress }) => assert_eq!(progress, None),
        _ => panic!("processing without body must still be processing"),
    }
    match classify_poll(200, Some(b"not json".to_vec())) {
        Ok(JobStatus::Processing { progress }) => assert_eq!(progress, None),
        _ => panic!("a malformed processing body is tolerated"),
    }
}

#[test]
fn poll_ready_demands_link() {
    match classify_poll(201, Some(br#"{"_links":{"download":{"href":"/dl/a.zip"}}}"#.to_vec())) {
        Ok(JobStatus::Ready { location }) => assert_eq!(location, b"/dl/a.zip".to_vec()),
        _ => panic!("ready status with link must classify as ready"),
    }
    assert!(matches!(
        classify_poll(201, Some(b"{}".to_vec())),
        Err(RemoteError::MalformedResponse)
    ));
    assert!(matches!(classify_poll(201, None), Err(RemoteError::MalformedResponse)));
}

#[test]
fn poll_other_codes_are_classified_errors() {
    for code in [202u16, 204, 400, 404, 410, 500, 503] {
        match classify_poll(code, Some(b"detail".to_vec())) {
            Err(RemoteError::UnexpectedStatus { code: c, body, verb }) => {
                assert_eq!(c, code);
                assert_eq!(body, Some(b"detail".to_vec()));
                assert_eq!(verb, Verb::Get);
            }
            _ => panic!("status {} must be an unexpected-status error", code),
        }
    }
}

#[test]
fn fetch_only_succeeds_on_ok() {
    assert!(classify_fetch(200, None).is_ok());
    for code in [201u16, 202, 204, 301, 404, 500] {
        match classify_fetch(code, Some(b"why".to_vec())) {
            Err(RemoteError::UnexpectedStatus { code: c, body, verb }) => {
                assert_eq!(c, code);
                assert_eq!(body, Some(b"why".to_vec()));
                assert_eq!(verb, Verb::Get);
            }
            _ => panic!("status {} must be an unexpected-status error", code),
        }
    }
}

#[test]
fn urls_are_built_exactly() {
    assert_eq!(
        submit_url(),
        b"https://downloads.pdok.nl/kadastralekaart/api/v4_0/full/custom".to_vec()
    );
    assert_eq!(
        status_url(b"abc123"),
        b"https://downloads.pdok.nl/kadastralekaart/api/v4_0/full/custom/abc123/status".to_vec()
    );
    assert_eq!(
        download_url(b"/dl/abc123.zip"),
        b"https://downloads.pdok.nl/dl/abc123.zip".to_vec()
    );
}

#[test]
fn error_message_carries_code_and_body() {
    let e = RemoteError::UnexpectedStatus {
        code: 500,
        body: Some(b"Internal Server Error".to_vec()),
        verb: Verb::Post,
    };
    let msg = e.describe();
    assert!(contains(&msg, b"500"));
    assert!(contains(&msg, b"Internal Server Error"));
    assert!(contains(&msg, b"POST"));
}

#[test]
fn error_message_without_body() {
    let e = RemoteError::UnexpectedStatus { code: 404, body: None, verb: Verb::Get };
    let msg = e.describe();
    assert!(contains(&msg, b"404"));
    assert!(contains(&msg, b"GET"));
}

#[test]
fn transport_and_malformed_messages() {
    let t = RemoteError::Transport { detail: b"connection refused".to_vec() };
    assert!(contains(&t.describe(), b"connection refused"));
    let m = RemoteError::MalformedResponse;
    assert!(!m.describe().is_empty());
}
