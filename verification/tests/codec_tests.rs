use dkk_download::codec::{
    build_submission_payload, extract_download_href, extract_progress, extract_request_id,
    ExportRequest,
};

fn req(layers: &[&str], geo: &str) -> ExportRequest {
    let feature_types: Vec<Vec<u8>> = layers.iter().map(|l| l.as_bytes().to_vec()).collect();
    ExportRequest::new(feature_types, geo.as_bytes().to_vec()).expect("request must be accepted")
}

#[test]
fn payload_has_documented_shape() {
    let r = req(&["perceel", "pand"], "POLYGON((0 0,1 1,0 1,0 0))");
    let payload = build_submission_payload(&r);
    assert_eq!(
        payload,
        br#"{"featuretypes":["perceel","pand"],"format":"gml","geofilter":"POLYGON((0 0,1 1,0 1,0 0))"}"#.to_vec()
    );
}

#[test]
fn payload_single_layer() {
    let r = req(&["kadastralegrens"], "POLYGON EMPTY");
    let payload = build_submission_payload(&r);
    assert_eq!(
        payload,
        br#"{"featuretypes":["kadastralegrens"],"format":"gml","geofilter":"POLYGON EMPTY"}"#
            .to_vec()
    );
}

#[test]
fn payload_escapes_quotes_and_backslashes() {
    let r = req(&["a\"b"], "x\\y");
    let payload = build_submission_payload(&r);
    assert_eq!(
        payload,
        b"{\"featuretypes\":[\"a\\\"b\"],\"format\":\"gml\",\"geofilter\":\"x\\\\y\"}".to_vec()
    );
}

#[test]
fn payload_round_trips_through_json_parser() {
    let layers = ["perceel", "kadastralegrens", "pand", "openbareruimtelabel"];
    let geo = "POLYGON((155000 463000,155100 463000,155100 463100,155000 463000))";
    let r = req(&layers, geo);
    let payload = build_submission_payload(&r);
    let text = String::from_utf8(payload).expect("payload must be valid text");
    let parsed = json::parse(&text).expect("payload must parse as JSON");
    assert_eq!(parsed["format"].as_str(), Some("gml"));
    assert_eq!(parsed["geofilter"].as_str(), Some(geo));
    let ft = &parsed["featuretypes"];
    assert_eq!(ft.len(), layers.len());
    for (i, l) in layers.iter().enumerate() {
        assert_eq!(ft[i].as_str(), Some(*l));
    }
}

#[test]
fn payload_with_escapes_round_trips_through_json_parser() {
    let geo = "quote \" and backslash \\ inside";
    let r = req(&["laag\"met\\rare tekens"], geo);
    let payload = build_submission_payload(&r);
    let text = String::from_utf8(payload).expect("payload must be valid text");
    let parsed = json::parse(&text).expect("payload must parse as JSON");
    assert_eq!(parsed["geofilter"].as_str(), Some(geo));
    assert_eq!(parsed["featuretypes"][0].as_str(), Some("laag\"met\\rare tekens"));
}

#[test]
fn request_rejects_empty_inputs() {
    assert!(ExportRequest::new(vec![], b"POLYGON EMPTY".to_vec()).is_none());
    assert!(ExportRequest::new(vec![b"perceel".to_vec()], vec![]).is_none());
    assert!(ExportRequest::new(vec![b"perceel".to_vec()], b"P".to_vec()).is_some());
}

#[test]
fn request_id_is_extracted() {
    assert_eq!(
        extract_request_id(br#"{"downloadRequestId":"abc123"}"#),
        Some(b"abc123".to_vec())
    );
    assert_eq!(
        extract_request_id(b"{ \"downloadRequestId\" : \"abc123\" }"),
        Some(b"abc123".to_vec())
    );
    assert_eq!(extract_request_id(br#"{"somethingElse":"abc123"}"#), None);
    assert_eq!(extract_request_id(b"not json at all"), None);
    assert_eq!(extract_request_id(b""), None);
}

#[test]
fn progress_is_extracted_leniently() {
    assert_eq!(extract_progress(br#"{"progress":42}"#), Some(42));
    assert_eq!(extract_progress(b"{ \"progress\" : 100 }"), Some(100));
    assert_eq!(extract_progress(br#"{"progress":0}"#), Some(0));
    assert_eq!(extract_progress(br#"{}"#), None);
    assert_eq!(extract_progress(br#"{"progress":"fast"}"#), None);
    assert_eq!(extract_progress(b"garbage"), None);
    assert_eq!(
        extract_progress(br#"{"progress":99999999999999999999999999999}"#),
        None
    );
}

#[test]
fn download_href_is_extracted() {
    assert_eq!(
        extract_download_href(br#"{"_links":{"download":{"href":"/dl/abc123.zip"}}}"#),
        Some(b"/dl/abc123.zip".to_vec())
    );
    assert_eq!(extract_download_href(br#"{"_links":{}}"#), None);
    assert_eq!(extract_download_href(b""), None);
}
