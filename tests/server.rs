use wstd::client::{Client, TimeoutKind, TimeoutSetting};
use wstd::headers::{header_map_from_fields, header_map_to_fields};
use wstd::body::BodyHint;
use wstd::server::{fail_reason, response_fields, FailReason, ResponseAction, ResponseLifecycle, ResponsePhase};
use wstd::time::Duration;

fn pairs(items: &[(&str, &str)]) -> Vec<(Vec<u8>, Vec<u8>)> {
    items
        .iter()
        .map(|(k, v)| (k.as_bytes().to_vec(), v.as_bytes().to_vec()))
        .collect()
}

#[test]
fn response_head_adds_content_length() {
    let h = header_map_from_fields(&pairs(&[("content-type", "text/plain")])).unwrap();
    let f = response_fields(&h, Some(1234));
    assert_eq!(f, pairs(&[("content-type", "text/plain"), ("content-length", "1234")]));
    let back = header_map_from_fields(&f).unwrap();
    assert_eq!(BodyHint::from_headers(&back), Ok(BodyHint::ContentLength(1234)));
    assert_eq!(response_fields(&h, None), header_map_to_fields(&h));
    assert_eq!(
        response_fields(&h, Some(0)),
        pairs(&[("content-type", "text/plain"), ("content-length", "0")])
    );
    assert_eq!(
        response_fields(&h, Some(u64::MAX)),
        pairs(&[("content-type", "text/plain"), ("content-length", "18446744073709551615")])
    );
}

#[test]
fn failing_handler_report() {
    let code = wasip2::http::types::ErrorCode::HttpRequestMethodInvalid;
    assert!(matches!(
        fail_reason(Some(code), "ignored".to_string()),
        FailReason::Forward(wasip2::http::types::ErrorCode::HttpRequestMethodInvalid)
    ));
    assert!(matches!(fail_reason(None, "oops".to_string()), FailReason::Internal(m) if m == "oops"));
}

#[test]
fn client_options() {
    let mut c = Client::new();
    assert!(c.timeout_settings().is_none());
    c.set_first_byte_timeout(Duration::from_millis(500));
    assert_eq!(
        c.timeout_settings(),
        Some(vec![TimeoutSetting { kind: TimeoutKind::FirstByte, nanos: 500_000_000 }])
    );
    c.set_connect_timeout(Duration::from_secs(1));
    c.set_between_bytes_timeout(Duration::from_nanos(7));
    assert_eq!(
        c.timeout_settings(),
        Some(vec![
            TimeoutSetting { kind: TimeoutKind::Connect, nanos: 1_000_000_000 },
            TimeoutSetting { kind: TimeoutKind::FirstByte, nanos: 500_000_000 },
            TimeoutSetting { kind: TimeoutKind::BetweenBytes, nanos: 7 },
        ])
    );
    assert_eq!(
        TimeoutKind::FirstByte.unsupported_message(),
        "wasi-http implementation does not support first byte timeout option"
    );
}

#[test]
fn response_slot_is_set_once() {
    let mut l = ResponseLifecycle::new();
    assert!(l.step(ResponseAction::Respond));
    assert_eq!(l.phase, ResponsePhase::Committed);
    assert!(!l.step(ResponseAction::Respond));
    assert!(!l.step(ResponseAction::Fail));
    assert!(l.step(ResponseAction::BodySent));
    assert_eq!(l.phase, ResponsePhase::Finished);

    let mut l = ResponseLifecycle::new();
    assert!(!l.step(ResponseAction::BodySent));
    assert!(l.step(ResponseAction::Fail));
    assert!(!l.step(ResponseAction::Respond));
}
