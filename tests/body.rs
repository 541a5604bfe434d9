use wstd::body::{Body, BodyHint, BodyInner, InvalidContentLength, SendPlan};
use wstd::frames::{
    BodyError, DecodeStep, DecoderPhase, Frame, FrameSender, HostEvent, IncomingBodyDecoder,
    ReadOutcome, SendStep, TrailersOutcome,
};
use wstd::headers::{header_map_from_fields, header_map_to_fields, FieldError};

fn pairs(items: &[(&str, &str)]) -> Vec<(Vec<u8>, Vec<u8>)> {
    items
        .iter()
        .map(|(k, v)| (k.as_bytes().to_vec(), v.as_bytes().to_vec()))
        .collect()
}

#[test]
fn header_map_keeps_order_and_duplicates() {
    let h = header_map_from_fields(&pairs(&[("A", "1"), ("b", "2"), ("a", "3")])).unwrap();
    assert_eq!(
        header_map_to_fields(&h),
        pairs(&[("a", "1"), ("a", "3"), ("b", "2")])
    );
}

#[test]
fn header_map_refuses_bad_name_and_value() {
    let e = header_map_from_fields(&pairs(&[("ok", "1"), ("bad name", "2")])).unwrap_err();
    assert_eq!(e, FieldError::InvalidName(b"bad name".to_vec()));
    let e = header_map_from_fields(&pairs(&[("x", "a\u{7f}b")])).unwrap_err();
    assert_eq!(e, FieldError::InvalidValue(b"x".to_vec()));
}

#[test]
fn content_length_hint() {
    let h = header_map_from_fields(&pairs(&[("Content-Length", "42")])).unwrap();
    assert_eq!(BodyHint::from_headers(&h), Ok(BodyHint::ContentLength(42)));
    assert_eq!(BodyHint::ContentLength(42).content_length(), Some(42));

    let h = header_map_from_fields(&pairs(&[("content-type", "text/plain")])).unwrap();
    assert_eq!(BodyHint::from_headers(&h), Ok(BodyHint::Unknown));
    assert_eq!(BodyHint::Unknown.content_length(), None);

    let h = header_map_from_fields(&pairs(&[("content-length", "4x")])).unwrap();
    assert_eq!(BodyHint::from_headers(&h), Err(InvalidContentLength));
    assert_eq!(InvalidContentLength.message(), "Invalid Content-Length header");
}

#[test]
fn content_length_first_value_counts() {
    let h = header_map_from_fields(&pairs(&[("content-length", "3"), ("content-length", "9")]))
        .unwrap();
    assert_eq!(BodyHint::from_headers(&h), Ok(BodyHint::ContentLength(3)));
}

#[test]
fn in_memory_bodies() {
    let mut b = Body::from(vec![1u8, 2, 3]);
    assert_eq!(b.content_length(), Some(3));
    assert_eq!(b.in_memory_contents(), Some(&[1u8, 2, 3][..]));
    b = Body::from("hi");
    assert_eq!(b.in_memory_contents(), Some(&b"hi"[..]));
    b = Body::from(String::from("hey"));
    assert_eq!(b.content_length(), Some(3));
    b = Body::empty();
    assert_eq!(b.content_length(), Some(0));
    b = Body::from(bytes::Bytes::from_static(b"abcd"));
    assert_eq!(b.in_memory_contents(), Some(&b"abcd"[..]));
    assert_eq!(b.content_length(), Some(4));
    b = Body::from(());
    assert_eq!(b.in_memory_contents(), Some(&b""[..]));
}

#[test]
fn send_plan_of_in_memory_body() {
    let t = header_map_from_fields(&pairs(&[("k", "v")])).unwrap();
    let b = Body::from_collected(b"data".to_vec(), Some(t));
    match b.send_plan() {
        SendPlan::Write { data, trailers } => {
            assert_eq!(data, b"data".to_vec());
            assert_eq!(trailers, Some(pairs(&[("k", "v")])));
        }
        _ => panic!("an in-memory body is written"),
    }
    match Body::from(vec![5u8]).send_plan() {
        SendPlan::Write { data, trailers } => {
            assert_eq!(data, vec![5u8]);
            assert!(trailers.is_none());
        }
        _ => panic!("an in-memory body is written"),
    }
    assert!(matches!(Body::empty().into_inner(), BodyInner::Complete { .. }));
}

fn read(bytes: &[u8]) -> HostEvent {
    HostEvent::Read(ReadOutcome::Bytes(bytes.to_vec()))
}

#[test]
fn decoder_round_trips_bytes_without_trailers() {
    let mut d = IncomingBodyDecoder::new(BodyHint::ContentLength(5));
    assert_eq!(d.exact_size(), Some(5));
    let mut data = Vec::new();
    let mut waits = 0;
    let mut trailers = 0;
    let events = vec![
        read(b"he"),
        read(b""),
        read(b"llo"),
        HostEvent::Read(ReadOutcome::Closed),
        HostEvent::Trailers(TrailersOutcome::Pending),
        HostEvent::Trailers(TrailersOutcome::Absent),
    ];
    let mut finished = false;
    for ev in events {
        match d.step(ev) {
            DecodeStep::Frame(Frame::Data(b)) => data.extend(b),
            DecodeStep::Frame(Frame::Trailers(_)) => trailers += 1,
            DecodeStep::Wait => waits += 1,
            DecodeStep::FinishBody => finished = true,
            DecodeStep::End => {}
            DecodeStep::Error(e) => panic!("unexpected error {e:?}"),
        }
    }
    assert_eq!(data, b"hello".to_vec());
    assert_eq!(waits, 2);
    assert_eq!(trailers, 0);
    assert!(finished);
    assert!(d.is_end_stream());
    assert!(matches!(d.step(read(b"x")), DecodeStep::End));
}

#[test]
fn decoder_yields_trailers_once_after_data() {
    let mut d = IncomingBodyDecoder::new(BodyHint::Unknown);
    assert_eq!(d.exact_size(), None);
    assert!(matches!(d.step(read(b"ab")), DecodeStep::Frame(Frame::Data(_))));
    assert!(matches!(d.step(HostEvent::Read(ReadOutcome::Closed)), DecodeStep::FinishBody));
    assert_eq!(d.phase, DecoderPhase::Trailers);
    match d.step(HostEvent::Trailers(TrailersOutcome::Fields(pairs(&[("k", "v")])))) {
        DecodeStep::Frame(Frame::Trailers(h)) => {
            assert_eq!(header_map_to_fields(&h), pairs(&[("k", "v")]))
        }
        other => panic!("expected trailers, got {other:?}"),
    }
    assert!(matches!(
        d.step(HostEvent::Trailers(TrailersOutcome::Absent)),
        DecodeStep::End
    ));
}

#[test]
fn decoder_errors() {
    let mut d = IncomingBodyDecoder::new(BodyHint::Unknown);
    match d.step(HostEvent::Read(ReadOutcome::Failed("boom".to_string()))) {
        DecodeStep::Error(BodyError::ReadStream(m)) => assert_eq!(m, "boom"),
        other => panic!("expected an error, got {other:?}"),
    }
    assert_eq!(d.phase, DecoderPhase::Body);
    d.step(HostEvent::Read(ReadOutcome::Closed));
    match d.step(HostEvent::Trailers(TrailersOutcome::Fields(pairs(&[("bad name", "v")])))) {
        DecodeStep::Error(BodyError::DecodeTrailers(FieldError::InvalidName(n))) => {
            assert_eq!(n, b"bad name".to_vec())
        }
        other => panic!("expected an error, got {other:?}"),
    }
    assert!(d.is_end_stream());

    let mut d = IncomingBodyDecoder::new(BodyHint::Unknown);
    d.step(HostEvent::Read(ReadOutcome::Closed));
    let code = wasip2::http::types::ErrorCode::ConnectionReadTimeout;
    assert!(matches!(
        d.step(HostEvent::Trailers(TrailersOutcome::Failed(code))),
        DecodeStep::Error(BodyError::ReadTrailers(
            wasip2::http::types::ErrorCode::ConnectionReadTimeout
        ))
    ));
}

#[test]
fn sender_forwards_only_the_last_trailers() {
    let mut s = FrameSender::new();
    let t1 = header_map_from_fields(&pairs(&[("a", "1")])).unwrap();
    let t2 = header_map_from_fields(&pairs(&[("b", "2")])).unwrap();
    assert!(matches!(s.on_frame(Some(Ok(Frame::Data(b"x".to_vec())))), SendStep::Write(d) if d == b"x".to_vec()));
    assert!(matches!(s.on_frame(Some(Ok(Frame::Trailers(t1)))), SendStep::Continue));
    assert!(matches!(s.on_frame(Some(Ok(Frame::Trailers(t2)))), SendStep::Continue));
    match s.on_frame(None) {
        SendStep::Finish(t) => assert_eq!(t, Some(pairs(&[("b", "2")]))),
        other => panic!("expected finish, got {other:?}"),
    }
    assert!(matches!(s.on_frame(Some(Err(anyhow::Error::msg("broken")))), SendStep::Abort(_)));
}

#[test]
fn header_map_fields_round_trip() {
    let h = header_map_from_fields(&pairs(&[
        ("red", "rhubarb"),
        ("orange", "carrots"),
        ("red", "radish"),
        ("yellow", "bananas"),
    ]))
    .unwrap();
    let fields = header_map_to_fields(&h);
    let back = header_map_from_fields(&fields).unwrap();
    assert_eq!(back, h);
    assert_eq!(header_map_to_fields(&back), fields);
}

#[test]
fn header_map_bounds_distinct_names_only() {
    let many_values: Vec<(Vec<u8>, Vec<u8>)> =
        (0..5000).map(|i| (b"x".to_vec(), format!("{i}").into_bytes())).collect();
    let h = header_map_from_fields(&many_values).unwrap();
    assert_eq!(header_map_to_fields(&h).len(), 5000);

    let many_names: Vec<(Vec<u8>, Vec<u8>)> =
        (0..6555).map(|i| (format!("n{i}").into_bytes(), b"v".to_vec())).collect();
    assert_eq!(header_map_from_fields(&many_names).unwrap_err(), FieldError::TooManyNames);
    assert!(header_map_from_fields(&many_names[..6554].to_vec()).is_ok());
}

#[test]
fn sender_aborts_with_the_source_error() {
    let mut s = FrameSender::new();
    match s.on_frame(Some(Err(anyhow::Error::msg("source failed")))) {
        SendStep::Abort(e) => assert_eq!(e.to_string(), "source failed"),
        other => panic!("expected abort, got {other:?}"),
    }
}

#[test]
fn decoder_too_many_trailer_names() {
    let mut d = IncomingBodyDecoder::new(BodyHint::Unknown);
    d.step(HostEvent::Read(ReadOutcome::Closed));
    let many: Vec<(Vec<u8>, Vec<u8>)> =
        (0..6555).map(|i| (format!("t{i}").into_bytes(), b"v".to_vec())).collect();
    assert!(matches!(
        d.step(HostEvent::Trailers(TrailersOutcome::Fields(many))),
        DecodeStep::Error(BodyError::DecodeTrailers(FieldError::TooManyNames))
    ));
}
