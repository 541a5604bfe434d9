use wstd::body::BodyHint;
use wstd::headers::{header_map_from_fields, header_map_to_fields};
use wstd::message::{
    decode_request_head, decode_response_head, encode_request_head, HeadError,
    IncomingRequestParts, MethodName, SchemeName,
};

fn pairs(items: &[(&str, &str)]) -> Vec<(Vec<u8>, Vec<u8>)> {
    items
        .iter()
        .map(|(k, v)| (k.as_bytes().to_vec(), v.as_bytes().to_vec()))
        .collect()
}

fn parts(method: MethodName, scheme: Option<SchemeName>, authority: Option<&str>, path: Option<&str>) -> IncomingRequestParts {
    IncomingRequestParts {
        fields: pairs(&[("content-length", "11"), ("my-header", "my-value")]),
        method,
        scheme,
        authority: authority.map(|s| s.to_string()),
        path_with_query: path.map(|s| s.to_string()),
    }
}

#[test]
fn request_head_decodes() {
    let head = decode_request_head(parts(
        MethodName::Post,
        Some(SchemeName::Http),
        Some("example.com:8080"),
        Some("/post?x=1"),
    ))
    .unwrap();
    assert_eq!(head.method, http::Method::POST);
    assert_eq!(head.uri.to_string(), "http://example.com:8080/post?x=1");
    assert_eq!(head.hint, BodyHint::ContentLength(11));
    assert_eq!(
        header_map_to_fields(&head.headers),
        pairs(&[("content-length", "11"), ("my-header", "my-value")])
    );
    let head = decode_request_head(parts(MethodName::Other("PURGE".to_string()), None, None, Some("/"))).unwrap();
    assert_eq!(head.method.as_str(), "PURGE");
}

#[test]
fn request_head_refusals() {
    let e = decode_request_head(parts(MethodName::Other("BAD METHOD".to_string()), None, None, None));
    assert_eq!(e.unwrap_err(), HeadError::InvalidMethod);
    let e = decode_request_head(parts(MethodName::Get, Some(SchemeName::Other("ht tp".to_string())), None, None));
    assert_eq!(e.unwrap_err(), HeadError::InvalidScheme);
    let e = decode_request_head(parts(MethodName::Get, None, Some("bad authority"), None));
    assert_eq!(e.unwrap_err(), HeadError::InvalidAuthority);
    let e = decode_request_head(parts(MethodName::Get, None, None, Some("/a b")));
    assert_eq!(e.unwrap_err(), HeadError::InvalidPathAndQuery);
    let e = decode_request_head(parts(MethodName::Get, Some(SchemeName::Https), None, Some("/")));
    assert_eq!(e.unwrap_err(), HeadError::InvalidUri);
    let mut p = parts(MethodName::Get, None, None, None);
    p.fields = pairs(&[("content-length", "x")]);
    assert_eq!(decode_request_head(p).unwrap_err(), HeadError::InvalidContentLength);
    let mut p = parts(MethodName::Get, None, None, None);
    p.fields = pairs(&[("bad name", "x")]);
    assert!(matches!(decode_request_head(p).unwrap_err(), HeadError::Fields(_)));
}

#[test]
fn response_head_decodes() {
    let head = decode_response_head(302, &pairs(&[("location", "/x")])).unwrap();
    assert_eq!(head.status.as_u16(), 302);
    assert_eq!(head.hint, BodyHint::Unknown);
    assert_eq!(decode_response_head(99, &pairs(&[])).unwrap_err(), HeadError::InvalidStatus(99));
    assert_eq!(decode_response_head(1000, &pairs(&[])).unwrap_err(), HeadError::InvalidStatus(1000));
    let head = decode_response_head(200, &pairs(&[("content-length", "5")])).unwrap();
    assert_eq!(head.hint, BodyHint::ContentLength(5));
}

#[test]
fn request_head_encodes() {
    let h = header_map_from_fields(&pairs(&[("my-header", "my-value")])).unwrap();
    let out = encode_request_head(&h, "GET".to_string(), None, Some("example.com".to_string()), Some("/get".to_string()));
    assert_eq!(out.method, MethodName::Get);
    assert_eq!(out.scheme, SchemeName::Https);
    assert_eq!(out.authority.as_deref(), Some("example.com"));
    assert_eq!(out.path_with_query.as_deref(), Some("/get"));
    assert_eq!(out.fields, pairs(&[("my-header", "my-value")]));
    let out = encode_request_head(&h, "PURGE".to_string(), Some("http".to_string()), None, None);
    assert_eq!(out.method, MethodName::Other("PURGE".to_string()));
    assert_eq!(out.scheme, SchemeName::Http);
    let out = encode_request_head(&h, "POST".to_string(), Some("ftp".to_string()), None, None);
    assert_eq!(out.method, MethodName::Post);
    assert_eq!(out.scheme, SchemeName::Other("ftp".to_string()));
}

#[test]
fn request_head_keeps_host_values() {
    let head = decode_request_head(parts(
        MethodName::Delete,
        Some(SchemeName::Https),
        Some("host.example"),
        Some("/a?b=c"),
    ))
    .unwrap();
    assert_eq!(head.method, http::Method::DELETE);
    assert_eq!(head.uri.scheme_str(), Some("https"));
    assert_eq!(head.uri.authority().map(|a| a.as_str()), Some("host.example"));
    assert_eq!(head.uri.path_and_query().map(|p| p.as_str()), Some("/a?b=c"));
    let head = decode_response_head(401, &pairs(&[])).unwrap();
    assert_eq!(head.status, http::StatusCode::UNAUTHORIZED);
}
