//! The heads of requests and responses: how the host's request and response
//! parts become typed HTTP values, and how a request's parts are handed to
//! the host.

use vstd::prelude::*;
use crate::body::{hint_of_groups, BodyHint, FieldPairs, InvalidContentLength};
use crate::headers::{
    is_token_byte,
    field_error_for,
    fields_stop,
    groups_of_pairs,
    header_groups,
    header_map_from_fields,
    header_map_to_fields,
    flatten,
    pairs_view,
    FieldError,
};

verus! {

#[verifier::external_type_specification]
#[verifier::external_body]
pub struct ExMethod(http::Method);

#[verifier::external_type_specification]
#[verifier::external_body]
pub struct ExUri(http::Uri);

#[verifier::external_type_specification]
#[verifier::external_body]
pub struct ExStatusCode(http::StatusCode);

/// Whether a character may stand in a method name: an ASCII token
/// character.
pub open spec fn is_method_char(c: char) -> bool {
    (c as u32) < 0x80 && is_token_byte(c as u8)
}

/// Whether `http::Method::from_bytes` takes the text as a method: one or
/// more token characters.
pub open spec fn method_ok(s: Seq<char>) -> bool {
    s.len() > 0 && forall|i: int| 0 <= i < s.len() ==> #[trigger] is_method_char(s[i])
}

/// A character that may stand in a scheme other than `http` and `https`.
pub open spec fn is_scheme_char(c: char) -> bool {
    ('a' <= c && c <= 'z') || ('A' <= c && c <= 'Z') || ('0' <= c && c <= '9') || c == '+' || c
        == '-' || c == '.' || c == '~'
}

/// The longest scheme `http::uri::Scheme` takes.
pub const MAX_SCHEME_LEN: usize = 64;

/// Whether `http::uri::Scheme` takes the text as a scheme: `http`, `https`,
/// or at most 64 scheme characters.
pub open spec fn scheme_ok(s: Seq<char>) -> bool {
    s == "http"@ || s == "https"@ || (s.len() <= MAX_SCHEME_LEN && forall|i: int|
        0 <= i < s.len() ==> #[trigger] is_scheme_char(s[i]))
}

/// Whether `http::uri::Authority` takes the bytes as an authority.
pub uninterp spec fn authority_ok(s: Seq<char>) -> bool;

/// Whether `http::uri::PathAndQuery` takes the bytes as a path and query.
pub uninterp spec fn path_and_query_ok(s: Seq<char>) -> bool;

/// The method `http::Method::from_bytes` makes of a method name.
pub uninterp spec fn method_of(s: Seq<char>) -> http::Method;

/// The URI `http::uri::Builder` builds from an optional scheme, authority,
/// and path and query.
pub uninterp spec fn uri_of(
    scheme: Option<Seq<char>>,
    authority: Option<Seq<char>>,
    path: Option<Seq<char>>,
) -> http::Uri;

/// The status code `http::StatusCode::from_u16` makes of a number.
pub uninterp spec fn status_of(s: u16) -> http::StatusCode;

/// Relies on `http::Method::from_bytes`, which takes the standard method
/// names and any other run of token characters (its `METHOD_CHARS` table).
#[verifier::external_body]
fn parse_method(s: &str) -> (r: Option<http::Method>)
    ensures
        r.is_some() == method_ok(s@),
        r.is_some() ==> r.unwrap() == method_of(s@),
{
    http::Method::from_bytes(s.as_bytes()).ok()
}

/// Relies on `TryFrom<&str>` for `http::uri::Scheme`, which takes `http`,
/// `https`, and runs of at most 64 characters of its `SCHEME_CHARS` table
/// other than `:`.
#[verifier::external_body]
fn scheme_valid(s: &str) -> (r: bool)
    ensures
        r == scheme_ok(s@),
{
    http::uri::Scheme::try_from(s).is_ok()
}

/// Relies on `TryFrom<&str>` for `http::uri::Authority`.
#[verifier::external_body]
fn authority_valid(s: &str) -> (r: bool)
    ensures
        r == authority_ok(s@),
{
    http::uri::Authority::try_from(s).is_ok()
}

/// Relies on `TryFrom<&str>` for `http::uri::PathAndQuery`.
#[verifier::external_body]
fn path_and_query_valid(s: &str) -> (r: bool)
    ensures
        r == path_and_query_ok(s@),
{
    http::uri::PathAndQuery::try_from(s).is_ok()
}

/// Whether `http::Uri::from_parts` takes parts with these components
/// present: a scheme needs an authority and a path, and an authority with a
/// path needs a scheme.
pub open spec fn uri_parts_ok(scheme: bool, authority: bool, path: bool) -> bool {
    if scheme {
        authority && path
    } else {
        !(authority && path)
    }
}

pub open spec fn opt_view(o: Option<&str>) -> Option<Seq<char>> {
    match o {
        Some(s) => Some(s@),
        None => None,
    }
}

/// Relies on `http::uri::Builder`: given parts that each parse (as their
/// type's `TryFrom<&str>` does), `build` refuses a scheme without authority
/// or path, and an authority and path without scheme.
#[verifier::external_body]
fn build_uri(scheme: Option<&str>, authority: Option<&str>, path: Option<&str>) -> (r: Option<
    http::Uri,
>)
    requires
        scheme.is_some() ==> scheme_ok(scheme.unwrap()@),
        authority.is_some() ==> authority_ok(authority.unwrap()@),
        path.is_some() ==> path_and_query_ok(path.unwrap()@),
    ensures
        r.is_some() == uri_parts_ok(scheme.is_some(), authority.is_some(), path.is_some()),
        r.is_some() ==> r.unwrap() == uri_of(opt_view(scheme), opt_view(authority), opt_view(path)),
{
    let mut b = http::Uri::builder();
    if let Some(s) = scheme {
        b = b.scheme(s);
    }
    if let Some(a) = authority {
        b = b.authority(a);
    }
    if let Some(p) = path {
        b = b.path_and_query(p);
    }
    b.build().ok()
}

/// Relies on `http::StatusCode::from_u16`, which takes 100 to 999.
#[verifier::external_body]
fn status_from_u16(s: u16) -> (r: Option<http::StatusCode>)
    ensures
        r.is_some() == (100 <= s && s <= 999),
        r.is_some() ==> r.unwrap() == status_of(s),
{
    http::StatusCode::from_u16(s).ok()
}

/// The methods of the host's HTTP interface.
#[derive(Clone, Debug, PartialEq, Eq)]
pub enum MethodName {
    Get,
    Head,
    Post,
    Put,
    Delete,
    Connect,
    Options,
    Trace,
    Patch,
    Other(String),
}

/// The schemes of the host's HTTP interface.
#[derive(Clone, Debug, PartialEq, Eq)]
pub enum SchemeName {
    Http,
    Https,
    Other(String),
}

/// A request's parts as the host hands them over.
#[derive(Clone, Debug)]
pub struct IncomingRequestParts {
    pub fields: FieldPairs,
    pub method: MethodName,
    pub scheme: Option<SchemeName>,
    pub authority: Option<String>,
    pub path_with_query: Option<String>,
}

/// Why a message head from the host was refused.
#[derive(Clone, Debug, PartialEq, Eq)]
pub enum HeadError {
    /// A header field was refused.
    Fields(FieldError),
    /// The method is no method.
    InvalidMethod,
    /// The scheme is no scheme.
    InvalidScheme,
    /// The authority is no authority.
    InvalidAuthority,
    /// The path and query are no path and query.
    InvalidPathAndQuery,
    /// The `Content-Length` field is no number.
    InvalidContentLength,
    /// The URI parts do not make a URI.
    InvalidUri,
    /// The status code is out of range.
    InvalidStatus(u16),
}

/// A request head in typed form, with the hint for its body.
#[derive(Debug)]
pub struct RequestHead {
    pub method: http::Method,
    pub uri: http::Uri,
    pub headers: http::HeaderMap,
    pub hint: BodyHint,
}

/// A response head in typed form, with the hint for its body.
#[derive(Debug)]
pub struct ResponseHead {
    pub status: http::StatusCode,
    pub headers: http::HeaderMap,
    pub hint: BodyHint,
}

/// The name of a method.
pub open spec fn method_text_spec(m: MethodName) -> Seq<char> {
    match m {
        MethodName::Get => "GET"@,
        MethodName::Head => "HEAD"@,
        MethodName::Post => "POST"@,
        MethodName::Put => "PUT"@,
        MethodName::Delete => "DELETE"@,
        MethodName::Connect => "CONNECT"@,
        MethodName::Options => "OPTIONS"@,
        MethodName::Trace => "TRACE"@,
        MethodName::Patch => "PATCH"@,
        MethodName::Other(s) => s@,
    }
}

/// The name of a scheme.
pub open spec fn scheme_text_spec(s: SchemeName) -> Seq<char> {
    match s {
        SchemeName::Http => "http"@,
        SchemeName::Https => "https"@,
        SchemeName::Other(o) => o@,
    }
}

fn method_text(m: &MethodName) -> (r: &str)
    ensures
        r@ == method_text_spec(*m),
{
    match m {
        MethodName::Get => "GET",
        MethodName::Head => "HEAD",
        MethodName::Post => "POST",
        MethodName::Put => "PUT",
        MethodName::Delete => "DELETE",
        MethodName::Connect => "CONNECT",
        MethodName::Options => "OPTIONS",
        MethodName::Trace => "TRACE",
        MethodName::Patch => "PATCH",
        MethodName::Other(s) => s.as_str(),
    }
}

fn scheme_text(s: &SchemeName) -> (r: &str)
    ensures
        r@ == scheme_text_spec(*s),
{
    match s {
        SchemeName::Http => "http",
        SchemeName::Https => "https",
        SchemeName::Other(o) => o.as_str(),
    }
}

pub open spec fn scheme_view(s: Option<SchemeName>) -> Option<Seq<char>> {
    match s {
        Some(n) => Some(scheme_text_spec(n)),
        None => None,
    }
}

pub open spec fn string_view(s: Option<String>) -> Option<Seq<char>> {
    match s {
        Some(t) => Some(t@),
        None => None,
    }
}

/// The outcome of decoding a request head: the first refusal, in the order
/// headers, method, scheme, authority, path and query, content length, URI.
pub open spec fn request_head_error(p: IncomingRequestParts) -> Option<HeadError> {
    let pairs = pairs_view(p.fields@);
    let scheme = scheme_view(p.scheme);
    let authority = string_view(p.authority);
    let path = string_view(p.path_with_query);
    if fields_stop(pairs) >= 0 {
        Some(HeadError::Fields(arbitrary()))
    } else if !method_ok(method_text_spec(p.method)) {
        Some(HeadError::InvalidMethod)
    } else if scheme.is_some() && !scheme_ok(scheme.unwrap()) {
        Some(HeadError::InvalidScheme)
    } else if authority.is_some() && !authority_ok(authority.unwrap()) {
        Some(HeadError::InvalidAuthority)
    } else if path.is_some() && !path_and_query_ok(path.unwrap()) {
        Some(HeadError::InvalidPathAndQuery)
    } else if hint_of_groups(groups_of_pairs(pairs)).is_err() {
        Some(HeadError::InvalidContentLength)
    } else if !uri_parts_ok(scheme.is_some(), authority.is_some(), path.is_some()) {
        Some(HeadError::InvalidUri)
    } else {
        None
    }
}

/// Decodes a request head handed over by the host. It is refused at the
/// first part the typed form does not take; otherwise the headers hold the
/// host's fields in order and the hint is read from them.
pub fn decode_request_head(parts: IncomingRequestParts) -> (r: Result<RequestHead, HeadError>)
    ensures
        r.is_ok() <==> request_head_error(parts).is_none(),
        r.is_err() ==> match request_head_error(parts) {
            Some(HeadError::Fields(_)) => r.unwrap_err() is Fields && field_error_for(
                pairs_view(parts.fields@),
                r.unwrap_err()->Fields_0,
            ),
            Some(e) => r.unwrap_err() == e,
            None => false,
        },
        r.is_ok() ==> header_groups(r.unwrap().headers) == groups_of_pairs(pairs_view(parts.fields@))
            && Ok::<BodyHint, InvalidContentLength>(r.unwrap().hint) == hint_of_groups(
            groups_of_pairs(pairs_view(parts.fields@)),
        ),
        r.is_ok() ==> r.unwrap().method == method_of(method_text_spec(parts.method)),
        r.is_ok() ==> r.unwrap().uri == uri_of(
            scheme_view(parts.scheme),
            string_view(parts.authority),
            string_view(parts.path_with_query),
        ),
{
    let ghost p = parts;
    let headers = match header_map_from_fields(&parts.fields) {
        Ok(h) => h,
        Err(e) => return Err(HeadError::Fields(e)),
    };
    let method = match parse_method(method_text(&parts.method)) {
        Some(m) => m,
        None => return Err(HeadError::InvalidMethod),
    };
    let scheme: Option<&str> = match &parts.scheme {
        Some(s) => Some(scheme_text(s)),
        None => None,
    };
    let authority: Option<&str> = match &parts.authority {
        Some(a) => Some(a.as_str()),
        None => None,
    };
    let path: Option<&str> = match &parts.path_with_query {
        Some(q) => Some(q.as_str()),
        None => None,
    };
    assert(opt_view(scheme) == scheme_view(parts.scheme));
    assert(opt_view(authority) == string_view(parts.authority));
    assert(opt_view(path) == string_view(parts.path_with_query));
    if let Some(s) = scheme {
        if !scheme_valid(s) {
            return Err(HeadError::InvalidScheme);
        }
    }
    if let Some(a) = authority {
        if !authority_valid(a) {
            return Err(HeadError::InvalidAuthority);
        }
    }
    if let Some(q) = path {
        if !path_and_query_valid(q) {
            return Err(HeadError::InvalidPathAndQuery);
        }
    }
    let hint = match BodyHint::from_headers(&headers) {
        Ok(h) => h,
        Err(_) => return Err(HeadError::InvalidContentLength),
    };
    let uri = match build_uri(scheme, authority, path) {
        Some(u) => u,
        None => return Err(HeadError::InvalidUri),
    };
    Ok(RequestHead { method, uri, headers, hint })
}

/// The outcome of decoding a response head: the first refusal, in the
/// order headers, status, content length.
pub open spec fn response_head_error(status: u16, fields: FieldPairs) -> Option<HeadError> {
    let pairs = pairs_view(fields@);
    if fields_stop(pairs) >= 0 {
        Some(HeadError::Fields(arbitrary()))
    } else if !(100 <= status && status <= 999) {
        Some(HeadError::InvalidStatus(status))
    } else if hint_of_groups(groups_of_pairs(pairs)).is_err() {
        Some(HeadError::InvalidContentLength)
    } else {
        None
    }
}

/// Decodes a response head handed over by the host.
pub fn decode_response_head(status: u16, fields: &FieldPairs) -> (r: Result<ResponseHead, HeadError>)
    ensures
        r.is_ok() <==> response_head_error(status, *fields).is_none(),
        r.is_ok() ==> r.unwrap().status == status_of(status),
        r.is_err() ==> match response_head_error(status, *fields) {
            Some(HeadError::Fields(_)) => r.unwrap_err() is Fields && field_error_for(
                pairs_view(fields@),
                r.unwrap_err()->Fields_0,
            ),
            Some(e) => r.unwrap_err() == e,
            None => false,
        },
        r.is_ok() ==> header_groups(r.unwrap().headers) == groups_of_pairs(pairs_view(fields@))
            && Ok::<BodyHint, InvalidContentLength>(r.unwrap().hint) == hint_of_groups(
            groups_of_pairs(pairs_view(fields@)),
        ),
{
    let headers = match header_map_from_fields(fields) {
        Ok(h) => h,
        Err(e) => return Err(HeadError::Fields(e)),
    };
    let code = match status_from_u16(status) {
        Some(c) => c,
        None => return Err(HeadError::InvalidStatus(status)),
    };
    let hint = match BodyHint::from_headers(&headers) {
        Ok(h) => h,
        Err(_) => return Err(HeadError::InvalidContentLength),
    };
    Ok(ResponseHead { status: code, headers, hint })
}

/// A request head as the host takes it.
#[derive(Clone, Debug)]
pub struct OutgoingHead {
    pub fields: FieldPairs,
    pub method: MethodName,
    pub scheme: SchemeName,
    pub authority: Option<String>,
    pub path_with_query: Option<String>,
}

/// The host's method for a method name: a standard one where the name is
/// one, else the name itself.
pub open spec fn method_name_of(m: String) -> MethodName {
    if m@ == "GET"@ {
        MethodName::Get
    } else if m@ == "HEAD"@ {
        MethodName::Head
    } else if m@ == "POST"@ {
        MethodName::Post
    } else if m@ == "PUT"@ {
        MethodName::Put
    } else if m@ == "DELETE"@ {
        MethodName::Delete
    } else if m@ == "CONNECT"@ {
        MethodName::Connect
    } else if m@ == "OPTIONS"@ {
        MethodName::Options
    } else if m@ == "TRACE"@ {
        MethodName::Trace
    } else if m@ == "PATCH"@ {
        MethodName::Patch
    } else {
        MethodName::Other(m)
    }
}

/// The host's scheme for a request: HTTPS where the URI has none.
pub open spec fn scheme_name_of(s: Option<String>) -> SchemeName {
    match s {
        None => SchemeName::Https,
        Some(t) => if t@ == "http"@ {
            SchemeName::Http
        } else if t@ == "https"@ {
            SchemeName::Https
        } else {
            SchemeName::Other(t)
        },
    }
}

fn same(a: &String, b: &str) -> (r: bool)
    ensures
        r == (a@ == b@),
{
    let c = b.to_string();
    *a == c
}

/// The head of an outgoing request: the header fields in order, the
/// method, the scheme (HTTPS where none is given), the authority and the
/// path with query.
pub fn encode_request_head(
    headers: &http::HeaderMap,
    method: String,
    scheme: Option<String>,
    authority: Option<String>,
    path_with_query: Option<String>,
) -> (r: OutgoingHead)
    ensures
        pairs_view(r.fields@) == flatten(header_groups(*headers)),
        r.method == method_name_of(method),
        r.scheme == scheme_name_of(scheme),
        r.authority == authority,
        r.path_with_query == path_with_query,
{
    let fields = header_map_to_fields(headers);
    let m = if same(&method, "GET") {
        MethodName::Get
    } else if same(&method, "HEAD") {
        MethodName::Head
    } else if same(&method, "POST") {
        MethodName::Post
    } else if same(&method, "PUT") {
        MethodName::Put
    } else if same(&method, "DELETE") {
        MethodName::Delete
    } else if same(&method, "CONNECT") {
        MethodName::Connect
    } else if same(&method, "OPTIONS") {
        MethodName::Options
    } else if same(&method, "TRACE") {
        MethodName::Trace
    } else if same(&method, "PATCH") {
        MethodName::Patch
    } else {
        MethodName::Other(method)
    };
    let s = match scheme {
        None => SchemeName::Https,
        Some(t) => if same(&t, "http") {
            SchemeName::Http
        } else if same(&t, "https") {
            SchemeName::Https
        } else {
            SchemeName::Other(t)
        },
    };
    OutgoingHead { fields, method: m, scheme: s, authority, path_with_query }
}

} // verus!
