//! HTTP bodies: in memory, wrapping a host incoming body, or adapted from a
//! frame source; the decoder that turns a host incoming body into frames,
//! and the decisions taken while a body is sent to a host outgoing body.

use vstd::prelude::*;
use vstd::string::StringSliceAdditionalSpecFns;
use crate::decimal::{parse_u64, parse_u64_spec};
use crate::headers::{
    content_length_name,
    get_spec,
    header_groups,
    header_map_content_length,
    header_map_to_fields,
    pairs_view,
    flatten,
    FieldGroup,
};

verus! {

#[verifier::external_type_specification]
#[verifier::external_body]
pub struct ExErrorCode(wasip2::http::types::ErrorCode);

#[verifier::external_type_specification]
#[verifier::external_body]
pub struct ExIncomingBody(wasip2::http::types::IncomingBody);

#[verifier::external_type_specification]
#[verifier::external_body]
pub struct ExBytes(bytes::Bytes);

#[verifier::external_type_specification]
#[verifier::external_body]
pub struct ExAnyhowError(anyhow::Error);

#[verifier::external_type_specification]
#[verifier::external_body]
#[verifier::reject_recursive_types(D)]
#[verifier::reject_recursive_types(E)]
pub struct ExUnsyncBoxBody<D, E>(http_body_util::combinators::UnsyncBoxBody<D, E>);

/// A frame source of unknown make, polled as the body is sent or read.
pub type BoxedBody = http_body_util::combinators::UnsyncBoxBody<bytes::Bytes, anyhow::Error>;

/// What is known in advance of the length of an incoming body.
#[derive(Clone, Copy, Debug, PartialEq, Eq, Structural)]
pub enum BodyHint {
    ContentLength(u64),
    Unknown,
}

/// The `Content-Length` field is not a decimal numeral of 64 bits.
#[derive(Clone, Copy, Debug, PartialEq, Eq, Structural)]
pub struct InvalidContentLength;

/// The hint that a header map gives: the first `Content-Length` value read
/// as a number, `Unknown` where there is none, an error where it is no
/// number.
pub open spec fn hint_of_groups(g: Seq<FieldGroup>) -> Result<BodyHint, InvalidContentLength> {
    match get_spec(g, content_length_name()) {
        None => Ok(BodyHint::Unknown),
        Some(v) => match parse_u64_spec(v) {
            Some(n) => Ok(BodyHint::ContentLength(n)),
            None => Err(InvalidContentLength),
        },
    }
}

impl BodyHint {
    /// The hint given by the `Content-Length` field of `headers`.
    pub fn from_headers(headers: &http::HeaderMap) -> (r: Result<BodyHint, InvalidContentLength>)
        ensures
            r == hint_of_groups(header_groups(*headers)),
    {
        match header_map_content_length(headers) {
            None => Ok(BodyHint::Unknown),
            Some(v) => match parse_u64(v.as_slice()) {
                Some(n) => Ok(BodyHint::ContentLength(n)),
                None => Err(InvalidContentLength),
            },
        }
    }

    pub fn content_length(&self) -> (r: Option<u64>)
        ensures
            r == match *self {
                BodyHint::ContentLength(n) => Some(n),
                BodyHint::Unknown => None,
            },
    {
        match self {
            BodyHint::ContentLength(n) => Some(*n),
            BodyHint::Unknown => None,
        }
    }
}

impl InvalidContentLength {
    /// The message that describes this error.
    pub fn message(&self) -> (r: &'static str)
        ensures
            r@ == "Invalid Content-Length header"@,
    {
        "Invalid Content-Length header"
    }
}

/// A host incoming body with the hint read from its message's headers.
#[derive(Debug)]
pub struct Incoming {
    pub body: wasip2::http::types::IncomingBody,
    pub size_hint: BodyHint,
}

/// The three makes of body.
#[derive(Debug)]
pub enum BodyInner {
    /// A frame source, polled as the body is sent or read.
    Boxed(BoxedBody),
    /// A host incoming body, read lazily.
    Incoming(Incoming),
    /// Bytes in memory, with trailers if any.
    Complete { data: Vec<u8>, trailers: Option<http::HeaderMap> },
}

/// An HTTP body.
#[derive(Debug)]
pub struct Body(pub BodyInner);

impl Body {
    pub open spec fn is_in_memory(&self) -> bool {
        self.0 is Complete
    }

    /// The bytes of a body in memory.
    pub open spec fn memory_data(&self) -> Seq<u8> {
        match self.0 {
            BodyInner::Complete { data, .. } => data@,
            _ => Seq::empty(),
        }
    }

    /// The trailers of a body in memory, by what they hold.
    pub open spec fn memory_trailers(&self) -> Option<Seq<FieldGroup>> {
        match self.0 {
            BodyInner::Complete { trailers: Some(t), .. } => Some(header_groups(t)),
            _ => None,
        }
    }

    /// An empty body.
    pub fn empty() -> (r: Body)
        ensures
            r.is_in_memory(),
            r.memory_data() == Seq::<u8>::empty(),
            r.memory_trailers().is_none(),
    {
        Body(BodyInner::Complete { data: Vec::new(), trailers: None })
    }

    /// A body in memory holding `data` and, if given, trailers.
    pub fn from_collected(data: Vec<u8>, trailers: Option<http::HeaderMap>) -> (r: Body)
        ensures
            r.is_in_memory(),
            r.memory_data() == data@,
            r.memory_trailers() == match trailers {
                Some(t) => Some(header_groups(t)),
                None => None::<Seq<FieldGroup>>,
            },
    {
        Body(BodyInner::Complete { data, trailers })
    }

    /// A body in memory holding a copy of `bytes`.
    pub fn from_slice(bytes: &[u8]) -> (r: Body)
        ensures
            r.is_in_memory(),
            r.memory_data() == bytes@,
            r.memory_trailers().is_none(),
    {
        Body(BodyInner::Complete { data: vstd::slice::slice_to_vec(bytes), trailers: None })
    }

    /// A body in memory holding the UTF-8 bytes of `s`.
    pub fn from_str_slice(s: &str) -> (r: Body)
        ensures
            r.is_in_memory(),
            r.memory_data() == s.spec_bytes(),
            r.memory_trailers().is_none(),
    {
        Self::from_slice(s.as_bytes())
    }

    /// A body that reads a host incoming body lazily.
    pub fn from_incoming(body: wasip2::http::types::IncomingBody, size_hint: BodyHint) -> (r: Body)
        ensures
            r.0 is Incoming,
            r.0->Incoming_0.body == body,
            r.0->Incoming_0.size_hint == size_hint,
    {
        Body(BodyInner::Incoming(Incoming { body, size_hint }))
    }

    /// A body adapted from a frame source.
    pub fn from_boxed(boxed: BoxedBody) -> (r: Body)
        ensures
            r.0 is Boxed,
            r.0->Boxed_0 == boxed,
    {
        Body(BodyInner::Boxed(boxed))
    }

    /// The body's make and contents.
    pub fn into_inner(self) -> (r: BodyInner)
        ensures
            r == self.0,
    {
        self.0
    }

    /// The length of the content, where it is known exactly: the length of
    /// the bytes in memory, the `Content-Length` of an incoming body, or an
    /// exact size hint of a frame source.
    pub fn content_length(&self) -> (r: Option<u64>)
        ensures
            self.is_in_memory() ==> r == Some(self.memory_data().len() as u64),
            self.0 is Incoming ==> r == self.0->Incoming_0.size_hint.content_length_spec(),
    {
        match &self.0 {
            BodyInner::Boxed(b) => boxed_exact_len(b),
            BodyInner::Complete { data, .. } => Some(data.len() as u64),
            BodyInner::Incoming(i) => i.size_hint.content_length(),
        }
    }

    /// The bytes of a body in memory, or `None` while they are still to be
    /// collected.
    pub fn in_memory_contents(&self) -> (r: Option<&[u8]>)
        ensures
            self.is_in_memory() <==> r.is_some(),
            r.is_some() ==> r.unwrap()@ == self.memory_data(),
    {
        match &self.0 {
            BodyInner::Complete { data, .. } => Some(data.as_slice()),
            _ => None,
        }
    }

    /// How this body is sent to a host outgoing body.
    pub fn send_plan(self) -> (r: SendPlan)
        ensures
            self.0 is Incoming ==> r is Splice && r->Splice_0 == self.0->Incoming_0.body,
            self.0 is Boxed ==> r is Frames && r->Frames_0 == self.0->Boxed_0,
            self.is_in_memory() ==> r is Write && r->Write_data@ == self.memory_data() && match self.0 {
                BodyInner::Complete { trailers: Some(t), .. } => r->Write_trailers.is_some()
                    && pairs_view(r->Write_trailers.unwrap()@) == flatten(header_groups(t)),
                _ => r->Write_trailers.is_none(),
            },
    {
        match self.0 {
            BodyInner::Incoming(i) => SendPlan::Splice(i.body),
            BodyInner::Boxed(b) => SendPlan::Frames(b),
            BodyInner::Complete { data, trailers } => {
                let trailers = match &trailers {
                    Some(t) => Some(header_map_to_fields(t)),
                    None => None,
                };
                SendPlan::Write { data, trailers }
            },
        }
    }
}

impl BodyHint {
    pub open spec fn content_length_spec(self) -> Option<u64> {
        match self {
            BodyHint::ContentLength(n) => Some(n),
            BodyHint::Unknown => None,
        }
    }
}

/// Relies on `http_body::Body::size_hint` of the frame source and on
/// `SizeHint::exact`; nothing is known of a frame source's hint.
#[verifier::external_body]
fn boxed_exact_len(b: &BoxedBody) -> (r: Option<u64>) {
    http_body::Body::size_hint(b).exact()
}

/// The (name, value) pairs of a field list.
pub type FieldPairs = Vec<(Vec<u8>, Vec<u8>)>;

/// How a body reaches a host outgoing body.
pub enum SendPlan {
    /// Splice the incoming body's stream into the outgoing one, then
    /// forward the incoming trailers.
    Splice(wasip2::http::types::IncomingBody),
    /// Poll the frame source, writing data and keeping the last trailers.
    Frames(BoxedBody),
    /// Write the bytes, then finish with these trailer fields.
    Write { data: Vec<u8>, trailers: Option<FieldPairs> },
}

impl From<()> for Body {
    fn from(v: ()) -> (r: Body) {
        Body::empty()
    }
}

impl vstd::std_specs::convert::FromSpecImpl<()> for Body {
    open spec fn obeys_from_spec() -> bool {
        false
    }

    open spec fn from_spec(v: ()) -> Body {
        arbitrary()
    }
}

impl From<Vec<u8>> for Body {
    fn from(bytes: Vec<u8>) -> (r: Body) {
        Body(BodyInner::Complete { data: bytes, trailers: None })
    }
}

impl vstd::std_specs::convert::FromSpecImpl<Vec<u8>> for Body {
    open spec fn obeys_from_spec() -> bool {
        true
    }

    open spec fn from_spec(v: Vec<u8>) -> Body {
        Body(BodyInner::Complete { data: v, trailers: None })
    }
}

/// What a `bytes::Bytes` holds.
pub uninterp spec fn bytes_contents(b: bytes::Bytes) -> Seq<u8>;

/// Relies on `From<Bytes> for Vec<u8>`, which gives the bytes held.
#[verifier::external_body]
fn bytes_into_vec(b: bytes::Bytes) -> (r: Vec<u8>)
    ensures
        r@ == bytes_contents(b),
{
    Vec::from(b)
}

impl Body {
    /// A body in memory holding the bytes of `data`.
    pub fn from_bytes(data: bytes::Bytes) -> (r: Body)
        ensures
            r.is_in_memory(),
            r.memory_data() == bytes_contents(data),
            r.memory_trailers().is_none(),
    {
        Body(BodyInner::Complete { data: bytes_into_vec(data), trailers: None })
    }
}

impl From<bytes::Bytes> for Body {
    fn from(data: bytes::Bytes) -> (r: Body) {
        Body::from_bytes(data)
    }
}

impl vstd::std_specs::convert::FromSpecImpl<bytes::Bytes> for Body {
    open spec fn obeys_from_spec() -> bool {
        false
    }

    open spec fn from_spec(v: bytes::Bytes) -> Body {
        arbitrary()
    }
}

impl From<&[u8]> for Body {
    fn from(bytes: &[u8]) -> (r: Body) {
        Body::from_slice(bytes)
    }
}

impl vstd::std_specs::convert::FromSpecImpl<&[u8]> for Body {
    open spec fn obeys_from_spec() -> bool {
        false
    }

    open spec fn from_spec(v: &[u8]) -> Body {
        arbitrary()
    }
}

impl From<&str> for Body {
    fn from(s: &str) -> (r: Body) {
        Body::from_str_slice(s)
    }
}

impl vstd::std_specs::convert::FromSpecImpl<&str> for Body {
    open spec fn obeys_from_spec() -> bool {
        false
    }

    open spec fn from_spec(v: &str) -> Body {
        arbitrary()
    }
}

impl From<String> for Body {
    fn from(s: String) -> (r: Body) {
        Body::from_str_slice(s.as_str())
    }
}

impl vstd::std_specs::convert::FromSpecImpl<String> for Body {
    open spec fn obeys_from_spec() -> bool {
        false
    }

    open spec fn from_spec(v: String) -> Body {
        arbitrary()
    }
}

} // verus!
