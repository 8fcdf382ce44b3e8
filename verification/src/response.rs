use vstd::prelude::*;
use vstd::pervasive::unreached;

use crate::error::Error;
use crate::error::RawResponse;
use crate::error::TransportError;
use crate::headers::HeaderMap;
use crate::headers::first_value;
use crate::headers::parse_content_length;
use crate::headers::spec_parse_content_length;

verus! {

/// The status code of a successful protocol upgrade.
pub const SWITCHING_PROTOCOLS: u16 = 101;

/// The name of the content-length header, as bytes.
pub open spec fn content_length_name() -> Seq<u8> {
    seq![0x63u8, 0x6f, 0x6e, 0x74, 0x65, 0x6e, 0x74, 0x2d, 0x6c, 0x65, 0x6e, 0x67, 0x74, 0x68]
}

/// What `content_length` yields for a given header sequence: the parsed
/// numeric value of the first content-length header, if it parses.
pub open spec fn spec_content_length(h: Seq<(Seq<u8>, Seq<u8>)>) -> Option<u64> {
    match first_value(h, content_length_name()) {
        Some(v) => spec_parse_content_length(v),
        None => None,
    }
}

fn content_length_name_vec() -> (r: Vec<u8>)
    ensures
        r@ == content_length_name(),
{
    let mut v: Vec<u8> = Vec::new();
    v.push(0x63);
    v.push(0x6f);
    v.push(0x6e);
    v.push(0x74);
    v.push(0x65);
    v.push(0x6e);
    v.push(0x74);
    v.push(0x2d);
    v.push(0x6c);
    v.push(0x65);
    v.push(0x6e);
    v.push(0x67);
    v.push(0x74);
    v.push(0x68);
    proof {
        assert(v@ =~= content_length_name());
    }
    v
}

/// Untyped byte-chunk body used for both success and error responses.
///
/// The wrapped sequence is owned exclusively: extracting it consumes the
/// wrapper, so the underlying sequence can be claimed only once.
pub struct ByteStream<S>(pub S);

impl<S> ByteStream<S> {
    /// Creates a new ByteStream.
    ///
    /// Useful for generating test fixtures.
    pub fn new(inner: S) -> (r: ByteStream<S>)
        ensures
            r.0 == inner,
    {
        ByteStream(inner)
    }

    /// Consumes the ByteStream and returns its inner sequence.
    pub fn into_inner(self) -> (r: S)
        ensures
            r == self.0,
    {
        self.0
    }
}

/// Typed value returned by generated client methods: a body paired with
/// the status code and headers captured verbatim from the response that
/// produced it.
///
/// This is used for successful responses and appears in documented error
/// responses as well (see `Error::ErrorResponse`): the pairing itself
/// carries no success or failure judgment.
#[derive(Debug)]
pub struct ResponseValue<T> {
    pub inner: T,
    pub status: u16,
    pub headers: HeaderMap,
}

impl<T> ResponseValue<T> {
    /// Creates a ResponseValue from the inner type, status, and headers.
    ///
    /// Useful for generating test fixtures.
    pub fn new(inner: T, status: u16, headers: HeaderMap) -> (r: ResponseValue<T>)
        ensures
            r.inner == inner,
            r.status == status,
            r.headers == headers,
    {
        ResponseValue { inner, status, headers }
    }

    /// Wraps the outcome of decoding a response body expected to carry
    /// structured data. A decoded value is paired with the response's status
    /// and headers; a decode failure becomes `Error::InvalidResponsePayload`.
    pub fn from_response<E>(
        status: u16,
        headers: HeaderMap,
        decoded: Result<T, TransportError>,
    ) -> (r: Result<ResponseValue<T>, Error<E>>)
        ensures
            match decoded {
                Ok(inner) => r == Ok::<ResponseValue<T>, Error<E>>(
                    (ResponseValue { inner, status, headers }),
                ),
                Err(e) => r == Err::<ResponseValue<T>, Error<E>>(Error::InvalidResponsePayload(e)),
            },
    {
        match decoded {
            Ok(inner) => Ok(ResponseValue { inner, status, headers }),
            Err(e) => Err(Error::InvalidResponsePayload(e)),
        }
    }

    /// Wraps the outcome of a protocol upgrade. Only a response whose status
    /// is exactly "switching protocols" is accepted, and for it the outcome
    /// of obtaining the upgraded connection must be supplied: a handle is
    /// wrapped with the response's status and headers, and a failed
    /// handshake becomes `Error::InvalidResponsePayload`. Any other status
    /// is refused as `Error::UnexpectedResponse`, carrying the response's
    /// status and headers unchanged.
    pub fn upgrade<E>(
        status: u16,
        headers: HeaderMap,
        upgraded: Option<Result<T, TransportError>>,
    ) -> (r: Result<ResponseValue<T>, Error<E>>)
        requires
            status == SWITCHING_PROTOCOLS ==> upgraded is Some,
        ensures
            status != SWITCHING_PROTOCOLS ==> r == Err::<ResponseValue<T>, Error<E>>(
                Error::UnexpectedResponse((RawResponse { status, headers })),
            ),
            status == SWITCHING_PROTOCOLS ==> match upgraded {
                Some(Ok(inner)) => r == Ok::<ResponseValue<T>, Error<E>>(
                    (ResponseValue { inner, status, headers }),
                ),
                Some(Err(e)) => r == Err::<ResponseValue<T>, Error<E>>(
                    Error::InvalidResponsePayload(e),
                ),
                None => false,
            },
    {
        if status != SWITCHING_PROTOCOLS {
            Err(Error::UnexpectedResponse(RawResponse { status, headers }))
        } else {
            match upgraded {
                Some(Ok(inner)) => Ok(ResponseValue { inner, status, headers }),
                Some(Err(e)) => Err(Error::InvalidResponsePayload(e)),
                None => unreached(),
            }
        }
    }

    /// Consumes the ResponseValue, returning the wrapped value.
    pub fn into_inner(self) -> (r: T)
        ensures
            r == self.inner,
    {
        self.inner
    }

    /// Gets the status from this response.
    pub fn status(&self) -> (r: u16)
        ensures
            r == self.status,
    {
        self.status
    }

    /// Gets the headers from this response.
    pub fn headers(&self) -> (r: &HeaderMap)
        ensures
            r == self.headers,
    {
        &self.headers
    }

    /// Gets the parsed value of the content-length header, if present and
    /// valid; absence is the only "not available" signal, this never fails.
    pub fn content_length(&self) -> (r: Option<u64>)
        ensures
            r == spec_content_length(self.headers@),
    {
        let name = content_length_name_vec();
        match self.headers.get_first(name.as_slice()) {
            Some(v) => parse_content_length(v.as_slice()),
            None => None,
        }
    }

    /// Projects the body through `f` while preserving status and headers
    /// exactly, for adapting one body shape into another without
    /// re-fetching.
    pub fn map<U, E, F: FnOnce(T) -> U>(self, f: F) -> (r: Result<ResponseValue<U>, E>)
        requires
            call_requires(f, (self.inner,)),
        ensures
            match r {
                Ok(rv) => rv.status == self.status && rv.headers == self.headers
                    && call_ensures(f, (self.inner,), rv.inner),
                Err(_) => false,
            },
    {
        let ResponseValue { inner, status, headers } = self;
        Ok(ResponseValue { inner: f(inner), status, headers })
    }
}

/// Mapping a response through the identity conversion is a no-op: the
/// result carries the same body, the same status and the same headers.
pub fn map_identity<T>(rv: ResponseValue<T>) -> (r: ResponseValue<T>)
    ensures
        r.inner == rv.inner,
        r.status == rv.status,
        r.headers == rv.headers,
{
    let keep = |x: T| -> (y: T)
        ensures
            y == x,
        {
            x
        };
    let m: Result<ResponseValue<T>, ()> = rv.map(keep);
    match m {
        Ok(out) => out,
        Err(_) => unreached(),
    }
}

impl ResponseValue<()> {
    /// Wraps a response expected to carry no meaningful body: status and
    /// headers are captured and the body is the unit value. Whether the
    /// body is actually empty is deliberately not checked.
    pub fn empty(status: u16, headers: HeaderMap) -> (r: ResponseValue<()>)
        ensures
            r.status == status,
            r.headers == headers,
    {
        ResponseValue { inner: (), status, headers }
    }
}

impl<S> ResponseValue<ByteStream<S>> {
    /// Wraps a response body taken as an untyped byte stream; this path
    /// cannot fail at construction time, stream failures surface per chunk
    /// as the stream is consumed.
    pub fn stream(body: S, status: u16, headers: HeaderMap) -> (r: ResponseValue<ByteStream<S>>)
        ensures
            r.inner.0 == body,
            r.status == status,
            r.headers == headers,
    {
        ResponseValue { inner: ByteStream(body), status, headers }
    }

    /// Consumes the ResponseValue, returning the stream wrapped inside.
    pub fn into_inner_stream(self) -> (r: S)
        ensures
            r == self.inner.0,
    {
        self.into_inner().into_inner()
    }
}

} // verus!
