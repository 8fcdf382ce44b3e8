use vstd::prelude::*;
use vstd::utf8::encode_utf8;

use crate::headers::HeaderMap;
use crate::render::all_ascii;
use crate::render::ascii_chars;
use crate::render::ascii_to_string;
use crate::render::communication_error_prefix;
use crate::render::dec_digits;
use crate::render::error_response_prefix;
use crate::render::headers_label;
use crate::render::invalid_payload_prefix;
use crate::render::invalid_request_prefix;
use crate::render::push_communication_error_prefix;
use crate::render::push_dec;
use crate::render::push_error_response_prefix;
use crate::render::push_headers;
use crate::render::push_headers_label;
use crate::render::push_invalid_payload_prefix;
use crate::render::push_invalid_request_prefix;
use crate::render::push_rendered;
use crate::render::push_status_label;
use crate::render::push_unexpected_response_prefix;
use crate::render::push_value_label;
use crate::render::render_bytes;
use crate::render::render_headers;
use crate::render::status_label;
use crate::render::unexpected_response_prefix;
use crate::render::value_label;
use crate::response::ResponseValue;

verus! {

/// What the core records of a transport-level failure: the status code of
/// the response it arose from, where one was ever obtained, and the
/// transport's own message.
#[derive(Debug)]
pub struct TransportError {
    pub status: Option<u16>,
    pub message: String,
}

impl TransportError {
    /// Creates a transport failure record.
    pub fn new(status: Option<u16>, message: String) -> (r: TransportError)
        ensures
            r.status == status,
            r.message == message,
    {
        TransportError { status, message }
    }

    /// The status code of the response this failure arose from, if any.
    pub fn status(&self) -> (r: Option<u16>)
        ensures
            r == self.status,
    {
        self.status
    }
}

/// The structural metadata of a response whose status was not anticipated
/// by the call's contract, held unclassified for caller inspection.
#[derive(Debug)]
pub struct RawResponse {
    pub status: u16,
    pub headers: HeaderMap,
}

impl RawResponse {
    /// Creates a raw response record from status and headers.
    pub fn new(status: u16, headers: HeaderMap) -> (r: RawResponse)
        ensures
            r.status == status,
            r.headers == headers,
    {
        RawResponse { status, headers }
    }

    /// Gets the status from this response.
    pub fn status(&self) -> (r: u16)
        ensures
            r == self.status,
    {
        self.status
    }

    /// Gets the headers from this response.
    pub fn headers(&self) -> (r: &HeaderMap)
        ensures
            r == self.headers,
    {
        &self.headers
    }
}

/// Error produced by generated client methods.
///
/// The type parameter is the structured error-body type documented for the
/// call: a struct if there is a single expected error type, an enum if
/// there are several, or unit if none.
#[derive(Debug)]
pub enum Error<E = ()> {
    /// The request did not conform to API requirements; no network activity
    /// occurred.
    InvalidRequest(String),
    /// The transport failed before or while obtaining a response.
    CommunicationError(TransportError),
    /// A documented, expected error response, with its decoded body.
    ErrorResponse(ResponseValue<E>),
    /// An expected response code whose body failed to decode.
    InvalidResponsePayload(TransportError),
    /// A response not listed in the API description. This may represent a
    /// success or a failure response; check the status.
    UnexpectedResponse(RawResponse),
}

impl<E> Error<E> {
    /// Returns the status code where the error was generated from a
    /// response; only a request that never reached the network has none.
    pub fn status(&self) -> (r: Option<u16>)
        ensures
            r == (match self {
                Error::InvalidRequest(_) => None::<u16>,
                Error::CommunicationError(e) => e.status,
                Error::ErrorResponse(rv) => Some(rv.status),
                Error::InvalidResponsePayload(e) => e.status,
                Error::UnexpectedResponse(rr) => Some(rr.status),
            }),
    {
        match self {
            Error::InvalidRequest(_) => None,
            Error::CommunicationError(e) => e.status,
            Error::ErrorResponse(rv) => Some(rv.status),
            Error::InvalidResponsePayload(e) => e.status,
            Error::UnexpectedResponse(rr) => Some(rr.status),
        }
    }

    /// Converts this error into one without a typed body: a documented
    /// error response keeps its status and headers and discards the decoded
    /// body, and every other variant passes through unchanged.
    ///
    /// This is useful for unified error handling with APIs that distinguish
    /// various error response bodies.
    pub fn into_untyped(self) -> (r: Error<()>)
        ensures
            r == (match self {
                Error::InvalidRequest(s) => Error::<()>::InvalidRequest(s),
                Error::CommunicationError(e) => Error::<()>::CommunicationError(e),
                Error::ErrorResponse(rv) => Error::<()>::ErrorResponse(
                    (ResponseValue { inner: (), status: rv.status, headers: rv.headers }),
                ),
                Error::InvalidResponsePayload(e) => Error::<()>::InvalidResponsePayload(e),
                Error::UnexpectedResponse(rr) => Error::<()>::UnexpectedResponse(rr),
            }),
    {
        match self {
            Error::InvalidRequest(s) => Error::InvalidRequest(s),
            Error::CommunicationError(e) => Error::CommunicationError(e),
            Error::ErrorResponse(rv) => {
                let ResponseValue { inner: _, status, headers } = rv;
                Error::ErrorResponse(ResponseValue { inner: (), status, headers })
            },
            Error::InvalidResponsePayload(e) => Error::InvalidResponsePayload(e),
            Error::UnexpectedResponse(rr) => Error::UnexpectedResponse(rr),
        }
    }
}

/// The bytes of the fixed line that `message` renders for an error: the
/// variant's label, then the detail the variant carries; the rendering of
/// the decoded body of a documented error response is supplied by the
/// caller as `value_text`.
pub open spec fn spec_message<E>(err: &Error<E>, value_text: Seq<u8>) -> Seq<u8> {
    match err {
        Error::InvalidRequest(s) => invalid_request_prefix() + render_bytes(encode_utf8(s@)),
        Error::CommunicationError(e) => communication_error_prefix() + render_bytes(
            encode_utf8(e.message@),
        ),
        Error::ErrorResponse(rv) => error_response_prefix() + status_label() + dec_digits(
            rv.status as int,
        ) + headers_label() + render_headers(rv.headers@) + value_label() + render_bytes(
            value_text,
        ),
        Error::InvalidResponsePayload(e) => invalid_payload_prefix() + render_bytes(
            encode_utf8(e.message@),
        ),
        Error::UnexpectedResponse(rr) => unexpected_response_prefix() + status_label()
            + dec_digits(rr.status as int) + headers_label() + render_headers(rr.headers@),
    }
}

impl<E> Error<E> {
    /// Renders this error as one fixed human-readable line. Request
    /// validation failures carry their message, transport failures the
    /// transport's own message, documented error responses their status,
    /// headers and decoded body, unexpected responses their status and
    /// headers. The decoded body cannot be rendered here, so its rendering
    /// (or a placeholder, where the body is an opaque stream) is supplied
    /// by the caller as `value_text`; it appears only in the
    /// documented-error line.
    #[verifier::rlimit(30)]
    pub fn message(&self, value_text: &[u8]) -> (r: String)
        ensures
            r@ == ascii_chars(spec_message(self, value_text@)),
    {
        let mut out: Vec<u8> = Vec::new();
        match self {
            Error::InvalidRequest(s) => {
                push_invalid_request_prefix(&mut out);
                push_rendered(s.as_str().as_bytes(), &mut out);
                proof {
                    assert(out@ =~= spec_message(self, value_text@));
                    assert(all_ascii(out@));
                }
            },
            Error::CommunicationError(e) => {
                push_communication_error_prefix(&mut out);
                push_rendered(e.message.as_str().as_bytes(), &mut out);
                proof {
                    assert(out@ =~= spec_message(self, value_text@));
                    assert(all_ascii(out@));
                }
            },
            Error::ErrorResponse(rv) => {
                push_error_response_prefix(&mut out);
                push_status_label(&mut out);
                push_dec(rv.status, &mut out);
                push_headers_label(&mut out);
                push_headers(&rv.headers, &mut out);
                push_value_label(&mut out);
                push_rendered(value_text, &mut out);
                proof {
                    assert(out@ =~= spec_message(self, value_text@));
                    assert(all_ascii(out@));
                }
            },
            Error::InvalidResponsePayload(e) => {
                push_invalid_payload_prefix(&mut out);
                push_rendered(e.message.as_str().as_bytes(), &mut out);
                proof {
                    assert(out@ =~= spec_message(self, value_text@));
                    assert(all_ascii(out@));
                }
            },
            Error::UnexpectedResponse(rr) => {
                push_unexpected_response_prefix(&mut out);
                push_status_label(&mut out);
                push_dec(rr.status, &mut out);
                push_headers_label(&mut out);
                push_headers(&rr.headers, &mut out);
                proof {
                    assert(out@ =~= spec_message(self, value_text@));
                    assert(all_ascii(out@));
                }
            },
        }
        ascii_to_string(out)
    }
}

impl<E> From<TransportError> for Error<E> {
    /// A transport-level failure converts directly into
    /// `CommunicationError`.
    fn from(e: TransportError) -> (r: Error<E>) {
        Error::CommunicationError(e)
    }
}

impl<E> vstd::std_specs::convert::FromSpecImpl<TransportError> for Error<E> {
    open spec fn obeys_from_spec() -> bool {
        true
    }

    open spec fn from_spec(e: TransportError) -> Error<E> {
        Error::CommunicationError(e)
    }
}

} // verus!
