use progenitor_client::Error;
use progenitor_client::HeaderMap;
use progenitor_client::RawResponse;
use progenitor_client::ResponseValue;
use progenitor_client::TransportError;

fn one_header(name: &str, value: &str) -> HeaderMap {
    let mut h = HeaderMap::new();
    h.append(name.as_bytes().to_vec(), value.as_bytes().to_vec());
    h
}

#[test]
fn status_is_absent_only_for_invalid_request() {
    let e: Error<()> = Error::InvalidRequest("bad".to_string());
    assert_eq!(e.status(), None);
}

#[test]
fn status_comes_from_the_transport_failure_when_it_carries_one() {
    let with: Error<()> =
        Error::CommunicationError(TransportError::new(Some(502), "gone".to_string()));
    assert_eq!(with.status(), Some(502));
    let without: Error<()> =
        Error::CommunicationError(TransportError::new(None, "timed out".to_string()));
    assert_eq!(without.status(), None);
}

#[test]
fn status_comes_from_the_documented_error_response() {
    let e: Error<String> =
        Error::ErrorResponse(ResponseValue::new("oops".to_string(), 404, HeaderMap::new()));
    assert_eq!(e.status(), Some(404));
}

#[test]
fn status_comes_from_the_payload_failure_and_the_unexpected_response() {
    let p: Error<()> =
        Error::InvalidResponsePayload(TransportError::new(Some(200), "bad body".to_string()));
    assert_eq!(p.status(), Some(200));
    let u: Error<()> = Error::UnexpectedResponse(RawResponse::new(500, HeaderMap::new()));
    assert_eq!(u.status(), Some(500));
}

#[test]
fn into_untyped_discards_only_the_error_body() {
    let e: Error<String> = Error::ErrorResponse(ResponseValue::new(
        "secret detail".to_string(),
        404,
        one_header("x-request-id", "17"),
    ));
    match e.into_untyped() {
        Error::ErrorResponse(rv) => {
            assert_eq!(rv.status(), 404);
            assert_eq!(
                rv.headers().entries,
                vec![(b"x-request-id".to_vec(), b"17".to_vec())]
            );
            rv.into_inner();
        }
        _ => panic!("expected ErrorResponse"),
    }
}

#[test]
fn into_untyped_passes_every_other_variant_through_unchanged() {
    let a: Error<String> = Error::InvalidRequest("bad".to_string());
    match a.into_untyped() {
        Error::InvalidRequest(s) => assert_eq!(s, "bad"),
        _ => panic!("expected InvalidRequest"),
    }
    let b: Error<String> =
        Error::CommunicationError(TransportError::new(Some(503), "down".to_string()));
    match b.into_untyped() {
        Error::CommunicationError(e) => {
            assert_eq!(e.status, Some(503));
            assert_eq!(e.message, "down");
        }
        _ => panic!("expected CommunicationError"),
    }
    let c: Error<String> =
        Error::InvalidResponsePayload(TransportError::new(Some(200), "bad body".to_string()));
    match c.into_untyped() {
        Error::InvalidResponsePayload(e) => assert_eq!(e.message, "bad body"),
        _ => panic!("expected InvalidResponsePayload"),
    }
    let d: Error<String> =
        Error::UnexpectedResponse(RawResponse::new(301, one_header("location", "/there")));
    match d.into_untyped() {
        Error::UnexpectedResponse(raw) => {
            assert_eq!(raw.status(), 301);
            assert_eq!(
                raw.headers().entries,
                vec![(b"location".to_vec(), b"/there".to_vec())]
            );
        }
        _ => panic!("expected UnexpectedResponse"),
    }
}

#[test]
fn a_transport_failure_converts_into_communication_error() {
    let e: Error<()> = TransportError::new(Some(500), "boom".to_string()).into();
    match e {
        Error::CommunicationError(t) => {
            assert_eq!(t.status, Some(500));
            assert_eq!(t.message, "boom");
        }
        _ => panic!("expected CommunicationError"),
    }
}

#[test]
fn message_renders_invalid_request() {
    let e: Error<()> = Error::InvalidRequest("missing auth header".to_string());
    assert_eq!(e.message(b""), "Invalid Request: missing auth header");
}

#[test]
fn message_renders_communication_error() {
    let e: Error<()> =
        Error::CommunicationError(TransportError::new(None, "connection reset".to_string()));
    assert_eq!(e.message(b""), "Communication Error: connection reset");
}

#[test]
fn message_renders_error_response_with_status_headers_and_body() {
    let e: Error<()> =
        Error::ErrorResponse(ResponseValue::new((), 404, one_header("x-err", "yes")));
    assert_eq!(
        e.message(b"()"),
        "Error Response: status: 404; headers: {x-err: yes; }; value: ()"
    );
}

#[test]
fn message_renders_invalid_response_payload() {
    let e: Error<()> =
        Error::InvalidResponsePayload(TransportError::new(Some(200), "bad body".to_string()));
    assert_eq!(e.message(b""), "Invalid Response Payload: bad body");
}

#[test]
fn message_renders_unexpected_response() {
    let e: Error<()> = Error::UnexpectedResponse(RawResponse::new(500, HeaderMap::new()));
    assert_eq!(e.message(b""), "Unexpected Response: status: 500; headers: {}");
}

#[test]
fn message_escapes_bytes_that_are_not_plainly_printable() {
    let mut h = HeaderMap::new();
    h.append(b"x-raw".to_vec(), vec![0xe9, b'\\', b'\n']);
    let e: Error<()> = Error::UnexpectedResponse(RawResponse::new(400, h));
    assert_eq!(
        e.message(b""),
        "Unexpected Response: status: 400; headers: {x-raw: \\xE9\\x5C\\x0A; }"
    );
}
