use progenitor_client::ByteStream;
use progenitor_client::Error;
use progenitor_client::HeaderMap;
use progenitor_client::ResponseValue;
use progenitor_client::TransportError;
use progenitor_client::map_identity;
use progenitor_client::parse_content_length;

fn headers_of(pairs: &[(&str, &str)]) -> HeaderMap {
    let mut h = HeaderMap::new();
    for (n, v) in pairs {
        h.append(n.as_bytes().to_vec(), v.as_bytes().to_vec());
    }
    h
}

#[test]
fn new_captures_all_three_fields() {
    let rv = ResponseValue::new(5u32, 200, headers_of(&[("x-a", "1")]));
    assert_eq!(rv.status(), 200);
    assert_eq!(
        rv.headers().entries,
        vec![(b"x-a".to_vec(), b"1".to_vec())]
    );
    assert_eq!(rv.into_inner(), 5);
}

#[test]
fn from_response_wraps_decoded_value() {
    let r: Result<ResponseValue<i64>, Error<()>> =
        ResponseValue::from_response(200, headers_of(&[("x-a", "1")]), Ok(7));
    let rv = r.unwrap();
    assert_eq!(rv.status(), 200);
    assert_eq!(rv.headers().entries, vec![(b"x-a".to_vec(), b"1".to_vec())]);
    assert_eq!(rv.into_inner(), 7);
}

#[test]
fn from_response_turns_decode_failure_into_invalid_payload() {
    let te = TransportError::new(Some(200), "error decoding response body".to_string());
    let r: Result<ResponseValue<i64>, Error<()>> =
        ResponseValue::from_response(200, HeaderMap::new(), Err(te));
    match r {
        Err(Error::InvalidResponsePayload(e)) => {
            assert_eq!(e.status, Some(200));
            assert_eq!(e.message, "error decoding response body");
        }
        _ => panic!("expected InvalidResponsePayload"),
    }
}

#[test]
fn upgrade_accepts_switching_protocols() {
    let r: Result<ResponseValue<&str>, Error<()>> =
        ResponseValue::upgrade(101, headers_of(&[("upgrade", "websocket")]), Some(Ok("conn")));
    let rv = r.unwrap();
    assert_eq!(rv.status(), 101);
    assert_eq!(
        rv.headers().entries,
        vec![(b"upgrade".to_vec(), b"websocket".to_vec())]
    );
    assert_eq!(rv.into_inner(), "conn");
}

#[test]
fn upgrade_reports_failed_handshake() {
    let te = TransportError::new(Some(101), "handshake failed".to_string());
    let r: Result<ResponseValue<&str>, Error<()>> =
        ResponseValue::upgrade(101, HeaderMap::new(), Some(Err(te)));
    match r {
        Err(Error::InvalidResponsePayload(e)) => assert_eq!(e.message, "handshake failed"),
        _ => panic!("expected InvalidResponsePayload"),
    }
}

#[test]
fn upgrade_refuses_any_other_status_unchanged() {
    let r: Result<ResponseValue<&str>, Error<()>> =
        ResponseValue::upgrade(200, headers_of(&[("x-a", "1")]), None);
    match r {
        Err(Error::UnexpectedResponse(raw)) => {
            assert_eq!(raw.status(), 200);
            assert_eq!(
                raw.headers().entries,
                vec![(b"x-a".to_vec(), b"1".to_vec())]
            );
        }
        _ => panic!("expected UnexpectedResponse"),
    }
}

#[test]
fn empty_wraps_unit_without_looking_at_the_body() {
    let rv = ResponseValue::empty(204, headers_of(&[("x-a", "1")]));
    assert_eq!(rv.status(), 204);
    assert_eq!(rv.headers().entries, vec![(b"x-a".to_vec(), b"1".to_vec())]);
    rv.into_inner();
}

#[test]
fn stream_wraps_the_body_and_hands_it_back_once() {
    let chunks: Vec<Vec<u8>> = vec![vec![1, 2], vec![3]];
    let rv = ResponseValue::stream(chunks.clone(), 200, HeaderMap::new());
    assert_eq!(rv.status(), 200);
    assert_eq!(rv.into_inner_stream(), chunks);
}

#[test]
fn byte_stream_roundtrip_is_identity() {
    let chunks: Vec<Vec<u8>> = vec![vec![9, 9]];
    let bs = ByteStream::new(chunks.clone());
    assert_eq!(bs.into_inner(), chunks);
}

#[test]
fn map_replaces_the_inner_value_and_keeps_the_rest() {
    let rv = ResponseValue::new(21u32, 200, headers_of(&[("x-a", "1")]));
    let mapped: Result<ResponseValue<u64>, ()> = rv.map(|n| (n as u64) * 2);
    let rv2 = mapped.unwrap();
    assert_eq!(rv2.status(), 200);
    assert_eq!(rv2.headers().entries, vec![(b"x-a".to_vec(), b"1".to_vec())]);
    assert_eq!(rv2.into_inner(), 42);
}

#[test]
fn map_with_identity_changes_nothing() {
    let rv = ResponseValue::new("body", 418, headers_of(&[("x-a", "1"), ("x-b", "2")]));
    let mapped: Result<ResponseValue<&str>, ()> = rv.map(|x| x);
    let rv2 = mapped.unwrap();
    assert_eq!(rv2.status(), 418);
    assert_eq!(
        rv2.headers().entries,
        vec![
            (b"x-a".to_vec(), b"1".to_vec()),
            (b"x-b".to_vec(), b"2".to_vec())
        ]
    );
    assert_eq!(rv2.into_inner(), "body");
}

#[test]
fn map_identity_returns_the_response_unchanged() {
    let rv = ResponseValue::new(vec![1u8, 2], 201, headers_of(&[("x-a", "1")]));
    let rv2 = map_identity(rv);
    assert_eq!(rv2.status(), 201);
    assert_eq!(rv2.headers().entries, vec![(b"x-a".to_vec(), b"1".to_vec())]);
    assert_eq!(rv2.into_inner(), vec![1u8, 2]);
}

#[test]
fn content_length_parses_a_plain_number() {
    let rv = ResponseValue::new((), 200, headers_of(&[("content-length", "42")]));
    assert_eq!(rv.content_length(), Some(42));
}

#[test]
fn content_length_name_is_case_insensitive() {
    let rv = ResponseValue::new((), 200, headers_of(&[("Content-Length", "7")]));
    assert_eq!(rv.content_length(), Some(7));
}

#[test]
fn content_length_takes_the_first_matching_header() {
    let rv = ResponseValue::new(
        (),
        200,
        headers_of(&[("content-length", "1"), ("content-length", "2")]),
    );
    assert_eq!(rv.content_length(), Some(1));
}

#[test]
fn content_length_is_absent_when_the_header_is_missing() {
    let rv = ResponseValue::new((), 200, headers_of(&[("content-type", "text/plain")]));
    assert_eq!(rv.content_length(), None);
}

#[test]
fn content_length_is_absent_for_non_numeric_values() {
    for bad in ["12a", "-1", "", " 12", "12 ", "0x10", "1.5"] {
        let rv = ResponseValue::new((), 200, headers_of(&[("content-length", bad)]));
        assert_eq!(rv.content_length(), None, "value {:?}", bad);
    }
}

#[test]
fn content_length_accepts_a_leading_plus_as_the_original_parser_does() {
    let rv = ResponseValue::new((), 200, headers_of(&[("content-length", "+9")]));
    assert_eq!(rv.content_length(), Some(9));
}

#[test]
fn content_length_handles_the_largest_value_and_overflow() {
    let max = ResponseValue::new(
        (),
        200,
        headers_of(&[("content-length", "18446744073709551615")]),
    );
    assert_eq!(max.content_length(), Some(u64::MAX));
    let over = ResponseValue::new(
        (),
        200,
        headers_of(&[("content-length", "18446744073709551616")]),
    );
    assert_eq!(over.content_length(), None);
}

#[test]
fn parse_content_length_matches_the_standard_parser_on_samples() {
    let samples: [&[u8]; 8] = [
        b"0",
        b"42",
        b"+42",
        b"18446744073709551615",
        b"18446744073709551616",
        b"",
        b"+",
        b"4 2",
    ];
    for s in samples {
        let expected = std::str::from_utf8(s)
            .ok()
            .and_then(|t| t.parse::<u64>().ok());
        assert_eq!(parse_content_length(s), expected, "value {:?}", s);
    }
}
