use progenitor_client::Error;
use progenitor_client::HeaderMap;
use progenitor_client::ResponseValue;
use progenitor_client::TransportError;

#[derive(Debug, PartialEq)]
struct Thing {
    id: u64,
}

#[derive(Debug, PartialEq)]
struct ApiError {
    message: String,
}

fn decode_thing(body: &str) -> Result<Thing, TransportError> {
    let v: serde_json::Value = serde_json::from_str(body)
        .map_err(|e| TransportError::new(Some(200), e.to_string()))?;
    let id = v
        .get("id")
        .and_then(serde_json::Value::as_u64)
        .ok_or_else(|| TransportError::new(Some(200), "missing field `id`".to_string()))?;
    Ok(Thing { id })
}

#[test]
fn a_success_response_with_a_json_body_decodes_into_the_typed_value() {
    let decoded = decode_thing("{\"id\": 7}");
    let r: Result<ResponseValue<Thing>, Error<()>> =
        ResponseValue::from_response(200, HeaderMap::new(), decoded);
    let rv = r.unwrap();
    assert_eq!(rv.status(), 200);
    assert_eq!(rv.into_inner().id, 7);
}

#[test]
fn a_body_that_does_not_parse_yields_invalid_response_payload() {
    let decoded = decode_thing("{\"id\": ");
    let r: Result<ResponseValue<Thing>, Error<()>> =
        ResponseValue::from_response(200, HeaderMap::new(), decoded);
    match r {
        Err(Error::InvalidResponsePayload(e)) => assert_eq!(e.status, Some(200)),
        _ => panic!("expected InvalidResponsePayload"),
    }
}

#[test]
fn a_documented_error_response_carries_its_decoded_body() {
    let v: serde_json::Value = serde_json::from_str("{\"message\":\"not found\"}").unwrap();
    let body = ApiError {
        message: v.get("message").unwrap().as_str().unwrap().to_string(),
    };
    let r: Result<ResponseValue<ApiError>, Error<ApiError>> =
        ResponseValue::from_response(404, HeaderMap::new(), Ok(body));
    let err: Error<ApiError> = Error::ErrorResponse(r.unwrap());
    assert_eq!(err.status(), Some(404));
    match err {
        Error::ErrorResponse(rv) => assert_eq!(rv.into_inner().message, "not found"),
        _ => panic!("expected ErrorResponse"),
    }
}
