use sparkpost::json::JsonValue;
use sparkpost::transmission::{
    decode_response, decode_response_body, ApiError, ResponseError, TransmissionResponse,
};

#[test]
fn decode_success_counts_and_id() {
    let body =
        "{\"results\": {\"total_accepted_recipients\": 1, \"total_rejected_recipients\": 0, \"id\": \"abc\"}}";
    let response = decode_response_body(body).unwrap();
    match response {
        TransmissionResponse::ApiResponse(api_res) => {
            assert_eq!(1, api_res.total_accepted_recipients);
            assert_eq!(0, api_res.total_rejected_recipients);
            assert_eq!("abc", api_res.id.as_str());
        }
        _ => panic!("expected the success variant"),
    }
}

#[test]
fn decode_error_list() {
    let body = "{\"errors\": [{\"message\":\"bad recipient\"}]}";
    let response = decode_response_body(body).unwrap();
    match response {
        TransmissionResponse::ApiError(errors) => {
            assert_eq!(
                errors,
                vec![ApiError {
                    description: None,
                    code: None,
                    message: Some("bad recipient".to_string()),
                }]
            );
        }
        _ => panic!("expected the error variant"),
    }
}

#[test]
fn decode_empty_object_is_malformed() {
    let r = decode_response_body("{}");
    assert_eq!(r, Err(ResponseError::MalformedResponse));

    let r = decode_response(&JsonValue::Obj(vec![]));
    assert!(r.is_err());
}

#[test]
fn decode_non_json_body() {
    let r = decode_response_body("this is not json");
    assert_eq!(r, Err(ResponseError::NotJson));
}

#[test]
fn decode_error_entry_fields() {
    let body = "{\"errors\": [{\"message\":\"m\",\"code\":\"1902\",\"description\":\"d\"}, {}]}";
    let response = decode_response_body(body).unwrap();
    match response {
        TransmissionResponse::ApiError(errors) => {
            assert_eq!(errors.len(), 2);
            assert_eq!(errors[0].message.as_deref(), Some("m"));
            assert_eq!(errors[0].code.as_deref(), Some("1902"));
            assert_eq!(errors[0].description.as_deref(), Some("d"));
            assert_eq!(errors[1].message, None);
        }
        _ => panic!("expected the error variant"),
    }
}

#[test]
fn decode_null_error_fields_mean_absent() {
    let body = "{\"errors\": [{\"message\": null, \"code\": null, \"description\": null}]}";
    let response = decode_response_body(body).unwrap();
    match response {
        TransmissionResponse::ApiError(errors) => {
            assert_eq!(
                errors,
                vec![ApiError { description: None, code: None, message: None }]
            );
        }
        _ => panic!("expected the error variant"),
    }
}

#[test]
fn decode_rejects_wrong_shapes() {
    // results present but its fields of the wrong type
    let r = decode_response_body("{\"results\": {\"total_accepted_recipients\": \"one\"}}");
    assert_eq!(r, Err(ResponseError::MalformedResponse));

    // a negative count does not fit the counts' type
    let r = decode_response_body(
        "{\"results\": {\"total_accepted_recipients\": -1, \"total_rejected_recipients\": 0, \"id\": \"x\"}}",
    );
    assert_eq!(r, Err(ResponseError::MalformedResponse));

    // errors present but not an array
    let r = decode_response_body("{\"errors\": {\"message\": \"m\"}}");
    assert_eq!(r, Err(ResponseError::MalformedResponse));

    // an error entry that is not an object
    let r = decode_response_body("{\"errors\": [42]}");
    assert_eq!(r, Err(ResponseError::MalformedResponse));

    // a reply that is JSON but not an object
    let r = decode_response_body("[1, 2, 3]");
    assert_eq!(r, Err(ResponseError::MalformedResponse));
}

#[test]
fn results_win_when_results_is_present() {
    let body =
        "{\"results\": {\"total_accepted_recipients\": 2, \"total_rejected_recipients\": 1, \"id\": \"t\"}, \"ignored\": true}";
    let response = decode_response_body(body).unwrap();
    match response {
        TransmissionResponse::ApiResponse(api_res) => {
            assert_eq!(2, api_res.total_accepted_recipients);
            assert_eq!(1, api_res.total_rejected_recipients);
            assert_eq!("t", api_res.id.as_str());
        }
        _ => panic!("expected the success variant"),
    }
}
