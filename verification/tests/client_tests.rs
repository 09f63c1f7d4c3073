use cloud_sdk_azure_mock::client::{
    bearer_value, cloud_error_parts, error_from_response, exists_from_status, is_success, ClientError,
};
use cloud_sdk_azure_mock::json::JsonValue;
use cloud_sdk_azure_mock::reply::{error_reply, Body};

fn s(t: &str) -> JsonValue {
    JsonValue::Str(t.to_string())
}

fn obj(ms: Vec<(&str, JsonValue)>) -> JsonValue {
    JsonValue::Object(ms.into_iter().map(|(k, v)| (k.to_string(), v)).collect())
}

fn cloud_error(code: &str, message: &str) -> JsonValue {
    obj(vec![("error", obj(vec![("code", s(code)), ("message", s(message))]))])
}

#[test]
fn error_parts_of_cloud_error() {
    let parts = cloud_error_parts(&cloud_error("ResourceNotFound", "gone"));
    assert_eq!(parts, Some(("ResourceNotFound".to_string(), "gone".to_string())));
}

#[test]
fn error_parts_need_string_code_and_message() {
    let no_message = obj(vec![("error", obj(vec![("code", s("X"))]))]);
    assert_eq!(cloud_error_parts(&no_message), None);
    let number_code = obj(vec![("error", obj(vec![("code", JsonValue::Number("1".to_string())), ("message", s("m"))]))]);
    assert_eq!(cloud_error_parts(&number_code), None);
    assert_eq!(cloud_error_parts(&s("plain")), None);
}

#[test]
fn unauthorized_is_authentication_error() {
    let e = error_from_response(401, String::new(), Some(cloud_error("AuthenticationFailed", "no token")));
    assert!(matches!(e, ClientError::Authentication { message } if message == "no token"));
}

#[test]
fn forbidden_is_authorization_error() {
    let e = error_from_response(403, String::new(), Some(cloud_error("Forbidden", "denied")));
    assert!(matches!(e, ClientError::Authorization { message } if message == "denied"));
}

#[test]
fn missing_resource_is_not_found() {
    let e = error_from_response(404, String::new(), Some(cloud_error("ResourceGroupNotFound", "rg gone")));
    assert!(matches!(e, ClientError::NotFound { resource_type, name } if resource_type == "unknown" && name == "rg gone"));
}

#[test]
fn throttled_is_rate_limited() {
    let e = error_from_response(429, String::new(), Some(cloud_error("TooManyRequests", "slow down")));
    assert!(matches!(e, ClientError::RateLimited { retry_after_secs: 60 }));
}

#[test]
fn other_status_is_provider_error() {
    let e = error_from_response(400, String::new(), Some(cloud_error("MissingApiVersionParameter", "need it")));
    assert!(matches!(e, ClientError::Provider { provider, status: 400, code, message }
        if provider == "azure" && code == "MissingApiVersionParameter" && message == "need it"));
}

#[test]
fn body_without_error_document_is_unknown_error() {
    let e = error_from_response(502, "bad gateway".to_string(), None);
    assert!(matches!(e, ClientError::Provider { provider, status: 502, code, message }
        if provider == "azure" && code == "UnknownError" && message == "bad gateway"));
    let e = error_from_response(404, "{}".to_string(), Some(obj(vec![])));
    assert!(matches!(e, ClientError::Provider { status: 404, code, message, .. }
        if code == "UnknownError" && message == "{}"));
}

#[test]
fn mock_error_reply_is_read_back() {
    let r = error_reply(404, "ResourceNotFound", "The virtual machine 'vm1' was not found.");
    let doc = match r.body {
        Body::Json(d) => d,
        other => panic!("not JSON: {other:?}"),
    };
    let e = error_from_response(r.status, String::new(), Some(doc));
    assert!(matches!(e, ClientError::NotFound { name, .. } if name == "The virtual machine 'vm1' was not found."));
}

#[test]
fn success_and_existence_statuses() {
    assert!(is_success(200));
    assert!(is_success(204));
    assert!(!is_success(199));
    assert!(!is_success(300));
    assert!(!is_success(404));
    assert!(exists_from_status(204));
    assert!(!exists_from_status(200));
    assert!(!exists_from_status(404));
}

#[test]
fn bearer_header_value() {
    assert_eq!(bearer_value("abc"), "Bearer abc");
    assert_eq!(bearer_value(""), "Bearer ");
}
