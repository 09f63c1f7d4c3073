use vstd::prelude::*;

use crate::json::{json_get, Json, JsonValue};
use crate::text::{join, owned, concat_all};

verus! {

/// An error of a call to the Azure REST API, as the client reports it.
#[derive(Debug)]
pub enum ClientError {
    /// The service refused the credentials (401).
    Authentication { message: String },
    /// The caller may not do this (403).
    Authorization { message: String },
    /// The resource does not exist (404).
    NotFound { resource_type: String, name: String },
    /// Too many requests (429).
    RateLimited { retry_after_secs: u64 },
    /// Any other failure the service reported.
    Provider { provider: String, status: u16, code: String, message: String },
}

/// The code and message of an Azure `CloudError` document
/// `{"error": {"code": .., "message": ..}}`, when both are strings.
pub open spec fn cloud_error_of(doc: Json) -> Option<(Seq<char>, Seq<char>)> {
    match json_get(doc, "error"@) {
        Some(e) => match (json_get(e, "code"@), json_get(e, "message"@)) {
            (Some(Json::Str(c)), Some(Json::Str(m))) => Some((c, m)),
            _ => None,
        },
        None => None,
    }
}

/// The code and message of an error document.
pub fn cloud_error_parts(doc: &JsonValue) -> (r: Option<(String, String)>)
    ensures
        match r {
            Some((c, m)) => cloud_error_of(doc@) == Some((c@, m@)),
            None => cloud_error_of(doc@) is None,
        },
{
    let e = match doc.member("error") {
        Some(e) => e,
        None => return None,
    };
    let code = match e.member("code") {
        Some(c) => c.as_text(),
        None => None,
    };
    let message = match e.member("message") {
        Some(m) => m.as_text(),
        None => None,
    };
    match (code, message) {
        (Some(c), Some(m)) => Some((c.clone(), m.clone())),
        _ => None,
    }
}

/// Whether `r` is the error that a failed response with `status`, whose
/// error document has `parts` (or none) and whose body is `body`, is
/// reported as.
pub open spec fn is_reported_error(r: ClientError, status: u16, body: Seq<char>, parts: Option<(Seq<char>, Seq<char>)>) -> bool {
    match parts {
        Some((code, message)) => if status == 401 {
            r matches ClientError::Authentication { message: m } && m@ == message
        } else if status == 403 {
            r matches ClientError::Authorization { message: m } && m@ == message
        } else if status == 404 {
            r matches ClientError::NotFound { resource_type: t, name: n } && t@ == "unknown"@ && n@ == message
        } else if status == 429 {
            r matches ClientError::RateLimited { retry_after_secs: s } && s == 60
        } else {
            r matches ClientError::Provider { provider: p, status: s, code: c, message: m }
                && p@ == "azure"@ && s == status && c@ == code && m@ == message
        },
        None => r matches ClientError::Provider { provider: p, status: s, code: c, message: m }
            && p@ == "azure"@ && s == status && c@ == "UnknownError"@ && m@ == body,
    }
}

/// Classifies a failed response: by its status when the body is an Azure
/// error document, as an unknown provider error carrying the body
/// otherwise.
pub fn reported_error(status: u16, body: String, parts: Option<(String, String)>) -> (r: ClientError)
    ensures
        is_reported_error(r, status, body@, match parts {
            Some((c, m)) => Some((c@, m@)),
            None => None,
        }),
{
    match parts {
        Some((code, message)) => {
            if status == 401 {
                ClientError::Authentication { message }
            } else if status == 403 {
                ClientError::Authorization { message }
            } else if status == 404 {
                ClientError::NotFound { resource_type: owned("unknown"), name: message }
            } else if status == 429 {
                ClientError::RateLimited { retry_after_secs: 60 }
            } else {
                ClientError::Provider { provider: owned("azure"), status, code, message }
            }
        },
        None => ClientError::Provider { provider: owned("azure"), status, code: owned("UnknownError"), message: body },
    }
}

/// The error a failed response is reported as, from its status, its body
/// and the document the body parses to (`None` when it is not JSON).
pub fn error_from_response(status: u16, body: String, doc: Option<JsonValue>) -> (r: ClientError)
    ensures
        is_reported_error(r, status, body@, match doc {
            Some(d) => cloud_error_of(d@),
            None => None,
        }),
{
    let parts = match doc {
        Some(d) => cloud_error_parts(&d),
        None => None,
    };
    reported_error(status, body, parts)
}

/// Whether a status reports success (2xx).
pub fn is_success(status: u16) -> (b: bool)
    ensures
        b == (200 <= status < 300),
{
    200 <= status && status < 300
}

/// Whether an existence check found its resource: the service answers
/// 204 for one that exists.
pub fn exists_from_status(status: u16) -> (b: bool)
    ensures
        b == (status == 204),
{
    status == 204
}

/// The `Authorization` header value for an access token.
pub fn bearer_value(token: &str) -> (r: String)
    ensures
        r@ == "Bearer "@ + token@,
{
    let r = join(&["Bearer ", token]);
    proof {
        reveal_with_fuel(concat_all, 3);
    }
    r
}

} // verus!
