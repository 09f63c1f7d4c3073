use vstd::prelude::*;

use crate::json::{jstr, members_model, push_member, Json, JsonValue};
use crate::reply::{error_reply, is_error_reply, is_json_reply, json_reply, Reply};
use crate::text::{concat_all, join, owned, starts_with, text_eq};

verus! {

// ── Request gates ──────────────────────────────────────────────────────

/// Calls `url::form_urlencoded::parse` on the bytes of `q` and keeps the
/// decoded name of each pair, in order. The result depends on `q` alone.
#[verifier::external_body]
fn form_names(q: &str) -> (r: Vec<String>)
    ensures
        r@.map_values(|s: String| s@) == form_pair_names(q@),
{
    url::form_urlencoded::parse(q.as_bytes()).into_owned().map(|p| p.0).collect()
}

/// The decoded names of the pairs of a form-encoded query, in order, as
/// `url::form_urlencoded::parse` yields them.
pub uninterp spec fn form_pair_names(q: Seq<char>) -> Seq<Seq<char>>;

/// Whether `api-version` is among the names.
pub fn names_include_api_version(names: &Vec<String>) -> (b: bool)
    ensures
        b == names@.map_values(|s: String| s@).contains("api-version"@),
{
    let ghost ns = names@.map_values(|s: String| s@);
    let mut i: usize = 0;
    while i < names.len()
        invariant
            i <= names@.len(),
            ns == names@.map_values(|s: String| s@),
            forall|j: int| 0 <= j < i ==> ns[j] != "api-version"@,
        decreases names.len() - i,
    {
        if text_eq(names[i].as_str(), "api-version") {
            assert(ns[i as int] == "api-version"@);
            return true;
        }
        i = i + 1;
    }
    false
}

/// Whether the query string of a request names `api-version`; a request
/// without a query does not.
pub fn has_api_version(query: Option<&str>) -> (b: bool)
    ensures
        b == (query matches Some(q) && form_pair_names(q@).contains("api-version"@)),
{
    match query {
        Some(q) => {
            let names = form_names(q);
            names_include_api_version(&names)
        },
        None => false,
    }
}

/// The answer to a management request without `api-version`.
pub fn missing_api_version_reply() -> (r: Reply)
    ensures
        is_error_reply(
            r,
            400,
            "MissingApiVersionParameter"@,
            "The api-version query parameter (?api-version=) is required for all requests."@,
        ),
{
    error_reply(
        400,
        "MissingApiVersionParameter",
        "The api-version query parameter (?api-version=) is required for all requests.",
    )
}

/// Whether an `Authorization` header value carries a bearer token; any
/// token is accepted.
pub fn has_bearer(authorization: Option<&str>) -> (b: bool)
    ensures
        b == (authorization matches Some(v) && v@.len() >= 7 && v@.subrange(0, 7) == "Bearer "@),
{
    proof {
        reveal_strlit("Bearer ");
    }
    match authorization {
        Some(v) => starts_with(v, "Bearer "),
        None => false,
    }
}

/// The answer to a request without a bearer token.
pub fn missing_auth_reply() -> (r: Reply)
    ensures
        is_error_reply(
            r,
            401,
            "AuthenticationFailed"@,
            "The request did not have a valid Authorization header with a Bearer token."@,
        ),
{
    error_reply(
        401,
        "AuthenticationFailed",
        "The request did not have a valid Authorization header with a Bearer token.",
    )
}

/// Headers every reply gets: a request id and a correlation id, and a
/// JSON content type when the reply has none.
pub open spec fn added_headers(has_content_type: bool, request_id: Seq<char>, correlation_id: Seq<char>) -> Seq<(Seq<char>, Seq<char>)> {
    seq![("x-ms-request-id"@, request_id), ("x-ms-correlation-id"@, correlation_id)] + if has_content_type {
        Seq::empty()
    } else {
        seq![("content-type"@, "application/json"@)]
    }
}

/// The headers to add to a reply.
pub fn response_headers(has_content_type: bool, request_id: &str, correlation_id: &str) -> (r: Vec<(String, String)>)
    ensures
        crate::reply::header_pairs(r@) == added_headers(has_content_type, request_id@, correlation_id@),
{
    let mut h: Vec<(String, String)> = Vec::new();
    h.push((owned("x-ms-request-id"), owned(request_id)));
    h.push((owned("x-ms-correlation-id"), owned(correlation_id)));
    if !has_content_type {
        h.push((owned("content-type"), owned("application/json")));
    }
    proof {
        assert(crate::reply::header_pairs(h@) =~= added_headers(has_content_type, request_id@, correlation_id@));
    }
    h
}

// ── OAuth token endpoint ───────────────────────────────────────────────

/// Form of a token request; absent fields are empty.
pub struct TokenRequest {
    pub grant_type: String,
    pub client_id: String,
    pub client_secret: String,
    pub scope: String,
}

/// An OAuth error document.
pub open spec fn oauth_error_doc(error: Seq<char>, description: Seq<char>) -> Json {
    Json::Object(seq![("error"@, Json::Str(error)), ("error_description"@, Json::Str(description))])
}

/// The token document issued to `client_id`.
pub open spec fn token_doc(client_id: Seq<char>) -> Json {
    Json::Object(seq![
        ("access_token"@, Json::Str("mock-token-for-"@ + client_id)),
        ("token_type"@, Json::Str("Bearer"@)),
        ("expires_in"@, Json::Number("3600"@)),
        ("ext_expires_in"@, Json::Number("3600"@)),
    ])
}

/// What the token endpoint answers: only the client credentials grant is
/// supported, and it needs a client id and a secret.
pub open spec fn token_outcome(grant_type: Seq<char>, client_id: Seq<char>, client_secret: Seq<char>) -> (u16, Json) {
    if grant_type != "client_credentials"@ {
        (400, oauth_error_doc("unsupported_grant_type"@, "Only client_credentials grant type is supported by the mock."@))
    } else if client_id.len() == 0 || client_secret.len() == 0 {
        (401, oauth_error_doc("invalid_client"@, "client_id and client_secret are required."@))
    } else {
        (200, token_doc(client_id))
    }
}

/// What the token endpoint answers a request.
pub open spec fn token_answer(req: TokenRequest) -> (u16, Json) {
    token_outcome(req.grant_type@, req.client_id@, req.client_secret@)
}

/// The value of field `name` of a form: the first one of that name, or
/// empty text when there is none.
pub open spec fn form_value(pairs: Seq<(Seq<char>, Seq<char>)>, name: Seq<char>) -> Seq<char>
    decreases pairs.len(),
{
    if pairs.len() == 0 {
        Seq::empty()
    } else if pairs[0].0 == name {
        pairs[0].1
    } else {
        form_value(pairs.drop_first(), name)
    }
}

/// What the token endpoint answers a form.
pub open spec fn form_answer(pairs: Seq<(Seq<char>, Seq<char>)>) -> (u16, Json) {
    token_outcome(form_value(pairs, "grant_type"@), form_value(pairs, "client_id"@), form_value(pairs, "client_secret"@))
}

fn oauth_error(status: u16, error: &str, description: &str) -> (r: Reply)
    ensures
        is_json_reply(r, status, oauth_error_doc(error@, description@)),
{
    let mut ms: Vec<(String, JsonValue)> = Vec::new();
    push_member(&mut ms, "error", jstr(error));
    push_member(&mut ms, "error_description", jstr(description));
    proof {
        assert(members_model(ms@) =~= oauth_error_doc(error@, description@)->Object_0);
    }
    json_reply(status, JsonValue::Object(ms))
}

/// Answers a token request.
pub fn token_reply(req: &TokenRequest) -> (r: Reply)
    ensures
        is_json_reply(r, token_answer(*req).0, token_answer(*req).1),
{
    proof {
        reveal_strlit("client_credentials");
    }
    if !text_eq(req.grant_type.as_str(), "client_credentials") {
        return oauth_error(
            400,
            "unsupported_grant_type",
            "Only client_credentials grant type is supported by the mock.",
        );
    }
    if req.client_id.unicode_len() == 0 || req.client_secret.unicode_len() == 0 {
        return oauth_error(401, "invalid_client", "client_id and client_secret are required.");
    }
    let token = join(&["mock-token-for-", req.client_id.as_str()]);
    proof {
        reveal_with_fuel(concat_all, 3);
    }
    let mut ms: Vec<(String, JsonValue)> = Vec::new();
    push_member(&mut ms, "access_token", JsonValue::Str(token));
    push_member(&mut ms, "token_type", jstr("Bearer"));
    push_member(&mut ms, "expires_in", JsonValue::Number(owned("3600")));
    push_member(&mut ms, "ext_expires_in", JsonValue::Number(owned("3600")));
    proof {
        assert(members_model(ms@) =~= token_doc(req.client_id@)->Object_0);
    }
    json_reply(200, JsonValue::Object(ms))
}

// ── Resource group PATCH ───────────────────────────────────────────────

/// Body of a PATCH on a resource group: only its tags can change.
pub struct PatchResourceGroupBody {
    pub tags: Option<Vec<(String, String)>>,
}

} // verus!
