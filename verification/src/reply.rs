use vstd::prelude::*;

use crate::json::{jstr, members_model, push_member, Json, JsonValue};
use crate::store::{docs, error_message, Page, StoreError};

verus! {

/// The body of a reply: nothing, a JSON document, or raw bytes.
#[derive(Debug)]
pub enum Body {
    Empty,
    Json(JsonValue),
    Bytes(Vec<u8>),
}

/// What the service answers: a status code, headers beyond the content
/// type, and a body. A JSON body goes out as `application/json`.
#[derive(Debug)]
pub struct Reply {
    pub status: u16,
    pub headers: Vec<(String, String)>,
    pub body: Body,
}

/// The headers of a reply, as text pairs.
pub open spec fn header_pairs(h: Seq<(String, String)>) -> Seq<(Seq<char>, Seq<char>)> {
    h.map_values(|p: (String, String)| (p.0@, p.1@))
}

/// The JSON document of a body, if it is one.
pub open spec fn body_json(b: Body) -> Option<Json> {
    match b {
        Body::Json(j) => Some(j@),
        _ => None,
    }
}

/// A reply with status `status`, no extra headers and the JSON body `doc`.
pub open spec fn is_json_reply(r: Reply, status: u16, doc: Json) -> bool {
    r.status == status && r.headers@.len() == 0 && body_json(r.body) == Some(doc)
}

/// A reply with status `status`, no extra headers and no body.
pub open spec fn is_empty_reply(r: Reply, status: u16) -> bool {
    r.status == status && r.headers@.len() == 0 && r.body is Empty
}

/// The error document of the management API.
pub open spec fn error_doc(code: Seq<char>, message: Seq<char>) -> Json {
    Json::Object(seq![("error"@, Json::Object(seq![("code"@, Json::Str(code)), ("message"@, Json::Str(message))]))])
}

/// A reply with status `status` and the error document of `code` and
/// `message`.
pub open spec fn is_error_reply(r: Reply, status: u16, code: Seq<char>, message: Seq<char>) -> bool {
    is_json_reply(r, status, error_doc(code, message))
}

/// The document of a page: its values, and the link to the next page when
/// there is one.
pub open spec fn page_doc(value: Seq<Json>, next: Option<Seq<char>>) -> Json {
    Json::Object(
        seq![("value"@, Json::Array(value))] + match next {
            Some(n) => seq![("nextLink"@, Json::Str(n))],
            None => Seq::empty(),
        },
    )
}

/// A reply with a JSON body.
pub fn json_reply(status: u16, doc: JsonValue) -> (r: Reply)
    ensures
        is_json_reply(r, status, doc@),
{
    Reply { status, headers: Vec::new(), body: Body::Json(doc) }
}

/// A reply without a body.
pub fn empty_reply(status: u16) -> (r: Reply)
    ensures
        is_empty_reply(r, status),
{
    Reply { status, headers: Vec::new(), body: Body::Empty }
}

/// A reply carrying the error document of `code` and `message`.
pub fn error_reply(status: u16, code: &str, message: &str) -> (r: Reply)
    ensures
        is_error_reply(r, status, code@, message@),
{
    let mut inner: Vec<(String, JsonValue)> = Vec::new();
    push_member(&mut inner, "code", jstr(code));
    push_member(&mut inner, "message", jstr(message));
    let mut outer: Vec<(String, JsonValue)> = Vec::new();
    push_member(&mut outer, "error", JsonValue::Object(inner));
    proof {
        assert(members_model(inner@) =~= seq![("code"@, Json::Str(code@)), ("message"@, Json::Str(message@))]);
        assert(members_model(outer@) =~= error_doc(code@, message@)->Object_0);
    }
    json_reply(status, JsonValue::Object(outer))
}

/// The document of a page.
pub fn make_page_doc(p: Page) -> (r: JsonValue)
    ensures
        r@ == page_doc(docs(p.value@), crate::text::opt_text(p.next_link)),
{
    let ghost vs = p.value@;
    let mut ms: Vec<(String, JsonValue)> = Vec::new();
    proof {
        crate::network::lemma_items_docs(vs);
    }
    push_member(&mut ms, "value", JsonValue::Array(p.value));
    match p.next_link {
        Some(n) => {
            let ghost t = n@;
            push_member(&mut ms, "nextLink", JsonValue::Str(n));
            proof {
                assert(members_model(ms@) =~= seq![("value"@, Json::Array(docs(vs)))] + seq![("nextLink"@, Json::Str(t))]);
            }
        },
        None => {
            proof {
                assert(members_model(ms@) =~= seq![("value"@, Json::Array(docs(vs)))] + Seq::<(Seq<char>, Json)>::empty());
            }
        },
    }
    JsonValue::Object(ms)
}

// ── Replies to store outcomes ──────────────────────────────────────────

/// Reply to a create-or-replace: 201 with the document when it is new,
/// 200 when it replaced one, and 404 with `code` and the store's message
/// when it was refused.
pub fn put_reply(r: Result<(JsonValue, bool), StoreError>, code: &str) -> (out: Reply)
    ensures
        match r {
            Ok((d, is_new)) => is_json_reply(out, if is_new { 201 } else { 200 }, d@),
            Err(e) => is_error_reply(out, 404, code@, error_message(e)),
        },
{
    match r {
        Ok((d, is_new)) => json_reply(if is_new { 201 } else { 200 }, d),
        Err(e) => error_reply(404, code, e.message().as_str()),
    }
}

/// Reply to a read: 200 with the document, or 404 with `code` and
/// `message`.
pub fn doc_reply(r: Option<JsonValue>, code: &str, message: &str) -> (out: Reply)
    ensures
        match r {
            Some(d) => is_json_reply(out, 200, d@),
            None => is_error_reply(out, 404, code@, message@),
        },
{
    match r {
        Some(d) => json_reply(200, d),
        None => error_reply(404, code, message),
    }
}

/// Reply to a listing: 200 with the page, or 404 with `code` and
/// `message`.
pub fn page_reply(r: Option<Page>, code: &str, message: &str) -> (out: Reply)
    ensures
        match r {
            Some(p) => is_json_reply(out, 200, page_doc(docs(p.value@), crate::text::opt_text(p.next_link))),
            None => is_error_reply(out, 404, code@, message@),
        },
{
    match r {
        Some(p) => json_reply(200, make_page_doc(p)),
        None => error_reply(404, code, message),
    }
}

/// Reply to a change that returns the changed document: 200 with it, or
/// 404 with `code` and the store's message.
pub fn update_reply(r: Result<JsonValue, StoreError>, code: &str) -> (out: Reply)
    ensures
        match r {
            Ok(d) => is_json_reply(out, 200, d@),
            Err(e) => is_error_reply(out, 404, code@, error_message(e)),
        },
{
    match r {
        Ok(d) => json_reply(200, d),
        Err(e) => error_reply(404, code, e.message().as_str()),
    }
}

/// Reply to a deletion: `status` when something was deleted, 404 with
/// `missing_code` and `missing_message` when there was nothing, and 404
/// with `code` and the store's message when it was refused.
pub fn delete_reply(r: Result<bool, StoreError>, status: u16, missing_code: &str, missing_message: &str, code: &str) -> (out: Reply)
    ensures
        match r {
            Ok(true) => is_empty_reply(out, status),
            Ok(false) => is_error_reply(out, 404, missing_code@, missing_message@),
            Err(e) => is_error_reply(out, 404, code@, error_message(e)),
        },
{
    match r {
        Ok(true) => empty_reply(status),
        Ok(false) => error_reply(404, missing_code, missing_message),
        Err(e) => error_reply(404, code, e.message().as_str()),
    }
}

/// Reply to an action without a result: `status`, or 404 with `code` and
/// the store's message.
pub fn done_reply(r: Result<(), StoreError>, status: u16, code: &str) -> (out: Reply)
    ensures
        match r {
            Ok(()) => is_empty_reply(out, status),
            Err(e) => is_error_reply(out, 404, code@, error_message(e)),
        },
{
    match r {
        Ok(()) => empty_reply(status),
        Err(e) => error_reply(404, code, e.message().as_str()),
    }
}

/// Reply to an existence check: 204 when it exists, 404 otherwise.
pub fn exists_reply(exists: bool) -> (out: Reply)
    ensures
        is_empty_reply(out, if exists { 204 } else { 404 }),
{
    empty_reply(if exists { 204 } else { 404 })
}

/// Reply to an action that only needs its target to exist: 200 without a
/// body, or 404 with `code` and `message`.
pub fn found_reply(found: bool, code: &str, message: &str) -> (out: Reply)
    ensures
        found ==> is_empty_reply(out, 200),
        !found ==> is_error_reply(out, 404, code@, message@),
{
    if found {
        empty_reply(200)
    } else {
        error_reply(404, code, message)
    }
}

} // verus!
