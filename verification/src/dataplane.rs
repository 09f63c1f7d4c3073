use vstd::prelude::*;

use crate::json::{empty_object, json_get, json_set, jstr, members_model, push_member, Json, JsonValue};
use crate::reply::{
    empty_reply, error_reply, header_pairs, is_empty_reply, is_error_reply, is_json_reply,
    json_reply, Body, Reply,
};
use crate::text::{concat_all, join, owned, starts_with, text_eq};

verus! {

/// Query parameters that select a blob data plane operation.
pub struct BlobQueryParams {
    pub comp: Option<String>,
    pub restype: Option<String>,
    pub blockid: Option<String>,
}

/// Whether an optional parameter is present with text `s`.
pub open spec fn param_is(o: Option<String>, s: Seq<char>) -> bool {
    o matches Some(x) && x@ == s
}

fn param_equals(o: &Option<String>, s: &str) -> (b: bool)
    ensures
        b == param_is(*o, s@),
{
    match o {
        Some(x) => text_eq(x.as_str(), s),
        None => false,
    }
}

/// Operations of GET on an account.
#[derive(Debug)]
pub enum AccountGetOp {
    ServiceProperties,
    AccountInfo,
    ListContainers,
}

/// GET on an account: service properties, account information, or, by
/// default, the list of containers.
pub fn account_get_op(p: &BlobQueryParams) -> (op: AccountGetOp)
    ensures
        op == if param_is(p.restype, "service"@) && param_is(p.comp, "properties"@) {
            AccountGetOp::ServiceProperties
        } else if param_is(p.restype, "account"@) && param_is(p.comp, "properties"@) {
            AccountGetOp::AccountInfo
        } else {
            AccountGetOp::ListContainers
        },
{
    if param_equals(&p.restype, "service") && param_equals(&p.comp, "properties") {
        AccountGetOp::ServiceProperties
    } else if param_equals(&p.restype, "account") && param_equals(&p.comp, "properties") {
        AccountGetOp::AccountInfo
    } else {
        AccountGetOp::ListContainers
    }
}

/// Whether a PUT on an account sets its service properties, the only PUT
/// an account supports.
pub fn account_put_sets_service_properties(p: &BlobQueryParams) -> (b: bool)
    ensures
        b == (param_is(p.restype, "service"@) && param_is(p.comp, "properties"@)),
{
    param_equals(&p.restype, "service") && param_equals(&p.comp, "properties")
}

/// The answer to an unsupported PUT on an account.
pub fn unsupported_operation_reply() -> (r: Reply)
    ensures
        is_error_reply(r, 400, "InvalidQueryParameterValue"@, "Unsupported operation"@),
{
    error_reply(400, "InvalidQueryParameterValue", "Unsupported operation")
}

/// Operations of PUT on a container.
#[derive(Debug)]
pub enum ContainerPutOp {
    SetMetadata,
    Create,
}

/// PUT on a container: set its metadata with `comp=metadata`, create it
/// otherwise.
pub fn container_put_op(p: &BlobQueryParams) -> (op: ContainerPutOp)
    ensures
        op == if param_is(p.comp, "metadata"@) {
            ContainerPutOp::SetMetadata
        } else {
            ContainerPutOp::Create
        },
{
    if param_equals(&p.comp, "metadata") {
        ContainerPutOp::SetMetadata
    } else {
        ContainerPutOp::Create
    }
}

/// Operations of GET on a container.
#[derive(Debug)]
pub enum ContainerGetOp {
    GetMetadata,
    ListBlobs,
}

/// GET on a container: its metadata with `comp=metadata`, its blobs
/// otherwise.
pub fn container_get_op(p: &BlobQueryParams) -> (op: ContainerGetOp)
    ensures
        op == if param_is(p.comp, "metadata"@) {
            ContainerGetOp::GetMetadata
        } else {
            ContainerGetOp::ListBlobs
        },
{
    if param_equals(&p.comp, "metadata") {
        ContainerGetOp::GetMetadata
    } else {
        ContainerGetOp::ListBlobs
    }
}

/// Operations of PUT on a blob.
#[derive(Debug)]
pub enum BlobPutOp {
    SetMetadata,
    SetTags,
    SetProperties,
    Snapshot,
    PutBlock,
    PutBlockList,
    SetTier,
    Copy,
    Put,
}

/// PUT on a blob, chosen by `comp`; without one, a copy when the request
/// names a copy source and a plain write otherwise.
pub open spec fn blob_put_choice(p: BlobQueryParams, has_copy_source: bool) -> BlobPutOp {
    if param_is(p.comp, "metadata"@) {
        BlobPutOp::SetMetadata
    } else if param_is(p.comp, "tags"@) {
        BlobPutOp::SetTags
    } else if param_is(p.comp, "properties"@) {
        BlobPutOp::SetProperties
    } else if param_is(p.comp, "snapshot"@) {
        BlobPutOp::Snapshot
    } else if param_is(p.comp, "block"@) {
        BlobPutOp::PutBlock
    } else if param_is(p.comp, "blocklist"@) {
        BlobPutOp::PutBlockList
    } else if param_is(p.comp, "tier"@) {
        BlobPutOp::SetTier
    } else if has_copy_source {
        BlobPutOp::Copy
    } else {
        BlobPutOp::Put
    }
}

/// Chooses the operation of a PUT on a blob.
pub fn blob_put_op(p: &BlobQueryParams, has_copy_source: bool) -> (op: BlobPutOp)
    ensures
        op == blob_put_choice(*p, has_copy_source),
{
    if param_equals(&p.comp, "metadata") {
        BlobPutOp::SetMetadata
    } else if param_equals(&p.comp, "tags") {
        BlobPutOp::SetTags
    } else if param_equals(&p.comp, "properties") {
        BlobPutOp::SetProperties
    } else if param_equals(&p.comp, "snapshot") {
        BlobPutOp::Snapshot
    } else if param_equals(&p.comp, "block") {
        BlobPutOp::PutBlock
    } else if param_equals(&p.comp, "blocklist") {
        BlobPutOp::PutBlockList
    } else if param_equals(&p.comp, "tier") {
        BlobPutOp::SetTier
    } else if has_copy_source {
        BlobPutOp::Copy
    } else {
        BlobPutOp::Put
    }
}

/// Operations of GET on a blob.
#[derive(Debug)]
pub enum BlobGetOp {
    GetMetadata,
    GetTags,
    GetBlockList,
    GetData,
}

/// GET on a blob: metadata, tags or block list by `comp`, its data
/// otherwise.
pub fn blob_get_op(p: &BlobQueryParams) -> (op: BlobGetOp)
    ensures
        op == if param_is(p.comp, "metadata"@) {
            BlobGetOp::GetMetadata
        } else if param_is(p.comp, "tags"@) {
            BlobGetOp::GetTags
        } else if param_is(p.comp, "blocklist"@) {
            BlobGetOp::GetBlockList
        } else {
            BlobGetOp::GetData
        },
{
    if param_equals(&p.comp, "metadata") {
        BlobGetOp::GetMetadata
    } else if param_equals(&p.comp, "tags") {
        BlobGetOp::GetTags
    } else if param_equals(&p.comp, "blocklist") {
        BlobGetOp::GetBlockList
    } else {
        BlobGetOp::GetData
    }
}

} // verus!

verus! {

/// The metadata a request carries: each `x-ms-meta-` header, without the
/// prefix, in order.
pub open spec fn meta_entries(h: Seq<(Seq<char>, Seq<char>)>) -> Seq<(Seq<char>, Seq<char>)>
    decreases h.len(),
{
    if h.len() == 0 {
        Seq::empty()
    } else {
        let rest = meta_entries(h.drop_last());
        let n = h.last().0;
        if n.len() >= 10 && n.subrange(0, 10) == "x-ms-meta-"@ {
            rest.push((n.subrange(10, n.len() as int), h.last().1))
        } else {
            rest
        }
    }
}

/// `j` with each pair set as a string member in turn.
pub open spec fn set_all(j: Json, pairs: Seq<(Seq<char>, Seq<char>)>) -> Json
    decreases pairs.len(),
{
    if pairs.len() == 0 {
        j
    } else {
        json_set(set_all(j, pairs.drop_last()), pairs.last().0, Json::Str(pairs.last().1))
    }
}

/// The metadata object of a request's headers; a later header of a name
/// replaces an earlier one.
pub open spec fn metadata_doc(h: Seq<(Seq<char>, Seq<char>)>) -> Json {
    set_all(Json::Object(Seq::empty()), meta_entries(h))
}

/// Collects the `x-ms-meta-` headers of a request into a metadata object.
pub fn metadata_from_headers(headers: &Vec<(String, String)>) -> (r: JsonValue)
    ensures
        r@ == metadata_doc(header_pairs(headers@)),
{
    let ghost hs = header_pairs(headers@);
    let mut m = empty_object();
    let ghost es = Seq::<(Seq<char>, Seq<char>)>::empty();
    let mut i: usize = 0;
    proof {
        reveal_strlit("x-ms-meta-");
    }
    while i < headers.len()
        invariant
            i <= headers@.len(),
            hs == header_pairs(headers@),
            hs.len() == headers@.len(),
            "x-ms-meta-"@.len() == 10,
            m@ == set_all(Json::Object(Seq::empty()), meta_entries(hs.take(i as int))),
        decreases headers.len() - i,
    {
        proof {
            assert(hs.take(i + 1).drop_last() =~= hs.take(i as int));
            assert(hs.take(i + 1).last() == (headers@[i as int].0@, headers@[i as int].1@));
        }
        let name = headers[i].0.as_str();
        if starts_with(name, "x-ms-meta-") {
            let len = name.unicode_len();
            let key = name.substring_char(10, len);
            m.set(key, jstr(headers[i].1.as_str()));
            proof {
                let e = meta_entries(hs.take(i + 1));
                assert(e == meta_entries(hs.take(i as int)).push((name@.subrange(10, name@.len() as int), headers@[i as int].1@)));
                assert(e.drop_last() =~= meta_entries(hs.take(i as int)));
            }
        }
        i = i + 1;
    }
    proof {
        assert(hs.take(headers@.len() as int) =~= hs);
    }
    m
}

/// Headers that carry metadata members: `x-ms-meta-` and the name, for
/// each string member, in order.
pub open spec fn meta_header_pairs(ms: Seq<(Seq<char>, Json)>) -> Seq<(Seq<char>, Seq<char>)>
    decreases ms.len(),
{
    if ms.len() == 0 {
        Seq::empty()
    } else {
        let rest = meta_header_pairs(ms.drop_last());
        match ms.last().1 {
            Json::Str(v) => rest.push(("x-ms-meta-"@ + ms.last().0, v)),
            _ => rest,
        }
    }
}

/// Headers that carry a metadata object.
pub open spec fn meta_headers_of(meta: Json) -> Seq<(Seq<char>, Seq<char>)> {
    match meta {
        Json::Object(ms) => meta_header_pairs(ms),
        _ => Seq::empty(),
    }
}

/// Appends the headers that carry a metadata object.
pub fn push_meta_headers(h: &mut Vec<(String, String)>, meta: &JsonValue)
    ensures
        header_pairs(final(h)@) == header_pairs(old(h)@) + meta_headers_of(meta@),
{
    match meta {
        JsonValue::Object(ms) => {
            proof {
                crate::json::lemma_members_model(ms@);
            }
            let ghost mm = members_model(ms@);
            let ghost start = header_pairs(h@);
            let mut i: usize = 0;
            while i < ms.len()
                invariant
                    i <= ms@.len(),
                    mm == members_model(ms@),
                    mm.len() == ms@.len(),
                    forall|j: int| 0 <= j < ms@.len() ==> #[trigger] mm[j] == (ms@[j].0@, ms@[j].1@),
                    header_pairs(h@) == start + meta_header_pairs(mm.take(i as int)),
                decreases ms.len() - i,
            {
                proof {
                    assert(mm.take(i + 1).drop_last() =~= mm.take(i as int));
                    assert(mm.take(i + 1).last() == mm[i as int]);
                }
                match &ms[i].1 {
                    JsonValue::Str(v) => {
                        let name = join(&["x-ms-meta-", ms[i].0.as_str()]);
                        proof {
                            reveal_with_fuel(concat_all, 3);
                        }
                        let ghost prev = h@;
                        h.push((name, v.clone()));
                        proof {
                            assert(header_pairs(h@) =~= header_pairs(prev).push((name@, v@)));
                        }
                    },
                    _ => {},
                }
                i = i + 1;
            }
            proof {
                assert(mm.take(ms@.len() as int) =~= mm);
            }
        },
        _ => {
            proof {
                assert(header_pairs(h@) =~= header_pairs(h@) + Seq::<(Seq<char>, Seq<char>)>::empty());
            }
        },
    }
}

} // verus!

verus! {

/// The string member `k` of `j`, or `d`.
pub open spec fn text_or(j: Json, k: Seq<char>, d: Seq<char>) -> Seq<char> {
    match json_get(j, k) {
        Some(Json::Str(s)) => s,
        _ => d,
    }
}

/// Text of a boolean.
pub open spec fn bool_text(b: bool) -> Seq<char> {
    if b { "true"@ } else { "false"@ }
}

/// The boolean member `k` of `j`, or `d`.
pub open spec fn bool_or(j: Json, k: Seq<char>, d: bool) -> bool {
    match json_get(j, k) {
        Some(Json::Bool(b)) => b,
        _ => d,
    }
}

/// A header `name` with the string member `k` of `j`, when it has one.
pub open spec fn opt_header(name: Seq<char>, j: Json, k: Seq<char>) -> Seq<(Seq<char>, Seq<char>)> {
    match json_get(j, k) {
        Some(Json::Str(v)) => seq![(name, v)],
        _ => Seq::empty(),
    }
}

/// A header `name` with the boolean member `k` of `j`, when it has one.
pub open spec fn opt_bool_header(name: Seq<char>, j: Json, k: Seq<char>) -> Seq<(Seq<char>, Seq<char>)> {
    match json_get(j, k) {
        Some(Json::Bool(b)) => seq![(name, bool_text(b))],
        _ => Seq::empty(),
    }
}

/// The metadata object of properties, or an empty one.
pub open spec fn meta_of(props: Json) -> Json {
    match json_get(props, "metadata"@) {
        Some(m) => m,
        None => Json::Object(Seq::empty()),
    }
}

/// Headers of a HEAD on a container.
pub open spec fn container_head_headers(props: Json) -> Seq<(Seq<char>, Seq<char>)> {
    seq![
        ("x-ms-lease-status"@, text_or(props, "leaseStatus"@, "unlocked"@)),
        ("x-ms-lease-state"@, text_or(props, "leaseState"@, "available"@)),
        ("x-ms-has-immutability-policy"@, bool_text(bool_or(props, "hasImmutabilityPolicy"@, false))),
        ("x-ms-has-legal-hold"@, bool_text(bool_or(props, "hasLegalHold"@, false))),
    ] + opt_header("etag"@, props, "etag"@) + opt_header("last-modified"@, props, "lastModified"@)
        + meta_headers_of(meta_of(props))
}

/// The decimal text of the length of a blob.
pub open spec fn length_text(props: Json) -> Seq<char> {
    match json_get(props, "contentLength"@) {
        Some(Json::Number(t)) => t,
        _ => "0"@,
    }
}

/// Headers of a HEAD on a blob.
pub open spec fn blob_head_headers(props: Json) -> Seq<(Seq<char>, Seq<char>)> {
    seq![
        ("content-type"@, text_or(props, "contentType"@, "application/octet-stream"@)),
        ("content-length"@, length_text(props)),
        ("x-ms-blob-content-length"@, length_text(props)),
    ] + opt_header("x-ms-blob-type"@, props, "blobType"@) + opt_header("x-ms-access-tier"@, props, "accessTier"@)
        + opt_header("x-ms-lease-status"@, props, "leaseStatus"@) + opt_header("x-ms-lease-state"@, props, "leaseState"@)
        + opt_bool_header("x-ms-server-encrypted"@, props, "serverEncrypted"@) + opt_header("etag"@, props, "etag"@)
        + opt_header("last-modified"@, props, "lastModified"@) + opt_header("x-ms-creation-time"@, props, "creationTime"@)
        + opt_header("x-ms-blob-content-encoding"@, props, "contentEncoding"@)
        + opt_header("x-ms-blob-content-language"@, props, "contentLanguage"@)
        + opt_header("x-ms-blob-content-disposition"@, props, "contentDisposition"@)
        + opt_header("x-ms-blob-cache-control"@, props, "cacheControl"@) + opt_header("content-md5"@, props, "contentMd5"@)
        + meta_headers_of(meta_of(props))
}

/// A reply with status `status`, headers `h` and no body.
pub open spec fn is_headers_reply(r: Reply, status: u16, h: Seq<(Seq<char>, Seq<char>)>) -> bool {
    r.status == status && header_pairs(r.headers@) == h && r.body is Empty
}

fn text_member_or(j: &JsonValue, k: &str, d: &str) -> (r: String)
    ensures
        r@ == text_or(j@, k@, d@),
{
    match j.member(k) {
        Some(v) => match v {
            JsonValue::Str(s) => s.clone(),
            _ => owned(d),
        },
        None => owned(d),
    }
}

fn bool_member_or(j: &JsonValue, k: &str, d: bool) -> (r: bool)
    ensures
        r == bool_or(j@, k@, d),
{
    match j.member(k) {
        Some(v) => match v {
            JsonValue::Bool(b) => *b,
            _ => d,
        },
        None => d,
    }
}

fn bool_string(b: bool) -> (r: String)
    ensures
        r@ == bool_text(b),
{
    if b { owned("true") } else { owned("false") }
}

fn push_header(h: &mut Vec<(String, String)>, name: &str, value: String)
    ensures
        header_pairs(final(h)@) == header_pairs(old(h)@).push((name@, value@)),
{
    h.push((owned(name), value));
    proof {
        assert(header_pairs(h@) =~= header_pairs(old(h)@).push((name@, value@)));
    }
}

fn push_opt_header(h: &mut Vec<(String, String)>, name: &str, j: &JsonValue, k: &str)
    ensures
        header_pairs(final(h)@) == header_pairs(old(h)@) + opt_header(name@, j@, k@),
{
    match j.member(k) {
        Some(v) => match v {
            JsonValue::Str(s) => {
                push_header(h, name, s.clone());
                proof {
                    assert(header_pairs(h@) =~= header_pairs(old(h)@) + opt_header(name@, j@, k@));
                }
            },
            _ => {
                assert(header_pairs(h@) =~= header_pairs(old(h)@) + opt_header(name@, j@, k@));
            },
        },
        None => {
            assert(header_pairs(h@) =~= header_pairs(old(h)@) + opt_header(name@, j@, k@));
        },
    }
}

fn push_opt_bool_header(h: &mut Vec<(String, String)>, name: &str, j: &JsonValue, k: &str)
    ensures
        header_pairs(final(h)@) == header_pairs(old(h)@) + opt_bool_header(name@, j@, k@),
{
    match j.member(k) {
        Some(v) => match v {
            JsonValue::Bool(b) => {
                push_header(h, name, bool_string(*b));
                proof {
                    assert(header_pairs(h@) =~= header_pairs(old(h)@) + opt_bool_header(name@, j@, k@));
                }
            },
            _ => {
                assert(header_pairs(h@) =~= header_pairs(old(h)@) + opt_bool_header(name@, j@, k@));
            },
        },
        None => {
            assert(header_pairs(h@) =~= header_pairs(old(h)@) + opt_bool_header(name@, j@, k@));
        },
    }
}

fn push_meta_of(h: &mut Vec<(String, String)>, props: &JsonValue)
    ensures
        header_pairs(final(h)@) == header_pairs(old(h)@) + meta_headers_of(meta_of(props@)),
{
    match props.member("metadata") {
        Some(m) => push_meta_headers(h, m),
        None => {
            let e = empty_object();
            push_meta_headers(h, &e);
        },
    }
}

fn length_string(props: &JsonValue) -> (r: String)
    ensures
        r@ == length_text(props@),
{
    match props.member("contentLength") {
        Some(v) => match v {
            JsonValue::Number(t) => t.clone(),
            _ => owned("0"),
        },
        None => owned("0"),
    }
}

/// Answers a HEAD on a container: its properties as headers, or a bare
/// 404.
pub fn container_head_reply(props: Option<JsonValue>) -> (r: Reply)
    ensures
        match props {
            Some(p) => is_headers_reply(r, 200, container_head_headers(p@)),
            None => is_empty_reply(r, 404),
        },
{
    match props {
        None => empty_reply(404),
        Some(p) => {
            let mut h: Vec<(String, String)> = Vec::new();
            push_header(&mut h, "x-ms-lease-status", text_member_or(&p, "leaseStatus", "unlocked"));
            push_header(&mut h, "x-ms-lease-state", text_member_or(&p, "leaseState", "available"));
            push_header(&mut h, "x-ms-has-immutability-policy", bool_string(bool_member_or(&p, "hasImmutabilityPolicy", false)));
            push_header(&mut h, "x-ms-has-legal-hold", bool_string(bool_member_or(&p, "hasLegalHold", false)));
            let ghost base = header_pairs(h@);
            push_opt_header(&mut h, "etag", &p, "etag");
            push_opt_header(&mut h, "last-modified", &p, "lastModified");
            push_meta_of(&mut h, &p);
            proof {
                reveal_strlit("unlocked");
                reveal_strlit("available");
                assert(base =~= seq![
                    ("x-ms-lease-status"@, text_or(p@, "leaseStatus"@, "unlocked"@)),
                    ("x-ms-lease-state"@, text_or(p@, "leaseState"@, "available"@)),
                    ("x-ms-has-immutability-policy"@, bool_text(bool_or(p@, "hasImmutabilityPolicy"@, false))),
                    ("x-ms-has-legal-hold"@, bool_text(bool_or(p@, "hasLegalHold"@, false))),
                ]);
                assert(header_pairs(h@) =~= container_head_headers(p@));
            }
            Reply { status: 200, headers: h, body: Body::Empty }
        },
    }
}

/// Answers a HEAD on a blob: its properties as headers, or a bare 404.
pub fn blob_head_reply(props: Option<JsonValue>) -> (r: Reply)
    ensures
        match props {
            Some(p) => is_headers_reply(r, 200, blob_head_headers(p@)),
            None => is_empty_reply(r, 404),
        },
{
    match props {
        None => empty_reply(404),
        Some(p) => {
            let mut h: Vec<(String, String)> = Vec::new();
            push_header(&mut h, "content-type", text_member_or(&p, "contentType", "application/octet-stream"));
            push_header(&mut h, "content-length", length_string(&p));
            push_header(&mut h, "x-ms-blob-content-length", length_string(&p));
            let ghost base = header_pairs(h@);
            push_opt_header(&mut h, "x-ms-blob-type", &p, "blobType");
            push_opt_header(&mut h, "x-ms-access-tier", &p, "accessTier");
            push_opt_header(&mut h, "x-ms-lease-status", &p, "leaseStatus");
            push_opt_header(&mut h, "x-ms-lease-state", &p, "leaseState");
            push_opt_bool_header(&mut h, "x-ms-server-encrypted", &p, "serverEncrypted");
            push_opt_header(&mut h, "etag", &p, "etag");
            push_opt_header(&mut h, "last-modified", &p, "lastModified");
            push_opt_header(&mut h, "x-ms-creation-time", &p, "creationTime");
            push_opt_header(&mut h, "x-ms-blob-content-encoding", &p, "contentEncoding");
            push_opt_header(&mut h, "x-ms-blob-content-language", &p, "contentLanguage");
            push_opt_header(&mut h, "x-ms-blob-content-disposition", &p, "contentDisposition");
            push_opt_header(&mut h, "x-ms-blob-cache-control", &p, "cacheControl");
            push_opt_header(&mut h, "content-md5", &p, "contentMd5");
            push_meta_of(&mut h, &p);
            proof {
                assert(base =~= seq![
                    ("content-type"@, text_or(p@, "contentType"@, "application/octet-stream"@)),
                    ("content-length"@, length_text(p@)),
                    ("x-ms-blob-content-length"@, length_text(p@)),
                ]);
                assert(header_pairs(h@) =~= blob_head_headers(p@));
            }
            Reply { status: 200, headers: h, body: Body::Empty }
        },
    }
}

/// Answers a read of metadata: 200 with it as headers, or 404 with
/// `code` and `message`.
pub fn metadata_reply(meta: Option<JsonValue>, code: &str, message: &str) -> (r: Reply)
    ensures
        match meta {
            Some(m) => is_headers_reply(r, 200, meta_headers_of(m@)),
            None => is_error_reply(r, 404, code@, message@),
        },
{
    match meta {
        None => error_reply(404, code, message),
        Some(m) => {
            let mut h: Vec<(String, String)> = Vec::new();
            push_meta_headers(&mut h, &m);
            proof {
                assert(header_pairs(h@) =~= meta_headers_of(m@));
            }
            Reply { status: 200, headers: h, body: Body::Empty }
        },
    }
}

} // verus!

verus! {

/// Message for an account the data plane does not know.
pub open spec fn account_missing_message(account: Seq<char>) -> Seq<char> {
    "The storage account '"@ + account + "' was not found."@
}

/// Message for a missing container of an account.
pub open spec fn container_missing_message(account: Seq<char>, container: Seq<char>) -> Seq<char> {
    "The container '"@ + container + "' in account '"@ + account + "' was not found."@
}

/// Message for a missing blob of a container.
pub open spec fn blob_missing_message(container: Seq<char>, blob: Seq<char>) -> Seq<char> {
    "The blob '"@ + blob + "' was not found in container '"@ + container + "'."@
}

/// Builds the message for an unknown account.
pub fn account_missing(account: &str) -> (r: String)
    ensures
        r@ == account_missing_message(account@),
{
    let r = join(&["The storage account '", account, "' was not found."]);
    proof {
        reveal_with_fuel(concat_all, 4);
    }
    r
}

/// Builds the message for a missing container.
pub fn container_missing(account: &str, container: &str) -> (r: String)
    ensures
        r@ == container_missing_message(account@, container@),
{
    let r = join(&["The container '", container, "' in account '", account, "' was not found."]);
    proof {
        reveal_with_fuel(concat_all, 6);
    }
    r
}

/// Builds the message for a missing blob.
pub fn blob_missing(container: &str, blob: &str) -> (r: String)
    ensures
        r@ == blob_missing_message(container@, blob@),
{
    let r = join(&["The blob '", blob, "' was not found in container '", container, "'."]);
    proof {
        reveal_with_fuel(concat_all, 6);
    }
    r
}

/// A document with one member `k` listing `items`.
pub open spec fn listing_doc(k: Seq<char>, items: Seq<Json>) -> Json {
    Json::Object(seq![(k, Json::Array(items))])
}

fn make_listing(k: &str, items: Vec<JsonValue>) -> (r: JsonValue)
    ensures
        r@ == listing_doc(k@, crate::store::docs(items@)),
{
    proof {
        crate::network::lemma_items_docs(items@);
    }
    let mut ms: Vec<(String, JsonValue)> = Vec::new();
    push_member(&mut ms, k, JsonValue::Array(items));
    proof {
        assert(members_model(ms@) =~= listing_doc(k@, crate::store::docs(items@))->Object_0);
    }
    JsonValue::Object(ms)
}

/// Answers a listing of containers: 200 with `{"containers": [...]}`, or
/// 404 when the account is unknown.
pub fn list_containers_reply(r: Option<Vec<JsonValue>>, account: &str) -> (out: Reply)
    ensures
        match r {
            Some(v) => is_json_reply(out, 200, listing_doc("containers"@, crate::store::docs(v@))),
            None => is_error_reply(out, 404, "AccountNotFound"@, account_missing_message(account@)),
        },
{
    match r {
        Some(v) => json_reply(200, make_listing("containers", v)),
        None => error_reply(404, "AccountNotFound", account_missing(account).as_str()),
    }
}

/// Answers a listing of blobs: 200 with `{"blobs": [...]}`, or 404 when
/// the container is unknown.
pub fn list_blobs_reply(r: Option<Vec<JsonValue>>, account: &str, container: &str) -> (out: Reply)
    ensures
        match r {
            Some(v) => is_json_reply(out, 200, listing_doc("blobs"@, crate::store::docs(v@))),
            None => is_error_reply(out, 404, "ContainerNotFound"@, container_missing_message(account@, container@)),
        },
{
    match r {
        Some(v) => json_reply(200, make_listing("blobs", v)),
        None => error_reply(404, "ContainerNotFound", container_missing(account, container).as_str()),
    }
}

/// Answers a read of the blob service properties.
pub fn service_properties_reply(r: Option<JsonValue>, account: &str) -> (out: Reply)
    ensures
        match r {
            Some(d) => is_json_reply(out, 200, d@),
            None => is_error_reply(out, 404, "AccountNotFound"@, account_missing_message(account@)),
        },
{
    match r {
        Some(d) => json_reply(200, d),
        None => error_reply(404, "AccountNotFound", account_missing(account).as_str()),
    }
}

/// Headers of the account information reply.
pub open spec fn account_info_headers() -> Seq<(Seq<char>, Seq<char>)> {
    seq![
        ("x-ms-sku-name"@, "Standard_LRS"@),
        ("x-ms-account-kind"@, "StorageV2"@),
        ("x-ms-is-hns-enabled"@, "false"@),
        ("content-length"@, "0"@),
    ]
}

/// Answers a request for account information; every account is a
/// standard StorageV2 account.
pub fn account_info_reply() -> (r: Reply)
    ensures
        is_headers_reply(r, 200, account_info_headers()),
{
    let mut h: Vec<(String, String)> = Vec::new();
    push_header(&mut h, "x-ms-sku-name", owned("Standard_LRS"));
    push_header(&mut h, "x-ms-account-kind", owned("StorageV2"));
    push_header(&mut h, "x-ms-is-hns-enabled", owned("false"));
    push_header(&mut h, "content-length", owned("0"));
    proof {
        assert(header_pairs(h@) =~= account_info_headers());
    }
    Reply { status: 200, headers: h, body: Body::Empty }
}

/// The content type of a written blob: the request's, or
/// `application/octet-stream`.
pub fn content_type_or_default(ct: Option<&str>) -> (r: &str)
    ensures
        r@ == match ct {
            Some(c) => c@,
            None => "application/octet-stream"@,
        },
{
    match ct {
        Some(c) => c,
        None => "application/octet-stream",
    }
}

/// Answers a read of blob data: 200 with the bytes, typed by the blob's
/// content type, or 404.
pub fn blob_data_reply(props: Option<JsonValue>, data: Option<Vec<u8>>, container: &str, blob: &str) -> (r: Reply)
    ensures
        match data {
            Some(d) => r.status == 200 && r.body == Body::Bytes(d) && header_pairs(r.headers@) == seq![
                ("content-type"@, match props {
                    Some(p) => text_or(p@, "contentType"@, "application/octet-stream"@),
                    None => "application/octet-stream"@,
                }),
                ("content-length"@, crate::text::decimal(d@.len())),
            ],
            None => is_error_reply(r, 404, "BlobNotFound"@, blob_missing_message(container@, blob@)),
        },
{
    match data {
        None => error_reply(404, "BlobNotFound", blob_missing(container, blob).as_str()),
        Some(d) => {
            let ct = match &props {
                Some(p) => text_member_or(p, "contentType", "application/octet-stream"),
                None => owned("application/octet-stream"),
            };
            let len = crate::text::decimal_text(d.len() as u64);
            let mut h: Vec<(String, String)> = Vec::new();
            push_header(&mut h, "content-type", ct);
            push_header(&mut h, "content-length", len);
            proof {
                assert(header_pairs(h@) =~= seq![("content-type"@, ct@), ("content-length"@, len@)]);
            }
            Reply { status: 200, headers: h, body: Body::Bytes(d) }
        },
    }
}

} // verus!

verus! {

/// One entry of a tag set: its key and value, when both are strings.
pub open spec fn tag_item(j: Json) -> Option<(Seq<char>, Seq<char>)> {
    match (json_get(j, "key"@), json_get(j, "value"@)) {
        (Some(Json::Str(k)), Some(Json::Str(v))) => Some((k, v)),
        _ => None,
    }
}

/// The entries of a tag set, when every item is one.
pub open spec fn tag_items(items: Seq<Json>) -> Option<Seq<(Seq<char>, Seq<char>)>>
    decreases items.len(),
{
    if items.len() == 0 {
        Some(Seq::empty())
    } else {
        match (tag_items(items.drop_last()), tag_item(items.last())) {
            (Some(r), Some(p)) => Some(r.push(p)),
            _ => None,
        }
    }
}

/// The members of a flat object of strings, when every value is one.
pub open spec fn flat_pairs(ms: Seq<(Seq<char>, Json)>) -> Option<Seq<(Seq<char>, Seq<char>)>>
    decreases ms.len(),
{
    if ms.len() == 0 {
        Some(Seq::empty())
    } else {
        match (flat_pairs(ms.drop_last()), ms.last().1) {
            (Some(r), Json::Str(v)) => Some(r.push((ms.last().0, v))),
            _ => None,
        }
    }
}

/// The tags a request body sets: a `blobTagSet` of key/value entries, or a
/// flat object of strings; `None` when the body is neither.
pub open spec fn tags_from(doc: Json) -> Option<Json> {
    match doc {
        Json::Object(ms) => match json_get(doc, "blobTagSet"@) {
            Some(Json::Array(items)) => match tag_items(items) {
                Some(ps) => Some(set_all(Json::Object(Seq::empty()), ps)),
                None => None,
            },
            Some(Json::Null) => Some(Json::Object(Seq::empty())),
            Some(_) => None,
            None => match flat_pairs(ms) {
                Some(ps) => Some(set_all(Json::Object(Seq::empty()), ps)),
                None => None,
            },
        },
        _ => None,
    }
}

fn tags_of_items(items: &Vec<JsonValue>) -> (r: Option<JsonValue>)
    ensures
        r matches Some(t) ==> tag_items(crate::json::items_model(items@)) matches Some(ps) && t@ == set_all(Json::Object(Seq::empty()), ps),
        r is None ==> tag_items(crate::json::items_model(items@)) is None,
{
    proof {
        crate::json::lemma_items_model(items@);
    }
    let ghost all = crate::json::items_model(items@);
    let mut t = empty_object();
    let ghost mut ps = Seq::<(Seq<char>, Seq<char>)>::empty();
    let mut i: usize = 0;
    while i < items.len()
        invariant
            i <= items@.len(),
            all == crate::json::items_model(items@),
            all.len() == items@.len(),
            forall|j: int| 0 <= j < items@.len() ==> #[trigger] all[j] == items@[j]@,
            tag_items(all.take(i as int)) == Some(ps),
            t@ == set_all(Json::Object(Seq::empty()), ps),
        decreases items.len() - i,
    {
        proof {
            assert(all.take(i + 1).drop_last() =~= all.take(i as int));
            assert(all.take(i + 1).last() == items@[i as int]@);
        }
        let k = match items[i].member("key") {
            Some(v) => v.as_text(),
            None => None,
        };
        let v = match items[i].member("value") {
            Some(v) => v.as_text(),
            None => None,
        };
        match (k, v) {
            (Some(k), Some(v)) => {
                t.set(k.as_str(), jstr(v.as_str()));
                proof {
                    let old_ps = ps;
                    ps = ps.push((k@, v@));
                    assert(ps.drop_last() =~= old_ps);
                }
            },
            _ => {
                proof {
                    assert(tag_items(all.take(i + 1)) is None);
                    assert(tag_items(all) is None) by {
                        lemma_tag_items_none_extends(all, i + 1);
                    }
                }
                return None;
            },
        }
        i = i + 1;
    }
    proof {
        assert(all.take(items@.len() as int) =~= all);
    }
    Some(t)
}

/// Once some prefix of the items is not a tag set, no longer one is.
pub proof fn lemma_tag_items_none_extends(items: Seq<Json>, n: int)
    requires
        0 <= n <= items.len(),
        tag_items(items.take(n)) is None,
    ensures
        tag_items(items) is None,
    decreases items.len() - n,
{
    if n < items.len() {
        assert(items.take(n + 1).drop_last() =~= items.take(n));
        lemma_tag_items_none_extends(items, n + 1);
    } else {
        assert(items.take(n) =~= items);
    }
}

/// Once some prefix of the members is not flat, no longer one is.
pub proof fn lemma_flat_pairs_none_extends(ms: Seq<(Seq<char>, Json)>, n: int)
    requires
        0 <= n <= ms.len(),
        flat_pairs(ms.take(n)) is None,
    ensures
        flat_pairs(ms) is None,
    decreases ms.len() - n,
{
    if n < ms.len() {
        assert(ms.take(n + 1).drop_last() =~= ms.take(n));
        lemma_flat_pairs_none_extends(ms, n + 1);
    } else {
        assert(ms.take(n) =~= ms);
    }
}

fn tags_of_members(ms: &Vec<(String, JsonValue)>) -> (r: Option<JsonValue>)
    ensures
        r matches Some(t) ==> flat_pairs(members_model(ms@)) matches Some(ps) && t@ == set_all(Json::Object(Seq::empty()), ps),
        r is None ==> flat_pairs(members_model(ms@)) is None,
{
    proof {
        crate::json::lemma_members_model(ms@);
    }
    let ghost all = members_model(ms@);
    let mut t = empty_object();
    let ghost mut ps = Seq::<(Seq<char>, Seq<char>)>::empty();
    let mut i: usize = 0;
    while i < ms.len()
        invariant
            i <= ms@.len(),
            all == members_model(ms@),
            all.len() == ms@.len(),
            forall|j: int| 0 <= j < ms@.len() ==> #[trigger] all[j] == (ms@[j].0@, ms@[j].1@),
            flat_pairs(all.take(i as int)) == Some(ps),
            t@ == set_all(Json::Object(Seq::empty()), ps),
        decreases ms.len() - i,
    {
        proof {
            assert(all.take(i + 1).drop_last() =~= all.take(i as int));
            assert(all.take(i + 1).last() == all[i as int]);
        }
        match &ms[i].1 {
            JsonValue::Str(v) => {
                t.set(ms[i].0.as_str(), jstr(v.as_str()));
                proof {
                    let old_ps = ps;
                    ps = ps.push((ms@[i as int].0@, v@));
                    assert(ps.drop_last() =~= old_ps);
                }
            },
            _ => {
                proof {
                    assert(flat_pairs(all.take(i + 1)) is None);
                    lemma_flat_pairs_none_extends(all, i + 1);
                }
                return None;
            },
        }
        i = i + 1;
    }
    proof {
        assert(all.take(ms@.len() as int) =~= all);
    }
    Some(t)
}

/// Reads the tags a request body sets.
pub fn tags_from_body(doc: &JsonValue) -> (r: Option<JsonValue>)
    ensures
        match r {
            Some(t) => tags_from(doc@) == Some(t@),
            None => tags_from(doc@) is None,
        },
{
    match doc {
        JsonValue::Object(ms) => match doc.member("blobTagSet") {
            Some(v) => match v {
                JsonValue::Array(items) => tags_of_items(items),
                JsonValue::Null => Some(empty_object()),
                _ => None,
            },
            None => tags_of_members(ms),
        },
        _ => None,
    }
}

/// The answer to a tag body of neither shape.
pub fn invalid_tags_reply() -> (r: Reply)
    ensures
        is_error_reply(r, 400, "InvalidInput"@, "Invalid tags format"@),
{
    error_reply(400, "InvalidInput", "Invalid tags format")
}

/// Entries of a tag set for the string members of a tags object.
pub open spec fn tag_entries(ms: Seq<(Seq<char>, Json)>) -> Seq<Json>
    decreases ms.len(),
{
    if ms.len() == 0 {
        Seq::empty()
    } else {
        let rest = tag_entries(ms.drop_last());
        match ms.last().1 {
            Json::Str(v) => rest.push(Json::Object(seq![("key"@, Json::Str(ms.last().0)), ("value"@, Json::Str(v))])),
            _ => rest,
        }
    }
}

/// The tag set document of a tags object.
pub open spec fn tag_set_doc(tags: Json) -> Json {
    Json::Object(seq![("blobTagSet"@, Json::Array(match tags {
        Json::Object(ms) => tag_entries(ms),
        _ => Seq::empty(),
    }))])
}

fn make_tag_set(tags: &JsonValue) -> (r: JsonValue)
    ensures
        r@ == tag_set_doc(tags@),
{
    let mut entries: Vec<JsonValue> = Vec::new();
    match tags {
        JsonValue::Object(ms) => {
            proof {
                crate::json::lemma_members_model(ms@);
            }
            let ghost all = members_model(ms@);
            let mut i: usize = 0;
            while i < ms.len()
                invariant
                    i <= ms@.len(),
                    all == members_model(ms@),
                    all.len() == ms@.len(),
                    forall|j: int| 0 <= j < ms@.len() ==> #[trigger] all[j] == (ms@[j].0@, ms@[j].1@),
                    crate::json::items_model(entries@) == tag_entries(all.take(i as int)),
                decreases ms.len() - i,
            {
                proof {
                    assert(all.take(i + 1).drop_last() =~= all.take(i as int));
                    assert(all.take(i + 1).last() == all[i as int]);
                }
                match &ms[i].1 {
                    JsonValue::Str(v) => {
                        let mut e: Vec<(String, JsonValue)> = Vec::new();
                        push_member(&mut e, "key", jstr(ms[i].0.as_str()));
                        push_member(&mut e, "value", jstr(v.as_str()));
                        proof {
                            assert(members_model(e@) =~= seq![("key"@, Json::Str(ms@[i as int].0@)), ("value"@, Json::Str(v@))]);
                        }
                        let obj = JsonValue::Object(e);
                        assert(obj@ == Json::Object(seq![("key"@, Json::Str(all[i as int].0)), ("value"@, Json::Str(v@))]));
                        let ghost prev = entries@;
                        entries.push(obj);
                        proof {
                            assert(entries@.drop_last() =~= prev);
                        }
                    },
                    _ => {},
                }
                i = i + 1;
            }
            proof {
                assert(all.take(ms@.len() as int) =~= all);
            }
        },
        _ => {},
    }
    let mut out: Vec<(String, JsonValue)> = Vec::new();
    push_member(&mut out, "blobTagSet", JsonValue::Array(entries));
    proof {
        assert(members_model(out@) =~= tag_set_doc(tags@)->Object_0);
    }
    JsonValue::Object(out)
}

/// Answers a read of blob tags: 200 with the tag set, or 404.
pub fn blob_tags_reply(r: Option<JsonValue>, container: &str, blob: &str) -> (out: Reply)
    ensures
        match r {
            Some(t) => is_json_reply(out, 200, tag_set_doc(t@)),
            None => is_error_reply(out, 404, "BlobNotFound"@, blob_missing_message(container@, blob@)),
        },
{
    match r {
        Some(t) => json_reply(200, make_tag_set(&t)),
        None => error_reply(404, "BlobNotFound", blob_missing(container, blob).as_str()),
    }
}

} // verus!

verus! {

/// The strings of a list, when every item is one.
pub open spec fn string_items(items: Seq<Json>) -> Option<Seq<Seq<char>>>
    decreases items.len(),
{
    if items.len() == 0 {
        Some(Seq::empty())
    } else {
        match (string_items(items.drop_last()), items.last()) {
            (Some(r), Json::Str(s)) => Some(r.push(s)),
            _ => None,
        }
    }
}

/// The block ids of a block list body: a list of strings under
/// `blockIds` or `block_ids`, but not under both.
pub open spec fn block_ids_from(doc: Json) -> Option<Seq<Seq<char>>> {
    if doc is Object {
        match (json_get(doc, "blockIds"@), json_get(doc, "block_ids"@)) {
            (Some(Json::Array(items)), None) => string_items(items),
            (None, Some(Json::Array(items))) => string_items(items),
            _ => None,
        }
    } else {
        None
    }
}

/// Once some prefix of the items is not all strings, no longer one is.
pub proof fn lemma_string_items_none_extends(items: Seq<Json>, n: int)
    requires
        0 <= n <= items.len(),
        string_items(items.take(n)) is None,
    ensures
        string_items(items) is None,
    decreases items.len() - n,
{
    if n < items.len() {
        assert(items.take(n + 1).drop_last() =~= items.take(n));
        lemma_string_items_none_extends(items, n + 1);
    } else {
        assert(items.take(n) =~= items);
    }
}

fn strings_of(items: &Vec<JsonValue>) -> (r: Option<Vec<String>>)
    ensures
        match r {
            Some(v) => string_items(crate::json::items_model(items@)) == Some(v@.map_values(|s: String| s@)),
            None => string_items(crate::json::items_model(items@)) is None,
        },
{
    proof {
        crate::json::lemma_items_model(items@);
    }
    let ghost all = crate::json::items_model(items@);
    let mut out: Vec<String> = Vec::new();
    let mut i: usize = 0;
    while i < items.len()
        invariant
            i <= items@.len(),
            all == crate::json::items_model(items@),
            all.len() == items@.len(),
            forall|j: int| 0 <= j < items@.len() ==> #[trigger] all[j] == items@[j]@,
            string_items(all.take(i as int)) == Some(out@.map_values(|s: String| s@)),
        decreases items.len() - i,
    {
        proof {
            assert(all.take(i + 1).drop_last() =~= all.take(i as int));
            assert(all.take(i + 1).last() == items@[i as int]@);
        }
        match &items[i] {
            JsonValue::Str(s) => {
                let ghost prev = out@;
                out.push(s.clone());
                proof {
                    assert(out@.map_values(|s: String| s@) =~= prev.map_values(|s: String| s@).push(s@));
                }
            },
            _ => {
                proof {
                    lemma_string_items_none_extends(all, i + 1);
                }
                return None;
            },
        }
        i = i + 1;
    }
    proof {
        assert(all.take(items@.len() as int) =~= all);
    }
    Some(out)
}

/// Reads the block ids of a block list body.
pub fn block_ids_from_body(doc: &JsonValue) -> (r: Option<Vec<String>>)
    ensures
        match r {
            Some(v) => block_ids_from(doc@) == Some(v@.map_values(|s: String| s@)),
            None => block_ids_from(doc@) is None,
        },
{
    match doc {
        JsonValue::Object(_) => {},
        _ => return None,
    }
    let a = doc.member("blockIds");
    let b = doc.member("block_ids");
    let list = match (a, b) {
        (Some(x), None) => x,
        (None, Some(x)) => x,
        _ => return None,
    };
    match list {
        JsonValue::Array(items) => strings_of(items),
        _ => None,
    }
}

/// The answer to a block list body without block ids.
pub fn invalid_block_list_body_reply() -> (r: Reply)
    ensures
        is_error_reply(r, 400, "InvalidInput"@, "Invalid block list body: expected a list of block ids"@),
{
    error_reply(400, "InvalidInput", "Invalid block list body: expected a list of block ids")
}

/// Answers a committed block list: 201 with a new entity tag, or 400 when
/// a block is unknown.
pub fn put_block_list_reply(r: Result<(), crate::store::StoreError>, etag_hex: &str) -> (out: Reply)
    ensures
        match r {
            Ok(()) => is_headers_reply(out, 201, seq![("etag"@, crate::storage::etag_text(etag_hex@))]),
            Err(e) => is_error_reply(out, 400, "InvalidBlockList"@, crate::store::error_message(e)),
        },
{
    match r {
        Ok(()) => {
            let mut h: Vec<(String, String)> = Vec::new();
            push_header(&mut h, "etag", crate::storage::make_etag(etag_hex));
            proof {
                assert(header_pairs(h@) =~= seq![("etag"@, crate::storage::etag_text(etag_hex@))]);
            }
            Reply { status: 201, headers: h, body: Body::Empty }
        },
        Err(e) => error_reply(400, "InvalidBlockList", e.message().as_str()),
    }
}

/// Entries of a block list.
pub open spec fn block_entries(blocks: Seq<(Seq<char>, nat)>) -> Seq<Json> {
    blocks.map_values(|b: (Seq<char>, nat)| Json::Object(seq![
        ("name"@, Json::Str(b.0)),
        ("size"@, Json::Number(crate::text::decimal(b.1))),
    ]))
}

/// The block list document.
pub open spec fn block_list_doc(committed: Seq<(Seq<char>, nat)>, uncommitted: Seq<(Seq<char>, nat)>) -> Json {
    Json::Object(seq![
        ("committedBlocks"@, Json::Array(block_entries(committed))),
        ("uncommittedBlocks"@, Json::Array(block_entries(uncommitted))),
    ])
}

/// The text pairs of a list of blocks and sizes.
pub open spec fn block_sizes(v: Seq<(String, usize)>) -> Seq<(Seq<char>, nat)> {
    v.map_values(|e: (String, usize)| (e.0@, e.1 as nat))
}

fn make_block_entries(v: &Vec<(String, usize)>) -> (r: Vec<JsonValue>)
    ensures
        crate::json::items_model(r@) == block_entries(block_sizes(v@)),
{
    let mut out: Vec<JsonValue> = Vec::new();
    let mut i: usize = 0;
    while i < v.len()
        invariant
            i <= v@.len(),
            crate::json::items_model(out@) == block_entries(block_sizes(v@).take(i as int)),
        decreases v.len() - i,
    {
        let mut e: Vec<(String, JsonValue)> = Vec::new();
        push_member(&mut e, "name", jstr(v[i].0.as_str()));
        let size = crate::text::decimal_text(v[i].1 as u64);
        assert(size@ == crate::text::decimal(v@[i as int].1 as nat));
        push_member(&mut e, "size", JsonValue::Number(size));
        assert(members_model(e@) =~= seq![
            ("name"@, Json::Str(v@[i as int].0@)),
            ("size"@, Json::Number(crate::text::decimal(v@[i as int].1 as nat))),
        ]);
        let obj = JsonValue::Object(e);
        assert(obj@ == Json::Object(seq![
            ("name"@, Json::Str(v@[i as int].0@)),
            ("size"@, Json::Number(crate::text::decimal(v@[i as int].1 as nat))),
        ]));
        let ghost prev = out@;
        out.push(obj);
        proof {
            assert(out@.drop_last() =~= prev);
            assert(block_entries(block_sizes(v@).take(i + 1)) =~= block_entries(block_sizes(v@).take(i as int)).push(obj@));
        }
        i = i + 1;
    }
    proof {
        assert(block_sizes(v@).take(v@.len() as int) =~= block_sizes(v@));
    }
    out
}

/// Answers a read of the block list: 200 with the committed and staged
/// blocks and their sizes, or 404.
pub fn block_list_reply(r: Option<(Vec<(String, usize)>, Vec<(String, usize)>)>, container: &str, blob: &str) -> (out: Reply)
    ensures
        match r {
            Some((c, u)) => is_json_reply(out, 200, block_list_doc(block_sizes(c@), block_sizes(u@))),
            None => is_error_reply(out, 404, "BlobNotFound"@, blob_missing_message(container@, blob@)),
        },
{
    match r {
        None => error_reply(404, "BlobNotFound", blob_missing(container, blob).as_str()),
        Some((c, u)) => {
            let ce = make_block_entries(&c);
            let ue = make_block_entries(&u);
            let mut ms: Vec<(String, JsonValue)> = Vec::new();
            push_member(&mut ms, "committedBlocks", JsonValue::Array(ce));
            push_member(&mut ms, "uncommittedBlocks", JsonValue::Array(ue));
            proof {
                assert(members_model(ms@) =~= block_list_doc(block_sizes(c@), block_sizes(u@))->Object_0);
            }
            json_reply(200, JsonValue::Object(ms))
        },
    }
}

/// The answer to a block upload without a block id.
pub fn missing_block_id_reply() -> (r: Reply)
    ensures
        is_error_reply(r, 400, "MissingRequiredQueryParameter"@, "blockid query parameter is required for comp=block"@),
{
    error_reply(400, "MissingRequiredQueryParameter", "blockid query parameter is required for comp=block")
}

/// The answer to a tier change without a tier.
pub fn missing_tier_reply() -> (r: Reply)
    ensures
        is_error_reply(r, 400, "MissingRequiredHeader"@, "x-ms-access-tier header is required"@),
{
    error_reply(400, "MissingRequiredHeader", "x-ms-access-tier header is required")
}

/// Answers a snapshot request: 201 with the snapshot id when the blob
/// exists, 404 otherwise.
pub fn snapshot_reply(exists: bool, snapshot: &str, container: &str, blob: &str) -> (r: Reply)
    ensures
        exists ==> is_headers_reply(r, 201, seq![("x-ms-snapshot"@, snapshot@)]),
        !exists ==> is_error_reply(r, 404, "BlobNotFound"@, blob_missing_message(container@, blob@)),
{
    if !exists {
        return error_reply(404, "BlobNotFound", blob_missing(container, blob).as_str());
    }
    let mut h: Vec<(String, String)> = Vec::new();
    push_header(&mut h, "x-ms-snapshot", owned(snapshot));
    proof {
        assert(header_pairs(h@) =~= seq![("x-ms-snapshot"@, snapshot@)]);
    }
    Reply { status: 201, headers: h, body: Body::Empty }
}

} // verus!

verus! {

/// Calls `url::Url::parse` and returns the path of the parsed URL
/// (`Url::path`), or `None` when the text is not an absolute URL. The
/// result depends on `s` alone.
#[verifier::external_body]
fn parsed_path(s: &str) -> (r: Option<String>)
    ensures
        match r {
            Some(p) => url_path(s@) == Some(p@),
            None => url_path(s@) is None,
        },
{
    match url::Url::parse(s) {
        Ok(u) => Some(u.path().to_string()),
        Err(_) => None,
    }
}

/// The path of an absolute URL as `url::Url::parse` and `Url::path` give
/// it; `None` when the text does not parse.
pub uninterp spec fn url_path(s: Seq<char>) -> Option<Seq<char>>;

/// `s` without its leading slashes.
pub open spec fn trim_slashes(s: Seq<char>) -> Seq<char>
    decreases s.len(),
{
    if s.len() > 0 && s[0] == '/' {
        trim_slashes(s.drop_first())
    } else {
        s
    }
}

/// Position of the first slash of `s` at or after `i`, or the length of
/// `s` when there is none.
pub open spec fn slash_from(s: Seq<char>, i: int) -> int
    decreases s.len() - i,
{
    if i < 0 || i >= s.len() {
        s.len() as int
    } else if s[i] == '/' {
        i
    } else {
        slash_from(s, i + 1)
    }
}

/// Account, container and blob of a copy source path: the path without
/// its leading slashes, cut at its first two slashes; the blob keeps any
/// further slashes.
pub open spec fn copy_path_parts(path: Seq<char>) -> Option<(Seq<char>, Seq<char>, Seq<char>)> {
    let t = trim_slashes(path);
    let i = slash_from(t, 0);
    if i >= t.len() {
        None
    } else {
        let j = slash_from(t, i + 1);
        if j >= t.len() {
            None
        } else {
            Some((t.subrange(0, i), t.subrange(i + 1, j), t.subrange(j + 1, t.len() as int)))
        }
    }
}

proof fn lemma_trim_slashes(s: Seq<char>, k: int)
    requires
        0 <= k <= s.len(),
        forall|m: int| 0 <= m < k ==> s[m] == '/',
        k == s.len() || s[k] != '/',
    ensures
        trim_slashes(s) == s.subrange(k, s.len() as int),
    decreases k,
{
    if k == 0 {
        assert(s.subrange(0, s.len() as int) =~= s);
    } else {
        let d = s.drop_first();
        assert forall|m: int| 0 <= m < k - 1 implies d[m] == '/' by {
            assert(d[m] == s[m + 1]);
        }
        lemma_trim_slashes(d, k - 1);
        assert(d.subrange(k - 1, d.len() as int) =~= s.subrange(k, s.len() as int));
    }
}

proof fn lemma_slash_from(s: Seq<char>, a: int, b: int)
    requires
        0 <= a <= b <= s.len(),
        forall|m: int| a <= m < b ==> s[m] != '/',
    ensures
        slash_from(s, a) == slash_from(s, b),
    decreases b - a,
{
    if a < b {
        lemma_slash_from(s, a + 1, b);
    }
}

/// First slash of `s` at or after `from`.
fn find_slash(s: &str, from: usize) -> (r: usize)
    requires
        from <= s@.len(),
    ensures
        r as int == slash_from(s@, from as int),
        from <= r <= s@.len(),
{
    let n = s.unicode_len();
    let mut i = from;
    while i < n
        invariant
            n == s@.len(),
            from <= i <= n,
            forall|m: int| from <= m < i ==> s@[m] != '/',
        decreases n - i,
    {
        if s.get_char(i) == '/' {
            proof {
                lemma_slash_from(s@, from as int, i as int);
            }
            return i;
        }
        i = i + 1;
    }
    proof {
        lemma_slash_from(s@, from as int, n as int);
    }
    n
}

/// Splits a copy source path into account, container and blob.
pub fn split_copy_path(path: &str) -> (r: Option<(String, String, String)>)
    ensures
        match r {
            Some((a, c, b)) => copy_path_parts(path@) == Some((a@, c@, b@)),
            None => copy_path_parts(path@) is None,
        },
{
    let n = path.unicode_len();
    let mut k: usize = 0;
    while k < n && path.get_char(k) == '/'
        invariant
            n == path@.len(),
            k <= n,
            forall|m: int| 0 <= m < k ==> path@[m] == '/',
        decreases n - k,
    {
        k = k + 1;
    }
    proof {
        lemma_trim_slashes(path@, k as int);
    }
    let t = path.substring_char(k, n);
    let len = t.unicode_len();
    let i = find_slash(t, 0);
    if i >= len {
        return None;
    }
    let j = find_slash(t, i + 1);
    if j >= len {
        return None;
    }
    let a = owned(t.substring_char(0, i));
    let c = owned(t.substring_char(i + 1, j));
    let b = owned(t.substring_char(j + 1, len));
    Some((a, c, b))
}

/// The account, container and blob a copy source URL names.
pub fn copy_source_parts(source: &str) -> (r: Option<(String, String, String)>)
    ensures
        match r {
            Some((a, c, b)) => url_path(source@) matches Some(p) && copy_path_parts(p) == Some((a@, c@, b@)),
            None => url_path(source@) matches Some(p) ==> copy_path_parts(p) is None,
        },
{
    match parsed_path(source) {
        Some(p) => split_copy_path(p.as_str()),
        None => None,
    }
}

/// The answer to a copy without a source.
pub fn missing_copy_source_reply() -> (r: Reply)
    ensures
        is_error_reply(r, 400, "MissingRequiredHeader"@, "x-ms-copy-source header is required"@),
{
    error_reply(400, "MissingRequiredHeader", "x-ms-copy-source header is required")
}

/// The answer to a copy source that names no blob.
pub fn bad_copy_source_reply() -> (r: Reply)
    ensures
        is_error_reply(r, 400, "InvalidHeaderValue"@, "Cannot parse x-ms-copy-source URL"@),
{
    error_reply(400, "InvalidHeaderValue", "Cannot parse x-ms-copy-source URL")
}

/// Answers a copy: 202 with the copy id and a finished status, or 404.
pub fn copy_reply(r: Result<String, crate::store::StoreError>) -> (out: Reply)
    ensures
        match r {
            Ok(id) => is_headers_reply(out, 202, seq![("x-ms-copy-id"@, id@), ("x-ms-copy-status"@, "success"@)]),
            Err(e) => is_error_reply(out, 404, "ResourceNotFound"@, crate::store::error_message(e)),
        },
{
    match r {
        Ok(id) => {
            let mut h: Vec<(String, String)> = Vec::new();
            push_header(&mut h, "x-ms-copy-id", id);
            push_header(&mut h, "x-ms-copy-status", owned("success"));
            proof {
                assert(header_pairs(h@) =~= seq![("x-ms-copy-id"@, h@[0].1@), ("x-ms-copy-status"@, "success"@)]);
            }
            Reply { status: 202, headers: h, body: Body::Empty }
        },
        Err(e) => error_reply(404, "ResourceNotFound", e.message().as_str()),
    }
}

} // verus!
