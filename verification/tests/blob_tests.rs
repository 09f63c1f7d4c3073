use cloud_sdk_azure_mock::dataplane::{
    blob_data_reply, blob_head_reply, blob_tags_reply, block_ids_from_body, block_list_reply,
    container_head_reply, copy_reply, copy_source_parts, list_blobs_reply, list_containers_reply,
    metadata_from_headers, metadata_reply, put_block_list_reply, split_copy_path, tags_from_body,
};
use cloud_sdk_azure_mock::fresh::Fresh;
use cloud_sdk_azure_mock::json::JsonValue;
use cloud_sdk_azure_mock::reply::{done_reply, Body, Reply};
use cloud_sdk_azure_mock::storage::{CreateStorageAccountParams, StorageSku};
use cloud_sdk_azure_mock::store::{CreateResourceGroupParams, MockState, StoreError};

const SUB: &str = "00000000-0000-0000-0000-000000000000";

fn from_serde(v: &serde_json::Value) -> JsonValue {
    match v {
        serde_json::Value::Null => JsonValue::Null,
        serde_json::Value::Bool(b) => JsonValue::Bool(*b),
        serde_json::Value::Number(n) => JsonValue::Number(n.to_string()),
        serde_json::Value::String(s) => JsonValue::Str(s.clone()),
        serde_json::Value::Array(items) => JsonValue::Array(items.iter().map(from_serde).collect()),
        serde_json::Value::Object(m) => JsonValue::Object(m.iter().map(|(k, v)| (k.clone(), from_serde(v))).collect()),
    }
}

fn j(text: &str) -> JsonValue {
    from_serde(&serde_json::from_str::<serde_json::Value>(text).unwrap())
}

fn text_of(d: &JsonValue, k: &str) -> String {
    match d.member(k) {
        Some(JsonValue::Str(s)) => s.clone(),
        other => panic!("member {k} is not a string: {other:?}"),
    }
}

fn header<'a>(r: &'a Reply, name: &str) -> Option<&'a str> {
    r.headers.iter().find(|(k, _)| k == name).map(|(_, v)| v.as_str())
}

fn fresh(n: u8) -> Fresh {
    Fresh {
        rfc2822: format!("Mon, 01 Jan 2024 00:00:0{n} +0000"),
        rfc3339: format!("2024-01-01T00:00:0{n}+00:00"),
        etag_hex: format!("{n:032}"),
        uuid: format!("00000000-0000-0000-0000-00000000000{n}"),
        bytes: vec![n; 16],
    }
}

fn setup() -> MockState {
    let mut state = MockState::with_defaults();
    state
        .create_resource_group(SUB, "rg", &CreateResourceGroupParams { location: "eastus".to_string(), tags: Vec::new() })
        .unwrap();
    let params = CreateStorageAccountParams {
        location: "eastus".to_string(),
        kind: "StorageV2".to_string(),
        sku: StorageSku { name: "Standard_LRS".to_string(), tier: None },
        tags: Vec::new(),
        properties: None,
        identity: None,
        extended_location: None,
    };
    state.create_storage_account(SUB, "rg", "acct", &params, "t").unwrap();
    state
}

#[test]
fn create_and_list_containers() {
    let mut state = setup();
    assert_eq!(done_reply(state.create_container("acct", "c1", &fresh(1)), 201, "AccountNotFound").status, 201);
    state.create_container("acct", "c2", &fresh(2)).unwrap();
    let r = list_containers_reply(state.list_containers("acct"), "acct");
    assert_eq!(r.status, 200);
    match &r.body {
        Body::Json(d) => match d.member("containers") {
            Some(JsonValue::Array(items)) => {
                assert_eq!(items.len(), 2);
                assert_eq!(text_of(&items[0], "name"), "c1");
                assert_eq!(text_of(&items[0], "leaseState"), "available");
                assert_eq!(text_of(&items[0], "etag"), format!("\"0x{:032}\"", 1));
            },
            other => panic!("unexpected {other:?}"),
        },
        other => panic!("unexpected {other:?}"),
    }
    let r = list_containers_reply(state.list_containers("nope"), "nope");
    assert_eq!(r.status, 404);
    match state.create_container("nope", "c", &fresh(1)) {
        Err(StoreError::StorageAccountNotFound(n)) => assert_eq!(n, "nope"),
        other => panic!("unexpected {other:?}"),
    }
}

#[test]
fn blob_put_get_delete() {
    let mut state = setup();
    state.create_container("acct", "c", &fresh(1)).unwrap();
    state.put_blob("acct", "c", "hello.txt", b"hello world".to_vec(), Some("text/plain"), &fresh(2)).unwrap();
    assert!(state.blob_exists("acct", "c", "hello.txt"));
    let r = blob_data_reply(
        state.get_blob_properties("acct", "c", "hello.txt"),
        state.get_blob("acct", "c", "hello.txt"),
        "c",
        "hello.txt",
    );
    assert_eq!(r.status, 200);
    assert_eq!(header(&r, "content-type"), Some("text/plain"));
    assert_eq!(header(&r, "content-length"), Some("11"));
    assert!(matches!(&r.body, Body::Bytes(b) if b == b"hello world"));
    assert_eq!(state.delete_blob("acct", "c", "hello.txt").unwrap(), true);
    assert_eq!(state.delete_blob("acct", "c", "hello.txt").unwrap(), false);
    assert!(!state.blob_exists("acct", "c", "hello.txt"));
    let r = blob_data_reply(None, state.get_blob("acct", "c", "hello.txt"), "c", "hello.txt");
    assert_eq!(r.status, 404);
}

#[test]
fn blob_without_content_type_is_octet_stream() {
    let mut state = setup();
    state.create_container("acct", "c", &fresh(1)).unwrap();
    state.put_blob("acct", "c", "b", vec![1, 2, 3], None, &fresh(2)).unwrap();
    let props = state.get_blob_properties("acct", "c", "b").unwrap();
    assert_eq!(text_of(&props, "contentType"), "application/octet-stream");
    let r = blob_head_reply(Some(props));
    assert_eq!(header(&r, "content-length"), Some("3"));
    assert_eq!(header(&r, "x-ms-blob-content-length"), Some("3"));
    assert_eq!(header(&r, "x-ms-blob-type"), Some("BlockBlob"));
    assert_eq!(header(&r, "x-ms-access-tier"), Some("Hot"));
    assert_eq!(header(&r, "x-ms-server-encrypted"), Some("true"));
    assert_eq!(header(&r, "x-ms-creation-time"), Some("2024-01-01T00:00:02+00:00"));
    assert_eq!(blob_head_reply(None).status, 404);
}

#[test]
fn list_blobs_and_missing_container() {
    let mut state = setup();
    state.create_container("acct", "c", &fresh(1)).unwrap();
    state.put_blob("acct", "c", "a", vec![1], None, &fresh(2)).unwrap();
    state.put_blob("acct", "c", "b", vec![2, 2], None, &fresh(3)).unwrap();
    let r = list_blobs_reply(state.list_blobs("acct", "c"), "acct", "c");
    match &r.body {
        Body::Json(d) => match d.member("blobs") {
            Some(JsonValue::Array(items)) => assert_eq!(items.len(), 2),
            other => panic!("unexpected {other:?}"),
        },
        other => panic!("unexpected {other:?}"),
    }
    let r = list_blobs_reply(state.list_blobs("acct", "zz"), "acct", "zz");
    assert_eq!(r.status, 404);
    match &r.body {
        Body::Json(d) => {
            let e = d.member("error").unwrap();
            assert_eq!(text_of(e, "message"), "The container 'zz' in account 'acct' was not found.");
        },
        other => panic!("unexpected {other:?}"),
    }
}

#[test]
fn deleting_a_container_deletes_its_blobs() {
    let mut state = setup();
    state.create_container("acct", "c", &fresh(1)).unwrap();
    state.put_blob("acct", "c", "a", vec![1], None, &fresh(2)).unwrap();
    assert_eq!(state.delete_container("acct", "c").unwrap(), true);
    assert!(!state.blob_exists("acct", "c", "a"));
    state.create_container("acct", "c", &fresh(3)).unwrap();
    assert!(!state.blob_exists("acct", "c", "a"));
    assert_eq!(state.delete_container("acct", "gone").unwrap(), false);
}

#[test]
fn container_metadata_set_get() {
    let mut state = setup();
    state.create_container("acct", "c", &fresh(1)).unwrap();
    let headers = vec![
        ("x-ms-meta-owner".to_string(), "alice".to_string()),
        ("content-type".to_string(), "text/plain".to_string()),
        ("x-ms-meta-env".to_string(), "dev".to_string()),
    ];
    state.set_container_metadata("acct", "c", metadata_from_headers(&headers), &fresh(2)).unwrap();
    let r = metadata_reply(state.get_container_metadata("acct", "c"), "ContainerNotFound", "x");
    assert_eq!(r.status, 200);
    assert_eq!(header(&r, "x-ms-meta-owner"), Some("alice"));
    assert_eq!(header(&r, "x-ms-meta-env"), Some("dev"));
    assert_eq!(r.headers.len(), 2);
    let head = container_head_reply(state.get_container_properties("acct", "c"));
    assert_eq!(header(&head, "x-ms-lease-status"), Some("unlocked"));
    assert_eq!(header(&head, "x-ms-has-legal-hold"), Some("false"));
    assert_eq!(header(&head, "x-ms-meta-owner"), Some("alice"));
    assert_eq!(container_head_reply(state.get_container_properties("acct", "zz")).status, 404);
}

#[test]
fn blob_metadata_and_tags() {
    let mut state = setup();
    state.create_container("acct", "c", &fresh(1)).unwrap();
    state.put_blob("acct", "c", "b", vec![0], None, &fresh(2)).unwrap();
    let headers = vec![("x-ms-meta-k".to_string(), "v".to_string())];
    state.set_blob_metadata("acct", "c", "b", metadata_from_headers(&headers), &fresh(3)).unwrap();
    let r = metadata_reply(state.get_blob_metadata("acct", "c", "b"), "BlobNotFound", "x");
    assert_eq!(header(&r, "x-ms-meta-k"), Some("v"));
    let tags = tags_from_body(&j(r#"{"blobTagSet":[{"key":"department","value":"engineering"},{"key":"tier","value":"hot"}]}"#)).unwrap();
    state.set_blob_tags("acct", "c", "b", tags).unwrap();
    let r = blob_tags_reply(state.get_blob_tags("acct", "c", "b"), "c", "b");
    match &r.body {
        Body::Json(d) => match d.member("blobTagSet") {
            Some(JsonValue::Array(items)) => {
                assert_eq!(items.len(), 2);
                assert_eq!(text_of(&items[0], "key"), "department");
                assert_eq!(text_of(&items[0], "value"), "engineering");
            },
            other => panic!("unexpected {other:?}"),
        },
        other => panic!("unexpected {other:?}"),
    }
    let flat = tags_from_body(&j(r#"{"a":"1"}"#)).unwrap();
    assert_eq!(text_of(&flat, "a"), "1");
    assert!(tags_from_body(&j(r#"{"a":1}"#)).is_none());
    assert!(tags_from_body(&j(r#"[1]"#)).is_none());
    let r = metadata_reply(state.get_blob_metadata("acct", "c", "missing"), "BlobNotFound", "The blob 'missing' was not found in container 'c'.");
    assert_eq!(r.status, 404);
    let r = blob_tags_reply(state.get_blob_tags("acct", "c", "missing"), "c", "missing");
    assert_eq!(r.status, 404);
}

#[test]
fn blob_properties_set_via_comp() {
    let mut state = setup();
    state.create_container("acct", "c", &fresh(1)).unwrap();
    state.put_blob("acct", "c", "b", vec![0], None, &fresh(2)).unwrap();
    state
        .set_blob_properties("acct", "c", "b", Some("text/html".to_string()), None, Some("en".to_string()), None, Some("no-cache".to_string()), &fresh(3))
        .unwrap();
    let r = blob_head_reply(state.get_blob_properties("acct", "c", "b"));
    assert_eq!(header(&r, "content-type"), Some("text/html"));
    assert_eq!(header(&r, "x-ms-blob-content-language"), Some("en"));
    assert_eq!(header(&r, "x-ms-blob-cache-control"), Some("no-cache"));
    assert_eq!(header(&r, "x-ms-blob-content-encoding"), None);
    state.set_blob_tier("acct", "c", "b", "Cool").unwrap();
    let r = blob_head_reply(state.get_blob_properties("acct", "c", "b"));
    assert_eq!(header(&r, "x-ms-access-tier"), Some("Cool"));
}

#[test]
fn copy_blob_success() {
    let mut state = setup();
    state.create_container("acct", "src", &fresh(1)).unwrap();
    state.create_container("acct", "dst", &fresh(2)).unwrap();
    state.put_blob("acct", "src", "orig", b"payload".to_vec(), Some("text/plain"), &fresh(3)).unwrap();
    let (a, c, b) = copy_source_parts("http://127.0.0.1:1234/acct/src/orig").unwrap();
    let r = copy_reply(state.copy_blob("acct", "dst", "copy", &a, &c, &b, &fresh(4)));
    assert_eq!(r.status, 202);
    assert_eq!(header(&r, "x-ms-copy-id"), Some("00000000-0000-0000-0000-000000000004"));
    assert_eq!(header(&r, "x-ms-copy-status"), Some("success"));
    assert_eq!(state.get_blob("acct", "dst", "copy").unwrap(), b"payload".to_vec());
    let props = state.get_blob_properties("acct", "dst", "copy").unwrap();
    assert_eq!(text_of(&props, "contentType"), "text/plain");
    assert_eq!(text_of(&props, "copyStatus"), "success");
}

#[test]
fn copy_blob_source_not_found() {
    let mut state = setup();
    state.create_container("acct", "dst", &fresh(1)).unwrap();
    let r = copy_reply(state.copy_blob("acct", "dst", "copy", "acct", "dst", "nothing", &fresh(2)));
    assert_eq!(r.status, 404);
    match state.copy_blob("acct", "dst", "copy", "other", "c", "b", &fresh(2)) {
        Err(StoreError::SourceStorageAccountNotFound(n)) => assert_eq!(n, "other"),
        other => panic!("unexpected {other:?}"),
    }
    match state.copy_blob("acct", "dst", "copy", "acct", "nocontainer", "b", &fresh(2)) {
        Err(StoreError::SourceContainerNotFound(n)) => assert_eq!(n, "nocontainer"),
        other => panic!("unexpected {other:?}"),
    }
}

#[test]
fn copy_source_paths() {
    assert_eq!(
        split_copy_path("/acct/container/dir/file.txt"),
        Some(("acct".to_string(), "container".to_string(), "dir/file.txt".to_string()))
    );
    assert_eq!(
        split_copy_path("///a/b/c"),
        Some(("a".to_string(), "b".to_string(), "c".to_string()))
    );
    assert_eq!(split_copy_path("/a/b"), None);
    assert_eq!(split_copy_path(""), None);
    assert!(copy_source_parts("not a url").is_none());
    assert_eq!(
        copy_source_parts("https://example.com/x/y/z?sig=1"),
        Some(("x".to_string(), "y".to_string(), "z".to_string()))
    );
}

#[test]
fn block_blob_upload() {
    let mut state = setup();
    state.create_container("acct", "c", &fresh(1)).unwrap();
    state.put_block("acct", "c", "big", "b1", b"hello ".to_vec(), &fresh(2)).unwrap();
    state.put_block("acct", "c", "big", "b2", b"world".to_vec(), &fresh(3)).unwrap();
    let r = block_list_reply(state.get_block_list("acct", "c", "big"), "c", "big");
    match &r.body {
        Body::Json(d) => match d.member("uncommittedBlocks") {
            Some(JsonValue::Array(items)) => {
                assert_eq!(items.len(), 2);
                assert_eq!(text_of(&items[0], "name"), "b1");
                assert!(matches!(items[0].member("size"), Some(JsonValue::Number(n)) if n == "6"));
            },
            other => panic!("unexpected {other:?}"),
        },
        other => panic!("unexpected {other:?}"),
    }
    let ids = block_ids_from_body(&j(r#"{"blockIds":["b1","b2"]}"#)).unwrap();
    let r = put_block_list_reply(state.put_block_list("acct", "c", "big", ids, Some("text/plain"), &fresh(4)), "abc");
    assert_eq!(r.status, 201);
    assert_eq!(header(&r, "etag"), Some("\"0xabc\""));
    assert_eq!(state.get_blob("acct", "c", "big").unwrap(), b"hello world".to_vec());
    let r = block_list_reply(state.get_block_list("acct", "c", "big"), "c", "big");
    match &r.body {
        Body::Json(d) => {
            assert!(matches!(d.member("committedBlocks"), Some(JsonValue::Array(items)) if items.len() == 2));
            assert!(matches!(d.member("uncommittedBlocks"), Some(JsonValue::Array(items)) if items.is_empty()));
        },
        other => panic!("unexpected {other:?}"),
    }
    // Committing again may reuse committed blocks.
    state.put_block_list("acct", "c", "big", vec!["b2".to_string(), "b1".to_string()], None, &fresh(5)).unwrap();
    assert_eq!(state.get_blob("acct", "c", "big").unwrap(), b"worldhello ".to_vec());
    let r = put_block_list_reply(state.put_block_list("acct", "c", "big", vec!["zz".to_string()], None, &fresh(6)), "abc");
    assert_eq!(r.status, 400);
    assert!(block_ids_from_body(&j(r#"{"block_ids":["x"]}"#)).is_some());
    assert!(block_ids_from_body(&j(r#"{"blockIds":["x"],"block_ids":["y"]}"#)).is_none());
    assert!(block_ids_from_body(&j(r#"{"blockIds":[1]}"#)).is_none());
}

#[test]
fn service_properties_round_trip() {
    let mut state = setup();
    let props = state.get_service_properties("acct").unwrap();
    assert_eq!(text_of(&props, "DefaultServiceVersion"), "2023-11-03");
    state.set_service_properties("acct", j(r#"{"cors":[]}"#)).unwrap();
    assert!(state.get_service_properties("acct").unwrap().member("cors").is_some());
    assert!(state.get_service_properties("nope").is_none());
}

#[test]
fn deleting_a_container_keeps_other_containers() {
    let mut state = setup();
    state.create_container("acct", "c", &fresh(1)).unwrap();
    state.create_container("acct", "d", &fresh(2)).unwrap();
    state.put_blob("acct", "c", "x", vec![1], None, &fresh(3)).unwrap();
    state.put_blob("acct", "d", "x", vec![2], None, &fresh(4)).unwrap();
    assert_eq!(state.delete_container("acct", "c").unwrap(), true);
    assert!(!state.blob_exists("acct", "c", "x"));
    assert_eq!(state.get_blob("acct", "d", "x"), Some(vec![2]));
    assert!(state.get_container_properties("acct", "d").is_some());
}

#[test]
fn staged_block_creates_an_empty_blob() {
    let mut state = setup();
    state.create_container("acct", "auto", &fresh(1)).unwrap();
    state.put_block("acct", "auto", "newblob.txt", "first", b"first block data".to_vec(), &fresh(2)).unwrap();
    assert!(state.blob_exists("acct", "auto", "newblob.txt"));
    assert_eq!(state.get_blob("acct", "auto", "newblob.txt"), Some(Vec::new()));
    let (committed, staged) = state.get_block_list("acct", "auto", "newblob.txt").unwrap();
    assert!(committed.is_empty());
    assert_eq!(staged, vec![("first".to_string(), 16)]);
    state.put_blob("acct", "auto", "other.txt", b"hello world".to_vec(), Some("text/plain"), &fresh(3)).unwrap();
    assert_eq!(state.list_blobs("acct", "auto").unwrap().len(), 2);
}
