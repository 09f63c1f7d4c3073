use cloud_sdk_azure_mock::json::{json_merge, JsonValue};
use cloud_sdk_azure_mock::reply::{
    delete_reply, doc_reply, error_reply, exists_reply, page_reply, put_reply, Body, Reply,
};
use cloud_sdk_azure_mock::storage::{CreateStorageAccountParams, StorageSku};
use cloud_sdk_azure_mock::store::{CreateResourceGroupParams, MockState, StoreError};

const SUB: &str = "00000000-0000-0000-0000-000000000000";

fn from_serde(v: &serde_json::Value) -> JsonValue {
    match v {
        serde_json::Value::Null => JsonValue::Null,
        serde_json::Value::Bool(b) => JsonValue::Bool(*b),
        serde_json::Value::Number(n) => JsonValue::Number(n.to_string()),
        serde_json::Value::String(s) => JsonValue::Str(s.clone()),
        serde_json::Value::Array(items) => JsonValue::Array(items.iter().map(from_serde).collect()),
        serde_json::Value::Object(m) => JsonValue::Object(m.iter().map(|(k, v)| (k.clone(), from_serde(v))).collect()),
    }
}

fn j(text: &str) -> JsonValue {
    from_serde(&serde_json::from_str::<serde_json::Value>(text).unwrap())
}

fn text_of(d: &JsonValue, k: &str) -> String {
    match d.member(k) {
        Some(JsonValue::Str(s)) => s.clone(),
        other => panic!("member {k} is not a string: {other:?}"),
    }
}

fn at<'a>(d: &'a JsonValue, path: &[&str]) -> &'a JsonValue {
    let mut cur = d;
    for k in path {
        cur = cur.member(k).unwrap_or_else(|| panic!("no member {k}"));
    }
    cur
}

fn json_body(r: &Reply) -> &JsonValue {
    match &r.body {
        Body::Json(d) => d,
        other => panic!("not a JSON body: {other:?}"),
    }
}

fn rg_params(location: &str, tags: &[(&str, &str)]) -> CreateResourceGroupParams {
    CreateResourceGroupParams {
        location: location.to_string(),
        tags: tags.iter().map(|(k, v)| (k.to_string(), v.to_string())).collect(),
    }
}

fn sa_params() -> CreateStorageAccountParams {
    CreateStorageAccountParams {
        location: "eastus".to_string(),
        kind: "StorageV2".to_string(),
        sku: StorageSku { name: "Standard_LRS".to_string(), tier: Some("Standard".to_string()) },
        tags: Vec::new(),
        properties: None,
        identity: None,
        extended_location: None,
    }
}

#[test]
fn list_subscriptions_has_default() {
    let state = MockState::with_defaults();
    let page = state.list_subscriptions();
    assert_eq!(page.value.len(), 1);
    assert_eq!(text_of(&page.value[0], "subscriptionId"), SUB);
    assert_eq!(text_of(&page.value[0], "id"), format!("/subscriptions/{SUB}"));
    assert_eq!(text_of(&page.value[0], "state"), "Enabled");
    assert!(page.next_link.is_none());
}

#[test]
fn unknown_subscription_is_404() {
    let state = MockState::with_defaults();
    let r = doc_reply(state.get_subscription("nope"), "SubscriptionNotFound", "The subscription 'nope' could not be found.");
    assert_eq!(r.status, 404);
    assert_eq!(text_of(at(json_body(&r), &["error"]), "code"), "SubscriptionNotFound");
}

#[test]
fn create_resource_group_201_then_200() {
    let mut state = MockState::with_defaults();
    let r = put_reply(state.create_resource_group(SUB, "rg1", &rg_params("eastus", &[])), "SubscriptionNotFound");
    assert_eq!(r.status, 201);
    let doc = json_body(&r);
    assert_eq!(text_of(doc, "id"), format!("/subscriptions/{SUB}/resourceGroups/rg1"));
    assert_eq!(text_of(doc, "type"), "Microsoft.Resources/resourceGroups");
    assert_eq!(text_of(at(doc, &["properties"]), "provisioningState"), "Succeeded");
    let r2 = put_reply(state.create_resource_group(SUB, "rg1", &rg_params("westus", &[("env", "dev")])), "SubscriptionNotFound");
    assert_eq!(r2.status, 200);
    let got = state.get_resource_group(SUB, "rg1").unwrap();
    assert_eq!(text_of(&got, "location"), "westus");
    assert_eq!(text_of(at(&got, &["tags"]), "env"), "dev");
}

#[test]
fn resource_group_in_unknown_subscription_is_refused() {
    let mut state = MockState::with_defaults();
    match state.create_resource_group("missing", "rg", &rg_params("eastus", &[])) {
        Err(e) => assert_eq!(e.message(), "Subscription 'missing' not found"),
        Ok(_) => panic!("created in a missing subscription"),
    }
    assert!(state.list_resource_groups("missing").is_none());
}

#[test]
fn list_and_delete_resource_groups() {
    let mut state = MockState::with_defaults();
    state.create_resource_group(SUB, "a", &rg_params("eastus", &[])).unwrap();
    state.create_resource_group(SUB, "b", &rg_params("eastus", &[])).unwrap();
    let page = state.list_resource_groups(SUB).unwrap();
    assert_eq!(page.value.len(), 2);
    assert_eq!(text_of(&page.value[0], "name"), "a");
    assert_eq!(text_of(&page.value[1], "name"), "b");
    let r = delete_reply(state.delete_resource_group(SUB, "a"), 200, "ResourceGroupNotFound", "gone", "SubscriptionNotFound");
    assert_eq!(r.status, 200);
    assert!(matches!(r.body, Body::Empty));
    let r = delete_reply(state.delete_resource_group(SUB, "a"), 200, "ResourceGroupNotFound", "Resource group 'a' could not be found.", "SubscriptionNotFound");
    assert_eq!(r.status, 404);
    assert_eq!(text_of(at(json_body(&r), &["error"]), "message"), "Resource group 'a' could not be found.");
    assert_eq!(state.list_resource_groups(SUB).unwrap().value.len(), 1);
}

#[test]
fn head_resource_group() {
    let mut state = MockState::with_defaults();
    assert_eq!(exists_reply(state.resource_group_exists(SUB, "rg")).status, 404);
    state.create_resource_group(SUB, "rg", &rg_params("eastus", &[])).unwrap();
    assert_eq!(exists_reply(state.resource_group_exists(SUB, "rg")).status, 204);
}

#[test]
fn patch_resource_group_tags() {
    let mut state = MockState::with_defaults();
    state.create_resource_group(SUB, "rg", &rg_params("eastus", &[("old", "1")])).unwrap();
    let updated = state.update_resource_group(SUB, "rg", Some(vec![("env".to_string(), "prod".to_string())])).unwrap();
    let tags = at(&updated, &["tags"]);
    assert_eq!(text_of(tags, "env"), "prod");
    assert!(tags.member("old").is_none());
    let unchanged = state.update_resource_group(SUB, "rg", None).unwrap();
    assert_eq!(text_of(at(&unchanged, &["tags"]), "env"), "prod");
    assert!(state.update_resource_group(SUB, "nope", None).is_none());
}

#[test]
fn deleting_a_group_deletes_its_accounts() {
    let mut state = MockState::with_defaults();
    state.create_resource_group(SUB, "rg", &rg_params("eastus", &[])).unwrap();
    state.create_storage_account(SUB, "rg", "acct", &sa_params(), "2024-01-01T00:00:00Z").unwrap();
    assert!(state.get_storage_account(SUB, "rg", "acct").is_some());
    assert_eq!(state.delete_resource_group(SUB, "rg").unwrap(), true);
    assert!(state.get_storage_account(SUB, "rg", "acct").is_none());
    // A group created again under the same name starts empty.
    state.create_resource_group(SUB, "rg", &rg_params("eastus", &[])).unwrap();
    assert_eq!(state.list_storage_accounts(SUB, "rg").unwrap().value.len(), 0);
}

#[test]
fn storage_account_lifecycle() {
    let mut state = MockState::with_defaults();
    state.create_resource_group(SUB, "rg", &rg_params("eastus", &[])).unwrap();
    let (doc, is_new) = state.create_storage_account(SUB, "rg", "acct", &sa_params(), "2024-01-01T00:00:00Z").unwrap();
    assert!(is_new);
    assert_eq!(text_of(&doc, "id"), format!("/subscriptions/{SUB}/resourceGroups/rg/providers/Microsoft.Storage/storageAccounts/acct"));
    assert_eq!(text_of(at(&doc, &["sku"]), "tier"), "Standard");
    assert_eq!(text_of(at(&doc, &["properties", "primaryEndpoints"]), "blob"), "http://127.0.0.1/acct");
    assert_eq!(text_of(at(&doc, &["properties"]), "creationTime"), "2024-01-01T00:00:00Z");
    let (_, again) = state.create_storage_account(SUB, "rg", "acct", &sa_params(), "t").unwrap();
    assert!(!again);
    assert_eq!(state.list_all_storage_accounts(SUB).unwrap().value.len(), 1);
    let keys = state.list_storage_keys(SUB, "rg", "acct").unwrap();
    assert_eq!(keys.len(), 2);
    assert_eq!(keys[0].0, "key1");
    assert!(keys[0].1.contains("acct"));
    assert_eq!(keys[1].2, "FULL");
    assert_eq!(state.delete_storage_account(SUB, "rg", "acct").unwrap(), true);
    assert_eq!(state.delete_storage_account(SUB, "rg", "acct").unwrap(), false);
    match state.list_storage_keys(SUB, "rg", "acct") {
        Err(StoreError::StorageAccountNotFound(n)) => assert_eq!(n, "acct"),
        other => panic!("unexpected {other:?}"),
    }
}

#[test]
fn storage_account_in_missing_group_is_refused() {
    let mut state = MockState::with_defaults();
    match state.create_storage_account(SUB, "nope", "acct", &sa_params(), "t") {
        Err(StoreError::ResourceGroupNotFound(n)) => assert_eq!(n, "nope"),
        other => panic!("unexpected {other:?}"),
    }
    let r = put_reply(state.create_storage_account(SUB, "nope", "acct", &sa_params(), "t"), "ResourceNotFound");
    assert_eq!(r.status, 404);
    assert_eq!(text_of(at(json_body(&r), &["error"]), "message"), "Resource group 'nope' not found");
}

#[test]
fn check_name_available_then_taken() {
    let mut state = MockState::with_defaults();
    state.create_resource_group(SUB, "rg", &rg_params("eastus", &[])).unwrap();
    let (ok, reason, message) = state.check_storage_name_availability("newacct");
    assert!(ok);
    assert!(reason.is_none() && message.is_none());
    state.create_storage_account(SUB, "rg", "newacct", &sa_params(), "t").unwrap();
    let (ok, reason, message) = state.check_storage_name_availability("newacct");
    assert!(!ok);
    assert_eq!(reason.unwrap(), "AlreadyExists");
    assert_eq!(message.unwrap(), "The storage account named newacct is already taken.");
}

#[test]
fn patch_storage_account_merges() {
    let mut state = MockState::with_defaults();
    state.create_resource_group(SUB, "rg", &rg_params("eastus", &[("a", "1")])).unwrap();
    state.create_storage_account(SUB, "rg", "acct", &sa_params(), "t").unwrap();
    let updated = state.update_storage_account(SUB, "rg", "acct", &j(r#"{"tags":{"env":"prod"}}"#)).unwrap();
    assert_eq!(text_of(at(&updated, &["tags"]), "env"), "prod");
    assert_eq!(text_of(&updated, "kind"), "StorageV2");
    let stored = state.get_storage_account(SUB, "rg", "acct").unwrap();
    assert_eq!(text_of(at(&stored, &["tags"]), "env"), "prod");
    // A patch that breaks the document is refused and changes nothing.
    match state.update_storage_account(SUB, "rg", "acct", &j(r#"{"name":null}"#)) {
        Err(StoreError::PatchFailed(_)) => {},
        other => panic!("unexpected {other:?}"),
    }
    assert_eq!(text_of(&state.get_storage_account(SUB, "rg", "acct").unwrap(), "name"), "acct");
    match state.update_storage_account(SUB, "rg", "missing", &j("{}")) {
        Err(StoreError::StorageAccountNotFound(n)) => assert_eq!(n, "missing"),
        other => panic!("unexpected {other:?}"),
    }
}

#[test]
fn merge_patch_follows_rfc_7396() {
    let mut t = j(r#"{"a":"b","c":{"d":"e","f":"g"}}"#);
    json_merge(&mut t, &j(r#"{"a":"z","c":{"f":null}}"#));
    assert_eq!(text_of(&t, "a"), "z");
    assert_eq!(text_of(at(&t, &["c"]), "d"), "e");
    assert!(at(&t, &["c"]).member("f").is_none());
    // A patch that is not an object replaces the target.
    let mut t = j(r#"{"a":"b"}"#);
    json_merge(&mut t, &j(r#"["c"]"#));
    assert!(matches!(t, JsonValue::Array(ref v) if v.len() == 1));
    // An object patch on a non-object target starts from an empty object.
    let mut t = j(r#""text""#);
    json_merge(&mut t, &j(r#"{"a":"b","n":null}"#));
    assert_eq!(text_of(&t, "a"), "b");
    assert!(t.member("n").is_none());
    // Applying the same patch twice changes nothing more.
    let mut once = j(r#"{"x":{"y":1},"keep":true}"#);
    let patch = j(r#"{"x":{"y":2,"z":null},"w":"v"}"#);
    json_merge(&mut once, &patch);
    let mut twice = once.deep_clone();
    json_merge(&mut twice, &patch);
    assert_eq!(format!("{once:?}"), format!("{twice:?}"));
}

#[test]
fn page_reply_wraps_values() {
    let state = MockState::with_defaults();
    let r = page_reply(state.list_resource_groups(SUB), "SubscriptionNotFound", "x");
    assert_eq!(r.status, 200);
    match json_body(&r).member("value") {
        Some(JsonValue::Array(items)) => assert!(items.is_empty()),
        other => panic!("unexpected {other:?}"),
    }
    assert!(json_body(&r).member("nextLink").is_none());
    let r = page_reply(state.list_resource_groups("zzz"), "SubscriptionNotFound", "The subscription 'zzz' could not be found.");
    assert_eq!(r.status, 404);
    assert_eq!(text_of(at(json_body(&r), &["error"]), "code"), "SubscriptionNotFound");
}

#[test]
fn error_reply_shape() {
    let r = error_reply(409, "Conflict", "busy");
    assert_eq!(r.status, 409);
    assert!(r.headers.is_empty());
    let e = at(json_body(&r), &["error"]);
    assert_eq!(text_of(e, "code"), "Conflict");
    assert_eq!(text_of(e, "message"), "busy");
}

#[test]
fn current_principal_and_roles() {
    let state = MockState::with_defaults();
    let p = state.get_current_principal();
    assert_eq!(text_of(&p, "principalType"), "ServicePrincipal");
    assert_eq!(text_of(&p, "id"), "00000000-0000-0000-0000-000000000002");
    assert!(state.list_role_assignments("/").value.is_empty());
}

#[test]
fn putting_a_group_twice_is_idempotent() {
    let mut state = MockState::with_defaults();
    let (first, is_new) = state.create_resource_group(SUB, "rg1", &rg_params("eastus", &[("env", "dev")])).unwrap();
    assert!(is_new);
    let (second, is_new) = state.create_resource_group(SUB, "rg1", &rg_params("eastus", &[("env", "dev")])).unwrap();
    assert!(!is_new);
    assert_eq!(format!("{first:?}"), format!("{second:?}"));
    let got = state.get_resource_group(SUB, "rg1").unwrap();
    assert_eq!(format!("{got:?}"), format!("{first:?}"));
    assert_eq!(state.list_resource_groups(SUB).unwrap().value.len(), 1);
}

#[test]
fn listing_after_deleting_an_account() {
    let mut state = MockState::with_defaults();
    state.create_resource_group(SUB, "test-rg", &rg_params("eastus", &[])).unwrap();
    state.create_storage_account(SUB, "test-rg", "sa1", &sa_params(), "t").unwrap();
    state.create_storage_account(SUB, "test-rg", "sa2", &sa_params(), "t").unwrap();
    assert_eq!(state.list_storage_accounts(SUB, "test-rg").unwrap().value.len(), 2);
    assert_eq!(state.delete_storage_account(SUB, "test-rg", "sa1").unwrap(), true);
    let page = state.list_storage_accounts(SUB, "test-rg").unwrap();
    assert_eq!(page.value.len(), 1);
    assert_eq!(text_of(&page.value[0], "name"), "sa2");
    assert!(state.get_storage_account(SUB, "test-rg", "sa1").is_none());
    assert_eq!(state.delete_storage_account(SUB, "test-rg", "nope").unwrap(), false);
    assert_eq!(state.list_subscriptions().value.len(), 1);
}

#[test]
fn sas_replies() {
    let mut state = MockState::with_defaults();
    state.create_resource_group(SUB, "rg1", &rg_params("eastus", &[])).unwrap();
    state.create_storage_account(SUB, "rg1", "sassa", &sa_params(), "t").unwrap();
    let r = state.account_sas_reply(SUB, "rg1", "sassa", "bfqt", "sco", "rwdlacup", "2099-01-01T00:00:00Z");
    assert_eq!(r.status, 200);
    assert_eq!(
        text_of(json_body(&r), "accountSasToken"),
        "sv=2023-11-03&ss=bfqt&srt=sco&sp=rwdlacup&se=2099-01-01T00:00:00Z&sig=mock-sassa"
    );
    let r = state.service_sas_reply(SUB, "rg1", "sassa", "c", "rwdl", "2099-01-01T00:00:00Z");
    assert_eq!(r.status, 200);
    assert!(text_of(json_body(&r), "serviceSasToken").contains("sassa"));
    let r = state.account_sas_reply(SUB, "rg1", "missing", "b", "s", "r", "e");
    assert_eq!(r.status, 404);
    assert_eq!(text_of(at(json_body(&r), &["error"]), "code"), "StorageAccountNotFound");
    assert_eq!(text_of(at(json_body(&r), &["error"]), "message"), "The storage account 'missing' was not found.");
}

#[test]
fn patch_storage_account_refuses_tags_that_are_not_strings() {
    let mut state = MockState::with_defaults();
    state.create_resource_group(SUB, "rg", &rg_params("eastus", &[])).unwrap();
    state.create_storage_account(SUB, "rg", "acct", &sa_params(), "t").unwrap();
    state.update_storage_account(SUB, "rg", "acct", &j(r#"{"tags":{"env":"prod"}}"#)).unwrap();
    for bad in [r#"{"tags":{"count":1}}"#, r#"{"tags":5}"#, r#"{"tags":["a"]}"#] {
        match state.update_storage_account(SUB, "rg", "acct", &j(bad)) {
            Err(StoreError::PatchFailed(_)) => {},
            other => panic!("unexpected {other:?}"),
        }
        let stored = state.get_storage_account(SUB, "rg", "acct").unwrap();
        assert_eq!(text_of(at(&stored, &["tags"]), "env"), "prod");
    }
    let cleared = state.update_storage_account(SUB, "rg", "acct", &j(r#"{"tags":null}"#)).unwrap();
    assert!(cleared.member("tags").is_none());
}
