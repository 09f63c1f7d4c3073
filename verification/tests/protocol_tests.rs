use cloud_sdk_azure_mock::credentials::{
    chain_outcome, chain_should_stop, AccessToken, AzureCliCredential, ClientSecretCredential,
    CredentialError, MockCredential,
};
use cloud_sdk_azure_mock::dataplane::{
    account_get_op, account_info_reply, account_put_sets_service_properties, blob_get_op,
    blob_put_op, container_get_op, container_put_op, content_type_or_default, missing_block_id_reply,
    missing_copy_source_reply, missing_tier_reply, snapshot_reply, AccountGetOp, BlobGetOp, BlobPutOp,
    BlobQueryParams, ContainerGetOp, ContainerPutOp,
};
use cloud_sdk_azure_mock::fresh::snapshot_id;
use cloud_sdk_azure_mock::json::JsonValue;
use cloud_sdk_azure_mock::reply::{Body, Reply};
use cloud_sdk_azure_mock::requests::{
    has_api_version, has_bearer, missing_api_version_reply, missing_auth_reply,
    names_include_api_version, response_headers, token_reply, TokenRequest,
};

fn text_of(d: &JsonValue, k: &str) -> String {
    match d.member(k) {
        Some(JsonValue::Str(s)) => s.clone(),
        other => panic!("member {k} is not a string: {other:?}"),
    }
}

fn body(r: &Reply) -> &JsonValue {
    match &r.body {
        Body::Json(d) => d,
        other => panic!("not JSON: {other:?}"),
    }
}

fn query(comp: Option<&str>, restype: Option<&str>, blockid: Option<&str>) -> BlobQueryParams {
    BlobQueryParams {
        comp: comp.map(String::from),
        restype: restype.map(String::from),
        blockid: blockid.map(String::from),
    }
}

#[test]
fn missing_api_version_returns_400() {
    assert!(!has_api_version(None));
    assert!(!has_api_version(Some("foo=bar")));
    assert!(has_api_version(Some("api-version=2023-01-01")));
    assert!(has_api_version(Some("a=1&api-version=x")));
    assert!(has_api_version(Some("api%2Dversion=x")));
    let r = missing_api_version_reply();
    assert_eq!(r.status, 400);
    assert_eq!(text_of(body(&r).member("error").unwrap(), "code"), "MissingApiVersionParameter");
    assert!(names_include_api_version(&vec!["x".to_string(), "api-version".to_string()]));
    assert!(!names_include_api_version(&Vec::new()));
}

#[test]
fn missing_auth_returns_401() {
    assert!(!has_bearer(None));
    assert!(!has_bearer(Some("Basic abc")));
    assert!(!has_bearer(Some("Bearer")));
    assert!(has_bearer(Some("Bearer anything")));
    let r = missing_auth_reply();
    assert_eq!(r.status, 401);
    assert_eq!(text_of(body(&r).member("error").unwrap(), "code"), "AuthenticationFailed");
}

#[test]
fn response_has_azure_headers() {
    let h = response_headers(false, "req-1", "corr-1");
    assert_eq!(h[0], ("x-ms-request-id".to_string(), "req-1".to_string()));
    assert_eq!(h[1], ("x-ms-correlation-id".to_string(), "corr-1".to_string()));
    assert_eq!(h[2], ("content-type".to_string(), "application/json".to_string()));
    assert_eq!(response_headers(true, "a", "b").len(), 2);
}

#[test]
fn token_endpoint() {
    let req = |g: &str, id: &str, secret: &str| TokenRequest {
        grant_type: g.to_string(),
        client_id: id.to_string(),
        client_secret: secret.to_string(),
        scope: "https://management.azure.com/.default".to_string(),
    };
    let ok = token_reply(&req("client_credentials", "my-client", "s3cret"));
    assert_eq!(ok.status, 200);
    assert_eq!(text_of(body(&ok), "access_token"), "mock-token-for-my-client");
    assert_eq!(text_of(body(&ok), "token_type"), "Bearer");
    assert!(matches!(body(&ok).member("expires_in"), Some(JsonValue::Number(n)) if n == "3600"));
    let bad_grant = token_reply(&req("password", "my-client", "s3cret"));
    assert_eq!(bad_grant.status, 400);
    assert_eq!(text_of(body(&bad_grant), "error"), "unsupported_grant_type");
    let no_secret = token_reply(&req("client_credentials", "my-client", ""));
    assert_eq!(no_secret.status, 401);
    assert_eq!(text_of(body(&no_secret), "error"), "invalid_client");
}

#[test]
fn blob_dispatch() {
    assert!(matches!(account_get_op(&query(Some("properties"), Some("service"), None)), AccountGetOp::ServiceProperties));
    assert!(matches!(account_get_op(&query(Some("properties"), Some("account"), None)), AccountGetOp::AccountInfo));
    assert!(matches!(account_get_op(&query(Some("list"), None, None)), AccountGetOp::ListContainers));
    assert!(account_put_sets_service_properties(&query(Some("properties"), Some("service"), None)));
    assert!(!account_put_sets_service_properties(&query(None, None, None)));
    assert!(matches!(container_put_op(&query(Some("metadata"), None, None)), ContainerPutOp::SetMetadata));
    assert!(matches!(container_put_op(&query(None, Some("container"), None)), ContainerPutOp::Create));
    assert!(matches!(container_get_op(&query(Some("metadata"), None, None)), ContainerGetOp::GetMetadata));
    assert!(matches!(container_get_op(&query(Some("list"), Some("container"), None)), ContainerGetOp::ListBlobs));
    assert!(matches!(blob_put_op(&query(Some("tags"), None, None), true), BlobPutOp::SetTags));
    assert!(matches!(blob_put_op(&query(Some("block"), None, Some("id")), false), BlobPutOp::PutBlock));
    assert!(matches!(blob_put_op(&query(Some("blocklist"), None, None), false), BlobPutOp::PutBlockList));
    assert!(matches!(blob_put_op(&query(Some("tier"), None, None), false), BlobPutOp::SetTier));
    assert!(matches!(blob_put_op(&query(Some("snapshot"), None, None), false), BlobPutOp::Snapshot));
    assert!(matches!(blob_put_op(&query(None, None, None), true), BlobPutOp::Copy));
    assert!(matches!(blob_put_op(&query(None, None, None), false), BlobPutOp::Put));
    assert!(matches!(blob_get_op(&query(Some("blocklist"), None, None)), BlobGetOp::GetBlockList));
    assert!(matches!(blob_get_op(&query(Some("metadata"), None, None)), BlobGetOp::GetMetadata));
    assert!(matches!(blob_get_op(&query(None, None, None)), BlobGetOp::GetData));
}

#[test]
fn snapshot_and_account_info() {
    let id = snapshot_id("2024-01-15T12:00:00", 123456789);
    assert_eq!(id, "2024-01-15T12:00:00.1234567Z");
    assert_eq!(snapshot_id("2024-01-15T12:00:00", 500), "2024-01-15T12:00:00.0000005Z");
    let r = snapshot_reply(true, &id, "c", "b");
    assert_eq!(r.status, 201);
    assert_eq!(r.headers, vec![("x-ms-snapshot".to_string(), id.clone())]);
    let r = snapshot_reply(false, &id, "c", "b");
    assert_eq!(r.status, 404);
    assert_eq!(text_of(body(&r).member("error").unwrap(), "message"), "The blob 'b' was not found in container 'c'.");
    let info = account_info_reply();
    assert_eq!(info.status, 200);
    assert!(info.headers.contains(&("x-ms-account-kind".to_string(), "StorageV2".to_string())));
    assert_eq!(missing_block_id_reply().status, 400);
    assert_eq!(missing_tier_reply().status, 400);
    assert_eq!(missing_copy_source_reply().status, 400);
    assert_eq!(content_type_or_default(None), "application/octet-stream");
    assert_eq!(content_type_or_default(Some("text/csv")), "text/csv");
}

#[test]
fn credentials() {
    let t = MockCredential.token_at(1000, 250);
    assert_eq!(t.token, "mock-access-token");
    assert_eq!(t.expires_on, 4600);
    assert_eq!(t.expires_on_nanos, 250);
    assert_eq!(MockCredential.get_token(&Vec::new()).unwrap().token, "mock-access-token");
    let cli = AzureCliCredential;
    assert_eq!(cli.resource_for(&vec!["https://storage.azure.com/.default".to_string()]), "https://storage.azure.com");
    assert_eq!(cli.resource_for(&vec!["x/.default/.default".to_string()]), "x");
    assert_eq!(cli.resource_for(&Vec::new()), "https://management.azure.com");
    assert_eq!(cli.cli_args("r")[3], "r");
    let tok = cli.token_from_output("abc".to_string(), "2024-01-01T00:00:00Z").unwrap();
    assert_eq!(tok.expires_on, 1704067200);
    assert_eq!(tok.expires_on_nanos, 0);
    let tok = cli.token_from_output("abc".to_string(), "2024-01-01T00:00:00.25+00:00").unwrap();
    assert_eq!(tok.expires_on, 1704067200);
    assert_eq!(tok.expires_on_nanos, 250_000_000);
    let tok = cli.token_from_output("abc".to_string(), "2024-01-01 00:00:10.5").unwrap();
    assert_eq!(tok.expires_on, 1704067210);
    assert_eq!(tok.expires_on_nanos, 500_000_000);
    assert!(cli.token_from_output("abc".to_string(), "tomorrow").is_err());
    let c = ClientSecretCredential::with_authority("tenant".to_string(), "id".to_string(), "sec".to_string(), "http://127.0.0.1:8080//".to_string());
    assert_eq!(c.token_url(), "http://127.0.0.1:8080/tenant/oauth2/v2.0/token");
    let form = c.token_form(&vec!["a".to_string(), "b".to_string()]);
    assert_eq!(form[0], ("grant_type".to_string(), "client_credentials".to_string()));
    assert_eq!(form[3], ("scope".to_string(), "a b".to_string()));
    let d = ClientSecretCredential::new("t".to_string(), "i".to_string(), "s".to_string());
    assert_eq!(d.token_url(), "https://login.microsoftonline.com/t/oauth2/v2.0/token");
    let granted = d.token_from_reply("x".to_string(), 3600, 10, 7);
    assert_eq!(granted.expires_on, 3610);
    assert_eq!(granted.expires_on_nanos, 7);
    match d.refusal("nope") {
        CredentialError::Authentication(m) => assert_eq!(m, "token request failed: nope"),
        other => panic!("unexpected {other:?}"),
    }
}

#[test]
fn credential_chain() {
    let err = |m: &str| Err(CredentialError::Authentication(m.to_string()));
    let ok = |t: &str| Ok(AccessToken { token: t.to_string(), expires_on: 0, expires_on_nanos: 0 });
    assert_eq!(chain_outcome(vec![err("a"), ok("t1"), ok("t2")]).unwrap().token, "t1");
    match chain_outcome(vec![err("a"), err("b")]) {
        Err(CredentialError::Authentication(m)) => assert_eq!(m, "b"),
        other => panic!("unexpected {other:?}"),
    }
    match chain_outcome(Vec::new()) {
        Err(CredentialError::Authentication(m)) => assert_eq!(m, "no credentials configured in chain"),
        other => panic!("unexpected {other:?}"),
    }
    assert!(chain_should_stop(&ok("t")));
    assert!(!chain_should_stop(&err("e")));
    match chain_outcome(vec![err("a"), Err(CredentialError::Http("down".to_string()))]) {
        Err(CredentialError::Http(m)) => assert_eq!(m, "down"),
        other => panic!("unexpected {other:?}"),
    }
}

#[test]
fn client_secret_form_is_granted_by_the_mock() {
    let c = ClientSecretCredential::with_authority("t".to_string(), "app".to_string(), "s3cret".to_string(), "http://mock".to_string());
    let form = c.token_form(&vec!["https://management.azure.com/.default".to_string()]);
    let field = |name: &str| form.iter().find(|(k, _)| k == name).map(|(_, v)| v.clone()).unwrap_or_default();
    let req = TokenRequest {
        grant_type: field("grant_type"),
        client_id: field("client_id"),
        client_secret: field("client_secret"),
        scope: field("scope"),
    };
    let r = token_reply(&req);
    assert_eq!(r.status, 200);
    assert_eq!(text_of(body(&r), "access_token"), "mock-token-for-app");
    let no_secret = ClientSecretCredential::with_authority("t".to_string(), "app".to_string(), String::new(), "http://mock".to_string());
    let form = no_secret.token_form(&Vec::new());
    let req = TokenRequest {
        grant_type: form[0].1.clone(),
        client_id: form[1].1.clone(),
        client_secret: form[2].1.clone(),
        scope: form[3].1.clone(),
    };
    assert_eq!(token_reply(&req).status, 401);
}

#[test]
fn mock_credential_always_grants_an_hour() {
    let before = std::time::SystemTime::now().duration_since(std::time::UNIX_EPOCH).unwrap().as_secs() as i64;
    let t = MockCredential.get_token(&vec!["any".to_string()]).unwrap();
    assert_eq!(t.token, "mock-access-token");
    assert!(t.expires_on >= before + 3600 && t.expires_on <= before + 3600 + 60);
    assert!(t.expires_on_nanos < 1_000_000_000);
}
