use cloud_sdk_azure_mock::config::{
    default_bind, default_port, default_subscription_state, AzureMockConfig, ConfigError,
    ResourceGroupSeed, ServerConfig, SubscriptionConfig,
};
use cloud_sdk_azure_mock::json::JsonValue;
use cloud_sdk_azure_mock::store::MockState;

fn text_of(j: &JsonValue, k: &str) -> String {
    match j.member(k) {
        Some(JsonValue::Str(s)) => s.clone(),
        other => panic!("member {k} is not a string: {other:?}"),
    }
}

fn subscription(id: &str, display: &str, tenant: &str, state: &str, groups: Vec<ResourceGroupSeed>) -> SubscriptionConfig {
    SubscriptionConfig {
        id: id.to_string(),
        display_name: display.to_string(),
        tenant_id: tenant.to_string(),
        state: state.to_string(),
        resource_groups: groups,
    }
}

// [server] bind = "0.0.0.0", port = 9090; [subscriptions.default] with two
// seeded groups: dev-rg in eastus, and staging-rg in westus2 tagged
// env = staging.
fn full_config() -> AzureMockConfig {
    AzureMockConfig {
        server: ServerConfig { bind: "0.0.0.0".to_string(), port: 9090, delay_ms: 0 },
        subscriptions: vec![(
            "default".to_string(),
            subscription(
                "aaaa-bbbb-cccc",
                "Test Sub",
                "tttt-uuuu",
                "Enabled",
                vec![
                    ResourceGroupSeed { name: "dev-rg".to_string(), location: "eastus".to_string(), tags: Vec::new() },
                    ResourceGroupSeed {
                        name: "staging-rg".to_string(),
                        location: "westus2".to_string(),
                        tags: vec![("env".to_string(), "staging".to_string())],
                    },
                ],
            ),
        )],
    }
}

#[test]
fn parse_full_config() {
    let config = full_config();
    assert_eq!(config.server.bind, "0.0.0.0");
    assert_eq!(config.server.port, 9090);
    assert_eq!(config.subscriptions[0].0, "default");
    let sub = &config.subscriptions[0].1;
    assert_eq!(sub.id, "aaaa-bbbb-cccc");
    assert_eq!(sub.display_name, "Test Sub");
    assert_eq!(sub.resource_groups.len(), 2);
    assert_eq!(sub.resource_groups[0].name, "dev-rg");
    assert_eq!(sub.resource_groups[1].tags[0], ("env".to_string(), "staging".to_string()));
    assert!(config.validate().is_ok());
    let state = MockState::from_config(&config);
    let doc = state.get_subscription("aaaa-bbbb-cccc").expect("subscription exists");
    assert_eq!(text_of(&doc, "subscriptionId"), "aaaa-bbbb-cccc");
    assert_eq!(text_of(&doc, "displayName"), "Test Sub");
    assert_eq!(text_of(&doc, "tenantId"), "tttt-uuuu");
    let rg = state.get_resource_group("aaaa-bbbb-cccc", "dev-rg").expect("seeded group exists");
    assert_eq!(text_of(&rg, "location"), "eastus");
    let staging = state.get_resource_group("aaaa-bbbb-cccc", "staging-rg").expect("seeded group exists");
    assert_eq!(text_of(&staging, "location"), "westus2");
    assert_eq!(text_of(staging.member("tags").expect("tags"), "env"), "staging");
    assert_eq!(state.list_resource_groups("aaaa-bbbb-cccc").unwrap().value.len(), 2);
}

#[test]
fn parse_minimal_config() {
    // A configuration that gives only a subscription id, name and tenant
    // takes the defaults for the rest.
    let config = AzureMockConfig {
        server: ServerConfig::default(),
        subscriptions: vec![(
            "main".to_string(),
            subscription("sub-1", "My Sub", "tenant-1", &default_subscription_state(), Vec::new()),
        )],
    };
    assert_eq!(config.server.port, 8080);
    assert_eq!(config.server.bind, "127.0.0.1");
    assert_eq!(config.subscriptions[0].0, "main");
    assert_eq!(config.subscriptions[0].1.state, "Enabled");
    assert!(config.subscriptions[0].1.resource_groups.is_empty());
}

#[test]
fn empty_subscriptions_fails_validation() {
    let config = AzureMockConfig { server: ServerConfig::default(), subscriptions: Vec::new() };
    let err = config.validate().unwrap_err();
    assert!(err.describe().contains("at least one subscription"));
}

#[test]
fn empty_subscription_id_fails_validation() {
    let config = AzureMockConfig {
        server: ServerConfig::default(),
        subscriptions: vec![("bad".to_string(), subscription("", "Bad", "t", "Enabled", Vec::new()))],
    };
    let err = config.validate().unwrap_err();
    assert!(err.describe().contains("empty id"));
}

#[test]
fn server_defaults() {
    assert_eq!(default_bind(), "127.0.0.1");
    assert_eq!(default_port(), 8080);
    assert_eq!(default_subscription_state(), "Enabled");
    let s = ServerConfig::default();
    assert_eq!(s.bind, "127.0.0.1");
    assert_eq!(s.port, 8080);
    assert_eq!(s.delay_ms, 0);
}

#[test]
fn validation_names_the_first_bad_subscription() {
    let config = AzureMockConfig {
        server: ServerConfig::default(),
        subscriptions: vec![
            ("good".to_string(), subscription("g", "Good", "t", "Enabled", Vec::new())),
            ("bad1".to_string(), subscription("", "Bad", "t", "Enabled", Vec::new())),
            ("bad2".to_string(), subscription("", "Bad", "t", "Enabled", Vec::new())),
        ],
    };
    match config.validate() {
        Err(ConfigError::Validation(m)) => {
            assert!(m.contains("bad1"));
            assert!(!m.contains("bad2"));
        },
        other => panic!("unexpected {other:?}"),
    }
}

#[test]
fn unknown_subscription_state_reads_as_enabled() {
    let config = AzureMockConfig {
        server: ServerConfig::default(),
        subscriptions: vec![
            ("a".to_string(), subscription("s-a", "A", "t", "Warned", Vec::new())),
            ("b".to_string(), subscription("s-b", "B", "t", "Bogus", Vec::new())),
        ],
    };
    let state = MockState::from_config(&config);
    assert_eq!(text_of(&state.get_subscription("s-a").unwrap(), "state"), "Warned");
    assert_eq!(text_of(&state.get_subscription("s-b").unwrap(), "state"), "Enabled");
}

#[test]
fn later_subscription_entry_replaces_earlier_groups() {
    let seed = |n: &str| ResourceGroupSeed { name: n.to_string(), location: "eastus".to_string(), tags: Vec::new() };
    let config = AzureMockConfig {
        server: ServerConfig::default(),
        subscriptions: vec![
            ("a".to_string(), subscription("same", "First", "t", "Enabled", vec![seed("rg-1")])),
            ("b".to_string(), subscription("same", "Second", "t", "Enabled", vec![seed("rg-2")])),
        ],
    };
    let state = MockState::from_config(&config);
    assert_eq!(text_of(&state.get_subscription("same").unwrap(), "displayName"), "Second");
    assert!(state.get_resource_group("same", "rg-1").is_none());
    assert!(state.get_resource_group("same", "rg-2").is_some());
}

#[test]
fn later_seed_of_a_name_wins() {
    let config = AzureMockConfig {
        server: ServerConfig::default(),
        subscriptions: vec![(
            "main".to_string(),
            subscription(
                "sub-1",
                "My Sub",
                "tenant-1",
                "Enabled",
                vec![
                    ResourceGroupSeed { name: "rg".to_string(), location: "eastus".to_string(), tags: Vec::new() },
                    ResourceGroupSeed { name: "rg".to_string(), location: "westus".to_string(), tags: Vec::new() },
                ],
            ),
        )],
    };
    let state = MockState::from_config(&config);
    let rg = state.get_resource_group("sub-1", "rg").unwrap();
    assert_eq!(text_of(&rg, "location"), "westus");
    assert_eq!(state.list_resource_groups("sub-1").unwrap().value.len(), 1);
    assert!(state.get_subscription("other").is_none());
}
