use cloud_sdk_azure_mock::fresh::Fresh;
use cloud_sdk_azure_mock::json::JsonValue;
use cloud_sdk_azure_mock::network::{CreatePublicIpParams, CreateResourceParams};
use cloud_sdk_azure_mock::store::{CreateResourceGroupParams, MockState, StoreError};

const SUB: &str = "00000000-0000-0000-0000-000000000000";

fn from_serde(v: &serde_json::Value) -> JsonValue {
    match v {
        serde_json::Value::Null => JsonValue::Null,
        serde_json::Value::Bool(b) => JsonValue::Bool(*b),
        serde_json::Value::Number(n) => JsonValue::Number(n.to_string()),
        serde_json::Value::String(s) => JsonValue::Str(s.clone()),
        serde_json::Value::Array(items) => JsonValue::Array(items.iter().map(from_serde).collect()),
        serde_json::Value::Object(m) => JsonValue::Object(m.iter().map(|(k, v)| (k.clone(), from_serde(v))).collect()),
    }
}

fn j(text: &str) -> JsonValue {
    from_serde(&serde_json::from_str::<serde_json::Value>(text).unwrap())
}

fn at<'a>(d: &'a JsonValue, path: &[&str]) -> &'a JsonValue {
    let mut cur = d;
    for k in path {
        cur = cur.member(k).unwrap_or_else(|| panic!("no member {k} in {cur:?}"));
    }
    cur
}

fn text_at(d: &JsonValue, path: &[&str]) -> String {
    match at(d, path) {
        JsonValue::Str(s) => s.clone(),
        other => panic!("not a string: {other:?}"),
    }
}

fn items(d: &JsonValue) -> &Vec<JsonValue> {
    match d {
        JsonValue::Array(v) => v,
        other => panic!("not an array: {other:?}"),
    }
}

fn fresh(n: u8) -> Fresh {
    Fresh {
        rfc2822: "Mon, 01 Jan 2024 00:00:00 +0000".to_string(),
        rfc3339: "2024-01-01T00:00:00+00:00".to_string(),
        etag_hex: format!("{n:032}"),
        uuid: format!("guid-{n}"),
        bytes: vec![0xAB, 0x01, 0x2C, 0xFF, 0x10, 0x00, 7, 7, 7, 7, 7, 7, 7, 7, 7, 7],
    }
}

fn setup() -> MockState {
    let mut state = MockState::with_defaults();
    state
        .create_resource_group(SUB, "rg", &CreateResourceGroupParams { location: "eastus".to_string(), tags: Vec::new() })
        .unwrap();
    state
}

fn params(props: &str) -> CreateResourceParams {
    CreateResourceParams { location: "eastus".to_string(), tags: vec![("env".to_string(), "dev".to_string())], properties: j(props) }
}

#[test]
fn vnet_with_subnets() {
    let mut state = setup();
    let (doc, is_new) = state
        .create_virtual_network(SUB, "rg", "vnet1", &params(r#"{"addressSpace":{"addressPrefixes":["10.0.0.0/16"]},"subnets":[{"name":"s1","properties":{"addressPrefix":"10.0.1.0/24"}}]}"#))
        .unwrap();
    assert!(is_new);
    assert_eq!(text_at(&doc, &["id"]), format!("/subscriptions/{SUB}/resourceGroups/rg/providers/Microsoft.Network/virtualNetworks/vnet1"));
    assert_eq!(text_at(&doc, &["properties", "provisioningState"]), "Succeeded");
    let s1 = state.get_subnet(SUB, "rg", "vnet1", "s1").unwrap();
    assert_eq!(text_at(&s1, &["properties", "addressPrefix"]), "10.0.1.0/24");
    let sub2 = state.create_subnet(SUB, "rg", "vnet1", "s2", &j(r#"{"addressPrefix":"10.0.2.0/24"}"#)).unwrap();
    assert_eq!(text_at(&sub2, &["id"]), format!("/subscriptions/{SUB}/resourceGroups/rg/providers/Microsoft.Network/virtualNetworks/vnet1/subnets/s2"));
    assert_eq!(text_at(&sub2, &["properties", "provisioningState"]), "Succeeded");
    let vnet = state.get_virtual_network(SUB, "rg", "vnet1").unwrap();
    let subnets = items(at(&vnet, &["properties", "subnets"]));
    assert_eq!(subnets.len(), 2);
    assert_eq!(text_at(&subnets[1], &["name"]), "s2");
    assert_eq!(state.list_subnets(SUB, "rg", "vnet1").unwrap().value.len(), 2);
    assert_eq!(state.delete_subnet(SUB, "rg", "vnet1", "s1").unwrap(), true);
    assert_eq!(state.delete_subnet(SUB, "rg", "vnet1", "s1").unwrap(), false);
    assert_eq!(state.list_virtual_networks(SUB, "rg").unwrap().value.len(), 1);
    assert_eq!(state.list_all_virtual_networks(SUB).unwrap().value.len(), 1);
    match state.create_subnet(SUB, "rg", "nope", "s", &j("{}")) {
        Err(StoreError::VirtualNetworkNotFound(n)) => assert_eq!(n, "nope"),
        other => panic!("unexpected {other:?}"),
    }
    // Replacing the network replaces its subnets.
    let (_, again) = state.create_virtual_network(SUB, "rg", "vnet1", &params(r#"{"subnets":[]}"#)).unwrap();
    assert!(!again);
    assert!(state.get_subnet(SUB, "rg", "vnet1", "s2").is_none());
    assert_eq!(state.delete_virtual_network(SUB, "rg", "vnet1").unwrap(), true);
    assert!(state.list_subnets(SUB, "rg", "vnet1").is_none());
}

#[test]
fn vnet_tags_and_peering() {
    let mut state = setup();
    state.create_virtual_network(SUB, "rg", "v", &params("{}")).unwrap();
    let updated = state.update_virtual_network_tags(SUB, "rg", "v", &vec![("team".to_string(), "net".to_string())]).unwrap();
    assert_eq!(text_at(&updated, &["tags", "team"]), "net");
    assert_eq!(text_at(&updated, &["tags", "env"]), "dev");
    let (p, is_new) = state.create_virtual_network_peering(SUB, "rg", "v", "to-hub", &j(r#"{"allowForwardedTraffic":true}"#)).unwrap();
    assert!(is_new);
    assert_eq!(text_at(&p, &["properties", "peeringState"]), "Connected");
    assert_eq!(text_at(&p, &["etag"]), "\"1\"");
    assert_eq!(text_at(&p, &["type"]), "Microsoft.Network/virtualNetworks/virtualNetworkPeerings");
    let (p2, _) = state.create_virtual_network_peering(SUB, "rg", "v", "x", &j(r#"{"peeringState":"Initiated"}"#)).unwrap();
    assert_eq!(text_at(&p2, &["properties", "peeringState"]), "Initiated");
    assert_eq!(state.list_virtual_network_peerings(SUB, "rg", "v").unwrap().value.len(), 2);
    assert!(state.get_virtual_network_peering(SUB, "rg", "v", "to-hub").is_some());
    assert_eq!(state.delete_virtual_network_peering(SUB, "rg", "v", "to-hub").unwrap(), true);
    assert!(state.get_virtual_network_peering(SUB, "rg", "v", "to-hub").is_none());
}

#[test]
fn nsg_and_security_rules() {
    let mut state = setup();
    state.create_nsg(SUB, "rg", "nsg1", &params(r#"{"securityRules":[]}"#)).unwrap();
    let (rule, is_new) = state
        .create_or_update_security_rule(SUB, "rg", "nsg1", "allow-ssh", &j(r#"{"priority":100,"access":"Allow"}"#))
        .unwrap();
    assert!(is_new);
    assert_eq!(text_at(&rule, &["id"]), format!("/subscriptions/{SUB}/resourceGroups/rg/providers/Microsoft.Network/networkSecurityGroups/nsg1/securityRules/allow-ssh"));
    let (_, is_new) = state
        .create_or_update_security_rule(SUB, "rg", "nsg1", "allow-ssh", &j(r#"{"priority":200,"access":"Deny"}"#))
        .unwrap();
    assert!(!is_new);
    let got = state.get_security_rule(SUB, "rg", "nsg1", "allow-ssh").unwrap();
    assert_eq!(text_at(&got, &["properties", "access"]), "Deny");
    assert_eq!(state.list_security_rules(SUB, "rg", "nsg1").unwrap().value.len(), 1);
    assert_eq!(state.delete_security_rule(SUB, "rg", "nsg1", "allow-ssh").unwrap(), true);
    assert_eq!(state.delete_security_rule(SUB, "rg", "nsg1", "allow-ssh").unwrap(), false);
    assert!(state.get_security_rule(SUB, "rg", "nsg1", "allow-ssh").is_none());
    let tagged = state.update_nsg_tags(SUB, "rg", "nsg1", &vec![("env".to_string(), "prod".to_string())]).unwrap();
    assert_eq!(text_at(&tagged, &["tags", "env"]), "prod");
    assert_eq!(state.list_all_nsgs(SUB).unwrap().value.len(), 1);
    match state.create_or_update_security_rule(SUB, "rg", "missing", "r", &j("{}")) {
        Err(e) => assert_eq!(e.message(), "NSG 'missing' not found"),
        Ok(_) => panic!("rule in a missing group"),
    }
    assert_eq!(state.delete_nsg(SUB, "rg", "nsg1").unwrap(), true);
    assert!(state.get_nsg(SUB, "rg", "nsg1").is_none());
}

#[test]
fn nic_gets_mac_and_ip_configuration_ids() {
    let mut state = setup();
    let (nic, _) = state
        .create_network_interface(
            SUB,
            "rg",
            "nic1",
            &params(r#"{"ipConfigurations":[{"name":"cfg1","properties":{"privateIPAddress":"10.0.0.4"}},{"properties":{}}]}"#),
            &fresh(1),
        )
        .unwrap();
    assert_eq!(text_at(&nic, &["properties", "macAddress"]), "AB-01-2C-FF-10-00");
    assert_eq!(text_at(&nic, &["properties", "resourceGuid"]), "guid-1");
    assert_eq!(text_at(&nic, &["etag"]), "\"1\"");
    let cfgs = items(at(&nic, &["properties", "ipConfigurations"]));
    let nic_id = format!("/subscriptions/{SUB}/resourceGroups/rg/providers/Microsoft.Network/networkInterfaces/nic1");
    assert_eq!(text_at(&cfgs[0], &["id"]), format!("{nic_id}/ipConfigurations/cfg1"));
    assert_eq!(text_at(&cfgs[1], &["id"]), format!("{nic_id}/ipConfigurations/ipconfig"));
    assert!(matches!(at(&cfgs[0], &["properties", "primary"]), JsonValue::Bool(true)));
    assert!(cfgs[1].member("properties").unwrap().member("primary").is_none());
    assert_eq!(text_at(&cfgs[1], &["properties", "provisioningState"]), "Succeeded");
    let (taken, _) = state.check_ip_availability(SUB, "rg", "any", "10.0.0.4").unwrap();
    assert!(!taken);
    let (free, others) = state.check_ip_availability(SUB, "rg", "any", "10.0.0.5").unwrap();
    assert!(free);
    assert!(others.is_empty());
    match state.check_ip_availability(SUB, "zz", "any", "10.0.0.5") {
        Err(StoreError::ResourceGroupNotFound(n)) => assert_eq!(n, "zz"),
        other => panic!("unexpected {other:?}"),
    }
    let (kept, _) = state
        .create_network_interface(SUB, "rg", "nic2", &params(r#"{"macAddress":"00-11-22-33-44-55"}"#), &fresh(2))
        .unwrap();
    assert_eq!(text_at(&kept, &["properties", "macAddress"]), "00-11-22-33-44-55");
    assert_eq!(state.list_network_interfaces(SUB, "rg").unwrap().value.len(), 2);
    assert_eq!(state.delete_network_interface(SUB, "rg", "nic2").unwrap(), true);
    assert!(state.get_network_interface(SUB, "rg", "nic2").is_none());
}

#[test]
fn public_ip_static_address_and_fqdn() {
    let mut state = setup();
    let p = CreatePublicIpParams {
        location: "eastus".to_string(),
        tags: Vec::new(),
        sku: Some(j(r#"{"name":"Standard"}"#)),
        zones: None,
        properties: j(r#"{"publicIPAllocationMethod":"Static","dnsSettings":{"domainNameLabel":"myapp"}}"#),
    };
    let (ip, is_new) = state.create_public_ip_address(SUB, "rg", "ip1", &p, &fresh(1)).unwrap();
    assert!(is_new);
    assert_eq!(text_at(&ip, &["properties", "ipAddress"]), "20.171.1.44");
    assert_eq!(text_at(&ip, &["properties", "dnsSettings", "fqdn"]), "myapp.eastus.cloudapp.azure.com");
    assert_eq!(text_at(&ip, &["sku", "name"]), "Standard");
    assert!(ip.member("zones").is_none());
    let dynamic = CreatePublicIpParams { properties: j("{}"), sku: None, ..p };
    let (ip2, _) = state.create_public_ip_address(SUB, "rg", "ip2", &dynamic, &fresh(2)).unwrap();
    assert!(at(&ip2, &["properties"]).member("ipAddress").is_none());
    assert_eq!(state.list_public_ip_addresses(SUB, "rg").unwrap().value.len(), 2);
    assert_eq!(state.delete_public_ip_address(SUB, "rg", "ip1").unwrap(), true);
    assert!(state.get_public_ip_address(SUB, "rg", "ip1").is_none());
}

#[test]
fn route_tables_and_routes() {
    let mut state = setup();
    let (t, _) = state
        .create_route_table(SUB, "rg", "rt", &params(r#"{"routes":[{"name":"r1","properties":{"nextHopType":"Internet"}}]}"#), &fresh(1))
        .unwrap();
    assert_eq!(text_at(&t, &["properties", "resourceGuid"]), "guid-1");
    assert!(state.get_route(SUB, "rg", "rt", "r1").is_some());
    let (r2, is_new) = state.create_route(SUB, "rg", "rt", "r2", &j(r#"{"nextHopType":"VnetLocal"}"#)).unwrap();
    assert!(is_new);
    assert_eq!(text_at(&r2, &["type"]), "Microsoft.Network/routeTables/routes");
    let table = state.get_route_table(SUB, "rg", "rt").unwrap();
    assert_eq!(items(at(&table, &["properties", "routes"])).len(), 2);
    assert_eq!(state.list_routes(SUB, "rg", "rt").unwrap().value.len(), 2);
    assert_eq!(state.list_route_tables(SUB, "rg").unwrap().value.len(), 1);
    assert_eq!(state.delete_route(SUB, "rg", "rt", "r1").unwrap(), true);
    match state.create_route(SUB, "rg", "none", "r", &j("{}")) {
        Err(StoreError::RouteTableNotFound(n)) => assert_eq!(n, "none"),
        other => panic!("unexpected {other:?}"),
    }
    assert_eq!(state.delete_route_table(SUB, "rg", "rt").unwrap(), true);
    assert!(state.get_route(SUB, "rg", "rt", "r2").is_none());
}

#[test]
fn application_security_groups() {
    let mut state = setup();
    let (asg, is_new) = state.create_application_security_group(SUB, "rg", "web", &params("{}"), &fresh(3)).unwrap();
    assert!(is_new);
    assert_eq!(text_at(&asg, &["properties", "resourceGuid"]), "guid-3");
    assert_eq!(text_at(&asg, &["properties", "provisioningState"]), "Succeeded");
    let tagged = state.update_application_security_group_tags(SUB, "rg", "web", &vec![("a".to_string(), "b".to_string())]).unwrap();
    assert_eq!(text_at(&tagged, &["tags", "a"]), "b");
    assert_eq!(state.list_all_application_security_groups(SUB).unwrap().value.len(), 1);
    assert_eq!(state.list_application_security_groups(SUB, "rg").unwrap().value.len(), 1);
    match state.update_application_security_group_tags(SUB, "rg", "nope", &Vec::new()) {
        Err(e) => assert_eq!(e.message(), "Application security group 'nope' not found"),
        Ok(_) => panic!("tagged a missing group"),
    }
    assert_eq!(state.delete_application_security_group(SUB, "rg", "web").unwrap(), true);
    assert!(state.get_application_security_group(SUB, "rg", "web").is_none());
}

#[test]
fn service_tags_for_location() {
    let state = MockState::with_defaults();
    let tags = state.list_service_tags("westeurope");
    assert_eq!(text_at(&tags, &["name"]), "ServiceTagsListResult_westeurope");
    assert_eq!(
        text_at(&tags, &["id"]),
        "/subscriptions/00000000-0000-0000-0000-000000000000/providers/Microsoft.Network/locations/westeurope/serviceTags/default"
    );
    let values = items(at(&tags, &["values"]));
    assert_eq!(values.len(), 4);
    assert_eq!(text_at(&values[1], &["properties", "systemService"]), "AzureStorage");
    assert_eq!(items(at(&values[0], &["properties", "addressPrefixes"])).len(), 2);
}

#[test]
fn network_resources_need_a_group() {
    let mut state = MockState::with_defaults();
    match state.create_nsg(SUB, "none", "n", &params("{}")) {
        Err(StoreError::ResourceGroupNotFound(n)) => assert_eq!(n, "none"),
        other => panic!("unexpected {other:?}"),
    }
    match state.create_virtual_network("other-sub", "rg", "v", &params("{}")) {
        Err(StoreError::SubscriptionNotFound(n)) => assert_eq!(n, "other-sub"),
        other => panic!("unexpected {other:?}"),
    }
    assert!(state.list_nsgs(SUB, "none").is_none());
}

#[test]
fn deleting_a_vnet_keeps_other_networks() {
    let mut state = setup();
    state.create_virtual_network(SUB, "rg", "a", &params(r#"{"subnets":[{"name":"s","properties":{}}]}"#)).unwrap();
    state.create_virtual_network(SUB, "rg", "b", &params(r#"{"subnets":[{"name":"s","properties":{}}]}"#)).unwrap();
    state.create_virtual_network_peering(SUB, "rg", "a", "p", &j("{}")).unwrap();
    assert_eq!(state.delete_virtual_network(SUB, "rg", "a").unwrap(), true);
    assert!(state.get_subnet(SUB, "rg", "a", "s").is_none());
    assert!(state.get_virtual_network_peering(SUB, "rg", "a", "p").is_none());
    assert!(state.get_subnet(SUB, "rg", "b", "s").is_some());
    assert!(state.get_virtual_network(SUB, "rg", "b").is_some());
    assert_eq!(state.delete_virtual_network(SUB, "rg", "a").unwrap(), false);
}

#[test]
fn rule_names_stay_distinct() {
    let mut state = setup();
    state.create_nsg(SUB, "rg", "nsg", &params("{}")).unwrap();
    state.create_or_update_security_rule(SUB, "rg", "nsg", "a", &j(r#"{"priority":100}"#)).unwrap();
    state.create_or_update_security_rule(SUB, "rg", "nsg", "b", &j(r#"{"priority":200}"#)).unwrap();
    let (_, is_new) = state.create_or_update_security_rule(SUB, "rg", "nsg", "a", &j(r#"{"priority":300}"#)).unwrap();
    assert!(!is_new);
    let rules = state.list_security_rules(SUB, "rg", "nsg").unwrap().value;
    assert_eq!(rules.len(), 2);
    assert_eq!(text_at(&rules[0], &["name"]), "b");
    assert_eq!(text_at(&rules[1], &["name"]), "a");
}
