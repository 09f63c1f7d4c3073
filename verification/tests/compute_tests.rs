use cloud_sdk_azure_mock::compute::{available_sizes, CreateVirtualMachineParams, PowerState};
use cloud_sdk_azure_mock::fresh::Fresh;
use cloud_sdk_azure_mock::json::JsonValue;
use cloud_sdk_azure_mock::reply::{done_reply, put_reply, Body};
use cloud_sdk_azure_mock::store::{CreateResourceGroupParams, MockState, StoreError};

const SUB: &str = "00000000-0000-0000-0000-000000000000";

fn from_serde(v: &serde_json::Value) -> JsonValue {
    match v {
        serde_json::Value::Null => JsonValue::Null,
        serde_json::Value::Bool(b) => JsonValue::Bool(*b),
        serde_json::Value::Number(n) => JsonValue::Number(n.to_string()),
        serde_json::Value::String(s) => JsonValue::Str(s.clone()),
        serde_json::Value::Array(items) => JsonValue::Array(items.iter().map(from_serde).collect()),
        serde_json::Value::Object(m) => JsonValue::Object(m.iter().map(|(k, v)| (k.clone(), from_serde(v))).collect()),
    }
}

fn j(text: &str) -> JsonValue {
    from_serde(&serde_json::from_str::<serde_json::Value>(text).unwrap())
}

fn at<'a>(d: &'a JsonValue, path: &[&str]) -> &'a JsonValue {
    let mut cur = d;
    for k in path {
        cur = cur.member(k).unwrap_or_else(|| panic!("no member {k} in {cur:?}"));
    }
    cur
}

fn text_at(d: &JsonValue, path: &[&str]) -> String {
    match at(d, path) {
        JsonValue::Str(s) => s.clone(),
        other => panic!("not a string: {other:?}"),
    }
}

fn fresh(n: u8) -> Fresh {
    Fresh {
        rfc2822: format!("Mon, 01 Jan 2024 00:00:0{n} +0000"),
        rfc3339: format!("2024-01-01T00:00:0{n}+00:00"),
        etag_hex: format!("{n:032}"),
        uuid: format!("vm-id-{n}"),
        bytes: vec![n; 16],
    }
}

fn setup() -> MockState {
    let mut state = MockState::with_defaults();
    state
        .create_resource_group(SUB, "rg", &CreateResourceGroupParams { location: "eastus".to_string(), tags: Vec::new() })
        .unwrap();
    state
}

fn vm_params(location: &str, properties: &str) -> CreateVirtualMachineParams {
    CreateVirtualMachineParams {
        location: location.to_string(),
        tags: Vec::new(),
        identity: None,
        zones: None,
        extended_location: None,
        plan: None,
        properties: j(properties),
        placement: None,
    }
}

const LINUX_VM: &str = r#"{
    "hardwareProfile": {"vmSize": "Standard_B1s"},
    "storageProfile": {
        "osDisk": {"name": "os1", "createOption": "FromImage", "managedDisk": {}},
        "dataDisks": [{"lun": 0, "createOption": "Empty", "managedDisk": {}}, {"lun": 3, "name": "data3", "managedDisk": {}}]
    },
    "osProfile": {"computerName": "vm1", "adminUsername": "azure", "adminPassword": "secret", "linuxConfiguration": {}}
}"#;

#[test]
fn create_vm_enriches_the_document() {
    let mut state = setup();
    let r = put_reply(state.create_virtual_machine(SUB, "rg", "vm1", &vm_params("eastus", LINUX_VM), &fresh(1)), "ResourceNotFound");
    assert_eq!(r.status, 201);
    let doc = match &r.body {
        Body::Json(d) => d.deep_clone(),
        other => panic!("unexpected {other:?}"),
    };
    assert_eq!(text_at(&doc, &["id"]), format!("/subscriptions/{SUB}/resourceGroups/rg/providers/Microsoft.Compute/virtualMachines/vm1"));
    assert_eq!(text_at(&doc, &["etag"]), "\"1\"");
    assert_eq!(text_at(&doc, &["properties", "vmId"]), "vm-id-1");
    assert_eq!(text_at(&doc, &["properties", "provisioningState"]), "Succeeded");
    assert_eq!(text_at(&doc, &["properties", "timeCreated"]), "2024-01-01T00:00:01+00:00");
    assert_eq!(text_at(&doc, &["properties", "storageProfile", "osDisk", "osType"]), "Linux");
    assert!(matches!(at(&doc, &["properties", "storageProfile", "osDisk", "diskSizeGB"]), JsonValue::Number(n) if n == "30"));
    assert_eq!(
        text_at(&doc, &["properties", "storageProfile", "osDisk", "managedDisk", "id"]),
        format!("/subscriptions/{SUB}/resourceGroups/rg/providers/Microsoft.Compute/disks/os1")
    );
    match at(&doc, &["properties", "storageProfile", "dataDisks"]) {
        JsonValue::Array(disks) => {
            assert_eq!(text_at(&disks[0], &["managedDisk", "id"]), format!("/subscriptions/{SUB}/resourceGroups/rg/providers/Microsoft.Compute/disks/datadisk-lun0"));
            assert_eq!(text_at(&disks[1], &["managedDisk", "id"]), format!("/subscriptions/{SUB}/resourceGroups/rg/providers/Microsoft.Compute/disks/data3"));
        },
        other => panic!("unexpected {other:?}"),
    }
    assert!(at(&doc, &["properties", "osProfile"]).member("adminPassword").is_none());
    assert!(matches!(at(&doc, &["properties", "osProfile", "secrets"]), JsonValue::Array(v) if v.is_empty()));
    assert!(matches!(at(&doc, &["resources"]), JsonValue::Array(v) if v.is_empty()));
    assert_eq!(state.get_vm_power_state(SUB, "rg", "vm1"), Some(PowerState::Running));
}

#[test]
fn replacing_a_vm_bumps_its_etag() {
    let mut state = setup();
    let params = vm_params("eastus", LINUX_VM);
    let (_, new1) = state.create_virtual_machine(SUB, "rg", "vm1", &params, &fresh(1)).unwrap();
    let (doc2, new2) = state.create_virtual_machine(SUB, "rg", "vm1", &params, &fresh(2)).unwrap();
    assert!(new1);
    assert!(!new2);
    assert_eq!(text_at(&doc2, &["etag"]), "\"2\"");
    let patched = state.update_virtual_machine(SUB, "rg", "vm1", &j(r#"{"tags":{"env":"prod"}}"#)).unwrap();
    assert_eq!(text_at(&patched, &["etag"]), "\"3\"");
    assert_eq!(text_at(&patched, &["tags", "env"]), "prod");
    let stored = state.get_virtual_machine(SUB, "rg", "vm1").unwrap();
    assert_eq!(text_at(&stored, &["etag"]), "\"3\"");
}

#[test]
fn patch_never_keeps_admin_password() {
    let mut state = setup();
    state.create_virtual_machine(SUB, "rg", "vm1", &vm_params("eastus", LINUX_VM), &fresh(1)).unwrap();
    let patched = state
        .update_virtual_machine(SUB, "rg", "vm1", &j(r#"{"properties":{"osProfile":{"adminPassword":"new"}}}"#))
        .unwrap();
    assert!(at(&patched, &["properties", "osProfile"]).member("adminPassword").is_none());
    assert_eq!(text_at(&patched, &["properties", "osProfile", "computerName"]), "vm1");
    match state.update_virtual_machine(SUB, "rg", "vm1", &j(r#"{"location":null}"#)) {
        Err(StoreError::PatchFailed(_)) => {},
        other => panic!("unexpected {other:?}"),
    }
    match state.update_virtual_machine(SUB, "rg", "nope", &j("{}")) {
        Err(StoreError::VirtualMachineNotFound(n)) => assert_eq!(n, "nope"),
        other => panic!("unexpected {other:?}"),
    }
}

#[test]
fn windows_profile_implies_windows_disk() {
    let mut state = setup();
    let props = r#"{"storageProfile":{"osDisk":{"managedDisk":{"id":"given"},"diskSizeGB":64}},"osProfile":{"windowsConfiguration":{}}}"#;
    let (doc, _) = state.create_virtual_machine(SUB, "rg", "win", &vm_params("westus", props), &fresh(1)).unwrap();
    assert_eq!(text_at(&doc, &["properties", "storageProfile", "osDisk", "osType"]), "Windows");
    assert_eq!(text_at(&doc, &["properties", "storageProfile", "osDisk", "managedDisk", "id"]), "given");
    assert!(matches!(at(&doc, &["properties", "storageProfile", "osDisk", "diskSizeGB"]), JsonValue::Number(n) if n == "64"));
}

#[test]
fn power_actions_and_instance_view() {
    let mut state = setup();
    state.create_virtual_machine(SUB, "rg", "vm1", &vm_params("eastus", LINUX_VM), &fresh(1)).unwrap();
    let view = state.get_vm_instance_view(SUB, "rg", "vm1", &fresh(2)).unwrap();
    assert_eq!(text_at(&view, &["computerName"]), "vm1");
    assert_eq!(text_at(&view, &["osName"]), "Linux");
    match at(&view, &["statuses"]) {
        JsonValue::Array(s) => {
            assert_eq!(text_at(&s[0], &["code"]), "ProvisioningState/succeeded");
            assert_eq!(text_at(&s[1], &["code"]), "PowerState/running");
            assert_eq!(text_at(&s[1], &["displayStatus"]), "VM running");
        },
        other => panic!("unexpected {other:?}"),
    }
    assert_eq!(done_reply(state.set_vm_power_state(SUB, "rg", "vm1", PowerState::Stopped), 202, "ResourceNotFound").status, 202);
    let view = state.get_vm_instance_view(SUB, "rg", "vm1", &fresh(3)).unwrap();
    match at(&view, &["statuses"]) {
        JsonValue::Array(s) => assert_eq!(text_at(&s[1], &["code"]), "PowerState/stopped"),
        other => panic!("unexpected {other:?}"),
    }
    state.set_vm_power_state(SUB, "rg", "vm1", PowerState::Deallocated).unwrap();
    assert_eq!(state.get_vm_power_state(SUB, "rg", "vm1"), Some(PowerState::Deallocated));
    state.generalize_virtual_machine(SUB, "rg", "vm1").unwrap();
    assert_eq!(state.get_vm_power_state(SUB, "rg", "vm1"), Some(PowerState::Stopped));
    let r = done_reply(state.set_vm_power_state(SUB, "rg", "missing", PowerState::Running), 202, "ResourceNotFound");
    assert_eq!(r.status, 404);
    assert!(state.get_vm_instance_view(SUB, "rg", "missing", &fresh(1)).is_none());
}

#[test]
fn eviction_follows_policy() {
    let mut state = setup();
    state.create_virtual_machine(SUB, "rg", "spot-del", &vm_params("eastus", r#"{"evictionPolicy":"Delete","priority":"Spot"}"#), &fresh(1)).unwrap();
    state.create_virtual_machine(SUB, "rg", "spot-keep", &vm_params("eastus", r#"{"priority":"Spot"}"#), &fresh(2)).unwrap();
    state.simulate_eviction(SUB, "rg", "spot-del").unwrap();
    state.simulate_eviction(SUB, "rg", "spot-keep").unwrap();
    assert!(state.get_virtual_machine(SUB, "rg", "spot-del").is_none());
    assert_eq!(state.get_vm_power_state(SUB, "rg", "spot-keep"), Some(PowerState::Deallocated));
    match state.simulate_eviction(SUB, "nope", "x") {
        Err(StoreError::ResourceGroupNotFound(n)) => assert_eq!(n, "nope"),
        other => panic!("unexpected {other:?}"),
    }
}

#[test]
fn list_vms_everywhere_and_by_location() {
    let mut state = setup();
    state
        .create_resource_group(SUB, "rg2", &CreateResourceGroupParams { location: "westus".to_string(), tags: Vec::new() })
        .unwrap();
    state.create_virtual_machine(SUB, "rg", "a", &vm_params("EastUS", "{}"), &fresh(1)).unwrap();
    state.create_virtual_machine(SUB, "rg", "b", &vm_params("westus", "{}"), &fresh(2)).unwrap();
    state.create_virtual_machine(SUB, "rg2", "c", &vm_params("eastus", "{}"), &fresh(3)).unwrap();
    assert_eq!(state.list_virtual_machines(SUB, "rg").unwrap().value.len(), 2);
    assert_eq!(state.list_all_virtual_machines(SUB).unwrap().value.len(), 3);
    let east = state.list_virtual_machines_by_location(SUB, "eastus").unwrap();
    assert_eq!(east.value.len(), 2);
    assert_eq!(text_at(&east.value[0], &["name"]), "a");
    assert_eq!(text_at(&east.value[1], &["name"]), "c");
    assert!(state.list_virtual_machines_by_location("nope", "eastus").is_none());
    assert_eq!(state.delete_virtual_machine(SUB, "rg", "a").unwrap(), true);
    assert_eq!(state.delete_virtual_machine(SUB, "rg", "a").unwrap(), false);
    assert!(state.list_virtual_machines(SUB, "missing").is_none());
}

#[test]
fn vm_sizes_list() {
    let sizes = available_sizes();
    match sizes.member("value") {
        Some(JsonValue::Array(items)) => {
            assert_eq!(items.len(), 12);
            assert_eq!(text_at(&items[0], &["name"]), "Standard_A1_v2");
            assert!(matches!(items[6].member("numberOfCores"), Some(JsonValue::Number(n)) if n == "8"));
            assert!(matches!(items[0].member("osDiskSizeInMB"), Some(JsonValue::Number(n)) if n == "1047552"));
        },
        other => panic!("unexpected {other:?}"),
    }
}

#[test]
fn patch_virtual_machine_refuses_tags_that_are_not_strings() {
    let mut state = setup();
    state.create_virtual_machine(SUB, "rg", "vm1", &vm_params("eastus", LINUX_VM), &fresh(1)).unwrap();
    state.update_virtual_machine(SUB, "rg", "vm1", &j(r#"{"tags":{"env":"prod"}}"#)).unwrap();
    for bad in [r#"{"tags":{"on":true}}"#, r#"{"tags":"x"}"#] {
        match state.update_virtual_machine(SUB, "rg", "vm1", &j(bad)) {
            Err(StoreError::PatchFailed(_)) => {},
            other => panic!("unexpected {other:?}"),
        }
        let stored = state.get_virtual_machine(SUB, "rg", "vm1").unwrap();
        assert_eq!(text_at(&stored, &["tags", "env"]), "prod");
        assert_eq!(text_at(&stored, &["etag"]), "\"2\"");
    }
}
