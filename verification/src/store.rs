use vstd::prelude::*;

use crate::config::{AzureMockConfig, ResourceGroupSeed, SubscriptionConfig};
use crate::json::{
    empty_object, jstr, members_model, push_member, string_pairs_object, string_pairs_to_object,
    Json, JsonValue,
};
use crate::keyed::{is_prefix, keys_under, lists_by, map_under, path1, path2, values_under, KeyedMap, Path};
use crate::storage::{AccountState, BlobState, ContainerState};
use crate::compute::VmState;
use crate::text::{concat_all, join, text_eq};

verus! {

/// A page of results as the management API returns it.
#[derive(Debug)]
pub struct Page {
    pub value: Vec<JsonValue>,
    pub next_link: Option<String>,
}

/// The documents of a sequence of values.
pub open spec fn docs(v: Seq<JsonValue>) -> Seq<Json> {
    v.map_values(|x: JsonValue| x@)
}

impl Page {
    /// A single page holding `value`.
    pub fn new(value: Vec<JsonValue>) -> (p: Page)
        ensures
            p.value@ == value@,
            p.next_link is None,
    {
        Page { value, next_link: None }
    }
}

/// Why a store operation was refused.
#[derive(Debug)]
pub enum StoreError {
    SubscriptionNotFound(String),
    ResourceGroupNotFound(String),
    StorageAccountNotFound(String),
    ContainerNotFound(String),
    BlobNotFound(String),
    SourceStorageAccountNotFound(String),
    SourceContainerNotFound(String),
    SourceBlobNotFound(String),
    BlockNotFound(String),
    VirtualMachineNotFound(String),
    VirtualNetworkNotFound(String),
    NsgNotFound(String),
    RouteTableNotFound(String),
    ApplicationSecurityGroupNotFound(String),
    PatchFailed(String),
}

/// `"<before>" + name + "<after>"`.
pub open spec fn quoted(before: Seq<char>, name: Seq<char>, after: Seq<char>) -> Seq<char> {
    before + name + after
}

/// The message of an error.
pub open spec fn error_message(e: StoreError) -> Seq<char> {
    match e {
        StoreError::SubscriptionNotFound(n) => quoted("Subscription '"@, n@, "' not found"@),
        StoreError::ResourceGroupNotFound(n) => quoted("Resource group '"@, n@, "' not found"@),
        StoreError::StorageAccountNotFound(n) => quoted("Storage account '"@, n@, "' not found"@),
        StoreError::ContainerNotFound(n) => quoted("Container '"@, n@, "' not found"@),
        StoreError::BlobNotFound(n) => quoted("Blob '"@, n@, "' not found"@),
        StoreError::SourceStorageAccountNotFound(n) => quoted(
            "Source storage account '"@,
            n@,
            "' not found"@,
        ),
        StoreError::SourceContainerNotFound(n) => quoted("Source container '"@, n@, "' not found"@),
        StoreError::SourceBlobNotFound(n) => quoted("Source blob '"@, n@, "' not found"@),
        StoreError::BlockNotFound(n) => quoted("Block ID '"@, n@, "' not found"@),
        StoreError::VirtualMachineNotFound(n) => quoted("Virtual machine '"@, n@, "' not found"@),
        StoreError::VirtualNetworkNotFound(n) => quoted("Virtual network '"@, n@, "' not found"@),
        StoreError::NsgNotFound(n) => quoted("NSG '"@, n@, "' not found"@),
        StoreError::RouteTableNotFound(n) => quoted("Route table '"@, n@, "' not found"@),
        StoreError::ApplicationSecurityGroupNotFound(n) => quoted(
            "Application security group '"@,
            n@,
            "' not found"@,
        ),
        StoreError::PatchFailed(n) => "failed to apply patch: "@ + n@,
    }
}

/// `before + name + after` as a string.
pub fn quote(before: &str, name: &str, after: &str) -> (r: String)
    ensures
        r@ == quoted(before@, name@, after@),
{
    let r = join(&[before, name, after]);
    proof {
        reveal_with_fuel(concat_all, 4);
    }
    r
}

impl StoreError {
    /// The message of the error.
    pub fn message(&self) -> (r: String)
        ensures
            r@ == error_message(*self),
    {
        match self {
            StoreError::SubscriptionNotFound(n) => quote("Subscription '", n.as_str(), "' not found"),
            StoreError::ResourceGroupNotFound(n) => quote(
                "Resource group '",
                n.as_str(),
                "' not found",
            ),
            StoreError::StorageAccountNotFound(n) => quote(
                "Storage account '",
                n.as_str(),
                "' not found",
            ),
            StoreError::ContainerNotFound(n) => quote("Container '", n.as_str(), "' not found"),
            StoreError::BlobNotFound(n) => quote("Blob '", n.as_str(), "' not found"),
            StoreError::SourceStorageAccountNotFound(n) => quote(
                "Source storage account '",
                n.as_str(),
                "' not found",
            ),
            StoreError::SourceContainerNotFound(n) => quote(
                "Source container '",
                n.as_str(),
                "' not found",
            ),
            StoreError::SourceBlobNotFound(n) => quote("Source blob '", n.as_str(), "' not found"),
            StoreError::BlockNotFound(n) => quote("Block ID '", n.as_str(), "' not found"),
            StoreError::VirtualMachineNotFound(n) => quote(
                "Virtual machine '",
                n.as_str(),
                "' not found",
            ),
            StoreError::VirtualNetworkNotFound(n) => quote(
                "Virtual network '",
                n.as_str(),
                "' not found",
            ),
            StoreError::NsgNotFound(n) => quote("NSG '", n.as_str(), "' not found"),
            StoreError::RouteTableNotFound(n) => quote("Route table '", n.as_str(), "' not found"),
            StoreError::ApplicationSecurityGroupNotFound(n) => quote(
                "Application security group '",
                n.as_str(),
                "' not found",
            ),
            StoreError::PatchFailed(n) => {
                let r = join(&["failed to apply patch: ", n.as_str()]);
                proof {
                    reveal_with_fuel(concat_all, 3);
                }
                r
            },
        }
    }
}

/// Display name of a configured subscription state; unknown names mean
/// `Enabled`.
pub open spec fn subscription_state_name(s: Seq<char>) -> Seq<char> {
    if s == "Warned"@ {
        "Warned"@
    } else if s == "PastDue"@ {
        "PastDue"@
    } else if s == "Disabled"@ {
        "Disabled"@
    } else if s == "Deleted"@ {
        "Deleted"@
    } else {
        "Enabled"@
    }
}

/// The document of a subscription.
pub open spec fn subscription_doc(id: Seq<char>, display: Seq<char>, state: Seq<char>, tenant: Seq<char>) -> Json {
    Json::Object(
        seq![
            ("id"@, Json::Str("/subscriptions/"@ + id)),
            ("subscriptionId"@, Json::Str(id)),
            ("displayName"@, Json::Str(display)),
            ("state"@, Json::Str(subscription_state_name(state))),
            ("tenantId"@, Json::Str(tenant)),
            ("tags"@, Json::Object(Seq::empty())),
            ("subscriptionPolicies"@, Json::Object(
                seq![
                    ("locationPlacementId"@, Json::Str("Internal_2014-09-01"@)),
                    ("quotaId"@, Json::Str("Internal_2014-09-01"@)),
                    ("spendingLimit"@, Json::Str("Off"@)),
                ],
            )),
        ],
    )
}

/// Resource id of a resource group.
pub open spec fn resource_group_id(sub: Seq<char>, name: Seq<char>) -> Seq<char> {
    "/subscriptions/"@ + sub + "/resourceGroups/"@ + name
}

/// `{"provisioningState": "Succeeded"}`.
pub open spec fn succeeded_properties() -> Json {
    Json::Object(seq![("provisioningState"@, Json::Str("Succeeded"@))])
}

/// The document of a resource group.
pub open spec fn resource_group_doc(sub: Seq<char>, name: Seq<char>, location: Seq<char>, tags: Json) -> Json {
    Json::Object(
        seq![
            ("id"@, Json::Str(resource_group_id(sub, name))),
            ("name"@, Json::Str(name)),
            ("type"@, Json::Str("Microsoft.Resources/resourceGroups"@)),
            ("location"@, Json::Str(location)),
            ("tags"@, tags),
            ("properties"@, succeeded_properties()),
        ],
    )
}

/// The document of the principal the mock authenticates everyone as.
pub open spec fn principal_doc() -> Json {
    Json::Object(
        seq![
            ("id"@, Json::Str("00000000-0000-0000-0000-000000000002"@)),
            ("displayName"@, Json::Str("Mock Service Principal"@)),
            ("principalType"@, Json::Str("ServicePrincipal"@)),
        ],
    )
}

fn state_name(s: &str) -> (r: &'static str)
    ensures
        r@ == subscription_state_name(s@),
{
    if text_eq(s, "Warned") {
        "Warned"
    } else if text_eq(s, "PastDue") {
        "PastDue"
    } else if text_eq(s, "Disabled") {
        "Disabled"
    } else if text_eq(s, "Deleted") {
        "Deleted"
    } else {
        "Enabled"
    }
}

/// Builds the document of a subscription.
pub fn make_subscription(id: &str, display: &str, state: &str, tenant: &str) -> (r: JsonValue)
    ensures
        r@ == subscription_doc(id@, display@, state@, tenant@),
{
    let full = join(&["/subscriptions/", id]);
    proof {
        reveal_with_fuel(concat_all, 3);
    }
    let mut pol: Vec<(String, JsonValue)> = Vec::new();
    push_member(&mut pol, "locationPlacementId", jstr("Internal_2014-09-01"));
    push_member(&mut pol, "quotaId", jstr("Internal_2014-09-01"));
    push_member(&mut pol, "spendingLimit", jstr("Off"));
    let mut ms: Vec<(String, JsonValue)> = Vec::new();
    push_member(&mut ms, "id", JsonValue::Str(full));
    push_member(&mut ms, "subscriptionId", jstr(id));
    push_member(&mut ms, "displayName", jstr(display));
    push_member(&mut ms, "state", jstr(state_name(state)));
    push_member(&mut ms, "tenantId", jstr(tenant));
    push_member(&mut ms, "tags", empty_object());
    push_member(&mut ms, "subscriptionPolicies", JsonValue::Object(pol));
    proof {
        assert(members_model(pol@) =~= seq![
            ("locationPlacementId"@, Json::Str("Internal_2014-09-01"@)),
            ("quotaId"@, Json::Str("Internal_2014-09-01"@)),
            ("spendingLimit"@, Json::Str("Off"@)),
        ]);
        assert(full@ == "/subscriptions/"@ + id@);
        assert(members_model(ms@) =~= subscription_doc(id@, display@, state@, tenant@)->Object_0);
    }
    JsonValue::Object(ms)
}

/// Builds the document of a resource group.
pub fn make_resource_group(sub: &str, name: &str, location: &str, tags: JsonValue) -> (r: JsonValue)
    ensures
        r@ == resource_group_doc(sub@, name@, location@, tags@),
{
    let id = join(&["/subscriptions/", sub, "/resourceGroups/", name]);
    proof {
        reveal_with_fuel(concat_all, 5);
    }
    let mut props: Vec<(String, JsonValue)> = Vec::new();
    push_member(&mut props, "provisioningState", jstr("Succeeded"));
    let mut ms: Vec<(String, JsonValue)> = Vec::new();
    push_member(&mut ms, "id", JsonValue::Str(id));
    push_member(&mut ms, "name", jstr(name));
    push_member(&mut ms, "type", jstr("Microsoft.Resources/resourceGroups"));
    push_member(&mut ms, "location", jstr(location));
    push_member(&mut ms, "tags", tags);
    push_member(&mut ms, "properties", JsonValue::Object(props));
    proof {
        assert(members_model(props@) =~= succeeded_properties()->Object_0);
        assert(members_model(ms@) =~= resource_group_doc(sub@, name@, location@, tags@)->Object_0);
    }
    JsonValue::Object(ms)
}

/// In-memory state of the mock, mirroring the Azure resource hierarchy.
/// Every collection is keyed by the names from the subscription down to
/// the resource: `[subscription]`, `[subscription, group]`,
/// `[subscription, group, resource]`, and one more name per nested level.
pub struct MockState {
    pub subscriptions: KeyedMap<Path, JsonValue>,
    pub resource_groups: KeyedMap<Path, JsonValue>,
    pub storage_accounts: KeyedMap<Path, AccountState>,
    pub containers: KeyedMap<Path, ContainerState>,
    pub blobs: KeyedMap<Path, BlobState>,
    pub virtual_machines: KeyedMap<Path, VmState>,
    pub virtual_networks: KeyedMap<Path, JsonValue>,
    pub subnets: KeyedMap<Path, JsonValue>,
    pub peerings: KeyedMap<Path, JsonValue>,
    pub network_security_groups: KeyedMap<Path, JsonValue>,
    pub network_interfaces: KeyedMap<Path, JsonValue>,
    pub public_ip_addresses: KeyedMap<Path, JsonValue>,
    pub route_tables: KeyedMap<Path, JsonValue>,
    pub routes: KeyedMap<Path, JsonValue>,
    pub application_security_groups: KeyedMap<Path, JsonValue>,
    pub current_principal: JsonValue,
    pub role_assignments: Vec<JsonValue>,
}

/// Subscriptions a configuration describes: each entry in turn sets its
/// subscription, later entries with the same id replacing earlier ones.
pub open spec fn configured_subscriptions(subs: Seq<(String, SubscriptionConfig)>) -> Map<Seq<Seq<char>>, Json>
    decreases subs.len(),
{
    if subs.len() == 0 {
        Map::empty()
    } else {
        let c = subs.last().1;
        configured_subscriptions(subs.drop_last()).insert(
            seq![c.id@],
            subscription_doc(c.id@, c.display_name@, c.state@, c.tenant_id@),
        )
    }
}

/// Resource groups seeded for one subscription, later seeds with the same
/// name replacing earlier ones.
pub open spec fn seeded_groups(sub: Seq<char>, seeds: Seq<ResourceGroupSeed>) -> Map<Seq<Seq<char>>, Json>
    decreases seeds.len(),
{
    if seeds.len() == 0 {
        Map::empty()
    } else {
        let s = seeds.last();
        seeded_groups(sub, seeds.drop_last()).insert(
            seq![sub, s.name@],
            resource_group_doc(sub, s.name@, s.location@, string_pairs_object(s.tags@)),
        )
    }
}

/// `m` without the keys under `prefix`.
pub open spec fn without_under<V>(m: Map<Seq<Seq<char>>, V>, prefix: Seq<Seq<char>>) -> Map<Seq<Seq<char>>, V> {
    m.restrict(m.dom().filter(|k: Seq<Seq<char>>| !is_prefix(prefix, k)))
}

/// Resource groups a configuration describes: each subscription entry
/// replaces every group of an earlier entry with the same id.
pub open spec fn configured_groups(subs: Seq<(String, SubscriptionConfig)>) -> Map<Seq<Seq<char>>, Json>
    decreases subs.len(),
{
    if subs.len() == 0 {
        Map::empty()
    } else {
        let c = subs.last().1;
        without_under(configured_groups(subs.drop_last()), seq![c.id@]).union_prefer_right(
            seeded_groups(c.id@, c.resource_groups@),
        )
    }
}

/// The model of a state with nothing in it but the mock principal.
pub open spec fn empty_view() -> StoreView {
    StoreView {
        subscriptions: Map::empty(),
        resource_groups: Map::empty(),
        storage_accounts: Map::empty(),
        containers: Map::empty(),
        blobs: Map::empty(),
        virtual_machines: Map::empty(),
        virtual_networks: Map::empty(),
        subnets: Map::empty(),
        peerings: Map::empty(),
        network_security_groups: Map::empty(),
        network_interfaces: Map::empty(),
        public_ip_addresses: Map::empty(),
        route_tables: Map::empty(),
        routes: Map::empty(),
        application_security_groups: Map::empty(),
        current_principal: principal_doc(),
        role_assignments: Seq::empty(),
    }
}

impl MockState {
    /// A state with nothing in it but the mock principal.
    pub fn empty() -> (s: MockState)
        ensures
            s@ == empty_view(),
            parents_exist(s@),
    {
        let mut p: Vec<(String, JsonValue)> = Vec::new();
        push_member(&mut p, "id", jstr("00000000-0000-0000-0000-000000000002"));
        push_member(&mut p, "displayName", jstr("Mock Service Principal"));
        push_member(&mut p, "principalType", jstr("ServicePrincipal"));
        proof {
            assert(members_model(p@) =~= principal_doc()->Object_0);
        }
        let s = MockState {
            subscriptions: KeyedMap::new(),
            resource_groups: KeyedMap::new(),
            storage_accounts: KeyedMap::new(),
            containers: KeyedMap::new(),
            blobs: KeyedMap::new(),
            virtual_machines: KeyedMap::new(),
            virtual_networks: KeyedMap::new(),
            subnets: KeyedMap::new(),
            peerings: KeyedMap::new(),
            network_security_groups: KeyedMap::new(),
            network_interfaces: KeyedMap::new(),
            public_ip_addresses: KeyedMap::new(),
            route_tables: KeyedMap::new(),
            routes: KeyedMap::new(),
            application_security_groups: KeyedMap::new(),
            current_principal: JsonValue::Object(p),
            role_assignments: Vec::new(),
        };
        proof {
            assert(docs(s.role_assignments@) =~= Seq::<Json>::empty());
        }
        s
    }
}

/// Model of the whole state: every collection as a map from key path to
/// document or resource model.
pub struct StoreView {
    pub subscriptions: Map<Seq<Seq<char>>, Json>,
    pub resource_groups: Map<Seq<Seq<char>>, Json>,
    pub storage_accounts: Map<Seq<Seq<char>>, crate::storage::AccountView>,
    pub containers: Map<Seq<Seq<char>>, crate::storage::ContainerView>,
    pub blobs: Map<Seq<Seq<char>>, crate::storage::BlobView>,
    pub virtual_machines: Map<Seq<Seq<char>>, crate::compute::VmView>,
    pub virtual_networks: Map<Seq<Seq<char>>, Json>,
    pub subnets: Map<Seq<Seq<char>>, Json>,
    pub peerings: Map<Seq<Seq<char>>, Json>,
    pub network_security_groups: Map<Seq<Seq<char>>, Json>,
    pub network_interfaces: Map<Seq<Seq<char>>, Json>,
    pub public_ip_addresses: Map<Seq<Seq<char>>, Json>,
    pub route_tables: Map<Seq<Seq<char>>, Json>,
    pub routes: Map<Seq<Seq<char>>, Json>,
    pub application_security_groups: Map<Seq<Seq<char>>, Json>,
    pub current_principal: Json,
    pub role_assignments: Seq<Json>,
}

impl View for MockState {
    type V = StoreView;

    open spec fn view(&self) -> StoreView {
        StoreView {
            subscriptions: self.subscriptions.map(),
            resource_groups: self.resource_groups.map(),
            storage_accounts: self.storage_accounts.map(),
            containers: self.containers.map(),
            blobs: self.blobs.map(),
            virtual_machines: self.virtual_machines.map(),
            virtual_networks: self.virtual_networks.map(),
            subnets: self.subnets.map(),
            peerings: self.peerings.map(),
            network_security_groups: self.network_security_groups.map(),
            network_interfaces: self.network_interfaces.map(),
            public_ip_addresses: self.public_ip_addresses.map(),
            route_tables: self.route_tables.map(),
            routes: self.routes.map(),
            application_security_groups: self.application_security_groups.map(),
            current_principal: self.current_principal@,
            role_assignments: docs(self.role_assignments@),
        }
    }
}

impl StoreView {
    /// This state with every resource under `prefix` removed from the
    /// collections below resource groups.
    pub open spec fn without_contents(self, prefix: Seq<Seq<char>>) -> StoreView {
        StoreView {
            storage_accounts: without_under(self.storage_accounts, prefix),
            containers: without_under(self.containers, prefix),
            blobs: without_under(self.blobs, prefix),
            virtual_machines: without_under(self.virtual_machines, prefix),
            virtual_networks: without_under(self.virtual_networks, prefix),
            subnets: without_under(self.subnets, prefix),
            peerings: without_under(self.peerings, prefix),
            network_security_groups: without_under(self.network_security_groups, prefix),
            network_interfaces: without_under(self.network_interfaces, prefix),
            public_ip_addresses: without_under(self.public_ip_addresses, prefix),
            route_tables: without_under(self.route_tables, prefix),
            routes: without_under(self.routes, prefix),
            application_security_groups: without_under(self.application_security_groups, prefix),
            ..self
        }
    }
}

/// Every key of `m` has `n` names, and the key without its last name is a
/// key of `parents`: each resource lies in an existing parent.
pub open spec fn children_of<V, W>(m: Map<Seq<Seq<char>>, V>, parents: Map<Seq<Seq<char>>, W>, n: nat) -> bool {
    forall|k: Seq<Seq<char>>| #[trigger] m.contains_key(k) ==> k.len() == n && parents.contains_key(k.drop_last())
}

/// The store's hierarchy holds together: subscriptions have one name,
/// groups lie in subscriptions, resources in groups, containers in
/// accounts, blobs in containers, subnets and peerings in virtual
/// networks, routes in route tables.
pub open spec fn parents_exist(v: StoreView) -> bool {
    &&& forall|k: Seq<Seq<char>>| #[trigger] v.subscriptions.contains_key(k) ==> k.len() == 1
    &&& children_of(v.resource_groups, v.subscriptions, 2)
    &&& children_of(v.storage_accounts, v.resource_groups, 3)
    &&& children_of(v.virtual_machines, v.resource_groups, 3)
    &&& children_of(v.virtual_networks, v.resource_groups, 3)
    &&& children_of(v.network_security_groups, v.resource_groups, 3)
    &&& children_of(v.network_interfaces, v.resource_groups, 3)
    &&& children_of(v.public_ip_addresses, v.resource_groups, 3)
    &&& children_of(v.route_tables, v.resource_groups, 3)
    &&& children_of(v.application_security_groups, v.resource_groups, 3)
    &&& children_of(v.containers, v.storage_accounts, 4)
    &&& children_of(v.blobs, v.containers, 5)
    &&& children_of(v.subnets, v.virtual_networks, 4)
    &&& children_of(v.peerings, v.virtual_networks, 4)
    &&& children_of(v.routes, v.route_tables, 4)
}

/// A key lies under the key of its parent, and under whatever that lies
/// under.
pub proof fn lemma_under_parent(p: Seq<Seq<char>>, k: Seq<Seq<char>>)
    requires
        k.len() > 0,
    ensures
        is_prefix(k.drop_last(), k),
        is_prefix(p, k.drop_last()) ==> is_prefix(p, k),
{
    assert(k.subrange(0, k.drop_last().len() as int) =~= k.drop_last());
    if is_prefix(p, k.drop_last()) {
        assert(k.subrange(0, p.len() as int) =~= k.drop_last().subrange(0, p.len() as int));
    }
}

/// Removing everything under a prefix keeps each remaining resource's
/// parent when the parents are removed under the same prefix.
pub proof fn lemma_children_without_under<V, W>(m: Map<Seq<Seq<char>>, V>, parents: Map<Seq<Seq<char>>, W>, n: nat, p: Seq<Seq<char>>)
    requires
        children_of(m, parents, n),
        n > 0,
    ensures
        children_of(without_under(m, p), without_under(parents, p), n),
{
    assert forall|k: Seq<Seq<char>>| #[trigger] without_under(m, p).contains_key(k) implies k.len() == n && without_under(parents, p).contains_key(k.drop_last()) by {
        lemma_under_parent(p, k);
    }
}

/// Removing a parent with everything under it keeps the remaining
/// resources' parents.
pub proof fn lemma_children_remove_parent<V, W>(m: Map<Seq<Seq<char>>, V>, parents: Map<Seq<Seq<char>>, W>, n: nat, key: Seq<Seq<char>>)
    requires
        children_of(m, parents, n),
        n > 0,
    ensures
        children_of(without_under(m, key), parents.remove(key), n),
{
    assert forall|k: Seq<Seq<char>>| #[trigger] without_under(m, key).contains_key(k) implies k.len() == n && parents.remove(key).contains_key(k.drop_last()) by {
        lemma_under_parent(key, k);
        if k.drop_last() == key {
            assert(is_prefix(key, k));
        }
    }
}

/// Removing resources keeps the parents of the others.
pub proof fn lemma_children_fewer<V, W>(m: Map<Seq<Seq<char>>, V>, m2: Map<Seq<Seq<char>>, V>, parents: Map<Seq<Seq<char>>, W>, n: nat)
    requires
        children_of(m, parents, n),
        m2.dom().subset_of(m.dom()),
    ensures
        children_of(m2, parents, n),
{
    assert forall|k: Seq<Seq<char>>| #[trigger] m2.contains_key(k) implies k.len() == n && parents.contains_key(k.drop_last()) by {
        assert(m.contains_key(k));
    }
}

/// More parents keep every resource's parent.
pub proof fn lemma_children_more_parents<V, W>(m: Map<Seq<Seq<char>>, V>, parents: Map<Seq<Seq<char>>, W>, parents2: Map<Seq<Seq<char>>, W>, n: nat)
    requires
        children_of(m, parents, n),
        parents.dom().subset_of(parents2.dom()),
    ensures
        children_of(m, parents2, n),
{
    assert forall|k: Seq<Seq<char>>| #[trigger] m.contains_key(k) implies k.len() == n && parents2.contains_key(k.drop_last()) by {
        assert(parents.contains_key(k.drop_last()));
    }
}

/// A resource put into an existing parent keeps the hierarchy.
pub proof fn lemma_children_insert<V, W>(m: Map<Seq<Seq<char>>, V>, parents: Map<Seq<Seq<char>>, W>, n: nat, k: Seq<Seq<char>>, v: V)
    requires
        children_of(m, parents, n),
        k.len() == n,
        parents.contains_key(k.drop_last()),
    ensures
        children_of(m.insert(k, v), parents, n),
{
}

/// Removing the contents under a prefix keeps the hierarchy.
pub proof fn lemma_wf_without_contents(v: StoreView, prefix: Seq<Seq<char>>)
    requires
        parents_exist(v),
    ensures
        parents_exist(v.without_contents(prefix)),
{
    let w = v.without_contents(prefix);
    lemma_children_fewer(v.storage_accounts, w.storage_accounts, v.resource_groups, 3);
    lemma_children_fewer(v.virtual_machines, w.virtual_machines, v.resource_groups, 3);
    lemma_children_fewer(v.virtual_networks, w.virtual_networks, v.resource_groups, 3);
    lemma_children_fewer(v.network_security_groups, w.network_security_groups, v.resource_groups, 3);
    lemma_children_fewer(v.network_interfaces, w.network_interfaces, v.resource_groups, 3);
    lemma_children_fewer(v.public_ip_addresses, w.public_ip_addresses, v.resource_groups, 3);
    lemma_children_fewer(v.route_tables, w.route_tables, v.resource_groups, 3);
    lemma_children_fewer(v.application_security_groups, w.application_security_groups, v.resource_groups, 3);
    lemma_children_without_under(v.containers, v.storage_accounts, 4, prefix);
    lemma_children_without_under(v.blobs, v.containers, 5, prefix);
    lemma_children_without_under(v.subnets, v.virtual_networks, 4, prefix);
    lemma_children_without_under(v.peerings, v.virtual_networks, 4, prefix);
    lemma_children_without_under(v.routes, v.route_tables, 4, prefix);
}

/// Creating or replacing a group of an existing subscription keeps the
/// hierarchy.
pub proof fn lemma_wf_group_put(v: StoreView, sub: Seq<char>, name: Seq<char>, doc: Json)
    requires
        parents_exist(v),
        v.subscriptions.contains_key(seq![sub]),
    ensures
        parents_exist(group_put(v, sub, name, doc)),
{
    let key = seq![sub, name];
    assert(key.drop_last() =~= seq![sub]);
    lemma_wf_without_contents(v, key);
    let w = v.without_contents(key);
    let g = v.resource_groups.insert(key, doc);
    lemma_children_insert(v.resource_groups, v.subscriptions, 2, key, doc);
    lemma_children_more_parents(w.storage_accounts, w.resource_groups, g, 3);
    lemma_children_more_parents(w.virtual_machines, w.resource_groups, g, 3);
    lemma_children_more_parents(w.virtual_networks, w.resource_groups, g, 3);
    lemma_children_more_parents(w.network_security_groups, w.resource_groups, g, 3);
    lemma_children_more_parents(w.network_interfaces, w.resource_groups, g, 3);
    lemma_children_more_parents(w.public_ip_addresses, w.resource_groups, g, 3);
    lemma_children_more_parents(w.route_tables, w.resource_groups, g, 3);
    lemma_children_more_parents(w.application_security_groups, w.resource_groups, g, 3);
}

/// Deleting a group with everything in it keeps the hierarchy.
pub proof fn lemma_wf_group_removed(v: StoreView, sub: Seq<char>, name: Seq<char>)
    requires
        parents_exist(v),
    ensures
        parents_exist(group_removed(v, sub, name)),
{
    let key = seq![sub, name];
    lemma_wf_without_contents(v, key);
    lemma_children_fewer(v.resource_groups, v.resource_groups.remove(key), v.subscriptions, 2);
    lemma_children_remove_parent(v.storage_accounts, v.resource_groups, 3, key);
    lemma_children_remove_parent(v.virtual_machines, v.resource_groups, 3, key);
    lemma_children_remove_parent(v.virtual_networks, v.resource_groups, 3, key);
    lemma_children_remove_parent(v.network_security_groups, v.resource_groups, 3, key);
    lemma_children_remove_parent(v.network_interfaces, v.resource_groups, 3, key);
    lemma_children_remove_parent(v.public_ip_addresses, v.resource_groups, 3, key);
    lemma_children_remove_parent(v.route_tables, v.resource_groups, 3, key);
    lemma_children_remove_parent(v.application_security_groups, v.resource_groups, 3, key);
}

/// The configured subscriptions have one name each, and every configured
/// group lies in a configured subscription.
pub proof fn lemma_configured_hierarchy(subs: Seq<(String, SubscriptionConfig)>)
    ensures
        forall|k: Seq<Seq<char>>| #[trigger] configured_subscriptions(subs).contains_key(k) ==> k.len() == 1,
        children_of(configured_groups(subs), configured_subscriptions(subs), 2),
    decreases subs.len(),
{
    if subs.len() > 0 {
        let r = subs.drop_last();
        let c = subs.last().1;
        lemma_configured_hierarchy(r);
        lemma_seeded_keys(c.id@, c.resource_groups@);
        assert forall|k: Seq<Seq<char>>| #[trigger] configured_groups(subs).contains_key(k) implies k.len() == 2
            && configured_subscriptions(subs).contains_key(k.drop_last()) by {
            if seeded_groups(c.id@, c.resource_groups@).contains_key(k) {
                assert(k.drop_last() =~= seq![c.id@]);
            } else {
                assert(configured_groups(r).contains_key(k));
            }
        }
    }
}

/// Every seeded group of `sub` has two names, the first `sub`.
proof fn lemma_seeded_keys(sub: Seq<char>, seeds: Seq<ResourceGroupSeed>)
    ensures
        forall|k: Seq<Seq<char>>| #[trigger] seeded_groups(sub, seeds).contains_key(k) ==> k.len() == 2 && k[0] == sub,
    decreases seeds.len(),
{
    if seeds.len() > 0 {
        lemma_seeded_keys(sub, seeds.drop_last());
        let m = seeded_groups(sub, seeds.drop_last());
        let key = seq![sub, seeds.last().name@];
        assert forall|k: Seq<Seq<char>>| #[trigger] seeded_groups(sub, seeds).contains_key(k) implies k.len() == 2 && k[0] == sub by {
            if k != key {
                assert(m.contains_key(k));
            }
        }
    } else {
        assert(seeded_groups(sub, seeds) == Map::<Seq<Seq<char>>, Json>::empty());
    }
}

/// The state after resource group `name` is created or replaced: it
/// holds `doc` and nothing below it.
pub open spec fn group_put(v: StoreView, sub: Seq<char>, name: Seq<char>, doc: Json) -> StoreView {
    StoreView {
        resource_groups: v.resource_groups.insert(seq![sub, name], doc),
        ..v.without_contents(seq![sub, name])
    }
}

/// The state after resource group `name` is deleted with everything in
/// it.
pub open spec fn group_removed(v: StoreView, sub: Seq<char>, name: Seq<char>) -> StoreView {
    StoreView {
        resource_groups: v.resource_groups.remove(seq![sub, name]),
        ..v.without_contents(seq![sub, name])
    }
}

/// The configuration the mock starts with when none is given.
pub open spec fn default_subscription_id() -> Seq<char> {
    "00000000-0000-0000-0000-000000000000"@
}

impl MockState {
    /// Removes every resource under `prefix` from the collections below
    /// resource groups.
    pub fn drop_contents(&mut self, prefix: &Path)
        ensures
            crate::store::parents_exist(old(self)@) ==> crate::store::parents_exist(final(self)@),
            final(self)@ == old(self)@.without_contents(prefix@),
    {
        proof {
            if parents_exist(old(self)@) {
                lemma_wf_without_contents(old(self)@, prefix@);
            }
        }
        self.storage_accounts.remove_under(prefix);
        self.containers.remove_under(prefix);
        self.blobs.remove_under(prefix);
        self.virtual_machines.remove_under(prefix);
        self.virtual_networks.remove_under(prefix);
        self.subnets.remove_under(prefix);
        self.peerings.remove_under(prefix);
        self.network_security_groups.remove_under(prefix);
        self.network_interfaces.remove_under(prefix);
        self.public_ip_addresses.remove_under(prefix);
        self.route_tables.remove_under(prefix);
        self.routes.remove_under(prefix);
        self.application_security_groups.remove_under(prefix);
    }

    /// A state holding the subscriptions and seed resource groups of
    /// `config`.
    pub fn from_config(config: &AzureMockConfig) -> (s: MockState)
        ensures
            s@ == (StoreView {
                subscriptions: configured_subscriptions(config.subscriptions@),
                resource_groups: configured_groups(config.subscriptions@),
                ..empty_view()
            }),
            parents_exist(s@),
    {
        let mut s = MockState::empty();
        let subs = &config.subscriptions;
        let mut i: usize = 0;
        while i < subs.len()
            invariant
                i <= subs@.len(),
                s@ == (StoreView {
                    subscriptions: configured_subscriptions(subs@.take(i as int)),
                    resource_groups: configured_groups(subs@.take(i as int)),
                    ..empty_view()
                }),
            decreases subs.len() - i,
        {
            let c = &subs[i].1;
            proof {
                assert(subs@.take(i + 1).drop_last() =~= subs@.take(i as int));
            }
            let doc = make_subscription(c.id.as_str(), c.display_name.as_str(), c.state.as_str(), c.tenant_id.as_str());
            s.subscriptions.insert(path1(c.id.as_str()), doc);
            let prefix = path1(c.id.as_str());
            s.resource_groups.remove_under(&prefix);
            let ghost base = s@.resource_groups;
            proof {
                assert(seeded_groups(c.id@, c.resource_groups@.take(0)) =~= Map::<Seq<Seq<char>>, Json>::empty());
                assert(base.union_prefer_right(Map::<Seq<Seq<char>>, Json>::empty()) =~= base);
            }
            let mut j: usize = 0;
            while j < c.resource_groups.len()
                invariant
                    j <= c.resource_groups@.len(),
                    s@ == (StoreView {
                        subscriptions: configured_subscriptions(subs@.take(i + 1)),
                        resource_groups: base.union_prefer_right(seeded_groups(c.id@, c.resource_groups@.take(j as int))),
                        ..empty_view()
                    }),
                decreases c.resource_groups.len() - j,
            {
                let seed = &c.resource_groups[j];
                let tags = string_pairs_to_object(&seed.tags);
                let doc = make_resource_group(c.id.as_str(), seed.name.as_str(), seed.location.as_str(), tags);
                s.resource_groups.insert(path2(c.id.as_str(), seed.name.as_str()), doc);
                proof {
                    let seeds = c.resource_groups@;
                    assert(seeds.take(j + 1).drop_last() =~= seeds.take(j as int));
                    assert(s@.resource_groups =~= base.union_prefer_right(seeded_groups(c.id@, seeds.take(j + 1))));
                }
                j = j + 1;
            }
            proof {
                assert(c.resource_groups@.take(c.resource_groups@.len() as int) =~= c.resource_groups@);
            }
            i = i + 1;
        }
        proof {
            assert(subs@.take(subs@.len() as int) =~= subs@);
            lemma_configured_hierarchy(subs@);
        }
        s
    }

    /// The state the mock starts with by default: one enabled subscription
    /// `00000000-0000-0000-0000-000000000000` named `Mock Subscription`.
    pub fn with_defaults() -> (s: MockState)
        ensures
            s@.subscriptions == map![seq![default_subscription_id()] => subscription_doc(
                default_subscription_id(),
                "Mock Subscription"@,
                "Enabled"@,
                "00000000-0000-0000-0000-000000000001"@,
            )],
            s@.resource_groups == Map::<Seq<Seq<char>>, Json>::empty(),
            s@ == (StoreView { subscriptions: s@.subscriptions, ..empty_view() }),
            parents_exist(s@),
    {
        let sub = SubscriptionConfig {
            id: crate::text::owned("00000000-0000-0000-0000-000000000000"),
            display_name: crate::text::owned("Mock Subscription"),
            tenant_id: crate::text::owned("00000000-0000-0000-0000-000000000001"),
            state: crate::text::owned("Enabled"),
            resource_groups: Vec::new(),
        };
        let config = AzureMockConfig {
            server: crate::config::ServerConfig::default(),
            subscriptions: vec![(crate::text::owned("default"), sub)],
        };
        let s = MockState::from_config(&config);
        proof {
            let subs = config.subscriptions@;
            reveal_with_fuel(configured_subscriptions, 2);
            reveal_with_fuel(configured_groups, 2);
            reveal_with_fuel(seeded_groups, 2);
            assert(subs.drop_last() =~= Seq::<(String, SubscriptionConfig)>::empty());
            assert(without_under(Map::<Seq<Seq<char>>, Json>::empty(), seq![default_subscription_id()]) =~= Map::<Seq<Seq<char>>, Json>::empty());
            assert(seeded_groups(default_subscription_id(), subs[0].1.resource_groups@) =~= Map::<Seq<Seq<char>>, Json>::empty());
            assert(s@.subscriptions =~= map![seq![default_subscription_id()] => subscription_doc(
                default_subscription_id(),
                "Mock Subscription"@,
                "Enabled"@,
                "00000000-0000-0000-0000-000000000001"@,
            )]);
            assert(s@.resource_groups =~= Map::<Seq<Seq<char>>, Json>::empty());
        }
        s
    }

    // ── Subscriptions ──────────────────────────────────────────────────

    /// All subscriptions, in the order they were configured.
    pub fn list_subscriptions(&self) -> (p: Page)
        ensures
            docs(p.value@) == self.subscriptions.vals(),
            lists_by(docs(p.value@), self@.subscriptions, self.subscriptions.keys()),
            p.next_link is None,
    {
        let v = self.subscriptions.values();
        proof {
            assert(docs(v@) =~= v@.map_values(|x: JsonValue| x@));
        }
        Page::new(v)
    }

    /// The subscription with the given id.
    pub fn get_subscription(&self, subscription_id: &str) -> (r: Option<JsonValue>)
        ensures
            match r {
                Some(d) => self@.subscriptions.contains_key(seq![subscription_id@])
                    && d@ == self@.subscriptions[seq![subscription_id@]],
                None => !self@.subscriptions.contains_key(seq![subscription_id@]),
            },
    {
        match self.subscriptions.get(&path1(subscription_id)) {
            Some(d) => Some(d.deep_clone()),
            None => None,
        }
    }
}

/// Body of a request that creates or replaces a resource group.
pub struct CreateResourceGroupParams {
    pub location: String,
    pub tags: Vec<(String, String)>,
}

impl MockState {
    // ── Resource groups ────────────────────────────────────────────────

    /// Creates or replaces resource group `name` (PUT semantics): the group
    /// starts empty, and `true` tells that it did not exist before.
    pub fn create_resource_group(&mut self, subscription_id: &str, name: &str, params: &CreateResourceGroupParams) -> (r: Result<(JsonValue, bool), StoreError>)
        ensures
            crate::store::parents_exist(old(self)@) ==> crate::store::parents_exist(final(self)@),
            !old(self)@.subscriptions.contains_key(seq![subscription_id@]) ==> (r matches Err(StoreError::SubscriptionNotFound(n)) && n@ == subscription_id@ && final(self)@ == old(self)@),
            old(self)@.subscriptions.contains_key(seq![subscription_id@]) ==> (r matches Ok((doc, is_new)) && {
                &&& doc@ == resource_group_doc(subscription_id@, name@, params.location@, string_pairs_object(params.tags@))
                &&& is_new == !old(self)@.resource_groups.contains_key(seq![subscription_id@, name@])
                &&& final(self)@ == group_put(old(self)@, subscription_id@, name@, doc@)
            }),
    {
        if !self.subscriptions.contains_key(&path1(subscription_id)) {
            return Err(StoreError::SubscriptionNotFound(crate::text::owned(subscription_id)));
        }
        let tags = string_pairs_to_object(&params.tags);
        let doc = make_resource_group(subscription_id, name, params.location.as_str(), tags);
        let key = path2(subscription_id, name);
        let is_new = !self.resource_groups.contains_key(&key);
        self.drop_contents(&key);
        self.resource_groups.insert(key, doc.deep_clone());
        proof {
            if parents_exist(old(self)@) {
                lemma_wf_group_put(old(self)@, subscription_id@, name@, doc@);
            }
        }
        Ok((doc, is_new))
    }

    /// Resource group `name`.
    pub fn get_resource_group(&self, subscription_id: &str, name: &str) -> (r: Option<JsonValue>)
        ensures
            match r {
                Some(d) => self@.resource_groups.contains_key(seq![subscription_id@, name@])
                    && d@ == self@.resource_groups[seq![subscription_id@, name@]],
                None => !self@.resource_groups.contains_key(seq![subscription_id@, name@]),
            },
    {
        match self.resource_groups.get(&path2(subscription_id, name)) {
            Some(d) => Some(d.deep_clone()),
            None => None,
        }
    }

    /// The resource groups of a subscription; `None` when it does not exist.
    pub fn list_resource_groups(&self, subscription_id: &str) -> (r: Option<Page>)
        ensures
            match r {
                Some(p) => self@.subscriptions.contains_key(seq![subscription_id@])
                    && docs(p.value@) == values_under(self.resource_groups.pairs(), seq![subscription_id@])
                    && lists_by(docs(p.value@), map_under(self@.resource_groups, seq![subscription_id@]), keys_under(self.resource_groups.pairs(), seq![subscription_id@]))
                    && p.next_link is None,
                None => !self@.subscriptions.contains_key(seq![subscription_id@]),
            },
    {
        if !self.subscriptions.contains_key(&path1(subscription_id)) {
            return None;
        }
        let v = self.resource_groups.values_under(&path1(subscription_id));
        proof {
            assert(docs(v@) =~= v@.map_values(|x: JsonValue| x@));
        }
        Some(Page::new(v))
    }

    /// Deletes resource group `name` with everything in it; `Ok(false)`
    /// when there was no such group.
    pub fn delete_resource_group(&mut self, subscription_id: &str, name: &str) -> (r: Result<bool, StoreError>)
        ensures
            crate::store::parents_exist(old(self)@) ==> crate::store::parents_exist(final(self)@),
            !old(self)@.subscriptions.contains_key(seq![subscription_id@]) ==> (r matches Err(StoreError::SubscriptionNotFound(n)) && n@ == subscription_id@ && final(self)@ == old(self)@),
            old(self)@.subscriptions.contains_key(seq![subscription_id@]) ==> (r matches Ok(existed) && {
                &&& existed == old(self)@.resource_groups.contains_key(seq![subscription_id@, name@])
                &&& final(self)@ == group_removed(old(self)@, subscription_id@, name@)
            }),
    {
        if !self.subscriptions.contains_key(&path1(subscription_id)) {
            return Err(StoreError::SubscriptionNotFound(crate::text::owned(subscription_id)));
        }
        let key = path2(subscription_id, name);
        let existed = self.resource_groups.remove(&key);
        self.drop_contents(&key);
        proof {
            if parents_exist(old(self)@) {
                lemma_wf_group_removed(old(self)@, subscription_id@, name@);
            }
        }
        Ok(existed.is_some())
    }

    /// Whether resource group `name` exists.
    pub fn resource_group_exists(&self, subscription_id: &str, name: &str) -> (b: bool)
        ensures
            b == self@.resource_groups.contains_key(seq![subscription_id@, name@]),
    {
        self.resource_groups.contains_key(&path2(subscription_id, name))
    }

    /// Replaces the tags of resource group `name` when `tags` is given;
    /// `None` when there is no such group.
    pub fn update_resource_group(&mut self, subscription_id: &str, name: &str, tags: Option<Vec<(String, String)>>) -> (r: Option<JsonValue>)
        ensures
            crate::store::parents_exist(old(self)@) ==> crate::store::parents_exist(final(self)@),
            !old(self)@.resource_groups.contains_key(seq![subscription_id@, name@]) ==> r is None && final(self)@ == old(self)@,
            old(self)@.resource_groups.contains_key(seq![subscription_id@, name@]) ==> (r matches Some(d) && {
                let before = old(self)@.resource_groups[seq![subscription_id@, name@]];
                &&& d@ == match tags {
                    Some(t) => crate::json::json_set(before, "tags"@, string_pairs_object(t@)),
                    None => before,
                }
                &&& final(self)@ == (StoreView {
                    resource_groups: old(self)@.resource_groups.insert(seq![subscription_id@, name@], d@),
                    ..old(self)@
                })
            }),
    {
        let key = path2(subscription_id, name);
        match self.resource_groups.find(&key) {
            None => None,
            Some(i) => {
                let mut doc = self.resource_groups.value_at(i).deep_clone();
                match &tags {
                    Some(t) => {
                        let obj = string_pairs_to_object(t);
                        doc.set("tags", obj);
                    },
                    None => {},
                }
                let out = doc.deep_clone();
                self.resource_groups.replace_at(i, doc);
                Some(out)
            },
        }
    }
}

} // verus!
