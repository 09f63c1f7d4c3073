use vstd::prelude::*;

use crate::json::{
    empty_object, jstr, json_get, json_set, members_model, merged, push_member,
    string_pairs_object, string_pairs_to_object, Json, JsonValue,
};
use crate::keyed::{
    child, keys_under, lemma_lists_by_map_values, lists_by, map_under, path1, path2, path3, values_under,
    DeepCopy, KeyedMap, Path,
};
use crate::fresh::Fresh;
use crate::store::{docs, without_under, MockState, Page, StoreError, StoreView};
use crate::text::{concat_all, join, opt_text, owned, text_eq};

verus! {

/// A storage account: its management document and the blob service
/// properties of its data plane.
pub struct AccountState {
    pub doc: JsonValue,
    pub service_properties: JsonValue,
}

/// Model of a storage account.
pub struct AccountView {
    pub doc: Json,
    pub service_properties: Json,
}

impl View for AccountState {
    type V = AccountView;

    open spec fn view(&self) -> AccountView {
        AccountView { doc: self.doc@, service_properties: self.service_properties@ }
    }
}

impl DeepCopy for AccountState {
    fn deep_copy(&self) -> (r: Self) {
        AccountState { doc: self.doc.deep_clone(), service_properties: self.service_properties.deep_clone() }
    }
}

/// A blob container: its properties and its user metadata.
pub struct ContainerState {
    pub properties: JsonValue,
    pub metadata: JsonValue,
}

/// Model of a blob container.
pub struct ContainerView {
    pub properties: Json,
    pub metadata: Json,
}

impl View for ContainerState {
    type V = ContainerView;

    open spec fn view(&self) -> ContainerView {
        ContainerView { properties: self.properties@, metadata: self.metadata@ }
    }
}

impl DeepCopy for ContainerState {
    fn deep_copy(&self) -> (r: Self) {
        ContainerState { properties: self.properties.deep_clone(), metadata: self.metadata.deep_clone() }
    }
}

/// A blob: its properties, its content, and the blocks staged or
/// committed for it.
pub struct BlobState {
    pub properties: JsonValue,
    pub data: Vec<u8>,
    pub uncommitted: KeyedMap<String, Vec<u8>>,
    pub committed: Vec<(String, Vec<u8>)>,
}

/// Model of a blob.
pub struct BlobView {
    pub properties: Json,
    pub data: Seq<u8>,
    /// Staged blocks by id.
    pub uncommitted: Map<Seq<char>, Seq<u8>>,
    /// Committed blocks, in blob order.
    pub committed: Seq<(Seq<char>, Seq<u8>)>,
}

/// Model of a list of blocks.
pub open spec fn blocks_model(b: Seq<(String, Vec<u8>)>) -> Seq<(Seq<char>, Seq<u8>)> {
    b.map_values(|e: (String, Vec<u8>)| (e.0@, e.1@))
}

impl View for BlobState {
    type V = BlobView;

    open spec fn view(&self) -> BlobView {
        BlobView {
            properties: self.properties@,
            data: self.data@,
            uncommitted: self.uncommitted.map(),
            committed: blocks_model(self.committed@),
        }
    }
}

/// Copies of a list of blocks.
pub fn copy_blocks(b: &Vec<(String, Vec<u8>)>) -> (r: Vec<(String, Vec<u8>)>)
    ensures
        blocks_model(r@) == blocks_model(b@),
{
    let mut out: Vec<(String, Vec<u8>)> = Vec::new();
    let mut i: usize = 0;
    while i < b.len()
        invariant
            i <= b@.len(),
            blocks_model(out@) == blocks_model(b@.take(i as int)),
        decreases b.len() - i,
    {
        let e = (b[i].0.clone(), b[i].1.deep_copy());
        let ghost prev = out@;
        out.push(e);
        proof {
            assert(blocks_model(out@) =~= blocks_model(prev).push((e.0@, e.1@)));
            assert(blocks_model(b@.take(i + 1)) =~= blocks_model(b@.take(i as int)).push(
                (b@[i as int].0@, b@[i as int].1@),
            ));
        }
        i = i + 1;
    }
    proof {
        assert(b@.take(b@.len() as int) =~= b@);
    }
    out
}

impl DeepCopy for BlobState {
    fn deep_copy(&self) -> (r: Self) {
        BlobState {
            properties: self.properties.deep_clone(),
            data: self.data.deep_copy(),
            uncommitted: self.uncommitted.copy(),
            committed: copy_blocks(&self.committed),
        }
    }
}

} // verus!

verus! {

/// SKU of a storage account.
pub struct StorageSku {
    pub name: String,
    pub tier: Option<String>,
}

/// Body of a request that creates or replaces a storage account. The
/// properties, identity and extended location a client may send are not
/// kept: the account gets the mock's defaults.
pub struct CreateStorageAccountParams {
    pub location: String,
    pub kind: String,
    pub sku: StorageSku,
    pub tags: Vec<(String, String)>,
    pub properties: Option<JsonValue>,
    pub identity: Option<JsonValue>,
    pub extended_location: Option<JsonValue>,
}

/// Resource id of a storage account.
pub open spec fn storage_account_id(sub: Seq<char>, rg: Seq<char>, name: Seq<char>) -> Seq<char> {
    "/subscriptions/"@ + sub + "/resourceGroups/"@ + rg + "/providers/Microsoft.Storage/storageAccounts/"@ + name
}

/// The SKU document: its name, and its tier when there is one.
pub open spec fn sku_doc(name: Seq<char>, tier: Option<Seq<char>>) -> Json {
    match tier {
        Some(t) => Json::Object(seq![("name"@, Json::Str(name)), ("tier"@, Json::Str(t))]),
        None => Json::Object(seq![("name"@, Json::Str(name))]),
    }
}

/// Endpoints of the data plane of an account.
pub open spec fn endpoints_doc(name: Seq<char>) -> Json {
    Json::Object(
        seq![
            ("blob"@, Json::Str("http://127.0.0.1/"@ + name)),
            ("queue"@, Json::Str("http://127.0.0.1/"@ + name + "-queue"@)),
            ("table"@, Json::Str("http://127.0.0.1/"@ + name + "-table"@)),
            ("file"@, Json::Str("http://127.0.0.1/"@ + name + "-file"@)),
        ],
    )
}

/// Properties every new storage account gets.
pub open spec fn account_properties_doc(name: Seq<char>, location: Seq<char>, created: Seq<char>) -> Json {
    Json::Object(
        seq![
            ("provisioningState"@, Json::Str("Succeeded"@)),
            ("creationTime"@, Json::Str(created)),
            ("primaryLocation"@, Json::Str(location)),
            ("statusOfPrimary"@, Json::Str("available"@)),
            ("primaryEndpoints"@, endpoints_doc(name)),
            ("allowBlobPublicAccess"@, Json::Bool(false)),
            ("allowSharedKeyAccess"@, Json::Bool(true)),
            ("allowCrossTenantReplication"@, Json::Bool(false)),
            ("minimumTlsVersion"@, Json::Str("TLS1_2"@)),
            ("supportsHttpsTrafficOnly"@, Json::Bool(true)),
            ("publicNetworkAccess"@, Json::Str("Enabled"@)),
        ],
    )
}

/// The document of a new storage account.
pub open spec fn storage_account_doc(
    sub: Seq<char>,
    rg: Seq<char>,
    name: Seq<char>,
    location: Seq<char>,
    tags: Json,
    kind: Seq<char>,
    sku: Json,
    created: Seq<char>,
) -> Json {
    Json::Object(
        seq![
            ("id"@, Json::Str(storage_account_id(sub, rg, name))),
            ("name"@, Json::Str(name)),
            ("type"@, Json::Str("Microsoft.Storage/storageAccounts"@)),
            ("location"@, Json::Str(location)),
            ("tags"@, tags),
            ("kind"@, Json::Str(kind)),
            ("sku"@, sku),
            ("properties"@, account_properties_doc(name, location, created)),
        ],
    )
}

/// Blob service properties of a new account.
pub open spec fn default_service_properties() -> Json {
    Json::Object(seq![("DefaultServiceVersion"@, Json::Str("2023-11-03"@))])
}

/// Whether a document can be read back as a storage account: an object
/// whose id, name, type, location and kind are strings, whose sku is an
/// object with a string name, whose properties are an object, and whose
/// tags, when present, are an object of strings.
pub open spec fn is_account_doc(d: Json) -> bool {
    &&& crate::json::tags_readable(d)
    &&& d is Object
    &&& json_get(d, "id"@) matches Some(Json::Str(_))
    &&& json_get(d, "name"@) matches Some(Json::Str(_))
    &&& json_get(d, "type"@) matches Some(Json::Str(_))
    &&& json_get(d, "location"@) matches Some(Json::Str(_))
    &&& json_get(d, "kind"@) matches Some(Json::Str(_))
    &&& json_get(d, "properties"@) matches Some(Json::Object(_))
    &&& json_get(d, "sku"@) matches Some(sku)
    &&& json_get(sku, "name"@) matches Some(Json::Str(_))
}

fn is_string_member(d: &JsonValue, key: &str) -> (b: bool)
    ensures
        b == (json_get(d@, key@) matches Some(Json::Str(_))),
{
    match d.member(key) {
        Some(v) => match v {
            JsonValue::Str(_) => true,
            _ => false,
        },
        None => false,
    }
}

/// Checks the shape `is_account_doc` describes.
pub fn check_account_doc(d: &JsonValue) -> (b: bool)
    ensures
        b == is_account_doc(d@),
{
    match d {
        JsonValue::Object(_) => {},
        _ => return false,
    }
    if !crate::json::check_tags(d) {
        return false;
    }
    if !(is_string_member(d, "id") && is_string_member(d, "name") && is_string_member(d, "type")
        && is_string_member(d, "location") && is_string_member(d, "kind")) {
        return false;
    }
    let sku_ok = match d.member("sku") {
        Some(sku) => is_string_member(sku, "name"),
        None => false,
    };
    if !sku_ok {
        return false;
    }
    match d.member("properties") {
        Some(p) => match p {
            JsonValue::Object(_) => true,
            _ => false,
        },
        None => false,
    }
}

/// Why an operation on a resource inside a group is refused: the
/// subscription or the group is missing.
pub open spec fn group_missing(v: StoreView, sub: Seq<char>, rg: Seq<char>) -> bool {
    !v.subscriptions.contains_key(seq![sub]) || !v.resource_groups.contains_key(seq![sub, rg])
}

/// The error for a missing subscription or group, as `group_missing`
/// finds it: the subscription is checked first.
pub open spec fn group_error_matches(v: StoreView, sub: Seq<char>, rg: Seq<char>, e: StoreError) -> bool {
    if !v.subscriptions.contains_key(seq![sub]) {
        e matches StoreError::SubscriptionNotFound(n) && n@ == sub
    } else {
        e matches StoreError::ResourceGroupNotFound(n) && n@ == rg
    }
}

impl MockState {
    /// Checks that the subscription and the resource group exist.
    pub fn check_group(&self, subscription_id: &str, resource_group: &str) -> (r: Result<(), StoreError>)
        ensures
            r is Ok <==> !group_missing(self@, subscription_id@, resource_group@),
            r matches Err(e) ==> group_error_matches(self@, subscription_id@, resource_group@, e),
    {
        if !self.subscriptions.contains_key(&path1(subscription_id)) {
            return Err(StoreError::SubscriptionNotFound(owned(subscription_id)));
        }
        if !self.resource_groups.contains_key(&path2(subscription_id, resource_group)) {
            return Err(StoreError::ResourceGroupNotFound(owned(resource_group)));
        }
        Ok(())
    }
}

/// Builds the document of a new storage account.
pub fn make_storage_account(sub: &str, rg: &str, name: &str, params: &CreateStorageAccountParams, created: &str) -> (r: JsonValue)
    ensures
        r@ == storage_account_doc(
            sub@,
            rg@,
            name@,
            params.location@,
            string_pairs_object(params.tags@),
            params.kind@,
            sku_doc(params.sku.name@, opt_text(params.sku.tier)),
            created@,
        ),
{
    proof {
        reveal_with_fuel(concat_all, 7);
    }
    let id = join(&["/subscriptions/", sub, "/resourceGroups/", rg, "/providers/Microsoft.Storage/storageAccounts/", name]);
    let mut sku: Vec<(String, JsonValue)> = Vec::new();
    push_member(&mut sku, "name", jstr(params.sku.name.as_str()));
    match &params.sku.tier {
        Some(t) => push_member(&mut sku, "tier", jstr(t.as_str())),
        None => {},
    }
    let mut ep: Vec<(String, JsonValue)> = Vec::new();
    push_member(&mut ep, "blob", JsonValue::Str(join(&["http://127.0.0.1/", name])));
    push_member(&mut ep, "queue", JsonValue::Str(join(&["http://127.0.0.1/", name, "-queue"])));
    push_member(&mut ep, "table", JsonValue::Str(join(&["http://127.0.0.1/", name, "-table"])));
    push_member(&mut ep, "file", JsonValue::Str(join(&["http://127.0.0.1/", name, "-file"])));
    let mut props: Vec<(String, JsonValue)> = Vec::new();
    push_member(&mut props, "provisioningState", jstr("Succeeded"));
    push_member(&mut props, "creationTime", jstr(created));
    push_member(&mut props, "primaryLocation", jstr(params.location.as_str()));
    push_member(&mut props, "statusOfPrimary", jstr("available"));
    push_member(&mut props, "primaryEndpoints", JsonValue::Object(ep));
    push_member(&mut props, "allowBlobPublicAccess", JsonValue::Bool(false));
    push_member(&mut props, "allowSharedKeyAccess", JsonValue::Bool(true));
    push_member(&mut props, "allowCrossTenantReplication", JsonValue::Bool(false));
    push_member(&mut props, "minimumTlsVersion", jstr("TLS1_2"));
    push_member(&mut props, "supportsHttpsTrafficOnly", JsonValue::Bool(true));
    push_member(&mut props, "publicNetworkAccess", jstr("Enabled"));
    let mut ms: Vec<(String, JsonValue)> = Vec::new();
    push_member(&mut ms, "id", JsonValue::Str(id));
    push_member(&mut ms, "name", jstr(name));
    push_member(&mut ms, "type", jstr("Microsoft.Storage/storageAccounts"));
    push_member(&mut ms, "location", jstr(params.location.as_str()));
    push_member(&mut ms, "tags", string_pairs_to_object(&params.tags));
    push_member(&mut ms, "kind", jstr(params.kind.as_str()));
    push_member(&mut ms, "sku", JsonValue::Object(sku));
    push_member(&mut ms, "properties", JsonValue::Object(props));
    proof {
        let tier = opt_text(params.sku.tier);
        assert(members_model(sku@) =~= sku_doc(params.sku.name@, tier)->Object_0);
        assert(members_model(ep@) =~= endpoints_doc(name@)->Object_0);
        assert(members_model(props@) =~= account_properties_doc(name@, params.location@, created@)->Object_0);
        assert(members_model(ms@) =~= storage_account_doc(
            sub@,
            rg@,
            name@,
            params.location@,
            string_pairs_object(params.tags@),
            params.kind@,
            sku_doc(params.sku.name@, tier),
            created@,
        )->Object_0);
    }
    JsonValue::Object(ms)
}

/// Blob service properties of a new account.
pub fn make_default_service_properties() -> (r: JsonValue)
    ensures
        r@ == default_service_properties(),
{
    let mut ms: Vec<(String, JsonValue)> = Vec::new();
    push_member(&mut ms, "DefaultServiceVersion", jstr("2023-11-03"));
    proof {
        assert(members_model(ms@) =~= default_service_properties()->Object_0);
    }
    JsonValue::Object(ms)
}

} // verus!

verus! {

/// The documents of a sequence of accounts.
pub open spec fn account_docs(v: Seq<AccountView>) -> Seq<Json> {
    v.map_values(|a: AccountView| a.doc)
}

/// Name check of a new storage account: available, or taken with a reason
/// and a message.
pub open spec fn availability(taken: bool, name: Seq<char>) -> (bool, Option<Seq<char>>, Option<Seq<char>>) {
    if taken {
        (false, Some("AlreadyExists"@), Some("The storage account named "@ + name + " is already taken."@))
    } else {
        (true, None, None)
    }
}

/// Whether some account anywhere has this name.
pub open spec fn account_name_taken(keys: Seq<Seq<Seq<char>>>, name: Seq<char>) -> bool {
    exists|i: int| 0 <= i < keys.len() && keys[i].len() == 3 && keys[i][2] == name
}

/// The keys a storage account is given.
pub open spec fn account_keys(name: Seq<char>) -> Seq<(Seq<char>, Seq<char>, Seq<char>)> {
    seq![
        ("key1"@, "mockkey1"@ + name + "000000000000000000000000000000000000=="@, "FULL"@),
        ("key2"@, "mockkey2"@ + name + "000000000000000000000000000000000000=="@, "FULL"@),
    ]
}

impl MockState {
    // ── Storage accounts (management plane) ───────────────────────────

    /// Creates or replaces storage account `name` (PUT semantics); the
    /// account starts with no containers. `true` tells that it is new.
    pub fn create_storage_account(
        &mut self,
        subscription_id: &str,
        resource_group: &str,
        name: &str,
        params: &CreateStorageAccountParams,
        created: &str,
    ) -> (r: Result<(JsonValue, bool), StoreError>)
        ensures
            crate::store::parents_exist(old(self)@) ==> crate::store::parents_exist(final(self)@),
            group_missing(old(self)@, subscription_id@, resource_group@) ==> (r matches Err(e) && group_error_matches(old(self)@, subscription_id@, resource_group@, e) && final(self)@ == old(self)@),
            !group_missing(old(self)@, subscription_id@, resource_group@) ==> (r matches Ok((doc, is_new)) && {
                let key = seq![subscription_id@, resource_group@, name@];
                &&& doc@ == storage_account_doc(
                    subscription_id@,
                    resource_group@,
                    name@,
                    params.location@,
                    string_pairs_object(params.tags@),
                    params.kind@,
                    sku_doc(params.sku.name@, opt_text(params.sku.tier)),
                    created@,
                )
                &&& is_new == !old(self)@.storage_accounts.contains_key(key)
                &&& final(self)@ == (StoreView {
                    storage_accounts: old(self)@.storage_accounts.insert(
                        key,
                        AccountView { doc: doc@, service_properties: default_service_properties() },
                    ),
                    containers: without_under(old(self)@.containers, key),
                    blobs: without_under(old(self)@.blobs, key),
                    ..old(self)@
                })
            }),
    {
        match self.check_group(subscription_id, resource_group) {
            Err(e) => return Err(e),
            Ok(()) => {},
        }
        let doc = make_storage_account(subscription_id, resource_group, name, params, created);
        let key = path3(subscription_id, resource_group, name);
        let is_new = !self.storage_accounts.contains_key(&key);
        self.containers.remove_under(&key);
        self.blobs.remove_under(&key);
        let state = AccountState { doc: doc.deep_clone(), service_properties: make_default_service_properties() };
        proof {
            if crate::store::parents_exist(old(self)@) {
                lemma_wf_account_put(old(self)@, key@, state@);
            }
        }
        self.storage_accounts.insert(key, state);
        Ok((doc, is_new))
    }

    /// Storage account `name`.
    pub fn get_storage_account(&self, subscription_id: &str, resource_group: &str, name: &str) -> (r: Option<JsonValue>)
        ensures
            match r {
                Some(d) => self@.storage_accounts.contains_key(seq![subscription_id@, resource_group@, name@])
                    && d@ == self@.storage_accounts[seq![subscription_id@, resource_group@, name@]].doc,
                None => !self@.storage_accounts.contains_key(seq![subscription_id@, resource_group@, name@]),
            },
    {
        match self.storage_accounts.get(&path3(subscription_id, resource_group, name)) {
            Some(a) => Some(a.doc.deep_clone()),
            None => None,
        }
    }

    /// The storage accounts of a group; `None` when the subscription or the
    /// group does not exist.
    pub fn list_storage_accounts(&self, subscription_id: &str, resource_group: &str) -> (r: Option<Page>)
        ensures
            match r {
                Some(p) => !group_missing(self@, subscription_id@, resource_group@)
                    && docs(p.value@) == account_docs(values_under(self.storage_accounts.pairs(), seq![subscription_id@, resource_group@]))
                    && lists_by(docs(p.value@), map_under(self@.storage_accounts, seq![subscription_id@, resource_group@]).map_values(|a: AccountView| a.doc), keys_under(self.storage_accounts.pairs(), seq![subscription_id@, resource_group@]))
                    && p.value@.len() == map_under(self@.storage_accounts, seq![subscription_id@, resource_group@]).len()
                    && p.next_link is None,
                None => group_missing(self@, subscription_id@, resource_group@),
            },
    {
        if self.check_group(subscription_id, resource_group).is_err() {
            return None;
        }
        let accounts = self.storage_accounts.values_under(&path2(subscription_id, resource_group));
        let d = account_doc_list(&accounts);
        proof {
            let s = accounts@.map_values(|a: AccountState| a@);
            lemma_lists_by_map_values(s, map_under(self@.storage_accounts, seq![subscription_id@, resource_group@]), keys_under(self.storage_accounts.pairs(), seq![subscription_id@, resource_group@]), |a: AccountView| a.doc);
            assert(docs(d@) =~= s.map_values(|a: AccountView| a.doc));
        }
        Some(Page::new(d))
    }

    /// Deletes storage account `name` with its containers and blobs;
    /// `Ok(false)` when there was no such account.
    pub fn delete_storage_account(&mut self, subscription_id: &str, resource_group: &str, name: &str) -> (r: Result<bool, StoreError>)
        ensures
            crate::store::parents_exist(old(self)@) ==> crate::store::parents_exist(final(self)@),
            group_missing(old(self)@, subscription_id@, resource_group@) ==> (r matches Err(e) && group_error_matches(old(self)@, subscription_id@, resource_group@, e) && final(self)@ == old(self)@),
            !group_missing(old(self)@, subscription_id@, resource_group@) ==> (r matches Ok(existed) && {
                let key = seq![subscription_id@, resource_group@, name@];
                &&& existed == old(self)@.storage_accounts.contains_key(key)
                &&& final(self)@ == (StoreView {
                    storage_accounts: old(self)@.storage_accounts.remove(key),
                    containers: without_under(old(self)@.containers, key),
                    blobs: without_under(old(self)@.blobs, key),
                    ..old(self)@
                })
            }),
    {
        match self.check_group(subscription_id, resource_group) {
            Err(e) => return Err(e),
            Ok(()) => {},
        }
        let key = path3(subscription_id, resource_group, name);
        let existed = self.storage_accounts.remove(&key);
        self.containers.remove_under(&key);
        self.blobs.remove_under(&key);
        proof {
            if crate::store::parents_exist(old(self)@) {
                lemma_wf_account_removed(old(self)@, key@);
            }
        }
        Ok(existed.is_some())
    }

    /// Merges `patch` into the document of storage account `name` (PATCH);
    /// the result must still read as a storage account.
    pub fn update_storage_account(&mut self, subscription_id: &str, resource_group: &str, name: &str, patch: &JsonValue) -> (r: Result<JsonValue, StoreError>)
        ensures
            crate::store::parents_exist(old(self)@) ==> crate::store::parents_exist(final(self)@),
            group_missing(old(self)@, subscription_id@, resource_group@) ==> (r matches Err(e) && group_error_matches(old(self)@, subscription_id@, resource_group@, e) && final(self)@ == old(self)@),
            !group_missing(old(self)@, subscription_id@, resource_group@) ==> {
                let key = seq![subscription_id@, resource_group@, name@];
                if !old(self)@.storage_accounts.contains_key(key) {
                    r matches Err(StoreError::StorageAccountNotFound(n)) && n@ == name@ && final(self)@ == old(self)@
                } else {
                    let m = crate::json::merge_json(old(self)@.storage_accounts[key].doc, patch@);
                    if is_account_doc(m) {
                        r matches Ok(d) && d@ == m && final(self)@ == (StoreView {
                            storage_accounts: old(self)@.storage_accounts.insert(
                                key,
                                AccountView { doc: m, ..old(self)@.storage_accounts[key] },
                            ),
                            ..old(self)@
                        })
                    } else {
                        r matches Err(StoreError::PatchFailed(_)) && final(self)@ == old(self)@
                    }
                }
            },
    {
        match self.check_group(subscription_id, resource_group) {
            Err(e) => return Err(e),
            Ok(()) => {},
        }
        let key = path3(subscription_id, resource_group, name);
        match self.storage_accounts.find(&key) {
            None => Err(StoreError::StorageAccountNotFound(owned(name))),
            Some(i) => {
                let current = self.storage_accounts.value_at(i);
                let m = merged(current.doc.deep_clone(), patch);
                if !check_account_doc(&m) {
                    return Err(StoreError::PatchFailed(owned("the result is not a storage account")));
                }
                let state = AccountState { doc: m.deep_clone(), service_properties: current.service_properties.deep_clone() };
                self.storage_accounts.replace_at(i, state);
                Ok(m)
            },
        }
    }

    /// The storage accounts of every group of a subscription; `None` when
    /// it does not exist.
    pub fn list_all_storage_accounts(&self, subscription_id: &str) -> (r: Option<Page>)
        ensures
            match r {
                Some(p) => self@.subscriptions.contains_key(seq![subscription_id@])
                    && docs(p.value@) == account_docs(values_under(self.storage_accounts.pairs(), seq![subscription_id@]))
                    && lists_by(docs(p.value@), map_under(self@.storage_accounts, seq![subscription_id@]).map_values(|a: AccountView| a.doc), keys_under(self.storage_accounts.pairs(), seq![subscription_id@]))
                    && p.value@.len() == map_under(self@.storage_accounts, seq![subscription_id@]).len()
                    && p.next_link is None,
                None => !self@.subscriptions.contains_key(seq![subscription_id@]),
            },
    {
        if !self.subscriptions.contains_key(&path1(subscription_id)) {
            return None;
        }
        let accounts = self.storage_accounts.values_under(&path1(subscription_id));
        let d = account_doc_list(&accounts);
        proof {
            let s = accounts@.map_values(|a: AccountState| a@);
            lemma_lists_by_map_values(s, map_under(self@.storage_accounts, seq![subscription_id@]), keys_under(self.storage_accounts.pairs(), seq![subscription_id@]), |a: AccountView| a.doc);
            assert(docs(d@) =~= s.map_values(|a: AccountView| a.doc));
        }
        Some(Page::new(d))
    }

    /// Whether `name` is free for a new storage account: it is taken when
    /// any account in any group has it.
    pub fn check_storage_name_availability(&self, name: &str) -> (r: (bool, Option<String>, Option<String>))
        ensures
            (r.0, opt_text(r.1), opt_text(r.2)) == availability(account_name_taken(self.storage_accounts.keys(), name@), name@),
    {
        match self.find_account(name) {
            Some(_) => {
                let m = join(&["The storage account named ", name, " is already taken."]);
                proof {
                    reveal_with_fuel(concat_all, 4);
                }
                (false, Some(owned("AlreadyExists")), Some(m))
            },
            None => (true, None, None),
        }
    }

    /// The access keys of storage account `name`.
    pub fn list_storage_keys(&self, subscription_id: &str, resource_group: &str, name: &str) -> (r: Result<Vec<(String, String, String)>, StoreError>)
        ensures
            match r {
                Ok(keys) => self@.storage_accounts.contains_key(seq![subscription_id@, resource_group@, name@])
                    && keys@.map_values(|k: (String, String, String)| (k.0@, k.1@, k.2@)) == account_keys(name@),
                Err(e) => !self@.storage_accounts.contains_key(seq![subscription_id@, resource_group@, name@])
                    && (e matches StoreError::StorageAccountNotFound(n) && n@ == name@),
            },
    {
        if !self.storage_accounts.contains_key(&path3(subscription_id, resource_group, name)) {
            return Err(StoreError::StorageAccountNotFound(owned(name)));
        }
        proof {
            reveal_with_fuel(concat_all, 4);
        }
        let k1 = join(&["mockkey1", name, "000000000000000000000000000000000000=="]);
        let k2 = join(&["mockkey2", name, "000000000000000000000000000000000000=="]);
        let keys = vec![(owned("key1"), k1, owned("FULL")), (owned("key2"), k2, owned("FULL"))];
        proof {
            assert(keys@.map_values(|k: (String, String, String)| (k.0@, k.1@, k.2@)) =~= account_keys(name@));
        }
        Ok(keys)
    }
}

/// The documents of accounts, in order.
pub fn account_doc_list(accounts: &Vec<AccountState>) -> (r: Vec<JsonValue>)
    ensures
        docs(r@) == account_docs(accounts@.map_values(|a: AccountState| a@)),
{
    let mut out: Vec<JsonValue> = Vec::new();
    let mut i: usize = 0;
    while i < accounts.len()
        invariant
            i <= accounts@.len(),
            docs(out@) == account_docs(accounts@.map_values(|a: AccountState| a@).take(i as int)),
        decreases accounts.len() - i,
    {
        let d = accounts[i].doc.deep_clone();
        let ghost prev = out@;
        out.push(d);
        proof {
            assert(docs(out@) =~= docs(prev).push(d@));
            assert(account_docs(accounts@.map_values(|a: AccountState| a@).take(i + 1)) =~= account_docs(
                accounts@.map_values(|a: AccountState| a@).take(i as int),
            ).push(accounts@[i as int].doc@));
        }
        i = i + 1;
    }
    proof {
        assert(accounts@.map_values(|a: AccountState| a@).take(accounts@.len() as int) =~= accounts@.map_values(|a: AccountState| a@));
    }
    out
}

} // verus!

verus! {

/// Whether key `k` names a storage account called `a`.
pub open spec fn names_account(k: Seq<Seq<char>>, a: Seq<char>) -> bool {
    k.len() == 3 && k[2] == a
}

/// `i` is the first key naming account `a`.
pub open spec fn first_account(keys: Seq<Seq<Seq<char>>>, a: Seq<char>, i: int) -> bool {
    &&& 0 <= i < keys.len()
    &&& names_account(keys[i], a)
    &&& forall|j: int| 0 <= j < i ==> !names_account(keys[j], a)
}

impl MockState {
    /// Key of the storage account the data plane means by `a`: the first
    /// account with that name, whatever its subscription and group.
    pub open spec fn account_key(&self, a: Seq<char>) -> Option<Seq<Seq<char>>> {
        let keys = self.storage_accounts.keys();
        if exists|i: int| first_account(keys, a, i) {
            Some(keys[choose|i: int| first_account(keys, a, i)])
        } else {
            None
        }
    }

    /// Position of the account the data plane means by `account`.
    pub fn find_account(&self, account: &str) -> (r: Option<usize>)
        ensures
            match r {
                Some(i) => first_account(self.storage_accounts.keys(), account@, i as int)
                    && self.account_key(account@) == Some(self.storage_accounts.keys()[i as int])
                    && self.storage_accounts.keys()[i as int] == seq![
                        self.storage_accounts.keys()[i as int][0],
                        self.storage_accounts.keys()[i as int][1],
                        account@,
                    ],
                None => self.account_key(account@) is None && !account_name_taken(self.storage_accounts.keys(), account@),
            },
    {
        let n = self.storage_accounts.len();
        let mut i: usize = 0;
        while i < n
            invariant
                n == self.storage_accounts.keys().len(),
                i <= n,
                forall|j: int| 0 <= j < i ==> !names_account(self.storage_accounts.keys()[j], account@),
            decreases n - i,
        {
            let k = self.storage_accounts.key_at(i);
            if k.parts.len() == 3 && text_eq(k.parts[2].as_str(), account) {
                proof {
                    let keys = self.storage_accounts.keys();
                    assert(first_account(keys, account@, i as int));
                    let c = choose|c: int| first_account(keys, account@, c);
                    assert(c == i) by {
                        if c < i {
                        } else if c > i {
                            assert(names_account(keys[i as int], account@));
                        }
                    }
                    assert(keys[i as int] =~= seq![keys[i as int][0], keys[i as int][1], account@]);
                }
                return Some(i);
            }
            i = i + 1;
        }
        proof {
            let keys = self.storage_accounts.keys();
            assert(!exists|c: int| first_account(keys, account@, c));
            assert(!account_name_taken(keys, account@));
        }
        None
    }
}

} // verus!

verus! {

/// An entity tag built from 32 hexadecimal digits.
pub open spec fn etag_text(hex: Seq<char>) -> Seq<char> {
    "\"0x"@ + hex + "\""@
}

/// Builds an entity tag.
pub fn make_etag(hex: &str) -> (r: String)
    ensures
        r@ == etag_text(hex@),
{
    let r = join(&["\"0x", hex, "\""]);
    proof {
        reveal_with_fuel(concat_all, 4);
    }
    r
}

/// Properties of a new container.
pub open spec fn container_doc(name: Seq<char>, modified: Seq<char>, hex: Seq<char>) -> Json {
    Json::Object(
        seq![
            ("name"@, Json::Str(name)),
            ("lastModified"@, Json::Str(modified)),
            ("etag"@, Json::Str(etag_text(hex))),
            ("leaseStatus"@, Json::Str("unlocked"@)),
            ("leaseState"@, Json::Str("available"@)),
            ("hasImmutabilityPolicy"@, Json::Bool(false)),
            ("hasLegalHold"@, Json::Bool(false)),
            ("metadata"@, Json::Object(Seq::empty())),
        ],
    )
}

/// Properties of a blob written in one piece.
pub open spec fn blob_doc(name: Seq<char>, length: nat, content_type: Seq<char>, modified: Seq<char>, hex: Seq<char>, created: Seq<char>) -> Json {
    Json::Object(
        seq![
            ("name"@, Json::Str(name)),
            ("contentLength"@, Json::Number(crate::text::decimal(length))),
            ("contentType"@, Json::Str(content_type)),
            ("lastModified"@, Json::Str(modified)),
            ("etag"@, Json::Str(etag_text(hex))),
            ("blobType"@, Json::Str("BlockBlob"@)),
            ("accessTier"@, Json::Str("Hot"@)),
            ("leaseStatus"@, Json::Str("unlocked"@)),
            ("leaseState"@, Json::Str("available"@)),
            ("serverEncrypted"@, Json::Bool(true)),
            ("creationTime"@, Json::Str(created)),
            ("metadata"@, Json::Object(Seq::empty())),
            ("tags"@, Json::Object(Seq::empty())),
        ],
    )
}

/// Builds the properties of a new container.
pub fn make_container(name: &str, fresh: &Fresh) -> (r: JsonValue)
    ensures
        r@ == container_doc(name@, fresh.rfc2822@, fresh.etag_hex@),
{
    let mut ms: Vec<(String, JsonValue)> = Vec::new();
    push_member(&mut ms, "name", jstr(name));
    push_member(&mut ms, "lastModified", jstr(fresh.rfc2822.as_str()));
    push_member(&mut ms, "etag", JsonValue::Str(make_etag(fresh.etag_hex.as_str())));
    push_member(&mut ms, "leaseStatus", jstr("unlocked"));
    push_member(&mut ms, "leaseState", jstr("available"));
    push_member(&mut ms, "hasImmutabilityPolicy", JsonValue::Bool(false));
    push_member(&mut ms, "hasLegalHold", JsonValue::Bool(false));
    push_member(&mut ms, "metadata", empty_object());
    proof {
        assert(members_model(ms@) =~= container_doc(name@, fresh.rfc2822@, fresh.etag_hex@)->Object_0);
    }
    JsonValue::Object(ms)
}

/// Builds the properties of a blob written in one piece.
pub fn make_blob_properties(name: &str, length: u64, content_type: &str, fresh: &Fresh) -> (r: JsonValue)
    ensures
        r@ == blob_doc(name@, length as nat, content_type@, fresh.rfc2822@, fresh.etag_hex@, fresh.rfc3339@),
{
    let mut ms: Vec<(String, JsonValue)> = Vec::new();
    push_member(&mut ms, "name", jstr(name));
    push_member(&mut ms, "contentLength", JsonValue::Number(crate::text::decimal_text(length)));
    push_member(&mut ms, "contentType", jstr(content_type));
    push_member(&mut ms, "lastModified", jstr(fresh.rfc2822.as_str()));
    push_member(&mut ms, "etag", JsonValue::Str(make_etag(fresh.etag_hex.as_str())));
    push_member(&mut ms, "blobType", jstr("BlockBlob"));
    push_member(&mut ms, "accessTier", jstr("Hot"));
    push_member(&mut ms, "leaseStatus", jstr("unlocked"));
    push_member(&mut ms, "leaseState", jstr("available"));
    push_member(&mut ms, "serverEncrypted", JsonValue::Bool(true));
    push_member(&mut ms, "creationTime", jstr(fresh.rfc3339.as_str()));
    push_member(&mut ms, "metadata", empty_object());
    push_member(&mut ms, "tags", empty_object());
    proof {
        assert(members_model(ms@) =~= blob_doc(name@, length as nat, content_type@, fresh.rfc2822@, fresh.etag_hex@, fresh.rfc3339@)->Object_0);
    }
    JsonValue::Object(ms)
}

impl MockState {
    /// Key of container `c` of the account the data plane means by `a`.
    pub open spec fn container_key(&self, a: Seq<char>, c: Seq<char>) -> Option<Seq<Seq<char>>> {
        match self.account_key(a) {
            Some(k) => Some(k.push(c)),
            None => None,
        }
    }

    /// Key of blob `b` in container `c` of account `a`.
    pub open spec fn blob_key(&self, a: Seq<char>, c: Seq<char>, b: Seq<char>) -> Option<Seq<Seq<char>>> {
        match self.account_key(a) {
            Some(k) => Some(k.push(c).push(b)),
            None => None,
        }
    }

    /// Whether the account and the container exist.
    pub open spec fn has_container(&self, a: Seq<char>, c: Seq<char>) -> bool {
        self.container_key(a, c) matches Some(k) && self@.containers.contains_key(k)
    }

    /// Whether the account, the container and the blob exist.
    pub open spec fn has_blob(&self, a: Seq<char>, c: Seq<char>, b: Seq<char>) -> bool {
        self.has_container(a, c) && (self.blob_key(a, c, b) matches Some(k) && self@.blobs.contains_key(k))
    }

    /// The error for a missing account or container: the account is
    /// checked first.
    pub open spec fn container_error(&self, a: Seq<char>, c: Seq<char>, e: StoreError) -> bool {
        if self.account_key(a) is None {
            e matches StoreError::StorageAccountNotFound(n) && n@ == a
        } else {
            e matches StoreError::ContainerNotFound(n) && n@ == c
        }
    }

    /// The error for a missing account, container or blob, checked in
    /// that order.
    pub open spec fn blob_error(&self, a: Seq<char>, c: Seq<char>, b: Seq<char>, e: StoreError) -> bool {
        if !self.has_container(a, c) {
            self.container_error(a, c, e)
        } else {
            e matches StoreError::BlobNotFound(n) && n@ == b
        }
    }

    /// Key of container `container` of the account the data plane means
    /// by `account`.
    pub fn locate_container(&self, account: &str, container: &str) -> (r: Result<Path, StoreError>)
        ensures
            match r {
                Ok(p) => self.has_container(account@, container@) && self.container_key(account@, container@) == Some(p@),
                Err(e) => !self.has_container(account@, container@) && self.container_error(account@, container@, e),
            },
    {
        match self.find_account(account) {
            None => Err(StoreError::StorageAccountNotFound(owned(account))),
            Some(i) => {
                let p = child(self.storage_accounts.key_at(i), container);
                if self.containers.contains_key(&p) {
                    Ok(p)
                } else {
                    Err(StoreError::ContainerNotFound(owned(container)))
                }
            },
        }
    }

    /// Key of blob `blob`, which must exist.
    pub fn locate_blob(&self, account: &str, container: &str, blob: &str) -> (r: Result<Path, StoreError>)
        ensures
            match r {
                Ok(p) => self.has_blob(account@, container@, blob@) && self.blob_key(account@, container@, blob@) == Some(p@),
                Err(e) => !self.has_blob(account@, container@, blob@) && self.blob_error(account@, container@, blob@, e),
            },
    {
        let cp = match self.locate_container(account, container) {
            Ok(p) => p,
            Err(e) => return Err(e),
        };
        let p = child(&cp, blob);
        if self.blobs.contains_key(&p) {
            Ok(p)
        } else {
            Err(StoreError::BlobNotFound(owned(blob)))
        }
    }

    // ── Containers (data plane) ───────────────────────────────────────

    /// Creates container `container` in account `account`; an existing
    /// container of that name is replaced by an empty one.
    pub fn create_container(&mut self, account: &str, container: &str, fresh: &Fresh) -> (r: Result<(), StoreError>)
        ensures
            crate::store::parents_exist(old(self)@) ==> crate::store::parents_exist(final(self)@),
            final(self).storage_accounts.keys() == old(self).storage_accounts.keys(),
            match old(self).account_key(account@) {
                None => r matches Err(StoreError::StorageAccountNotFound(n)) && n@ == account@ && final(self)@ == old(self)@,
                Some(k) => r is Ok && final(self)@ == (StoreView {
                    containers: old(self)@.containers.insert(
                        k.push(container@),
                        ContainerView {
                            properties: container_doc(container@, fresh.rfc2822@, fresh.etag_hex@),
                            metadata: Json::Object(Seq::empty()),
                        },
                    ),
                    blobs: without_under(old(self)@.blobs, k.push(container@)),
                    ..old(self)@
                }),
            },
    {
        match self.find_account(account) {
            None => Err(StoreError::StorageAccountNotFound(owned(account))),
            Some(i) => {
                let p = child(self.storage_accounts.key_at(i), container);
                self.blobs.remove_under(&p);
                let st = ContainerState { properties: make_container(container, fresh), metadata: empty_object() };
                self.containers.insert(p, st);
                Ok(())
            },
        }
    }

    /// Deletes container `container` with its blobs; `Ok(false)` when there
    /// was no such container.
    pub fn delete_container(&mut self, account: &str, container: &str) -> (r: Result<bool, StoreError>)
        ensures
            crate::store::parents_exist(old(self)@) ==> crate::store::parents_exist(final(self)@),
            final(self).storage_accounts.keys() == old(self).storage_accounts.keys(),
            match old(self).account_key(account@) {
                None => r matches Err(StoreError::StorageAccountNotFound(n)) && n@ == account@ && final(self)@ == old(self)@,
                Some(k) => r matches Ok(existed) && existed == old(self)@.containers.contains_key(k.push(container@))
                    && final(self)@ == (StoreView {
                        containers: old(self)@.containers.remove(k.push(container@)),
                        blobs: without_under(old(self)@.blobs, k.push(container@)),
                        ..old(self)@
                    }),
            },
    {
        match self.find_account(account) {
            None => Err(StoreError::StorageAccountNotFound(owned(account))),
            Some(i) => {
                let p = child(self.storage_accounts.key_at(i), container);
                self.blobs.remove_under(&p);
                let existed = self.containers.remove(&p);
                Ok(existed.is_some())
            },
        }
    }

    /// Properties of the containers of account `account`; `None` when there
    /// is no such account.
    pub fn list_containers(&self, account: &str) -> (r: Option<Vec<JsonValue>>)
        ensures
            match self.account_key(account@) {
                None => r is None,
                Some(k) => r matches Some(v) && docs(v@) == values_under(self.containers.pairs(), k).map_values(
                    |c: ContainerView| c.properties,
                ) && lists_by(docs(v@), map_under(self@.containers, k).map_values(|c: ContainerView| c.properties), keys_under(self.containers.pairs(), k))
                    && v@.len() == map_under(self@.containers, k).len(),
            },
    {
        match self.find_account(account) {
            None => None,
            Some(i) => {
                let cs = self.containers.values_under(self.storage_accounts.key_at(i));
                let mut out: Vec<JsonValue> = Vec::new();
                let mut j: usize = 0;
                while j < cs.len()
                    invariant
                        j <= cs@.len(),
                        docs(out@) == cs@.map_values(|c: ContainerState| c@).take(j as int).map_values(|c: ContainerView| c.properties),
                    decreases cs.len() - j,
                {
                    let d = cs[j].properties.deep_clone();
                    let ghost prev = out@;
                    out.push(d);
                    proof {
                        assert(docs(out@) =~= docs(prev).push(d@));
                        assert(cs@.map_values(|c: ContainerState| c@).take(j + 1).map_values(|c: ContainerView| c.properties)
                            =~= cs@.map_values(|c: ContainerState| c@).take(j as int).map_values(|c: ContainerView| c.properties).push(cs@[j as int].properties@));
                    }
                    j = j + 1;
                }
                proof {
                    let s = cs@.map_values(|c: ContainerState| c@);
                    let k = self.storage_accounts.keys()[i as int];
                    assert(s.take(cs@.len() as int) =~= s);
                    lemma_lists_by_map_values(s, map_under(self@.containers, k), keys_under(self.containers.pairs(), k), |c: ContainerView| c.properties);
                    assert(docs(out@) =~= s.map_values(|c: ContainerView| c.properties));
                }
                Some(out)
            },
        }
    }

    /// Properties of a container, its user metadata included.
    pub fn get_container_properties(&self, account: &str, container: &str) -> (r: Option<JsonValue>)
        ensures
            match r {
                Some(d) => self.has_container(account@, container@) && {
                    let c = self@.containers[self.container_key(account@, container@)->Some_0];
                    d@ == json_set(c.properties, "metadata"@, c.metadata)
                },
                None => !self.has_container(account@, container@),
            },
    {
        match self.locate_container(account, container) {
            Err(_) => None,
            Ok(p) => {
                let c = self.containers.get(&p).unwrap();
                let mut d = c.properties.deep_clone();
                d.set("metadata", c.metadata.deep_clone());
                Some(d)
            },
        }
    }

    /// User metadata of a container.
    pub fn get_container_metadata(&self, account: &str, container: &str) -> (r: Option<JsonValue>)
        ensures
            match r {
                Some(d) => self.has_container(account@, container@)
                    && d@ == self@.containers[self.container_key(account@, container@)->Some_0].metadata,
                None => !self.has_container(account@, container@),
            },
    {
        match self.locate_container(account, container) {
            Err(_) => None,
            Ok(p) => Some(self.containers.get(&p).unwrap().metadata.deep_clone()),
        }
    }

    /// Replaces the user metadata of a container; its modification time
    /// and entity tag are renewed.
    pub fn set_container_metadata(&mut self, account: &str, container: &str, metadata: JsonValue, fresh: &Fresh) -> (r: Result<(), StoreError>)
        ensures
            crate::store::parents_exist(old(self)@) ==> crate::store::parents_exist(final(self)@),
            !old(self).has_container(account@, container@) ==> (r matches Err(e) && old(self).container_error(account@, container@, e) && final(self)@ == old(self)@),
            old(self).has_container(account@, container@) ==> (r is Ok && {
                let k = old(self).container_key(account@, container@)->Some_0;
                let c = old(self)@.containers[k];
                final(self)@ == (StoreView {
                    containers: old(self)@.containers.insert(k, ContainerView {
                        properties: json_set(json_set(json_set(c.properties, "metadata"@, metadata@), "lastModified"@, Json::Str(fresh.rfc2822@)), "etag"@, Json::Str(etag_text(fresh.etag_hex@))),
                        metadata: metadata@,
                    }),
                    ..old(self)@
                })
            }),
    {
        let p = match self.locate_container(account, container) {
            Ok(p) => p,
            Err(e) => return Err(e),
        };
        let i = self.containers.find(&p).unwrap();
        let mut props = self.containers.value_at(i).properties.deep_clone();
        props.set("metadata", metadata.deep_clone());
        props.set("lastModified", jstr(fresh.rfc2822.as_str()));
        props.set("etag", JsonValue::Str(make_etag(fresh.etag_hex.as_str())));
        self.containers.replace_at(i, ContainerState { properties: props, metadata });
        Ok(())
    }
}

} // verus!

verus! {

/// User metadata (or tags) kept in blob properties under `key`; an empty
/// object when there is none.
pub open spec fn member_or_empty(props: Json, key: Seq<char>) -> Json {
    match json_get(props, key) {
        Some(m) => m,
        None => Json::Object(Seq::empty()),
    }
}

/// Sets string member `k` when `o` holds a value.
pub open spec fn set_opt(j: Json, k: Seq<char>, o: Option<Seq<char>>) -> Json {
    match o {
        Some(v) => json_set(j, k, Json::Str(v)),
        None => j,
    }
}

/// Renews modification time and entity tag.
pub open spec fn touched(j: Json, fresh_modified: Seq<char>, hex: Seq<char>) -> Json {
    json_set(json_set(j, "lastModified"@, Json::Str(fresh_modified)), "etag"@, Json::Str(etag_text(hex)))
}

/// A blob whose content was written in one piece.
pub open spec fn written_blob(props: Json, data: Seq<u8>) -> BlobView {
    BlobView { properties: props, data, uncommitted: Map::empty(), committed: Seq::empty() }
}

fn member_copy_or_empty(props: &JsonValue, key: &str) -> (r: JsonValue)
    ensures
        r@ == member_or_empty(props@, key@),
{
    match props.member(key) {
        Some(m) => m.deep_clone(),
        None => empty_object(),
    }
}

fn set_optional(j: &mut JsonValue, key: &str, o: Option<String>)
    ensures
        final(j)@ == set_opt(old(j)@, key@, opt_text(o)),
{
    match o {
        Some(v) => j.set(key, JsonValue::Str(v)),
        None => {},
    }
}

fn touch(j: &mut JsonValue, fresh: &Fresh)
    ensures
        final(j)@ == touched(old(j)@, fresh.rfc2822@, fresh.etag_hex@),
{
    j.set("lastModified", jstr(fresh.rfc2822.as_str()));
    j.set("etag", JsonValue::Str(make_etag(fresh.etag_hex.as_str())));
}

impl MockState {
    // ── Blobs (data plane) ─────────────────────────────────────────────

    /// Writes blob `blob` in one piece, replacing any blob of that name.
    pub fn put_blob(&mut self, account: &str, container: &str, blob: &str, data: Vec<u8>, content_type: Option<&str>, fresh: &Fresh) -> (r: Result<(), StoreError>)
        ensures
            crate::store::parents_exist(old(self)@) ==> crate::store::parents_exist(final(self)@),
            final(self).storage_accounts.keys() == old(self).storage_accounts.keys(),
            !old(self).has_container(account@, container@) ==> (r matches Err(e) && old(self).container_error(account@, container@, e) && final(self)@ == old(self)@),
            old(self).has_container(account@, container@) ==> (r is Ok && final(self)@ == (StoreView {
                blobs: old(self)@.blobs.insert(
                    old(self).blob_key(account@, container@, blob@)->Some_0,
                    written_blob(
                        blob_doc(blob@, data@.len(), match content_type { Some(t) => t@, None => "application/octet-stream"@ }, fresh.rfc2822@, fresh.etag_hex@, fresh.rfc3339@),
                        data@,
                    ),
                ),
                ..old(self)@
            })),
    {
        let cp = match self.locate_container(account, container) {
            Ok(p) => p,
            Err(e) => return Err(e),
        };
        let ct = match content_type {
            Some(t) => t,
            None => "application/octet-stream",
        };
        let props = make_blob_properties(blob, data.len() as u64, ct, fresh);
        let st = BlobState { properties: props, data, uncommitted: KeyedMap::new(), committed: Vec::new() };
        proof {
            assert(blocks_model(st.committed@) =~= Seq::<(Seq<char>, Seq<u8>)>::empty());
        }
        self.blobs.insert(child(&cp, blob), st);
        Ok(())
    }

    /// Content of blob `blob`.
    pub fn get_blob(&self, account: &str, container: &str, blob: &str) -> (r: Option<Vec<u8>>)
        ensures
            match r {
                Some(d) => self.has_blob(account@, container@, blob@) && d@ == self@.blobs[self.blob_key(account@, container@, blob@)->Some_0].data,
                None => !self.has_blob(account@, container@, blob@),
            },
    {
        match self.locate_blob(account, container, blob) {
            Err(_) => None,
            Ok(p) => Some(self.blobs.get(&p).unwrap().data.deep_copy()),
        }
    }

    /// Properties of blob `blob`.
    pub fn get_blob_properties(&self, account: &str, container: &str, blob: &str) -> (r: Option<JsonValue>)
        ensures
            match r {
                Some(d) => self.has_blob(account@, container@, blob@) && d@ == self@.blobs[self.blob_key(account@, container@, blob@)->Some_0].properties,
                None => !self.has_blob(account@, container@, blob@),
            },
    {
        match self.locate_blob(account, container, blob) {
            Err(_) => None,
            Ok(p) => Some(self.blobs.get(&p).unwrap().properties.deep_clone()),
        }
    }

    /// Whether blob `blob` exists.
    pub fn blob_exists(&self, account: &str, container: &str, blob: &str) -> (b: bool)
        ensures
            b == self.has_blob(account@, container@, blob@),
    {
        self.locate_blob(account, container, blob).is_ok()
    }

    /// Deletes blob `blob`; `Ok(false)` when there was no such blob.
    pub fn delete_blob(&mut self, account: &str, container: &str, blob: &str) -> (r: Result<bool, StoreError>)
        ensures
            crate::store::parents_exist(old(self)@) ==> crate::store::parents_exist(final(self)@),
            final(self).storage_accounts.keys() == old(self).storage_accounts.keys(),
            !old(self).has_container(account@, container@) ==> (r matches Err(e) && old(self).container_error(account@, container@, e) && final(self)@ == old(self)@),
            old(self).has_container(account@, container@) ==> (r matches Ok(existed) && {
                let k = old(self).blob_key(account@, container@, blob@)->Some_0;
                &&& existed == old(self)@.blobs.contains_key(k)
                &&& final(self)@ == (StoreView { blobs: old(self)@.blobs.remove(k), ..old(self)@ })
            }),
    {
        let cp = match self.locate_container(account, container) {
            Ok(p) => p,
            Err(e) => return Err(e),
        };
        let existed = self.blobs.remove(&child(&cp, blob));
        Ok(existed.is_some())
    }

    /// Properties of the blobs of a container, in key order.
    pub fn list_blobs(&self, account: &str, container: &str) -> (r: Option<Vec<JsonValue>>)
        ensures
            match r {
                Some(v) => self.has_container(account@, container@)
                    && docs(v@) == values_under(self.blobs.pairs(), self.container_key(account@, container@)->Some_0).map_values(|b: BlobView| b.properties)
                    && lists_by(
                        docs(v@),
                        map_under(self@.blobs, self.container_key(account@, container@)->Some_0).map_values(|b: BlobView| b.properties),
                        keys_under(self.blobs.pairs(), self.container_key(account@, container@)->Some_0),
                    )
                    && v@.len() == map_under(self@.blobs, self.container_key(account@, container@)->Some_0).len(),
                None => !self.has_container(account@, container@),
            },
    {
        let cp = match self.locate_container(account, container) {
            Ok(p) => p,
            Err(_) => return None,
        };
        let bs = self.blobs.values_under(&cp);
        let mut out: Vec<JsonValue> = Vec::new();
        let mut j: usize = 0;
        while j < bs.len()
            invariant
                j <= bs@.len(),
                docs(out@) == bs@.map_values(|b: BlobState| b@).take(j as int).map_values(|b: BlobView| b.properties),
            decreases bs.len() - j,
        {
            let d = bs[j].properties.deep_clone();
            let ghost prev = out@;
            out.push(d);
            proof {
                assert(docs(out@) =~= docs(prev).push(d@));
                assert(bs@.map_values(|b: BlobState| b@).take(j + 1).map_values(|b: BlobView| b.properties)
                    =~= bs@.map_values(|b: BlobState| b@).take(j as int).map_values(|b: BlobView| b.properties).push(bs@[j as int].properties@));
            }
            j = j + 1;
        }
        proof {
            let s = bs@.map_values(|b: BlobState| b@);
            assert(s.take(bs@.len() as int) =~= s);
            lemma_lists_by_map_values(s, map_under(self@.blobs, cp@), keys_under(self.blobs.pairs(), cp@), |b: BlobView| b.properties);
            assert(docs(out@) =~= s.map_values(|b: BlobView| b.properties));
        }
        Some(out)
    }

    /// User metadata of blob `blob`.
    pub fn get_blob_metadata(&self, account: &str, container: &str, blob: &str) -> (r: Option<JsonValue>)
        ensures
            match r {
                Some(d) => self.has_blob(account@, container@, blob@)
                    && d@ == member_or_empty(self@.blobs[self.blob_key(account@, container@, blob@)->Some_0].properties, "metadata"@),
                None => !self.has_blob(account@, container@, blob@),
            },
    {
        match self.locate_blob(account, container, blob) {
            Err(_) => None,
            Ok(p) => Some(member_copy_or_empty(&self.blobs.get(&p).unwrap().properties, "metadata")),
        }
    }

    /// Tags of blob `blob`.
    pub fn get_blob_tags(&self, account: &str, container: &str, blob: &str) -> (r: Option<JsonValue>)
        ensures
            match r {
                Some(d) => self.has_blob(account@, container@, blob@)
                    && d@ == member_or_empty(self@.blobs[self.blob_key(account@, container@, blob@)->Some_0].properties, "tags"@),
                None => !self.has_blob(account@, container@, blob@),
            },
    {
        match self.locate_blob(account, container, blob) {
            Err(_) => None,
            Ok(p) => Some(member_copy_or_empty(&self.blobs.get(&p).unwrap().properties, "tags")),
        }
    }

    /// Applies `f`'s effect on the properties of an existing blob.
    fn replace_blob_properties(&mut self, p: &Path, props: JsonValue)
        requires
            old(self)@.blobs.contains_key(p@),
        ensures
            final(self)@ == (StoreView {
                blobs: old(self)@.blobs.insert(p@, BlobView { properties: props@, ..old(self)@.blobs[p@] }),
                ..old(self)@
            }),
    {
        let i = self.blobs.find(p).unwrap();
        let mut b = self.blobs.value_at(i).deep_copy();
        b.properties = props;
        self.blobs.replace_at(i, b);
    }

    /// Replaces the user metadata of blob `blob`; its modification time
    /// and entity tag are renewed.
    pub fn set_blob_metadata(&mut self, account: &str, container: &str, blob: &str, metadata: JsonValue, fresh: &Fresh) -> (r: Result<(), StoreError>)
        ensures
            crate::store::parents_exist(old(self)@) ==> crate::store::parents_exist(final(self)@),
            !old(self).has_blob(account@, container@, blob@) ==> (r matches Err(e) && old(self).blob_error(account@, container@, blob@, e) && final(self)@ == old(self)@),
            old(self).has_blob(account@, container@, blob@) ==> (r is Ok && {
                let k = old(self).blob_key(account@, container@, blob@)->Some_0;
                let b = old(self)@.blobs[k];
                final(self)@ == (StoreView {
                    blobs: old(self)@.blobs.insert(k, BlobView {
                        properties: touched(json_set(b.properties, "metadata"@, metadata@), fresh.rfc2822@, fresh.etag_hex@),
                        ..b
                    }),
                    ..old(self)@
                })
            }),
    {
        let p = match self.locate_blob(account, container, blob) {
            Ok(p) => p,
            Err(e) => return Err(e),
        };
        let mut props = self.blobs.get(&p).unwrap().properties.deep_clone();
        props.set("metadata", metadata);
        touch(&mut props, fresh);
        self.replace_blob_properties(&p, props);
        Ok(())
    }

    /// Replaces the tags of blob `blob`.
    pub fn set_blob_tags(&mut self, account: &str, container: &str, blob: &str, tags: JsonValue) -> (r: Result<(), StoreError>)
        ensures
            crate::store::parents_exist(old(self)@) ==> crate::store::parents_exist(final(self)@),
            !old(self).has_blob(account@, container@, blob@) ==> (r matches Err(e) && old(self).blob_error(account@, container@, blob@, e) && final(self)@ == old(self)@),
            old(self).has_blob(account@, container@, blob@) ==> (r is Ok && {
                let k = old(self).blob_key(account@, container@, blob@)->Some_0;
                let b = old(self)@.blobs[k];
                final(self)@ == (StoreView {
                    blobs: old(self)@.blobs.insert(k, BlobView { properties: json_set(b.properties, "tags"@, tags@), ..b }),
                    ..old(self)@
                })
            }),
    {
        let p = match self.locate_blob(account, container, blob) {
            Ok(p) => p,
            Err(e) => return Err(e),
        };
        let mut props = self.blobs.get(&p).unwrap().properties.deep_clone();
        props.set("tags", tags);
        self.replace_blob_properties(&p, props);
        Ok(())
    }

    /// Sets the given content headers of blob `blob`; its modification
    /// time and entity tag are renewed.
    pub fn set_blob_properties(
        &mut self,
        account: &str,
        container: &str,
        blob: &str,
        content_type: Option<String>,
        content_encoding: Option<String>,
        content_language: Option<String>,
        content_disposition: Option<String>,
        cache_control: Option<String>,
        fresh: &Fresh,
    ) -> (r: Result<(), StoreError>)
        ensures
            crate::store::parents_exist(old(self)@) ==> crate::store::parents_exist(final(self)@),
            !old(self).has_blob(account@, container@, blob@) ==> (r matches Err(e) && old(self).blob_error(account@, container@, blob@, e) && final(self)@ == old(self)@),
            old(self).has_blob(account@, container@, blob@) ==> (r is Ok && {
                let k = old(self).blob_key(account@, container@, blob@)->Some_0;
                let b = old(self)@.blobs[k];
                let p1 = set_opt(b.properties, "contentType"@, opt_text(content_type));
                let p2 = set_opt(p1, "contentEncoding"@, opt_text(content_encoding));
                let p3 = set_opt(p2, "contentLanguage"@, opt_text(content_language));
                let p4 = set_opt(p3, "contentDisposition"@, opt_text(content_disposition));
                let p5 = set_opt(p4, "cacheControl"@, opt_text(cache_control));
                final(self)@ == (StoreView {
                    blobs: old(self)@.blobs.insert(k, BlobView { properties: touched(p5, fresh.rfc2822@, fresh.etag_hex@), ..b }),
                    ..old(self)@
                })
            }),
    {
        let p = match self.locate_blob(account, container, blob) {
            Ok(p) => p,
            Err(e) => return Err(e),
        };
        let mut props = self.blobs.get(&p).unwrap().properties.deep_clone();
        set_optional(&mut props, "contentType", content_type);
        set_optional(&mut props, "contentEncoding", content_encoding);
        set_optional(&mut props, "contentLanguage", content_language);
        set_optional(&mut props, "contentDisposition", content_disposition);
        set_optional(&mut props, "cacheControl", cache_control);
        touch(&mut props, fresh);
        self.replace_blob_properties(&p, props);
        Ok(())
    }

    /// Sets the access tier of blob `blob`.
    pub fn set_blob_tier(&mut self, account: &str, container: &str, blob: &str, tier: &str) -> (r: Result<(), StoreError>)
        ensures
            crate::store::parents_exist(old(self)@) ==> crate::store::parents_exist(final(self)@),
            !old(self).has_blob(account@, container@, blob@) ==> (r matches Err(e) && old(self).blob_error(account@, container@, blob@, e) && final(self)@ == old(self)@),
            old(self).has_blob(account@, container@, blob@) ==> (r is Ok && {
                let k = old(self).blob_key(account@, container@, blob@)->Some_0;
                let b = old(self)@.blobs[k];
                final(self)@ == (StoreView {
                    blobs: old(self)@.blobs.insert(k, BlobView { properties: json_set(b.properties, "accessTier"@, Json::Str(tier@)), ..b }),
                    ..old(self)@
                })
            }),
    {
        let p = match self.locate_blob(account, container, blob) {
            Ok(p) => p,
            Err(e) => return Err(e),
        };
        let mut props = self.blobs.get(&p).unwrap().properties.deep_clone();
        props.set("accessTier", jstr(tier));
        self.replace_blob_properties(&p, props);
        Ok(())
    }

    /// Blob service properties of account `account`.
    pub fn get_service_properties(&self, account: &str) -> (r: Option<JsonValue>)
        ensures
            match self.account_key(account@) {
                None => r is None,
                Some(k) => r matches Some(d) && d@ == self@.storage_accounts[k].service_properties,
            },
    {
        match self.find_account(account) {
            None => None,
            Some(i) => {
                Some(self.storage_accounts.value_at(i).service_properties.deep_clone())
            },
        }
    }

    /// Replaces the blob service properties of account `account`.
    pub fn set_service_properties(&mut self, account: &str, props: JsonValue) -> (r: Result<(), StoreError>)
        ensures
            crate::store::parents_exist(old(self)@) ==> crate::store::parents_exist(final(self)@),
            match old(self).account_key(account@) {
                None => r matches Err(StoreError::StorageAccountNotFound(n)) && n@ == account@ && final(self)@ == old(self)@,
                Some(k) => r is Ok && final(self)@ == (StoreView {
                    storage_accounts: old(self)@.storage_accounts.insert(k, AccountView { service_properties: props@, ..old(self)@.storage_accounts[k] }),
                    ..old(self)@
                }),
            },
    {
        match self.find_account(account) {
            None => Err(StoreError::StorageAccountNotFound(owned(account))),
            Some(i) => {
                let a = AccountState { doc: self.storage_accounts.value_at(i).doc.deep_clone(), service_properties: props };
                self.storage_accounts.replace_at(i, a);
                Ok(())
            },
        }
    }
}

} // verus!

verus! {

/// Member `k` of `src`, as a list of zero or one members.
pub open spec fn copied(src: Json, k: Seq<char>) -> Seq<(Seq<char>, Json)> {
    match json_get(src, k) {
        Some(v) => seq![(k, v)],
        None => Seq::empty(),
    }
}

/// Where a copied blob came from.
pub open spec fn copy_source_text(a: Seq<char>, c: Seq<char>, b: Seq<char>) -> Seq<char> {
    "http://127.0.0.1/"@ + a + "/"@ + c + "/"@ + b
}

/// Properties of a blob copied from a blob with properties `src` and
/// `length` bytes of content.
pub open spec fn copy_doc(src: Json, name: Seq<char>, length: nat, modified: Seq<char>, hex: Seq<char>, created: Seq<char>, copy_id: Seq<char>, source: Seq<char>) -> Json {
    Json::Object(
        seq![("name"@, Json::Str(name)), ("contentLength"@, Json::Number(crate::text::decimal(length)))]
            + copied(src, "contentType"@)
            + copied(src, "contentEncoding"@)
            + copied(src, "contentLanguage"@)
            + copied(src, "contentDisposition"@)
            + copied(src, "contentMd5"@)
            + copied(src, "cacheControl"@)
            + seq![("lastModified"@, Json::Str(modified)), ("etag"@, Json::Str(etag_text(hex)))]
            + copied(src, "blobType"@)
            + copied(src, "accessTier"@)
            + seq![
                ("leaseStatus"@, Json::Str("unlocked"@)),
                ("leaseState"@, Json::Str("available"@)),
                ("serverEncrypted"@, Json::Bool(true)),
                ("creationTime"@, Json::Str(created)),
                ("copyId"@, Json::Str(copy_id)),
                ("copyStatus"@, Json::Str("success"@)),
                ("copySource"@, Json::Str(source)),
                ("metadata"@, member_or_empty(src, "metadata"@)),
                ("tags"@, member_or_empty(src, "tags"@)),
            ],
    )
}

fn push_copied(ms: &mut Vec<(String, JsonValue)>, src: &JsonValue, key: &str)
    ensures
        members_model(final(ms)@) == members_model(old(ms)@) + copied(src@, key@),
{
    match src.member(key) {
        Some(v) => {
            push_member(ms, key, v.deep_clone());
            proof {
                assert(members_model(ms@) =~= members_model(old(ms)@) + copied(src@, key@));
            }
        },
        None => {
            proof {
                assert(members_model(ms@) =~= members_model(old(ms)@) + copied(src@, key@));
            }
        },
    }
}

/// Builds the properties of a copied blob.
#[verifier::rlimit(50)]
pub fn make_copy_properties(src: &JsonValue, name: &str, length: u64, fresh: &Fresh, source: &str) -> (r: JsonValue)
    ensures
        r@ == copy_doc(src@, name@, length as nat, fresh.rfc2822@, fresh.etag_hex@, fresh.rfc3339@, fresh.uuid@, source@),
{
    let mut ms: Vec<(String, JsonValue)> = Vec::new();
    push_member(&mut ms, "name", jstr(name));
    push_member(&mut ms, "contentLength", JsonValue::Number(crate::text::decimal_text(length)));
    let ghost m0 = members_model(ms@);
    push_copied(&mut ms, src, "contentType");
    push_copied(&mut ms, src, "contentEncoding");
    push_copied(&mut ms, src, "contentLanguage");
    push_copied(&mut ms, src, "contentDisposition");
    push_copied(&mut ms, src, "contentMd5");
    push_copied(&mut ms, src, "cacheControl");
    let ghost m1 = members_model(ms@);
    proof {
        assert(m1 == m0 + copied(src@, "contentType"@) + copied(src@, "contentEncoding"@) + copied(src@, "contentLanguage"@)
            + copied(src@, "contentDisposition"@) + copied(src@, "contentMd5"@) + copied(src@, "cacheControl"@));
    }
    let mut mid: Vec<(String, JsonValue)> = Vec::new();
    push_member(&mut mid, "lastModified", jstr(fresh.rfc2822.as_str()));
    push_member(&mut mid, "etag", JsonValue::Str(make_etag(fresh.etag_hex.as_str())));
    push_copied(&mut mid, src, "blobType");
    push_copied(&mut mid, src, "accessTier");
    let ghost m2 = members_model(mid@);
    proof {
        assert(members_model(Seq::<(String, JsonValue)>::empty()) =~= Seq::<(Seq<char>, Json)>::empty());
        assert(m2 =~= seq![("lastModified"@, Json::Str(fresh.rfc2822@)), ("etag"@, Json::Str(etag_text(fresh.etag_hex@)))]
            + copied(src@, "blobType"@) + copied(src@, "accessTier"@));
    }
    let mut tail: Vec<(String, JsonValue)> = Vec::new();
    push_member(&mut tail, "leaseStatus", jstr("unlocked"));
    push_member(&mut tail, "leaseState", jstr("available"));
    push_member(&mut tail, "serverEncrypted", JsonValue::Bool(true));
    push_member(&mut tail, "creationTime", jstr(fresh.rfc3339.as_str()));
    push_member(&mut tail, "copyId", jstr(fresh.uuid.as_str()));
    push_member(&mut tail, "copyStatus", jstr("success"));
    push_member(&mut tail, "copySource", jstr(source));
    push_member(&mut tail, "metadata", member_copy_or_empty(src, "metadata"));
    push_member(&mut tail, "tags", member_copy_or_empty(src, "tags"));
    let ghost m3 = members_model(tail@);
    proof {
        assert(m3 =~= seq![
            ("leaseStatus"@, Json::Str("unlocked"@)),
            ("leaseState"@, Json::Str("available"@)),
            ("serverEncrypted"@, Json::Bool(true)),
            ("creationTime"@, Json::Str(fresh.rfc3339@)),
            ("copyId"@, Json::Str(fresh.uuid@)),
            ("copyStatus"@, Json::Str("success"@)),
            ("copySource"@, Json::Str(source@)),
            ("metadata"@, member_or_empty(src@, "metadata"@)),
            ("tags"@, member_or_empty(src@, "tags"@)),
        ]);
    }
    let ghost v1 = ms@;
    let ghost v2 = mid@;
    let ghost v3 = tail@;
    ms.append(&mut mid);
    ms.append(&mut tail);
    proof {
        assert(ms@ == v1 + v2 + v3);
        crate::json::lemma_members_concat(v1, v2);
        crate::json::lemma_members_concat(v1 + v2, v3);
        let d = copy_doc(src@, name@, length as nat, fresh.rfc2822@, fresh.etag_hex@, fresh.rfc3339@, fresh.uuid@, source@);
        assert(m0 =~= seq![("name"@, Json::Str(name@)), ("contentLength"@, Json::Number(crate::text::decimal(length as nat)))]);
        assert(members_model(ms@) =~= d->Object_0);
    }
    JsonValue::Object(ms)
}

impl MockState {
    /// Whether a source blob exists, checking account, container and blob.
    pub open spec fn source_error(&self, a: Seq<char>, c: Seq<char>, b: Seq<char>, e: StoreError) -> bool {
        if self.account_key(a) is None {
            e matches StoreError::SourceStorageAccountNotFound(n) && n@ == a
        } else if !self.has_container(a, c) {
            e matches StoreError::SourceContainerNotFound(n) && n@ == c
        } else {
            e matches StoreError::SourceBlobNotFound(n) && n@ == b
        }
    }

    /// Copies blob `source_blob` of `source_container` in `source_account`
    /// to `dest_blob` in `dest_container` of `account`, content, headers,
    /// metadata and tags included; the copy id is returned.
    pub fn copy_blob(
        &mut self,
        account: &str,
        dest_container: &str,
        dest_blob: &str,
        source_account: &str,
        source_container: &str,
        source_blob: &str,
        fresh: &Fresh,
    ) -> (r: Result<String, StoreError>)
        ensures
            crate::store::parents_exist(old(self)@) ==> crate::store::parents_exist(final(self)@),
            final(self).storage_accounts.keys() == old(self).storage_accounts.keys(),
            !old(self).has_blob(source_account@, source_container@, source_blob@) ==> (r matches Err(e) && old(self).source_error(source_account@, source_container@, source_blob@, e) && final(self)@ == old(self)@),
            old(self).has_blob(source_account@, source_container@, source_blob@) && !old(self).has_container(account@, dest_container@) ==> (r matches Err(e) && old(self).container_error(account@, dest_container@, e) && final(self)@ == old(self)@),
            old(self).has_blob(source_account@, source_container@, source_blob@) && old(self).has_container(account@, dest_container@) ==> (r matches Ok(id) && {
                let src = old(self)@.blobs[old(self).blob_key(source_account@, source_container@, source_blob@)->Some_0];
                &&& id@ == fresh.uuid@
                &&& final(self)@ == (StoreView {
                    blobs: old(self)@.blobs.insert(
                        old(self).blob_key(account@, dest_container@, dest_blob@)->Some_0,
                        written_blob(
                            copy_doc(src.properties, dest_blob@, src.data.len(), fresh.rfc2822@, fresh.etag_hex@, fresh.rfc3339@, fresh.uuid@, copy_source_text(source_account@, source_container@, source_blob@)),
                            src.data,
                        ),
                    ),
                    ..old(self)@
                })
            }),
    {
        if self.find_account(source_account).is_none() {
            return Err(StoreError::SourceStorageAccountNotFound(owned(source_account)));
        }
        let sp = match self.locate_blob(source_account, source_container, source_blob) {
            Ok(p) => p,
            Err(e) => {
                return match e {
                    StoreError::ContainerNotFound(_) => Err(StoreError::SourceContainerNotFound(owned(source_container))),
                    _ => Err(StoreError::SourceBlobNotFound(owned(source_blob))),
                };
            },
        };
        let src = self.blobs.get(&sp).unwrap();
        let data = src.data.deep_copy();
        let source = join(&["http://127.0.0.1/", source_account, "/", source_container, "/", source_blob]);
        proof {
            reveal_with_fuel(concat_all, 7);
        }
        let props = make_copy_properties(&src.properties, dest_blob, data.len() as u64, fresh, source.as_str());
        let cp = match self.locate_container(account, dest_container) {
            Ok(p) => p,
            Err(e) => return Err(e),
        };
        let st = BlobState { properties: props, data, uncommitted: KeyedMap::new(), committed: Vec::new() };
        proof {
            assert(blocks_model(st.committed@) =~= Seq::<(Seq<char>, Seq<u8>)>::empty());
        }
        self.blobs.insert(child(&cp, dest_blob), st);
        Ok(fresh.uuid.clone())
    }
}

} // verus!

verus! {

/// Outcome of resolving a block list: the staged blocks left, the blocks
/// chosen so far, and the first id found nowhere.
pub struct Resolution {
    pub remaining: Map<Seq<char>, Seq<u8>>,
    pub chosen: Seq<(Seq<char>, Seq<u8>)>,
    pub missing: Option<Seq<char>>,
}

/// Whether `i` is the first committed block with id `id`.
pub open spec fn first_block(committed: Seq<(Seq<char>, Seq<u8>)>, id: Seq<char>, i: int) -> bool {
    &&& 0 <= i < committed.len()
    &&& committed[i].0 == id
    &&& forall|j: int| 0 <= j < i ==> committed[j].0 != id
}

/// Resolves `ids` in order: a staged block is taken (and leaves the staged
/// set), else the first committed block with that id is reused; the first
/// id found in neither stops the resolution.
pub open spec fn resolve(unc: Map<Seq<char>, Seq<u8>>, committed: Seq<(Seq<char>, Seq<u8>)>, ids: Seq<Seq<char>>) -> Resolution
    decreases ids.len(),
{
    if ids.len() == 0 {
        Resolution { remaining: unc, chosen: Seq::empty(), missing: None }
    } else {
        let r = resolve(unc, committed, ids.drop_last());
        let id = ids.last();
        if r.missing is Some {
            r
        } else if r.remaining.contains_key(id) {
            Resolution { remaining: r.remaining.remove(id), chosen: r.chosen.push((id, r.remaining[id])), missing: None }
        } else if exists|j: int| first_block(committed, id, j) {
            let j = choose|j: int| first_block(committed, id, j);
            Resolution { chosen: r.chosen.push((id, committed[j].1)), ..r }
        } else {
            Resolution { missing: Some(id), ..r }
        }
    }
}

/// Contents of blocks laid end to end.
pub open spec fn concat_blocks(blocks: Seq<(Seq<char>, Seq<u8>)>) -> Seq<u8>
    decreases blocks.len(),
{
    if blocks.len() == 0 {
        Seq::empty()
    } else {
        concat_blocks(blocks.drop_last()) + blocks.last().1
    }
}

/// A blob that only has staged blocks yet.
pub open spec fn staged_blob(name: Seq<char>, fresh_modified: Seq<char>, hex: Seq<char>, created: Seq<char>) -> BlobView {
    written_blob(blob_doc(name, 0, "application/octet-stream"@, fresh_modified, hex, created), Seq::empty())
}

/// Properties after a block list was committed.
pub open spec fn committed_properties(props: Json, length: nat, content_type: Option<Seq<char>>, fresh_modified: Seq<char>, hex: Seq<char>) -> Json {
    touched(
        set_opt(json_set(props, "contentLength"@, Json::Number(crate::text::decimal(length))), "contentType"@, content_type),
        fresh_modified,
        hex,
    )
}

impl MockState {
    /// Stages block `block_id` of blob `blob`; a blob that does not exist
    /// yet is created empty first.
    pub fn put_block(&mut self, account: &str, container: &str, blob: &str, block_id: &str, data: Vec<u8>, fresh: &Fresh) -> (r: Result<(), StoreError>)
        ensures
            crate::store::parents_exist(old(self)@) ==> crate::store::parents_exist(final(self)@),
            !old(self).has_container(account@, container@) ==> (r matches Err(e) && old(self).container_error(account@, container@, e) && final(self)@ == old(self)@),
            old(self).has_container(account@, container@) ==> (r is Ok && {
                let k = old(self).blob_key(account@, container@, blob@)->Some_0;
                let base = if old(self)@.blobs.contains_key(k) { old(self)@.blobs[k] } else { staged_blob(blob@, fresh.rfc2822@, fresh.etag_hex@, fresh.rfc3339@) };
                final(self)@ == (StoreView {
                    blobs: old(self)@.blobs.insert(k, BlobView { uncommitted: base.uncommitted.insert(block_id@, data@), ..base }),
                    ..old(self)@
                })
            }),
    {
        let cp = match self.locate_container(account, container) {
            Ok(p) => p,
            Err(e) => return Err(e),
        };
        let p = child(&cp, blob);
        let mut b = match self.blobs.get(&p) {
            Some(existing) => existing.deep_copy(),
            None => {
                let props = make_blob_properties(blob, 0, "application/octet-stream", fresh);
                let st = BlobState { properties: props, data: Vec::new(), uncommitted: KeyedMap::new(), committed: Vec::new() };
                proof {
                    assert(blocks_model(st.committed@) =~= Seq::<(Seq<char>, Seq<u8>)>::empty());
                    assert(st.data@ =~= Seq::<u8>::empty());
                }
                st
            },
        };
        b.uncommitted.insert(owned(block_id), data);
        self.blobs.insert(p, b);
        Ok(())
    }

    /// Block lists of blob `blob`: committed blocks in blob order, then
    /// staged blocks, each as id and size.
    pub fn get_block_list(&self, account: &str, container: &str, blob: &str) -> (r: Option<(Vec<(String, usize)>, Vec<(String, usize)>)>)
        ensures
            match r {
                Some((c, u)) => self.has_blob(account@, container@, blob@) && {
                    let b = self.blobs.map()[self.blob_key(account@, container@, blob@)->Some_0];
                    &&& c@.map_values(|e: (String, usize)| (e.0@, e.1 as nat)) == b.committed.map_values(|e: (Seq<char>, Seq<u8>)| (e.0, e.1.len()))
                    &&& u@.map_values(|e: (String, usize)| (e.0@, e.1 as nat)) == self.blobs.get_value(self.blob_key(account@, container@, blob@)->Some_0).uncommitted.pairs().map_values(|e: (Seq<char>, Seq<u8>)| (e.0, e.1.len()))
                    &&& lists_by(
                        u@.map_values(|e: (String, usize)| e.1 as nat),
                        b.uncommitted.map_values(|d: Seq<u8>| d.len()),
                        u@.map_values(|e: (String, usize)| e.0@),
                    )
                },
                None => !self.has_blob(account@, container@, blob@),
            },
    {
        let p = match self.locate_blob(account, container, blob) {
            Ok(p) => p,
            Err(_) => return None,
        };
        let b = self.blobs.get(&p).unwrap();
        let mut c: Vec<(String, usize)> = Vec::new();
        let mut i: usize = 0;
        while i < b.committed.len()
            invariant
                i <= b.committed@.len(),
                c@.map_values(|e: (String, usize)| (e.0@, e.1 as nat)) == blocks_model(b.committed@).take(i as int).map_values(|e: (Seq<char>, Seq<u8>)| (e.0, e.1.len())),
            decreases b.committed.len() - i,
        {
            let ghost prev = c@;
            c.push((b.committed[i].0.clone(), b.committed[i].1.len()));
            proof {
                assert(c@.map_values(|e: (String, usize)| (e.0@, e.1 as nat)) =~= prev.map_values(|e: (String, usize)| (e.0@, e.1 as nat)).push((b.committed@[i as int].0@, b.committed@[i as int].1@.len())));
                assert(blocks_model(b.committed@).take(i + 1).map_values(|e: (Seq<char>, Seq<u8>)| (e.0, e.1.len()))
                    =~= blocks_model(b.committed@).take(i as int).map_values(|e: (Seq<char>, Seq<u8>)| (e.0, e.1.len())).push((b.committed@[i as int].0@, b.committed@[i as int].1@.len())));
            }
            i = i + 1;
        }
        proof {
            assert(blocks_model(b.committed@).take(b.committed@.len() as int) =~= blocks_model(b.committed@));
        }
        let mut u: Vec<(String, usize)> = Vec::new();
        let n = b.uncommitted.len();
        proof {
            self.blobs.lemma_get_value(p@);
        }
        let mut j: usize = 0;
        while j < n
            invariant
                n == b.uncommitted.keys().len(),
                j <= n,
                u@.map_values(|e: (String, usize)| (e.0@, e.1 as nat)) == b.uncommitted.pairs().take(j as int).map_values(|e: (Seq<char>, Seq<u8>)| (e.0, e.1.len())),
            decreases n - j,
        {
            let ghost prev = u@;
            let k = b.uncommitted.key_at(j).clone();
            let len = b.uncommitted.value_at(j).len();
            u.push((k, len));
            proof {
                assert(u@.map_values(|e: (String, usize)| (e.0@, e.1 as nat)) =~= prev.map_values(|e: (String, usize)| (e.0@, e.1 as nat)).push(
                    (b.uncommitted.pairs()[j as int].0, b.uncommitted.pairs()[j as int].1.len())));
                assert(b.uncommitted.pairs().take(j + 1).map_values(|e: (Seq<char>, Seq<u8>)| (e.0, e.1.len()))
                    =~= b.uncommitted.pairs().take(j as int).map_values(|e: (Seq<char>, Seq<u8>)| (e.0, e.1.len())).push(
                    (b.uncommitted.pairs()[j as int].0, b.uncommitted.pairs()[j as int].1.len())));
            }
            j = j + 1;
        }
        proof {
            let ps = b.uncommitted.pairs();
            assert(ps.take(n as int) =~= ps);
            lemma_lists_by_map_values(b.uncommitted.vals(), b.uncommitted.map(), b.uncommitted.keys(), |d: Seq<u8>| d.len());
            assert(u@.map_values(|e: (String, usize)| e.1 as nat) =~= b.uncommitted.vals().map_values(|d: Seq<u8>| d.len())) by {
                assert forall|i: int| 0 <= i < u@.len() implies u@[i].1 as nat == b.uncommitted.vals()[i].len() by {
                    assert(u@.map_values(|e: (String, usize)| (e.0@, e.1 as nat))[i] == ps.map_values(|e: (Seq<char>, Seq<u8>)| (e.0, e.1.len()))[i]);
                }
            }
            assert(u@.map_values(|e: (String, usize)| e.0@) =~= b.uncommitted.keys()) by {
                assert forall|i: int| 0 <= i < u@.len() implies u@[i].0@ == b.uncommitted.keys()[i] by {
                    assert(u@.map_values(|e: (String, usize)| (e.0@, e.1 as nat))[i] == ps.map_values(|e: (Seq<char>, Seq<u8>)| (e.0, e.1.len()))[i]);
                }
            }
        }
        Some((c, u))
    }
}

} // verus!

verus! {

/// Position of the first committed block with id `id`.
pub fn find_committed(committed: &Vec<(String, Vec<u8>)>, id: &str) -> (r: Option<usize>)
    ensures
        match r {
            Some(j) => first_block(blocks_model(committed@), id@, j as int)
                && (choose|x: int| first_block(blocks_model(committed@), id@, x)) == j,
            None => !exists|x: int| first_block(blocks_model(committed@), id@, x),
        },
{
    let ghost bm = blocks_model(committed@);
    let mut j: usize = 0;
    while j < committed.len()
        invariant
            j <= committed@.len(),
            bm == blocks_model(committed@),
            bm.len() == committed@.len(),
            forall|x: int| 0 <= x < j ==> bm[x].0 != id@,
        decreases committed.len() - j,
    {
        if text_eq(committed[j].0.as_str(), id) {
            proof {
                assert(bm[j as int].0 == id@);
                assert(first_block(bm, id@, j as int));
                let c = choose|x: int| first_block(bm, id@, x);
                assert(c == j) by {
                    if c < j {
                    } else if c > j {
                        assert(bm[j as int].0 == id@);
                    }
                }
            }
            return Some(j);
        }
        assert(bm[j as int].0 == committed@[j as int].0@);
        j = j + 1;
    }
    None
}

/// Once an id is missing, later ids change nothing.
pub proof fn lemma_resolve_stops(unc: Map<Seq<char>, Seq<u8>>, committed: Seq<(Seq<char>, Seq<u8>)>, ids: Seq<Seq<char>>, k: int)
    requires
        0 <= k <= ids.len(),
        resolve(unc, committed, ids.take(k)).missing is Some,
    ensures
        resolve(unc, committed, ids) == resolve(unc, committed, ids.take(k)),
    decreases ids.len() - k,
{
    if k < ids.len() {
        assert(ids.take(k + 1).drop_last() =~= ids.take(k));
        lemma_resolve_stops(unc, committed, ids, k + 1);
    } else {
        assert(ids.take(k) =~= ids);
    }
}

/// The ids of a block list.
pub open spec fn ids_model(ids: Seq<String>) -> Seq<Seq<char>> {
    ids.map_values(|s: String| s@)
}

impl MockState {
    /// Commits the block list `block_ids` of blob `blob`: its content
    /// becomes the listed blocks in order, staged blocks first and else
    /// committed ones, and the other staged blocks are dropped. An id found
    /// nowhere refuses the list; the staged blocks taken before it are
    /// gone then, nothing else changes.
    pub fn put_block_list(&mut self, account: &str, container: &str, blob: &str, block_ids: Vec<String>, content_type: Option<&str>, fresh: &Fresh) -> (r: Result<(), StoreError>)
        ensures
            crate::store::parents_exist(old(self)@) ==> crate::store::parents_exist(final(self)@),
            final(self).storage_accounts.keys() == old(self).storage_accounts.keys(),
            !old(self).has_blob(account@, container@, blob@) ==> (r matches Err(e) && old(self).blob_error(account@, container@, blob@, e) && final(self)@ == old(self)@),
            old(self).has_blob(account@, container@, blob@) ==> {
                let key = old(self).blob_key(account@, container@, blob@)->Some_0;
                let b = old(self)@.blobs[key];
                let res = resolve(b.uncommitted, b.committed, ids_model(block_ids@));
                match res.missing {
                    Some(id) => r matches Err(StoreError::BlockNotFound(n)) && n@ == id && final(self)@ == (StoreView {
                        blobs: old(self)@.blobs.insert(key, BlobView { uncommitted: res.remaining, ..b }),
                        ..old(self)@
                    }),
                    None => r is Ok && final(self)@ == (StoreView {
                        blobs: old(self)@.blobs.insert(key, BlobView {
                            properties: committed_properties(
                                b.properties,
                                concat_blocks(res.chosen).len(),
                                match content_type { Some(t) => Some(t@), None => None },
                                fresh.rfc2822@,
                                fresh.etag_hex@,
                            ),
                            data: concat_blocks(res.chosen),
                            uncommitted: Map::empty(),
                            committed: res.chosen,
                        }),
                        ..old(self)@
                    }),
                }
            },
    {
        let p = match self.locate_blob(account, container, blob) {
            Ok(p) => p,
            Err(e) => return Err(e),
        };
        let i = self.blobs.find(&p).unwrap();
        let mut b = self.blobs.value_at(i).deep_copy();
        let ghost unc0 = b@.uncommitted;
        let ghost com0 = b@.committed;
        let ghost ids = ids_model(block_ids@);
        let mut chosen: Vec<(String, Vec<u8>)> = Vec::new();
        let mut data: Vec<u8> = Vec::new();
        let mut k: usize = 0;
        proof {
            assert(ids.take(0) =~= Seq::<Seq<char>>::empty());
            assert(blocks_model(chosen@) =~= Seq::<(Seq<char>, Seq<u8>)>::empty());
            assert(data@ =~= Seq::<u8>::empty());
        }
        while k < block_ids.len()
            invariant
                k <= block_ids@.len(),
                i < self.blobs.keys().len(),
                self.blobs.keys()[i as int] == p@,
                self.blobs.map().contains_key(p@),
                self == old(self),
                old(self).has_blob(account@, container@, blob@),
                old(self).blob_key(account@, container@, blob@) == Some(p@),
                unc0 == self.blobs.map()[p@].uncommitted,
                com0 == self.blobs.map()[p@].committed,
                ids == ids_model(block_ids@),
                ids.len() == block_ids@.len(),
                b@.committed == com0,
                b@.properties == self.blobs.map()[p@].properties,
                b@.data == self.blobs.map()[p@].data,
                resolve(unc0, com0, ids.take(k as int)).missing is None,
                b@.uncommitted == resolve(unc0, com0, ids.take(k as int)).remaining,
                blocks_model(chosen@) == resolve(unc0, com0, ids.take(k as int)).chosen,
                data@ == concat_blocks(blocks_model(chosen@)),
            decreases block_ids.len() - k,
        {
            let id = &block_ids[k];
            proof {
                assert(ids.take(k + 1).drop_last() =~= ids.take(k as int));
                assert(ids.take(k + 1).last() == id@);
            }
            let ghost prev_chosen = chosen@;
            match b.uncommitted.remove(id) {
                Some(d) => {
                    let mut more = d.deep_copy();
                    data.append(&mut more);
                    chosen.push((id.clone(), d));
                },
                None => {
                    match find_committed(&b.committed, id.as_str()) {
                        Some(j) => {
                            let d = b.committed[j].1.deep_copy();
                            let mut more = d.deep_copy();
                            data.append(&mut more);
                            chosen.push((id.clone(), d));
                        },
                        None => {
                            proof {
                                let r0 = resolve(unc0, com0, ids.take(k as int));
                                assert(!r0.remaining.contains_key(id@));
                                assert(!exists|x: int| first_block(com0, id@, x));
                                assert(resolve(unc0, com0, ids.take(k + 1)) == Resolution { missing: Some(id@), ..r0 });
                                lemma_resolve_stops(unc0, com0, ids, k + 1);
                                let ob = old(self)@.blobs[p@];
                                assert(r0.remaining.remove(id@) =~= r0.remaining);
                                assert(b@.uncommitted =~= r0.remaining);
                                assert(b@ == BlobView { uncommitted: r0.remaining, ..ob });
                            }
                            let e = StoreError::BlockNotFound(id.clone());
                            self.blobs.replace_at(i, b);
                            return Err(e);
                        },
                    }
                },
            }
            proof {
                let bm = blocks_model(chosen@);
                assert(bm =~= blocks_model(prev_chosen).push((chosen@.last().0@, chosen@.last().1@)));
                assert(bm.drop_last() =~= blocks_model(prev_chosen));
            }
            k = k + 1;
        }
        proof {
            assert(ids.take(ids.len() as int) =~= ids);
        }
        let mut props = b.properties.deep_clone();
        props.set("contentLength", JsonValue::Number(crate::text::decimal_text(data.len() as u64)));
        match content_type {
            Some(t) => props.set("contentType", jstr(t)),
            None => {},
        }
        touch(&mut props, fresh);
        let st = BlobState { properties: props, data, uncommitted: KeyedMap::new(), committed: chosen };
        self.blobs.replace_at(i, st);
        Ok(())
    }
}

} // verus!

verus! {

/// The answer to a name check: whether the name is free, and why not.
pub open spec fn availability_doc(available: bool, reason: Option<Seq<char>>, message: Option<Seq<char>>) -> Json {
    Json::Object(
        seq![("nameAvailable"@, Json::Bool(available))] + match reason {
            Some(r) => seq![("reason"@, Json::Str(r))],
            None => Seq::empty(),
        } + match message {
            Some(m) => seq![("message"@, Json::Str(m))],
            None => Seq::empty(),
        },
    )
}

/// Builds the answer to a name check.
pub fn make_availability_doc(r: (bool, Option<String>, Option<String>)) -> (d: JsonValue)
    ensures
        d@ == availability_doc(r.0, opt_text(r.1), opt_text(r.2)),
{
    let ghost o1 = opt_text(r.1);
    let ghost o2 = opt_text(r.2);
    let mut ms: Vec<(String, JsonValue)> = Vec::new();
    push_member(&mut ms, "nameAvailable", JsonValue::Bool(r.0));
    let ghost head = members_model(ms@);
    match r.1 {
        Some(reason) => push_member(&mut ms, "reason", JsonValue::Str(reason)),
        None => {},
    }
    let ghost mid = members_model(ms@);
    match r.2 {
        Some(m) => push_member(&mut ms, "message", JsonValue::Str(m)),
        None => {},
    }
    proof {
        assert(head =~= seq![("nameAvailable"@, Json::Bool(r.0))]);
        assert(mid =~= head + match o1 {
            Some(x) => seq![("reason"@, Json::Str(x))],
            None => Seq::<(Seq<char>, Json)>::empty(),
        });
        assert(members_model(ms@) =~= availability_doc(r.0, o1, o2)->Object_0);
    }
    JsonValue::Object(ms)
}

/// The document listing access keys.
pub open spec fn keys_doc(keys: Seq<(Seq<char>, Seq<char>, Seq<char>)>) -> Json {
    Json::Object(seq![("keys"@, Json::Array(keys.map_values(|k: (Seq<char>, Seq<char>, Seq<char>)| Json::Object(seq![
        ("keyName"@, Json::Str(k.0)),
        ("value"@, Json::Str(k.1)),
        ("permissions"@, Json::Str(k.2)),
    ]))))])
}

/// The text triples of a list of keys.
pub open spec fn key_triples(keys: Seq<(String, String, String)>) -> Seq<(Seq<char>, Seq<char>, Seq<char>)> {
    keys.map_values(|k: (String, String, String)| (k.0@, k.1@, k.2@))
}

/// Builds the document listing access keys.
pub fn make_keys_doc(keys: &Vec<(String, String, String)>) -> (d: JsonValue)
    ensures
        d@ == keys_doc(key_triples(keys@)),
{
    let mut items: Vec<JsonValue> = Vec::new();
    let mut i: usize = 0;
    while i < keys.len()
        invariant
            i <= keys@.len(),
            crate::json::items_model(items@) == keys_doc(key_triples(keys@.take(i as int)))->Object_0[0].1->Array_0,
        decreases keys.len() - i,
    {
        let mut e: Vec<(String, JsonValue)> = Vec::new();
        push_member(&mut e, "keyName", jstr(keys[i].0.as_str()));
        push_member(&mut e, "value", jstr(keys[i].1.as_str()));
        push_member(&mut e, "permissions", jstr(keys[i].2.as_str()));
        assert(members_model(e@) =~= seq![
            ("keyName"@, Json::Str(keys@[i as int].0@)),
            ("value"@, Json::Str(keys@[i as int].1@)),
            ("permissions"@, Json::Str(keys@[i as int].2@)),
        ]);
        let obj = JsonValue::Object(e);
        assert(obj@ == Json::Object(seq![
            ("keyName"@, Json::Str(keys@[i as int].0@)),
            ("value"@, Json::Str(keys@[i as int].1@)),
            ("permissions"@, Json::Str(keys@[i as int].2@)),
        ]));
        let ghost prev = items@;
        items.push(obj);
        proof {
            assert(items@.drop_last() =~= prev);
            assert(key_triples(keys@.take(i + 1)) =~= key_triples(keys@.take(i as int)).push((keys@[i as int].0@, keys@[i as int].1@, keys@[i as int].2@)));
            assert(keys_doc(key_triples(keys@.take(i + 1)))->Object_0[0].1->Array_0 =~= keys_doc(key_triples(keys@.take(i as int)))->Object_0[0].1->Array_0.push(obj@));
        }
        i = i + 1;
    }
    proof {
        assert(keys@.take(keys@.len() as int) =~= keys@);
    }
    let mut ms: Vec<(String, JsonValue)> = Vec::new();
    push_member(&mut ms, "keys", JsonValue::Array(items));
    proof {
        assert(members_model(ms@) =~= keys_doc(key_triples(keys@))->Object_0);
    }
    JsonValue::Object(ms)
}

/// The keys after key `key_name` of account `name` is regenerated: that
/// key gets a `regen` value, the other keeps its value.
pub open spec fn regenerated_keys(name: Seq<char>, key_name: Seq<char>) -> Seq<(Seq<char>, Seq<char>, Seq<char>)> {
    account_keys(name).map_values(|k: (Seq<char>, Seq<char>, Seq<char>)| if k.0 == key_name {
        (k.0, "regen"@ + k.0 + name + "000000000000000000000000000000000000=="@, k.2)
    } else {
        k
    })
}

impl MockState {
    /// The access keys of storage account `name` after key `key_name` is
    /// regenerated.
    pub fn regenerate_storage_key(&self, subscription_id: &str, resource_group: &str, name: &str, key_name: &str) -> (r: Result<Vec<(String, String, String)>, StoreError>)
        ensures
            match r {
                Ok(keys) => self@.storage_accounts.contains_key(seq![subscription_id@, resource_group@, name@])
                    && key_triples(keys@) == regenerated_keys(name@, key_name@),
                Err(e) => !self@.storage_accounts.contains_key(seq![subscription_id@, resource_group@, name@])
                    && (e matches StoreError::StorageAccountNotFound(n) && n@ == name@),
            },
    {
        let mut keys = self.list_storage_keys(subscription_id, resource_group, name)?;
        let ghost before = key_triples(keys@);
        let mut i: usize = 0;
        while i < keys.len()
            invariant
                i <= keys@.len(),
                keys@.len() == before.len(),
                before == account_keys(name@),
                forall|j: int| i <= j < keys@.len() ==> (keys@[j].0@, keys@[j].1@, keys@[j].2@) == before[j],
                forall|j: int| 0 <= j < i ==> (keys@[j].0@, keys@[j].1@, keys@[j].2@) == regenerated_keys(name@, key_name@)[j],
            decreases keys.len() - i,
        {
            if text_eq(keys[i].0.as_str(), key_name) {
                let v = join(&["regen", keys[i].0.as_str(), name, "000000000000000000000000000000000000=="]);
                proof {
                    reveal_with_fuel(concat_all, 5);
                }
                let k = (keys[i].0.clone(), v, keys[i].2.clone());
                keys.set(i, k);
            }
            i = i + 1;
        }
        proof {
            assert(key_triples(keys@) =~= regenerated_keys(name@, key_name@));
        }
        Ok(keys)
    }
}

/// An account SAS token of the mock: the request's fields and a mock
/// signature naming the account.
pub open spec fn account_sas_text(account: Seq<char>, services: Seq<char>, types: Seq<char>, permission: Seq<char>, expiry: Seq<char>) -> Seq<char> {
    "sv=2023-11-03&ss="@ + services + "&srt="@ + types + "&sp="@ + permission + "&se="@ + expiry + "&sig=mock-"@ + account
}

/// A service SAS token of the mock.
pub open spec fn service_sas_text(account: Seq<char>, resource: Seq<char>, permission: Seq<char>, expiry: Seq<char>) -> Seq<char> {
    "sv=2023-11-03&sr="@ + resource + "&sp="@ + permission + "&se="@ + expiry + "&sig=mock-"@ + account
}

/// Builds an account SAS token.
pub fn account_sas_token(account: &str, services: &str, types: &str, permission: &str, expiry: &str) -> (r: String)
    ensures
        r@ == account_sas_text(account@, services@, types@, permission@, expiry@),
{
    let r = join(&["sv=2023-11-03&ss=", services, "&srt=", types, "&sp=", permission, "&se=", expiry, "&sig=mock-", account]);
    proof {
        reveal_with_fuel(concat_all, 11);
    }
    r
}

/// Builds a service SAS token.
pub fn service_sas_token(account: &str, resource: &str, permission: &str, expiry: &str) -> (r: String)
    ensures
        r@ == service_sas_text(account@, resource@, permission@, expiry@),
{
    let r = join(&["sv=2023-11-03&sr=", resource, "&sp=", permission, "&se=", expiry, "&sig=mock-", account]);
    proof {
        reveal_with_fuel(concat_all, 9);
    }
    r
}

} // verus!

verus! {

/// The document answering a SAS request: member `member` holding the token.
pub open spec fn sas_doc(member: Seq<char>, token: Seq<char>) -> Json {
    Json::Object(seq![(member, Json::Str(token))])
}

/// The message for a storage account that does not exist.
pub open spec fn account_missing_text(name: Seq<char>) -> Seq<char> {
    "The storage account '"@ + name + "' was not found."@
}

fn sas_reply(member: &str, token: String) -> (r: crate::reply::Reply)
    ensures
        crate::reply::is_json_reply(r, 200, sas_doc(member@, token@)),
{
    let mut ms: Vec<(String, JsonValue)> = Vec::new();
    crate::json::push_member(&mut ms, member, JsonValue::Str(token));
    proof {
        assert(crate::json::members_model(ms@) =~= sas_doc(member@, token@)->Object_0);
    }
    crate::reply::json_reply(200, JsonValue::Object(ms))
}

fn account_missing_reply(name: &str) -> (r: crate::reply::Reply)
    ensures
        crate::reply::is_error_reply(r, 404, "StorageAccountNotFound"@, account_missing_text(name@)),
{
    let m = join(&["The storage account '", name, "' was not found."]);
    proof {
        reveal_with_fuel(concat_all, 4);
    }
    crate::reply::error_reply(404, "StorageAccountNotFound", m.as_str())
}

impl MockState {
    /// Answers a request for an account SAS: 200 with `accountSasToken`
    /// when the account exists, 404 otherwise.
    pub fn account_sas_reply(
        &self,
        subscription_id: &str,
        resource_group: &str,
        name: &str,
        services: &str,
        types: &str,
        permission: &str,
        expiry: &str,
    ) -> (r: crate::reply::Reply)
        ensures
            self@.storage_accounts.contains_key(seq![subscription_id@, resource_group@, name@]) ==> crate::reply::is_json_reply(
                r,
                200,
                sas_doc("accountSasToken"@, account_sas_text(name@, services@, types@, permission@, expiry@)),
            ),
            !self@.storage_accounts.contains_key(seq![subscription_id@, resource_group@, name@]) ==> crate::reply::is_error_reply(
                r,
                404,
                "StorageAccountNotFound"@,
                account_missing_text(name@),
            ),
    {
        if self.get_storage_account(subscription_id, resource_group, name).is_none() {
            return account_missing_reply(name);
        }
        sas_reply("accountSasToken", account_sas_token(name, services, types, permission, expiry))
    }

    /// Answers a request for a service SAS: 200 with `serviceSasToken`
    /// when the account exists, 404 otherwise.
    pub fn service_sas_reply(
        &self,
        subscription_id: &str,
        resource_group: &str,
        name: &str,
        resource: &str,
        permission: &str,
        expiry: &str,
    ) -> (r: crate::reply::Reply)
        ensures
            self@.storage_accounts.contains_key(seq![subscription_id@, resource_group@, name@]) ==> crate::reply::is_json_reply(
                r,
                200,
                sas_doc("serviceSasToken"@, service_sas_text(name@, resource@, permission@, expiry@)),
            ),
            !self@.storage_accounts.contains_key(seq![subscription_id@, resource_group@, name@]) ==> crate::reply::is_error_reply(
                r,
                404,
                "StorageAccountNotFound"@,
                account_missing_text(name@),
            ),
    {
        if self.get_storage_account(subscription_id, resource_group, name).is_none() {
            return account_missing_reply(name);
        }
        sas_reply("serviceSasToken", service_sas_token(name, resource, permission, expiry))
    }
}

} // verus!

verus! {

/// Creating or replacing an account of an existing group, without
/// containers, keeps the hierarchy.
pub proof fn lemma_wf_account_put(v: StoreView, key: Seq<Seq<char>>, a: AccountView)
    requires
        crate::store::parents_exist(v),
        key.len() == 3,
        v.resource_groups.contains_key(key.drop_last()),
    ensures
        crate::store::parents_exist(StoreView {
            storage_accounts: v.storage_accounts.insert(key, a),
            containers: without_under(v.containers, key),
            blobs: without_under(v.blobs, key),
            ..v
        }),
{
    crate::store::lemma_children_insert(v.storage_accounts, v.resource_groups, 3, key, a);
    crate::store::lemma_children_fewer(v.containers, without_under(v.containers, key), v.storage_accounts, 4);
    crate::store::lemma_children_more_parents(without_under(v.containers, key), v.storage_accounts, v.storage_accounts.insert(key, a), 4);
    crate::store::lemma_children_without_under(v.blobs, v.containers, 5, key);
}

/// Deleting an account with its containers and blobs keeps the
/// hierarchy.
pub proof fn lemma_wf_account_removed(v: StoreView, key: Seq<Seq<char>>)
    requires
        crate::store::parents_exist(v),
    ensures
        crate::store::parents_exist(StoreView {
            storage_accounts: v.storage_accounts.remove(key),
            containers: without_under(v.containers, key),
            blobs: without_under(v.blobs, key),
            ..v
        }),
{
    crate::store::lemma_children_fewer(v.storage_accounts, v.storage_accounts.remove(key), v.resource_groups, 3);
    crate::store::lemma_children_remove_parent(v.containers, v.storage_accounts, 4, key);
    crate::store::lemma_children_without_under(v.blobs, v.containers, 5, key);
}

} // verus!
