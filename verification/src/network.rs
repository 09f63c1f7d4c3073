use vstd::prelude::*;

use crate::fresh::Fresh;
use crate::json::{
    items_model, json_get, json_set, jstr, lemma_items_model, members_model, push_member,
    string_pairs_object, string_pairs_to_object, Json, JsonValue,
};
use crate::keyed::{
    child, pairs_under, path1, path2, path3, path4, values_under, KeyedMap, Path,
};
use crate::storage::{group_error_matches, group_missing};
use crate::store::{docs, without_under, MockState, Page, StoreError, StoreView};
use crate::text::{concat_all, join, owned};

verus! {

/// Body of a request that creates or replaces a network resource of a
/// resource group.
pub struct CreateResourceParams {
    pub location: String,
    pub tags: Vec<(String, String)>,
    pub properties: JsonValue,
}

/// Resource id of a network resource of kind `kind` (such as
/// `virtualNetworks`).
pub open spec fn network_id(sub: Seq<char>, rg: Seq<char>, kind: Seq<char>, name: Seq<char>) -> Seq<char> {
    "/subscriptions/"@ + sub + "/resourceGroups/"@ + rg + "/providers/Microsoft.Network/"@ + kind + "/"@ + name
}

/// Properties marked as provisioned.
pub open spec fn succeeded(props: Json) -> Json {
    json_set(props, "provisioningState"@, Json::Str("Succeeded"@))
}

/// The entity tag every network resource starts with.
pub open spec fn first_etag() -> Seq<char> {
    "\"1\""@
}

/// A top-level resource document: id, name, type, location and tags, an
/// entity tag when `etag` holds, then the members of `tail`.
pub open spec fn top_doc(
    id: Seq<char>,
    name: Seq<char>,
    rtype: Seq<char>,
    location: Seq<char>,
    tags: Json,
    etag: bool,
    tail: Seq<(Seq<char>, Json)>,
) -> Json {
    Json::Object(
        seq![
            ("id"@, Json::Str(id)),
            ("name"@, Json::Str(name)),
            ("type"@, Json::Str(rtype)),
            ("location"@, Json::Str(location)),
            ("tags"@, tags),
        ] + (if etag {
            seq![("etag"@, Json::Str(first_etag()))]
        } else {
            Seq::empty()
        }) + tail,
    )
}

/// A child resource document: id and name, an entity tag and a type when
/// `rtype` is given, then its properties.
pub open spec fn child_doc(id: Seq<char>, name: Seq<char>, rtype: Option<Seq<char>>, props: Json) -> Json {
    Json::Object(
        seq![("id"@, Json::Str(id)), ("name"@, Json::Str(name))] + match rtype {
            Some(t) => seq![("etag"@, Json::Str(first_etag())), ("type"@, Json::Str(t))],
            None => Seq::empty(),
        } + seq![("properties"@, props)],
    )
}

/// The id of a document, or empty text.
pub open spec fn doc_id(d: Json) -> Seq<char> {
    match json_get(d, "id"@) {
        Some(Json::Str(s)) => s,
        _ => Seq::empty(),
    }
}

/// The items of array member `k`, or none.
pub open spec fn items_at(j: Json, k: Seq<char>) -> Seq<Json> {
    match json_get(j, k) {
        Some(Json::Array(items)) => items,
        _ => Seq::empty(),
    }
}

/// The name of a child document, when it has one.
pub open spec fn named(j: Json) -> Option<Seq<char>> {
    match json_get(j, "name"@) {
        Some(Json::Str(n)) => Some(n),
        _ => None,
    }
}

/// The named items as children of `prefix`; a later item replaces an
/// earlier one of the same name.
pub open spec fn named_children(prefix: Seq<Seq<char>>, items: Seq<Json>) -> Map<Seq<Seq<char>>, Json>
    decreases items.len(),
{
    if items.len() == 0 {
        Map::empty()
    } else {
        let m = named_children(prefix, items.drop_last());
        match named(items.last()) {
            Some(n) => m.insert(prefix.push(n), items.last()),
            None => m,
        }
    }
}

/// A document whose property `k` lists `children`.
pub open spec fn with_children(doc: Json, k: Seq<char>, children: Seq<Json>) -> Json {
    match json_get(doc, "properties"@) {
        Some(p) => json_set(doc, "properties"@, json_set(p, k, Json::Array(children))),
        None => doc,
    }
}

/// Documents of parents, each with property `k` listing the children
/// stored under its key.
pub open spec fn parents_with_children(
    parents: Seq<(Seq<Seq<char>>, Json)>,
    children: Seq<(Seq<Seq<char>>, Json)>,
    k: Seq<char>,
) -> Seq<Json> {
    parents.map_values(|e: (Seq<Seq<char>>, Json)| with_children(e.1, k, values_under(children, e.0)))
}

pub proof fn lemma_items_docs(s: Seq<JsonValue>)
    ensures
        items_model(s) == docs(s),
{
    lemma_items_model(s);
    assert(items_model(s) =~= docs(s));
}

/// Text of a network resource id.
pub fn make_network_id(sub: &str, rg: &str, kind: &str, name: &str) -> (r: String)
    ensures
        r@ == network_id(sub@, rg@, kind@, name@),
{
    let r = join(&["/subscriptions/", sub, "/resourceGroups/", rg, "/providers/Microsoft.Network/", kind, "/", name]);
    proof {
        reveal_with_fuel(concat_all, 9);
    }
    r
}

/// Marks properties as provisioned.
pub fn mark_succeeded(props: &mut JsonValue)
    ensures
        final(props)@ == succeeded(old(props)@),
{
    props.set("provisioningState", jstr("Succeeded"));
}

/// Builds a top-level resource document.
pub fn make_top_doc(
    id: String,
    name: &str,
    rtype: &str,
    location: &str,
    tags: &Vec<(String, String)>,
    etag: bool,
    tail: Vec<(String, JsonValue)>,
) -> (r: JsonValue)
    ensures
        r@ == top_doc(id@, name@, rtype@, location@, string_pairs_object(tags@), etag, members_model(tail@)),
{
    let mut ms: Vec<(String, JsonValue)> = Vec::new();
    push_member(&mut ms, "id", JsonValue::Str(id));
    push_member(&mut ms, "name", jstr(name));
    push_member(&mut ms, "type", jstr(rtype));
    push_member(&mut ms, "location", jstr(location));
    push_member(&mut ms, "tags", string_pairs_to_object(tags));
    if etag {
        push_member(&mut ms, "etag", jstr("\"1\""));
    }
    let ghost head = ms@;
    let ghost t = tail@;
    let mut tail = tail;
    ms.append(&mut tail);
    proof {
        assert(ms@ =~= head + t);
        crate::json::lemma_members_concat(head, t);
        let base = seq![
            ("id"@, Json::Str(id@)),
            ("name"@, Json::Str(name@)),
            ("type"@, Json::Str(rtype@)),
            ("location"@, Json::Str(location@)),
            ("tags"@, string_pairs_object(tags@)),
        ];
        if etag {
            assert(members_model(head) =~= base + seq![("etag"@, Json::Str(first_etag()))]);
        } else {
            assert(members_model(head) =~= base + Seq::<(Seq<char>, Json)>::empty());
        }
    }
    JsonValue::Object(ms)
}

/// Builds a child resource document.
pub fn make_child_doc(id: String, name: &str, rtype: Option<&str>, props: JsonValue) -> (r: JsonValue)
    ensures
        r@ == child_doc(
            id@,
            name@,
            match rtype {
                Some(t) => Some(t@),
                None => None,
            },
            props@,
        ),
{
    let mut ms: Vec<(String, JsonValue)> = Vec::new();
    push_member(&mut ms, "id", JsonValue::Str(id));
    push_member(&mut ms, "name", jstr(name));
    match rtype {
        Some(t) => {
            push_member(&mut ms, "etag", jstr("\"1\""));
            push_member(&mut ms, "type", jstr(t));
        },
        None => {},
    }
    push_member(&mut ms, "properties", props);
    proof {
        match rtype {
            Some(t) => {
                assert(members_model(ms@) =~= seq![("id"@, Json::Str(id@)), ("name"@, Json::Str(name@))] + seq![
                    ("etag"@, Json::Str(first_etag())),
                    ("type"@, Json::Str(t@)),
                ] + seq![("properties"@, props@)]);
            },
            None => {
                assert(members_model(ms@) =~= seq![("id"@, Json::Str(id@)), ("name"@, Json::Str(name@))]
                    + Seq::<(Seq<char>, Json)>::empty() + seq![("properties"@, props@)]);
            },
        }
    }
    JsonValue::Object(ms)
}

/// The id of a document, or empty text.
pub fn id_of(d: &JsonValue) -> (r: String)
    ensures
        r@ == doc_id(d@),
{
    match d.member("id") {
        Some(v) => match v {
            JsonValue::Str(s) => s.clone(),
            _ => String::new(),
        },
        None => String::new(),
    }
}

/// Stores each named item of array property `k` of `props` as a child of
/// `prefix`.
pub fn put_children(coll: &mut KeyedMap<Path, JsonValue>, prefix: &Path, props: &JsonValue, k: &str)
    ensures
        final(coll).map() == old(coll).map().union_prefer_right(named_children(prefix@, items_at(props@, k@))),
{
    let empty: Vec<JsonValue> = Vec::new();
    let items: &Vec<JsonValue> = match props.member(k) {
        Some(v) => match v {
            JsonValue::Array(items) => items,
            _ => &empty,
        },
        None => &empty,
    };
    let ghost all = items_model(items@);
    proof {
        lemma_items_model(items@);
        assert(items_at(props@, k@) == all);
    }
    let ghost base = coll.map();
    let mut i: usize = 0;
    while i < items.len()
        invariant
            i <= items@.len(),
            all == items_model(items@),
            all.len() == items@.len(),
            forall|j: int| 0 <= j < items@.len() ==> #[trigger] all[j] == items@[j]@,
            coll.map() == base.union_prefer_right(named_children(prefix@, all.take(i as int))),
        decreases items.len() - i,
    {
        proof {
            assert(all.take(i + 1).drop_last() =~= all.take(i as int));
            assert(all.take(i + 1).last() == items@[i as int]@);
        }
        match items[i].member("name") {
            Some(v) => match v {
                JsonValue::Str(n) => {
                    let key = child(prefix, n.as_str());
                    coll.insert(key, items[i].deep_clone());
                    proof {
                        assert(coll.map() =~= base.union_prefer_right(named_children(prefix@, all.take(i + 1))));
                    }
                },
                _ => {
                    proof {
                        assert(named_children(prefix@, all.take(i + 1)) == named_children(prefix@, all.take(i as int)));
                    }
                },
            },
            None => {
                proof {
                    assert(named_children(prefix@, all.take(i + 1)) == named_children(prefix@, all.take(i as int)));
                }
            },
        }
        i = i + 1;
    }
    proof {
        assert(all.take(items@.len() as int) =~= all);
    }
}

/// Sets property `k` of a document to the list `children`.
pub fn attach_children(doc: &mut JsonValue, k: &str, children: Vec<JsonValue>)
    ensures
        final(doc)@ == with_children(old(doc)@, k@, docs(children@)),
{
    proof {
        lemma_items_docs(children@);
    }
    let p2 = match doc.member("properties") {
        Some(p) => {
            let mut p2 = p.deep_clone();
            p2.set(k, JsonValue::Array(children));
            Some(p2)
        },
        None => None,
    };
    match p2 {
        Some(p2) => doc.set("properties", p2),
        None => {},
    }
}

/// Documents of `parents`, each with property `k` listing its children.
pub fn docs_with_children(parents: &Vec<(Path, JsonValue)>, children: &KeyedMap<Path, JsonValue>, k: &str) -> (r: Vec<JsonValue>)
    ensures
        docs(r@) == parents_with_children(
            parents@.map_values(|e: (Path, JsonValue)| (e.0@, e.1@)),
            children.pairs(),
            k@,
        ),
{
    let ghost ps = parents@.map_values(|e: (Path, JsonValue)| (e.0@, e.1@));
    let mut out: Vec<JsonValue> = Vec::new();
    let mut i: usize = 0;
    while i < parents.len()
        invariant
            i <= parents@.len(),
            ps == parents@.map_values(|e: (Path, JsonValue)| (e.0@, e.1@)),
            docs(out@) == parents_with_children(ps.take(i as int), children.pairs(), k@),
        decreases parents.len() - i,
    {
        let mut d = parents[i].1.deep_clone();
        let cs = children.values_under(&parents[i].0);
        proof {
            assert(docs(cs@) =~= cs@.map_values(|v: JsonValue| v@));
        }
        attach_children(&mut d, k, cs);
        let ghost prev = out@;
        out.push(d);
        proof {
            assert(docs(out@) =~= docs(prev).push(d@));
            assert(parents_with_children(ps.take(i + 1), children.pairs(), k@) =~= parents_with_children(
                ps.take(i as int),
                children.pairs(),
                k@,
            ).push(d@));
        }
        i = i + 1;
    }
    proof {
        assert(ps.take(parents@.len() as int) =~= ps);
    }
    out
}

} // verus!

verus! {

/// Document of a virtual network as it is stored.
pub open spec fn vnet_doc(sub: Seq<char>, rg: Seq<char>, name: Seq<char>, params: CreateResourceParams) -> Json {
    top_doc(
        network_id(sub, rg, "virtualNetworks"@, name),
        name,
        "Microsoft.Network/virtualNetworks"@,
        params.location@,
        string_pairs_object(params.tags@),
        false,
        seq![("properties"@, succeeded(params.properties@))],
    )
}

/// A virtual network as it is read: its subnets listed in its properties.
pub open spec fn vnet_view(v: StoreView, key: Seq<Seq<char>>, subnet_pairs: Seq<(Seq<Seq<char>>, Json)>) -> Json {
    with_children(v.virtual_networks[key], "subnets"@, values_under(subnet_pairs, key))
}

fn make_vnet_doc(sub: &str, rg: &str, name: &str, params: &CreateResourceParams) -> (r: JsonValue)
    ensures
        r@ == vnet_doc(sub@, rg@, name@, *params),
{
    let mut props = params.properties.deep_clone();
    mark_succeeded(&mut props);
    let mut tail: Vec<(String, JsonValue)> = Vec::new();
    push_member(&mut tail, "properties", props);
    proof {
        assert(members_model(tail@) =~= seq![("properties"@, succeeded(params.properties@))]);
    }
    make_top_doc(
        make_network_id(sub, rg, "virtualNetworks", name),
        name,
        "Microsoft.Network/virtualNetworks",
        params.location.as_str(),
        &params.tags,
        false,
        tail,
    )
}

impl MockState {
    // ── Virtual networks ───────────────────────────────────────────────

    /// Creates or replaces virtual network `name` (PUT semantics). The
    /// named items of `properties.subnets` become its subnets; it has no
    /// peerings. `true` tells that it is new.
    pub fn create_virtual_network(&mut self, subscription_id: &str, resource_group: &str, name: &str, params: &CreateResourceParams) -> (r: Result<(JsonValue, bool), StoreError>)
        ensures
            crate::store::parents_exist(old(self)@) ==> crate::store::parents_exist(final(self)@),
            group_missing(old(self)@, subscription_id@, resource_group@) ==> (r matches Err(e) && group_error_matches(old(self)@, subscription_id@, resource_group@, e) && final(self)@ == old(self)@),
            !group_missing(old(self)@, subscription_id@, resource_group@) ==> (r matches Ok((doc, is_new)) && {
                let key = seq![subscription_id@, resource_group@, name@];
                &&& doc@ == vnet_doc(subscription_id@, resource_group@, name@, *params)
                &&& is_new == !old(self)@.virtual_networks.contains_key(key)
                &&& final(self)@ == (StoreView {
                    virtual_networks: old(self)@.virtual_networks.insert(key, doc@),
                    subnets: without_under(old(self)@.subnets, key).union_prefer_right(
                        named_children(key, items_at(params.properties@, "subnets"@)),
                    ),
                    peerings: without_under(old(self)@.peerings, key),
                    ..old(self)@
                })
            }),
    {
        match self.check_group(subscription_id, resource_group) {
            Err(e) => return Err(e),
            Ok(()) => {},
        }
        let doc = make_vnet_doc(subscription_id, resource_group, name, params);
        let key = path3(subscription_id, resource_group, name);
        let is_new = !self.virtual_networks.contains_key(&key);
        self.subnets.remove_under(&key);
        self.peerings.remove_under(&key);
        put_children(&mut self.subnets, &key, &params.properties, "subnets");
        proof {
            if crate::store::parents_exist(old(self)@) {
                let v = old(self)@;
                lemma_wf_parent_put(v.virtual_networks, v.resource_groups, v.subnets, key@, doc@, items_at(params.properties@, "subnets"@));
                lemma_wf_parent_put(v.virtual_networks, v.resource_groups, v.peerings, key@, doc@, Seq::empty());
                assert(without_under(v.peerings, key@).union_prefer_right(named_children(key@, Seq::empty())) =~= without_under(v.peerings, key@));
            }
        }
        self.virtual_networks.insert(key, doc.deep_clone());
        Ok((doc, is_new))
    }

    /// Virtual network `name` with its subnets.
    pub fn get_virtual_network(&self, subscription_id: &str, resource_group: &str, name: &str) -> (r: Option<JsonValue>)
        ensures
            match r {
                Some(d) => self@.virtual_networks.contains_key(seq![subscription_id@, resource_group@, name@])
                    && d@ == vnet_view(self@, seq![subscription_id@, resource_group@, name@], self.subnets.pairs()),
                None => !self@.virtual_networks.contains_key(seq![subscription_id@, resource_group@, name@]),
            },
    {
        let key = path3(subscription_id, resource_group, name);
        match self.virtual_networks.get(&key) {
            Some(d) => {
                let mut doc = d.deep_clone();
                let cs = self.subnets.values_under(&key);
                proof {
                    assert(docs(cs@) =~= cs@.map_values(|v: JsonValue| v@));
                }
                attach_children(&mut doc, "subnets", cs);
                Some(doc)
            },
            None => None,
        }
    }

    /// The virtual networks of a group with their subnets; `None` when the
    /// subscription or the group does not exist.
    pub fn list_virtual_networks(&self, subscription_id: &str, resource_group: &str) -> (r: Option<Page>)
        ensures
            match r {
                Some(p) => !group_missing(self@, subscription_id@, resource_group@)
                    && docs(p.value@) == parents_with_children(
                        pairs_under(self.virtual_networks.pairs(), seq![subscription_id@, resource_group@]),
                        self.subnets.pairs(),
                        "subnets"@,
                    )
                    && p.next_link is None,
                None => group_missing(self@, subscription_id@, resource_group@),
            },
    {
        if self.check_group(subscription_id, resource_group).is_err() {
            return None;
        }
        let parents = self.virtual_networks.pairs_under(&path2(subscription_id, resource_group));
        Some(Page::new(docs_with_children(&parents, &self.subnets, "subnets")))
    }

    /// The virtual networks of every group of a subscription with their
    /// subnets; `None` when it does not exist.
    pub fn list_all_virtual_networks(&self, subscription_id: &str) -> (r: Option<Page>)
        ensures
            match r {
                Some(p) => self@.subscriptions.contains_key(seq![subscription_id@])
                    && docs(p.value@) == parents_with_children(
                        pairs_under(self.virtual_networks.pairs(), seq![subscription_id@]),
                        self.subnets.pairs(),
                        "subnets"@,
                    )
                    && p.next_link is None,
                None => !self@.subscriptions.contains_key(seq![subscription_id@]),
            },
    {
        if !self.subscriptions.contains_key(&path1(subscription_id)) {
            return None;
        }
        let parents = self.virtual_networks.pairs_under(&path1(subscription_id));
        Some(Page::new(docs_with_children(&parents, &self.subnets, "subnets")))
    }

    /// Deletes virtual network `name` with its subnets and peerings;
    /// `Ok(false)` when there was none.
    pub fn delete_virtual_network(&mut self, subscription_id: &str, resource_group: &str, name: &str) -> (r: Result<bool, StoreError>)
        ensures
            crate::store::parents_exist(old(self)@) ==> crate::store::parents_exist(final(self)@),
            group_missing(old(self)@, subscription_id@, resource_group@) ==> (r matches Err(e) && group_error_matches(old(self)@, subscription_id@, resource_group@, e) && final(self)@ == old(self)@),
            !group_missing(old(self)@, subscription_id@, resource_group@) ==> (r matches Ok(existed) && {
                let key = seq![subscription_id@, resource_group@, name@];
                &&& existed == old(self)@.virtual_networks.contains_key(key)
                &&& final(self)@ == (StoreView {
                    virtual_networks: old(self)@.virtual_networks.remove(key),
                    subnets: without_under(old(self)@.subnets, key),
                    peerings: without_under(old(self)@.peerings, key),
                    ..old(self)@
                })
            }),
    {
        match self.check_group(subscription_id, resource_group) {
            Err(e) => return Err(e),
            Ok(()) => {},
        }
        let key = path3(subscription_id, resource_group, name);
        let existed = self.virtual_networks.remove(&key);
        self.subnets.remove_under(&key);
        self.peerings.remove_under(&key);
        Ok(existed.is_some())
    }
}

} // verus!

verus! {

/// Tags `t` with each pair set in turn.
pub open spec fn merged_tags(t: Json, pairs: Seq<(String, String)>) -> Json
    decreases pairs.len(),
{
    if pairs.len() == 0 {
        t
    } else {
        json_set(merged_tags(t, pairs.drop_last()), pairs.last().0@, Json::Str(pairs.last().1@))
    }
}

/// The tags of a document, or an empty object.
pub open spec fn tags_of(d: Json) -> Json {
    match json_get(d, "tags"@) {
        Some(t) => t,
        None => Json::Object(Seq::empty()),
    }
}

/// A document with `pairs` merged into its tags.
pub open spec fn with_merged_tags(d: Json, pairs: Seq<(String, String)>) -> Json {
    json_set(d, "tags"@, merged_tags(tags_of(d), pairs))
}

/// Merges `pairs` into the tags of a document.
pub fn merge_tags(d: &mut JsonValue, pairs: &Vec<(String, String)>)
    ensures
        final(d)@ == with_merged_tags(old(d)@, pairs@),
{
    let mut t = match d.member("tags") {
        Some(t) => t.deep_clone(),
        None => crate::json::empty_object(),
    };
    let ghost t0 = t@;
    let mut i: usize = 0;
    while i < pairs.len()
        invariant
            i <= pairs@.len(),
            t0 == tags_of(old(d)@),
            t@ == merged_tags(t0, pairs@.take(i as int)),
        decreases pairs.len() - i,
    {
        proof {
            assert(pairs@.take(i + 1).drop_last() =~= pairs@.take(i as int));
        }
        t.set(pairs[i].0.as_str(), jstr(pairs[i].1.as_str()));
        i = i + 1;
    }
    proof {
        assert(pairs@.take(pairs@.len() as int) =~= pairs@);
    }
    d.set("tags", t);
}

/// Whether resource `name` of a group can be acted on: the group exists
/// and so does the resource in `m`.
pub open spec fn found_in(v: StoreView, m: Map<Seq<Seq<char>>, Json>, sub: Seq<char>, rg: Seq<char>, name: Seq<char>) -> bool {
    !group_missing(v, sub, rg) && m.contains_key(seq![sub, rg, name])
}

/// The error for a missing virtual network: the group check comes first.
pub open spec fn vnet_error(v: StoreView, sub: Seq<char>, rg: Seq<char>, name: Seq<char>, e: StoreError) -> bool {
    if group_missing(v, sub, rg) {
        group_error_matches(v, sub, rg, e)
    } else {
        e matches StoreError::VirtualNetworkNotFound(n) && n@ == name
    }
}

/// Document of a subnet of the virtual network `vnet`.
pub open spec fn subnet_doc(vnet: Json, name: Seq<char>, props: Json) -> Json {
    child_doc(doc_id(vnet) + "/subnets/"@ + name, name, None, succeeded(props))
}

/// Properties of a peering: provisioned, and connected unless a state is
/// given.
pub open spec fn peering_properties(props: Json) -> Json {
    if crate::compute::present(json_get(succeeded(props), "peeringState"@)) {
        succeeded(props)
    } else {
        json_set(succeeded(props), "peeringState"@, Json::Str("Connected"@))
    }
}

/// Document of a peering of the virtual network `vnet`.
pub open spec fn peering_doc(vnet: Json, name: Seq<char>, props: Json) -> Json {
    child_doc(
        doc_id(vnet) + "/virtualNetworkPeerings/"@ + name,
        name,
        Some("Microsoft.Network/virtualNetworks/virtualNetworkPeerings"@),
        peering_properties(props),
    )
}

fn child_id(parent: &JsonValue, segment: &str, name: &str) -> (r: String)
    ensures
        r@ == doc_id(parent@) + segment@ + name@,
{
    let id = id_of(parent);
    let r = join(&[id.as_str(), segment, name]);
    proof {
        reveal_with_fuel(concat_all, 4);
    }
    r
}

impl MockState {
    fn locate_vnet(&self, subscription_id: &str, resource_group: &str, name: &str) -> (r: Result<usize, StoreError>)
        ensures
            match r {
                Ok(i) => found_in(self@, self@.virtual_networks, subscription_id@, resource_group@, name@)
                    && i < self.virtual_networks.keys().len()
                    && self.virtual_networks.keys()[i as int] == seq![subscription_id@, resource_group@, name@],
                Err(e) => !found_in(self@, self@.virtual_networks, subscription_id@, resource_group@, name@)
                    && vnet_error(self@, subscription_id@, resource_group@, name@, e),
            },
    {
        match self.check_group(subscription_id, resource_group) {
            Err(e) => return Err(e),
            Ok(()) => {},
        }
        let key = path3(subscription_id, resource_group, name);
        match self.virtual_networks.find(&key) {
            Some(i) => {
                assert(self.virtual_networks.keys().contains(key@));
                Ok(i)
            },
            None => Err(StoreError::VirtualNetworkNotFound(owned(name))),
        }
    }

    /// Merges `tags` into the tags of virtual network `name`, and returns
    /// it with its subnets.
    pub fn update_virtual_network_tags(&mut self, subscription_id: &str, resource_group: &str, name: &str, tags: &Vec<(String, String)>) -> (r: Result<JsonValue, StoreError>)
        ensures
            crate::store::parents_exist(old(self)@) ==> crate::store::parents_exist(final(self)@),
            !found_in(old(self)@, old(self)@.virtual_networks, subscription_id@, resource_group@, name@) ==> (r matches Err(e) && vnet_error(old(self)@, subscription_id@, resource_group@, name@, e) && final(self)@ == old(self)@),
            found_in(old(self)@, old(self)@.virtual_networks, subscription_id@, resource_group@, name@) ==> (r matches Ok(d) && {
                let key = seq![subscription_id@, resource_group@, name@];
                &&& final(self)@ == (StoreView {
                    virtual_networks: old(self)@.virtual_networks.insert(key, with_merged_tags(old(self)@.virtual_networks[key], tags@)),
                    ..old(self)@
                })
                &&& d@ == vnet_view(final(self)@, key, old(self).subnets.pairs())
            }),
    {
        let i = self.locate_vnet(subscription_id, resource_group, name)?;
        let mut doc = self.virtual_networks.value_at(i).deep_clone();
        merge_tags(&mut doc, tags);
        let mut out = doc.deep_clone();
        self.virtual_networks.replace_at(i, doc);
        let key = path3(subscription_id, resource_group, name);
        let cs = self.subnets.values_under(&key);
        proof {
            assert(docs(cs@) =~= cs@.map_values(|v: JsonValue| v@));
        }
        attach_children(&mut out, "subnets", cs);
        Ok(out)
    }

    // ── Subnets ────────────────────────────────────────────────────────

    /// Creates or replaces subnet `subnet` of virtual network `vnet`.
    pub fn create_subnet(&mut self, subscription_id: &str, resource_group: &str, vnet: &str, subnet: &str, properties: &JsonValue) -> (r: Result<JsonValue, StoreError>)
        ensures
            crate::store::parents_exist(old(self)@) ==> crate::store::parents_exist(final(self)@),
            !found_in(old(self)@, old(self)@.virtual_networks, subscription_id@, resource_group@, vnet@) ==> (r matches Err(e) && vnet_error(old(self)@, subscription_id@, resource_group@, vnet@, e) && final(self)@ == old(self)@),
            found_in(old(self)@, old(self)@.virtual_networks, subscription_id@, resource_group@, vnet@) ==> (r matches Ok(d) && {
                let key = seq![subscription_id@, resource_group@, vnet@];
                &&& d@ == subnet_doc(old(self)@.virtual_networks[key], subnet@, properties@)
                &&& final(self)@ == (StoreView { subnets: old(self)@.subnets.insert(key.push(subnet@), d@), ..old(self)@ })
            }),
    {
        let i = self.locate_vnet(subscription_id, resource_group, vnet)?;
        let id = child_id(self.virtual_networks.value_at(i), "/subnets/", subnet);
        let mut props = properties.deep_clone();
        mark_succeeded(&mut props);
        let doc = make_child_doc(id, subnet, None, props);
        proof {
            assert(seq![subscription_id@, resource_group@, vnet@].push(subnet@) =~= seq![subscription_id@, resource_group@, vnet@, subnet@]);
        }
        self.subnets.insert(path4(subscription_id, resource_group, vnet, subnet), doc.deep_clone());
        Ok(doc)
    }

    /// Subnet `subnet` of virtual network `vnet`.
    pub fn get_subnet(&self, subscription_id: &str, resource_group: &str, vnet: &str, subnet: &str) -> (r: Option<JsonValue>)
        ensures
            match r {
                Some(d) => self@.subnets.contains_key(seq![subscription_id@, resource_group@, vnet@, subnet@])
                    && d@ == self@.subnets[seq![subscription_id@, resource_group@, vnet@, subnet@]],
                None => !self@.subnets.contains_key(seq![subscription_id@, resource_group@, vnet@, subnet@]),
            },
    {
        match self.subnets.get(&path4(subscription_id, resource_group, vnet, subnet)) {
            Some(d) => Some(d.deep_clone()),
            None => None,
        }
    }

    /// The subnets of virtual network `vnet`; `None` when it does not
    /// exist.
    pub fn list_subnets(&self, subscription_id: &str, resource_group: &str, vnet: &str) -> (r: Option<Page>)
        ensures
            match r {
                Some(p) => self@.virtual_networks.contains_key(seq![subscription_id@, resource_group@, vnet@])
                    && docs(p.value@) == values_under(self.subnets.pairs(), seq![subscription_id@, resource_group@, vnet@])
                    && p.next_link is None,
                None => !self@.virtual_networks.contains_key(seq![subscription_id@, resource_group@, vnet@]),
            },
    {
        let key = path3(subscription_id, resource_group, vnet);
        if !self.virtual_networks.contains_key(&key) {
            return None;
        }
        let cs = self.subnets.values_under(&key);
        proof {
            assert(docs(cs@) =~= cs@.map_values(|v: JsonValue| v@));
        }
        Some(Page::new(cs))
    }

    /// Deletes subnet `subnet` of virtual network `vnet`; `Ok(false)` when
    /// there was none.
    pub fn delete_subnet(&mut self, subscription_id: &str, resource_group: &str, vnet: &str, subnet: &str) -> (r: Result<bool, StoreError>)
        ensures
            crate::store::parents_exist(old(self)@) ==> crate::store::parents_exist(final(self)@),
            !found_in(old(self)@, old(self)@.virtual_networks, subscription_id@, resource_group@, vnet@) ==> (r matches Err(e) && vnet_error(old(self)@, subscription_id@, resource_group@, vnet@, e) && final(self)@ == old(self)@),
            found_in(old(self)@, old(self)@.virtual_networks, subscription_id@, resource_group@, vnet@) ==> (r matches Ok(existed) && {
                let key = seq![subscription_id@, resource_group@, vnet@, subnet@];
                &&& existed == old(self)@.subnets.contains_key(key)
                &&& final(self)@ == (StoreView { subnets: old(self)@.subnets.remove(key), ..old(self)@ })
            }),
    {
        let _ = self.locate_vnet(subscription_id, resource_group, vnet)?;
        let existed = self.subnets.remove(&path4(subscription_id, resource_group, vnet, subnet));
        Ok(existed.is_some())
    }

    // ── Virtual network peerings ──────────────────────────────────────

    /// Creates or replaces peering `peering` of virtual network `vnet`.
    /// `true` tells that it is new.
    pub fn create_virtual_network_peering(&mut self, subscription_id: &str, resource_group: &str, vnet: &str, peering: &str, properties: &JsonValue) -> (r: Result<(JsonValue, bool), StoreError>)
        ensures
            crate::store::parents_exist(old(self)@) ==> crate::store::parents_exist(final(self)@),
            !found_in(old(self)@, old(self)@.virtual_networks, subscription_id@, resource_group@, vnet@) ==> (r matches Err(e) && vnet_error(old(self)@, subscription_id@, resource_group@, vnet@, e) && final(self)@ == old(self)@),
            found_in(old(self)@, old(self)@.virtual_networks, subscription_id@, resource_group@, vnet@) ==> (r matches Ok((d, is_new)) && {
                let key = seq![subscription_id@, resource_group@, vnet@];
                &&& d@ == peering_doc(old(self)@.virtual_networks[key], peering@, properties@)
                &&& is_new == !old(self)@.peerings.contains_key(key.push(peering@))
                &&& final(self)@ == (StoreView { peerings: old(self)@.peerings.insert(key.push(peering@), d@), ..old(self)@ })
            }),
    {
        let i = self.locate_vnet(subscription_id, resource_group, vnet)?;
        let id = child_id(self.virtual_networks.value_at(i), "/virtualNetworkPeerings/", peering);
        let mut props = properties.deep_clone();
        mark_succeeded(&mut props);
        if !crate::compute::has_value(&props, "peeringState") {
            props.set("peeringState", jstr("Connected"));
        }
        let doc = make_child_doc(id, peering, Some("Microsoft.Network/virtualNetworks/virtualNetworkPeerings"), props);
        let key = path4(subscription_id, resource_group, vnet, peering);
        proof {
            assert(seq![subscription_id@, resource_group@, vnet@].push(peering@) =~= key@);
        }
        let is_new = !self.peerings.contains_key(&key);
        self.peerings.insert(key, doc.deep_clone());
        Ok((doc, is_new))
    }

    /// Peering `peering` of virtual network `vnet`.
    pub fn get_virtual_network_peering(&self, subscription_id: &str, resource_group: &str, vnet: &str, peering: &str) -> (r: Option<JsonValue>)
        ensures
            match r {
                Some(d) => self@.peerings.contains_key(seq![subscription_id@, resource_group@, vnet@, peering@])
                    && d@ == self@.peerings[seq![subscription_id@, resource_group@, vnet@, peering@]],
                None => !self@.peerings.contains_key(seq![subscription_id@, resource_group@, vnet@, peering@]),
            },
    {
        match self.peerings.get(&path4(subscription_id, resource_group, vnet, peering)) {
            Some(d) => Some(d.deep_clone()),
            None => None,
        }
    }

    /// The peerings of virtual network `vnet`; `None` when it does not
    /// exist.
    pub fn list_virtual_network_peerings(&self, subscription_id: &str, resource_group: &str, vnet: &str) -> (r: Option<Page>)
        ensures
            match r {
                Some(p) => self@.virtual_networks.contains_key(seq![subscription_id@, resource_group@, vnet@])
                    && docs(p.value@) == values_under(self.peerings.pairs(), seq![subscription_id@, resource_group@, vnet@])
                    && p.next_link is None,
                None => !self@.virtual_networks.contains_key(seq![subscription_id@, resource_group@, vnet@]),
            },
    {
        let key = path3(subscription_id, resource_group, vnet);
        if !self.virtual_networks.contains_key(&key) {
            return None;
        }
        let cs = self.peerings.values_under(&key);
        proof {
            assert(docs(cs@) =~= cs@.map_values(|v: JsonValue| v@));
        }
        Some(Page::new(cs))
    }

    /// Deletes peering `peering` of virtual network `vnet`; `Ok(false)`
    /// when there was none.
    pub fn delete_virtual_network_peering(&mut self, subscription_id: &str, resource_group: &str, vnet: &str, peering: &str) -> (r: Result<bool, StoreError>)
        ensures
            crate::store::parents_exist(old(self)@) ==> crate::store::parents_exist(final(self)@),
            !found_in(old(self)@, old(self)@.virtual_networks, subscription_id@, resource_group@, vnet@) ==> (r matches Err(e) && vnet_error(old(self)@, subscription_id@, resource_group@, vnet@, e) && final(self)@ == old(self)@),
            found_in(old(self)@, old(self)@.virtual_networks, subscription_id@, resource_group@, vnet@) ==> (r matches Ok(existed) && {
                let key = seq![subscription_id@, resource_group@, vnet@, peering@];
                &&& existed == old(self)@.peerings.contains_key(key)
                &&& final(self)@ == (StoreView { peerings: old(self)@.peerings.remove(key), ..old(self)@ })
            }),
    {
        let _ = self.locate_vnet(subscription_id, resource_group, vnet)?;
        let existed = self.peerings.remove(&path4(subscription_id, resource_group, vnet, peering));
        Ok(existed.is_some())
    }
}

} // verus!

verus! {

/// Document of a network security group as it is stored.
pub open spec fn nsg_doc(sub: Seq<char>, rg: Seq<char>, name: Seq<char>, params: CreateResourceParams) -> Json {
    top_doc(
        network_id(sub, rg, "networkSecurityGroups"@, name),
        name,
        "Microsoft.Network/networkSecurityGroups"@,
        params.location@,
        string_pairs_object(params.tags@),
        false,
        seq![("properties"@, succeeded(params.properties@))],
    )
}

/// The error for a missing network security group: the group check
/// comes first.
pub open spec fn nsg_error(v: StoreView, sub: Seq<char>, rg: Seq<char>, name: Seq<char>, e: StoreError) -> bool {
    if group_missing(v, sub, rg) {
        group_error_matches(v, sub, rg, e)
    } else {
        e matches StoreError::NsgNotFound(n) && n@ == name
    }
}

/// Whether a child document is named `n`.
pub open spec fn is_named(j: Json, n: Seq<char>) -> bool {
    named(j) == Some(n)
}

/// The security rules of a network security group.
pub open spec fn rules_of(nsg: Json) -> Seq<Json> {
    match json_get(nsg, "properties"@) {
        Some(p) => items_at(p, "securityRules"@),
        None => Seq::empty(),
    }
}

/// The rules named `n`, in order.
pub open spec fn rules_named(rules: Seq<Json>, n: Seq<char>) -> Seq<Json> {
    rules.filter(|r: Json| is_named(r, n))
}

/// The rules not named `n`, in order.
pub open spec fn rules_not_named(rules: Seq<Json>, n: Seq<char>) -> Seq<Json> {
    rules.filter(|r: Json| !is_named(r, n))
}

/// Document of security rule `name` of the security group `nsg`.
pub open spec fn rule_doc(nsg: Json, name: Seq<char>, props: Json) -> Json {
    child_doc(
        doc_id(nsg) + "/securityRules/"@ + name,
        name,
        Some("Microsoft.Network/networkSecurityGroups/securityRules"@),
        succeeded(props),
    )
}

fn make_nsg_doc(sub: &str, rg: &str, name: &str, params: &CreateResourceParams) -> (r: JsonValue)
    ensures
        r@ == nsg_doc(sub@, rg@, name@, *params),
{
    let mut props = params.properties.deep_clone();
    mark_succeeded(&mut props);
    let mut tail: Vec<(String, JsonValue)> = Vec::new();
    push_member(&mut tail, "properties", props);
    proof {
        assert(members_model(tail@) =~= seq![("properties"@, succeeded(params.properties@))]);
    }
    make_top_doc(
        make_network_id(sub, rg, "networkSecurityGroups", name),
        name,
        "Microsoft.Network/networkSecurityGroups",
        params.location.as_str(),
        &params.tags,
        false,
        tail,
    )
}

/// Whether a document is named `n`.
fn has_name(j: &JsonValue, n: &str) -> (b: bool)
    ensures
        b == is_named(j@, n@),
{
    match j.member("name") {
        Some(v) => match v {
            JsonValue::Str(s) => crate::text::text_eq(s.as_str(), n),
            _ => false,
        },
        None => false,
    }
}

/// Copies of the security rules of a group.
fn rule_list(nsg: &JsonValue) -> (r: Vec<JsonValue>)
    ensures
        docs(r@) == rules_of(nsg@),
{
    match nsg.member("properties") {
        Some(p) => match p.member("securityRules") {
            Some(v) => match v {
                JsonValue::Array(items) => {
                    let c = crate::json::copy_all(items);
                    proof {
                        lemma_items_docs(items@);
                    }
                    c
                },
                _ => Vec::new(),
            },
            None => Vec::new(),
        },
        None => Vec::new(),
    }
}

/// Splits rules into those not named `n` and those named `n`.
fn split_rules(rules: Vec<JsonValue>, n: &str) -> (r: (Vec<JsonValue>, Vec<JsonValue>))
    ensures
        docs(r.0@) == rules_not_named(docs(rules@), n@),
        docs(r.1@) == rules_named(docs(rules@), n@),
{
    let ghost all = docs(rules@);
    let ghost keep = |r: Json| !is_named(r, n@);
    let ghost pick = |r: Json| is_named(r, n@);
    let mut kept: Vec<JsonValue> = Vec::new();
    let mut matched: Vec<JsonValue> = Vec::new();
    let mut rules = rules;
    let mut i: usize = 0;
    let len = rules.len();
    let ghost original = rules@;
    while i < len
        invariant
            i <= len,
            len == original.len(),
            all == docs(original),
            keep == (|r: Json| !is_named(r, n@)),
            pick == (|r: Json| is_named(r, n@)),
            rules@.len() == original.len(),
            forall|j: int| i <= j < len ==> #[trigger] rules@[j] == original[j],
            docs(kept@) == all.take(i as int).filter(keep),
            docs(matched@) == all.take(i as int).filter(pick),
        decreases len - i,
    {
        let mut item = JsonValue::Null;
        rules.set_and_swap(i, &mut item);
        proof {
            assert(item == original[i as int]);
            assert(all.take(i + 1).drop_last() =~= all.take(i as int));
            assert(all[i as int] == item@);
            reveal(Seq::filter);
        }
        let ghost prev_k = kept@;
        let ghost prev_m = matched@;
        if has_name(&item, n) {
            matched.push(item);
            proof {
                assert(docs(matched@) =~= docs(prev_m).push(all[i as int]));
                assert(all.take(i + 1).filter(keep) == all.take(i as int).filter(keep));
                assert(all.take(i + 1).filter(pick) == all.take(i as int).filter(pick).push(all[i as int]));
            }
        } else {
            kept.push(item);
            proof {
                assert(docs(kept@) =~= docs(prev_k).push(all[i as int]));
                assert(all.take(i + 1).filter(pick) == all.take(i as int).filter(pick));
                assert(all.take(i + 1).filter(keep) == all.take(i as int).filter(keep).push(all[i as int]));
            }
        }
        i = i + 1;
    }
    proof {
        assert(all.take(len as int) =~= all);
    }
    (kept, matched)
}

} // verus!

verus! {

impl MockState {
    // ── Network security groups ───────────────────────────────────────

    fn locate_nsg(&self, subscription_id: &str, resource_group: &str, name: &str) -> (r: Result<usize, StoreError>)
        ensures
            match r {
                Ok(i) => found_in(self@, self@.network_security_groups, subscription_id@, resource_group@, name@)
                    && i < self.network_security_groups.keys().len()
                    && self.network_security_groups.keys()[i as int] == seq![subscription_id@, resource_group@, name@],
                Err(e) => !found_in(self@, self@.network_security_groups, subscription_id@, resource_group@, name@)
                    && nsg_error(self@, subscription_id@, resource_group@, name@, e),
            },
    {
        match self.check_group(subscription_id, resource_group) {
            Err(e) => return Err(e),
            Ok(()) => {},
        }
        let key = path3(subscription_id, resource_group, name);
        match self.network_security_groups.find(&key) {
            Some(i) => {
                assert(self.network_security_groups.keys().contains(key@));
                Ok(i)
            },
            None => Err(StoreError::NsgNotFound(owned(name))),
        }
    }

    /// Creates or replaces network security group `name` (PUT
    /// semantics); its rules are those of `properties.securityRules`.
    /// `true` tells that it is new.
    pub fn create_nsg(&mut self, subscription_id: &str, resource_group: &str, name: &str, params: &CreateResourceParams) -> (r: Result<(JsonValue, bool), StoreError>)
        ensures
            crate::store::parents_exist(old(self)@) ==> crate::store::parents_exist(final(self)@),
            group_missing(old(self)@, subscription_id@, resource_group@) ==> (r matches Err(e) && group_error_matches(old(self)@, subscription_id@, resource_group@, e) && final(self)@ == old(self)@),
            !group_missing(old(self)@, subscription_id@, resource_group@) ==> (r matches Ok((doc, is_new)) && {
                let key = seq![subscription_id@, resource_group@, name@];
                &&& doc@ == nsg_doc(subscription_id@, resource_group@, name@, *params)
                &&& is_new == !old(self)@.network_security_groups.contains_key(key)
                &&& final(self)@ == (StoreView {
                    network_security_groups: old(self)@.network_security_groups.insert(key, doc@),
                    ..old(self)@
                })
            }),
    {
        match self.check_group(subscription_id, resource_group) {
            Err(e) => return Err(e),
            Ok(()) => {},
        }
        let doc = make_nsg_doc(subscription_id, resource_group, name, params);
        let key = path3(subscription_id, resource_group, name);
        let is_new = !self.network_security_groups.contains_key(&key);
        self.network_security_groups.insert(key, doc.deep_clone());
        Ok((doc, is_new))
    }

    /// Network security group `name`.
    pub fn get_nsg(&self, subscription_id: &str, resource_group: &str, name: &str) -> (r: Option<JsonValue>)
        ensures
            match r {
                Some(d) => self@.network_security_groups.contains_key(seq![subscription_id@, resource_group@, name@])
                    && d@ == self@.network_security_groups[seq![subscription_id@, resource_group@, name@]],
                None => !self@.network_security_groups.contains_key(seq![subscription_id@, resource_group@, name@]),
            },
    {
        match self.network_security_groups.get(&path3(subscription_id, resource_group, name)) {
            Some(d) => Some(d.deep_clone()),
            None => None,
        }
    }

    /// The network security groups of a group; `None` when the
    /// subscription or the group does not exist.
    pub fn list_nsgs(&self, subscription_id: &str, resource_group: &str) -> (r: Option<Page>)
        ensures
            match r {
                Some(p) => !group_missing(self@, subscription_id@, resource_group@)
                    && docs(p.value@) == values_under(self.network_security_groups.pairs(), seq![subscription_id@, resource_group@])
                    && p.next_link is None,
                None => group_missing(self@, subscription_id@, resource_group@),
            },
    {
        if self.check_group(subscription_id, resource_group).is_err() {
            return None;
        }
        let v = self.network_security_groups.values_under(&path2(subscription_id, resource_group));
        proof {
            assert(docs(v@) =~= v@.map_values(|x: JsonValue| x@));
        }
        Some(Page::new(v))
    }

    /// The network security groups of every group of a subscription;
    /// `None` when it does not exist.
    pub fn list_all_nsgs(&self, subscription_id: &str) -> (r: Option<Page>)
        ensures
            match r {
                Some(p) => self@.subscriptions.contains_key(seq![subscription_id@])
                    && docs(p.value@) == values_under(self.network_security_groups.pairs(), seq![subscription_id@])
                    && p.next_link is None,
                None => !self@.subscriptions.contains_key(seq![subscription_id@]),
            },
    {
        if !self.subscriptions.contains_key(&path1(subscription_id)) {
            return None;
        }
        let v = self.network_security_groups.values_under(&path1(subscription_id));
        proof {
            assert(docs(v@) =~= v@.map_values(|x: JsonValue| x@));
        }
        Some(Page::new(v))
    }

    /// Deletes network security group `name`; `Ok(false)` when there was
    /// none.
    pub fn delete_nsg(&mut self, subscription_id: &str, resource_group: &str, name: &str) -> (r: Result<bool, StoreError>)
        ensures
            crate::store::parents_exist(old(self)@) ==> crate::store::parents_exist(final(self)@),
            group_missing(old(self)@, subscription_id@, resource_group@) ==> (r matches Err(e) && group_error_matches(old(self)@, subscription_id@, resource_group@, e) && final(self)@ == old(self)@),
            !group_missing(old(self)@, subscription_id@, resource_group@) ==> (r matches Ok(existed) && {
                let key = seq![subscription_id@, resource_group@, name@];
                &&& existed == old(self)@.network_security_groups.contains_key(key)
                &&& final(self)@ == (StoreView {
                    network_security_groups: old(self)@.network_security_groups.remove(key),
                    ..old(self)@
                })
            }),
    {
        match self.check_group(subscription_id, resource_group) {
            Err(e) => return Err(e),
            Ok(()) => {},
        }
        let existed = self.network_security_groups.remove(&path3(subscription_id, resource_group, name));
        Ok(existed.is_some())
    }

    /// Merges `tags` into the tags of network security group `name`.
    pub fn update_nsg_tags(&mut self, subscription_id: &str, resource_group: &str, name: &str, tags: &Vec<(String, String)>) -> (r: Result<JsonValue, StoreError>)
        ensures
            crate::store::parents_exist(old(self)@) ==> crate::store::parents_exist(final(self)@),
            !found_in(old(self)@, old(self)@.network_security_groups, subscription_id@, resource_group@, name@) ==> (r matches Err(e) && nsg_error(old(self)@, subscription_id@, resource_group@, name@, e) && final(self)@ == old(self)@),
            found_in(old(self)@, old(self)@.network_security_groups, subscription_id@, resource_group@, name@) ==> (r matches Ok(d) && {
                let key = seq![subscription_id@, resource_group@, name@];
                &&& d@ == with_merged_tags(old(self)@.network_security_groups[key], tags@)
                &&& final(self)@ == (StoreView {
                    network_security_groups: old(self)@.network_security_groups.insert(key, d@),
                    ..old(self)@
                })
            }),
    {
        let i = self.locate_nsg(subscription_id, resource_group, name)?;
        let mut doc = self.network_security_groups.value_at(i).deep_clone();
        merge_tags(&mut doc, tags);
        let out = doc.deep_clone();
        self.network_security_groups.replace_at(i, doc);
        Ok(out)
    }

    // ── Security rules ────────────────────────────────────────────────

    /// Creates or replaces security rule `rule` of network security group
    /// `nsg`: rules of that name are removed and the new one is appended.
    /// `true` tells that no rule had that name.
    pub fn create_or_update_security_rule(&mut self, subscription_id: &str, resource_group: &str, nsg: &str, rule: &str, properties: &JsonValue) -> (r: Result<(JsonValue, bool), StoreError>)
        ensures
            crate::store::parents_exist(old(self)@) ==> crate::store::parents_exist(final(self)@),
            !found_in(old(self)@, old(self)@.network_security_groups, subscription_id@, resource_group@, nsg@) ==> (r matches Err(e) && nsg_error(old(self)@, subscription_id@, resource_group@, nsg@, e) && final(self)@ == old(self)@),
            found_in(old(self)@, old(self)@.network_security_groups, subscription_id@, resource_group@, nsg@) ==> (r matches Ok((d, is_new)) && {
                let key = seq![subscription_id@, resource_group@, nsg@];
                let group = old(self)@.network_security_groups[key];
                &&& d@ == rule_doc(group, rule@, properties@)
                &&& is_new == (rules_named(rules_of(group), rule@).len() == 0)
                &&& final(self)@ == (StoreView {
                    network_security_groups: old(self)@.network_security_groups.insert(
                        key,
                        with_children(group, "securityRules"@, rules_not_named(rules_of(group), rule@).push(d@)),
                    ),
                    ..old(self)@
                })
            }),
    {
        let i = self.locate_nsg(subscription_id, resource_group, nsg)?;
        let mut group = self.network_security_groups.value_at(i).deep_clone();
        let id = child_id(&group, "/securityRules/", rule);
        let mut props = properties.deep_clone();
        mark_succeeded(&mut props);
        let doc = make_child_doc(id, rule, Some("Microsoft.Network/networkSecurityGroups/securityRules"), props);
        let (mut kept, matched) = split_rules(rule_list(&group), rule);
        let is_new = matched.len() == 0;
        let ghost prev = kept@;
        kept.push(doc.deep_clone());
        proof {
            assert(docs(kept@) =~= docs(prev).push(doc@));
        }
        attach_children(&mut group, "securityRules", kept);
        self.network_security_groups.replace_at(i, group);
        Ok((doc, is_new))
    }

    /// The first security rule named `rule` of network security group
    /// `nsg`.
    pub fn get_security_rule(&self, subscription_id: &str, resource_group: &str, nsg: &str, rule: &str) -> (r: Option<JsonValue>)
        ensures
            match r {
                Some(d) => self@.network_security_groups.contains_key(seq![subscription_id@, resource_group@, nsg@])
                    && rules_named(rules_of(self@.network_security_groups[seq![subscription_id@, resource_group@, nsg@]]), rule@).len() > 0
                    && d@ == rules_named(rules_of(self@.network_security_groups[seq![subscription_id@, resource_group@, nsg@]]), rule@)[0],
                None => !self@.network_security_groups.contains_key(seq![subscription_id@, resource_group@, nsg@])
                    || rules_named(rules_of(self@.network_security_groups[seq![subscription_id@, resource_group@, nsg@]]), rule@).len() == 0,
            },
    {
        match self.network_security_groups.get(&path3(subscription_id, resource_group, nsg)) {
            Some(group) => {
                let (_, mut matched) = split_rules(rule_list(group), rule);
                if matched.len() == 0 {
                    None
                } else {
                    proof {
                        assert(docs(matched@)[0] == matched@[0]@);
                    }
                    Some(matched.swap_remove(0))
                }
            },
            None => None,
        }
    }

    /// The security rules of network security group `nsg`; `None` when it
    /// does not exist.
    pub fn list_security_rules(&self, subscription_id: &str, resource_group: &str, nsg: &str) -> (r: Option<Page>)
        ensures
            match r {
                Some(p) => self@.network_security_groups.contains_key(seq![subscription_id@, resource_group@, nsg@])
                    && docs(p.value@) == rules_of(self@.network_security_groups[seq![subscription_id@, resource_group@, nsg@]])
                    && p.next_link is None,
                None => !self@.network_security_groups.contains_key(seq![subscription_id@, resource_group@, nsg@]),
            },
    {
        match self.network_security_groups.get(&path3(subscription_id, resource_group, nsg)) {
            Some(group) => Some(Page::new(rule_list(group))),
            None => None,
        }
    }

    /// Deletes the security rules named `rule` of network security group
    /// `nsg`; `Ok(false)` when there were none, and then nothing changes.
    pub fn delete_security_rule(&mut self, subscription_id: &str, resource_group: &str, nsg: &str, rule: &str) -> (r: Result<bool, StoreError>)
        ensures
            crate::store::parents_exist(old(self)@) ==> crate::store::parents_exist(final(self)@),
            !found_in(old(self)@, old(self)@.network_security_groups, subscription_id@, resource_group@, nsg@) ==> (r matches Err(e) && nsg_error(old(self)@, subscription_id@, resource_group@, nsg@, e) && final(self)@ == old(self)@),
            found_in(old(self)@, old(self)@.network_security_groups, subscription_id@, resource_group@, nsg@) ==> (r matches Ok(existed) && {
                let key = seq![subscription_id@, resource_group@, nsg@];
                let group = old(self)@.network_security_groups[key];
                &&& existed == (rules_named(rules_of(group), rule@).len() > 0)
                &&& final(self)@ == if existed {
                    StoreView {
                        network_security_groups: old(self)@.network_security_groups.insert(
                            key,
                            with_children(group, "securityRules"@, rules_not_named(rules_of(group), rule@)),
                        ),
                        ..old(self)@
                    }
                } else {
                    old(self)@
                }
            }),
    {
        let i = self.locate_nsg(subscription_id, resource_group, nsg)?;
        let mut group = self.network_security_groups.value_at(i).deep_clone();
        let (kept, matched) = split_rules(rule_list(&group), rule);
        if matched.len() == 0 {
            return Ok(false);
        }
        attach_children(&mut group, "securityRules", kept);
        self.network_security_groups.replace_at(i, group);
        Ok(true)
    }
}

} // verus!

verus! {

/// A MAC address made of the first six bytes, in upper-case hexadecimal
/// pairs separated by hyphens.
pub open spec fn mac_text(b: Seq<u8>) -> Seq<char> {
    crate::text::hex2(b[0]) + "-"@ + crate::text::hex2(b[1]) + "-"@ + crate::text::hex2(b[2]) + "-"@
        + crate::text::hex2(b[3]) + "-"@ + crate::text::hex2(b[4]) + "-"@ + crate::text::hex2(b[5])
}

/// A public address `20.a.b.c` made of the first three bytes.
pub open spec fn public_ip_text(b: Seq<u8>) -> Seq<char> {
    "20."@ + crate::text::decimal(b[0] as nat) + "."@ + crate::text::decimal(b[1] as nat) + "."@
        + crate::text::decimal(b[2] as nat)
}

/// The name an ip configuration goes by.
pub open spec fn config_name(cfg: Json) -> Seq<char> {
    match json_get(cfg, "name"@) {
        Some(Json::Str(n)) => n,
        _ => "ipconfig"@,
    }
}

/// Ip configuration at position `i` of interface `nic_id` as the
/// service completes it: an id when it has none, its properties marked
/// provisioned, and the first one primary unless it says otherwise.
pub open spec fn completed_config(cfg: Json, i: int, nic_id: Seq<char>) -> Json {
    let a = if !crate::compute::present(json_get(cfg, "id"@)) {
        json_set(cfg, "id"@, Json::Str(nic_id + "/ipConfigurations/"@ + config_name(cfg)))
    } else {
        cfg
    };
    match json_get(a, "properties"@) {
        Some(cp) => if cp != Json::Null {
            let c = succeeded(cp);
            let c2 = if i == 0 && !crate::compute::present(json_get(c, "primary"@)) {
                json_set(c, "primary"@, Json::Bool(true))
            } else {
                c
            };
            json_set(a, "properties"@, c2)
        } else {
            a
        },
        None => a,
    }
}

/// Properties of a network interface as the service stores them.
pub open spec fn nic_properties(props: Json, nic_id: Seq<char>, guid: Seq<char>, bytes: Seq<u8>) -> Json {
    let p1 = json_set(succeeded(props), "resourceGuid"@, Json::Str(guid));
    let p2 = if crate::compute::present(json_get(p1, "macAddress"@)) {
        p1
    } else {
        json_set(p1, "macAddress"@, Json::Str(mac_text(bytes)))
    };
    match json_get(p2, "ipConfigurations"@) {
        Some(Json::Array(items)) => json_set(
            p2,
            "ipConfigurations"@,
            Json::Array(Seq::new(items.len(), |i: int| completed_config(items[i], i, nic_id))),
        ),
        _ => p2,
    }
}

/// Document of a network interface as it is stored.
pub open spec fn nic_doc(sub: Seq<char>, rg: Seq<char>, name: Seq<char>, params: CreateResourceParams, guid: Seq<char>, bytes: Seq<u8>) -> Json {
    let id = network_id(sub, rg, "networkInterfaces"@, name);
    top_doc(
        id,
        name,
        "Microsoft.Network/networkInterfaces"@,
        params.location@,
        string_pairs_object(params.tags@),
        true,
        seq![("properties"@, nic_properties(params.properties@, id, guid, bytes))],
    )
}

fn make_mac(b: &Vec<u8>) -> (r: String)
    requires
        b@.len() >= 6,
    ensures
        r@ == mac_text(b@),
{
    let h0 = crate::text::hex_byte(b[0]);
    let h1 = crate::text::hex_byte(b[1]);
    let h2 = crate::text::hex_byte(b[2]);
    let h3 = crate::text::hex_byte(b[3]);
    let h4 = crate::text::hex_byte(b[4]);
    let h5 = crate::text::hex_byte(b[5]);
    let r = join(&[h0.as_str(), "-", h1.as_str(), "-", h2.as_str(), "-", h3.as_str(), "-", h4.as_str(), "-", h5.as_str()]);
    proof {
        reveal_with_fuel(concat_all, 12);
    }
    r
}

fn make_public_ip(b: &Vec<u8>) -> (r: String)
    requires
        b@.len() >= 3,
    ensures
        r@ == public_ip_text(b@),
{
    let d0 = crate::text::decimal_text(b[0] as u64);
    let d1 = crate::text::decimal_text(b[1] as u64);
    let d2 = crate::text::decimal_text(b[2] as u64);
    let r = join(&["20.", d0.as_str(), ".", d1.as_str(), ".", d2.as_str()]);
    proof {
        reveal_with_fuel(concat_all, 7);
    }
    r
}

fn config_name_text(cfg: &JsonValue) -> (r: String)
    ensures
        r@ == config_name(cfg@),
{
    match cfg.member("name") {
        Some(v) => match v {
            JsonValue::Str(n) => n.clone(),
            _ => owned("ipconfig"),
        },
        None => owned("ipconfig"),
    }
}

fn complete_config(cfg: &mut JsonValue, i: usize, nic_id: &str)
    ensures
        final(cfg)@ == completed_config(old(cfg)@, i as int, nic_id@),
{
    if !crate::compute::has_value(cfg, "id") {
        let n = config_name_text(cfg);
        let id = join(&[nic_id, "/ipConfigurations/", n.as_str()]);
        proof {
            reveal_with_fuel(concat_all, 4);
        }
        cfg.set("id", JsonValue::Str(id));
    }
    let c2 = match cfg.member("properties") {
        Some(cp) => match cp {
            JsonValue::Null => None,
            _ => {
                let mut c = cp.deep_clone();
                mark_succeeded(&mut c);
                if i == 0 && !crate::compute::has_value(&c, "primary") {
                    c.set("primary", JsonValue::Bool(true));
                }
                Some(c)
            },
        },
        None => None,
    };
    match c2 {
        Some(c) => cfg.set("properties", c),
        None => {},
    }
}

fn complete_configs(items: &Vec<JsonValue>, nic_id: &str) -> (r: Vec<JsonValue>)
    ensures
        items_model(r@) == Seq::new(items_model(items@).len(), |i: int| completed_config(items_model(items@)[i], i, nic_id@)),
{
    proof {
        lemma_items_model(items@);
    }
    let mut out: Vec<JsonValue> = Vec::new();
    let mut i: usize = 0;
    while i < items.len()
        invariant
            i <= items@.len(),
            items_model(items@).len() == items@.len(),
            forall|j: int| 0 <= j < items@.len() ==> #[trigger] items_model(items@)[j] == items@[j]@,
            out@.len() == i,
            forall|j: int| 0 <= j < i ==> #[trigger] out@[j]@ == completed_config(items@[j]@, j, nic_id@),
        decreases items.len() - i,
    {
        let mut c = items[i].deep_clone();
        complete_config(&mut c, i, nic_id);
        out.push(c);
        i = i + 1;
    }
    proof {
        lemma_items_model(out@);
        assert forall|j: int| 0 <= j < out@.len() implies #[trigger] items_model(out@)[j] == completed_config(items_model(items@)[j], j, nic_id@) by {
            assert(items_model(items@)[j] == items@[j]@);
            assert(out@[j]@ == completed_config(items@[j]@, j, nic_id@));
        }
        assert(items_model(out@) =~= Seq::new(items_model(items@).len(), |i: int| completed_config(items_model(items@)[i], i, nic_id@)));
    }
    out
}

fn make_nic_properties(props: &JsonValue, nic_id: &str, guid: &str, bytes: &Vec<u8>) -> (r: JsonValue)
    requires
        bytes@.len() >= 6,
    ensures
        r@ == nic_properties(props@, nic_id@, guid@, bytes@),
{
    let mut p = props.deep_clone();
    mark_succeeded(&mut p);
    p.set("resourceGuid", jstr(guid));
    if !crate::compute::has_value(&p, "macAddress") {
        p.set("macAddress", JsonValue::Str(make_mac(bytes)));
    }
    let configs = match p.member("ipConfigurations") {
        Some(v) => match v {
            JsonValue::Array(items) => Some(complete_configs(items, nic_id)),
            _ => None,
        },
        None => None,
    };
    match configs {
        Some(c) => p.set("ipConfigurations", JsonValue::Array(c)),
        None => {},
    }
    p
}

fn make_nic_doc(sub: &str, rg: &str, name: &str, params: &CreateResourceParams, guid: &str, bytes: &Vec<u8>) -> (r: JsonValue)
    requires
        bytes@.len() >= 6,
    ensures
        r@ == nic_doc(sub@, rg@, name@, *params, guid@, bytes@),
{
    let id = make_network_id(sub, rg, "networkInterfaces", name);
    let props = make_nic_properties(&params.properties, id.as_str(), guid, bytes);
    let mut tail: Vec<(String, JsonValue)> = Vec::new();
    push_member(&mut tail, "properties", props);
    proof {
        assert(members_model(tail@) =~= seq![("properties"@, props@)]);
    }
    make_top_doc(id, name, "Microsoft.Network/networkInterfaces", params.location.as_str(), &params.tags, true, tail)
}

} // verus!

verus! {

/// Body of a request that creates or replaces a public IP address.
pub struct CreatePublicIpParams {
    pub location: String,
    pub tags: Vec<(String, String)>,
    pub sku: Option<JsonValue>,
    pub zones: Option<JsonValue>,
    pub properties: JsonValue,
}

/// DNS settings with a fully qualified name derived from the label when
/// they have a label and no name.
pub open spec fn completed_dns(p: Json) -> Json {
    match json_get(p, "dnsSettings"@) {
        Some(dns) => match json_get(dns, "domainNameLabel"@) {
            Some(Json::Str(label)) => if !crate::compute::present(json_get(dns, "fqdn"@)) {
                json_set(p, "dnsSettings"@, json_set(dns, "fqdn"@, Json::Str(label + ".eastus.cloudapp.azure.com"@)))
            } else {
                p
            },
            _ => p,
        },
        None => p,
    }
}

/// Properties of a public IP address as the service stores them: a
/// static address gets one when it has none.
pub open spec fn ip_properties(props: Json, guid: Seq<char>, bytes: Seq<u8>) -> Json {
    let p1 = json_set(succeeded(props), "resourceGuid"@, Json::Str(guid));
    let p2 = if json_get(p1, "publicIPAllocationMethod"@) == Some(Json::Str("Static"@))
        && !crate::compute::present(json_get(p1, "ipAddress"@)) {
        json_set(p1, "ipAddress"@, Json::Str(public_ip_text(bytes)))
    } else {
        p1
    };
    completed_dns(p2)
}

/// Document of a public IP address as it is stored.
pub open spec fn public_ip_doc(sub: Seq<char>, rg: Seq<char>, name: Seq<char>, params: CreatePublicIpParams, guid: Seq<char>, bytes: Seq<u8>) -> Json {
    top_doc(
        network_id(sub, rg, "publicIPAddresses"@, name),
        name,
        "Microsoft.Network/publicIPAddresses"@,
        params.location@,
        string_pairs_object(params.tags@),
        true,
        crate::compute::opt_member("sku"@, crate::compute::opt_doc(params.sku))
            + crate::compute::opt_member("zones"@, crate::compute::opt_doc(params.zones))
            + seq![("properties"@, ip_properties(params.properties@, guid, bytes))],
    )
}

fn is_static(p: &JsonValue) -> (b: bool)
    ensures
        b == (json_get(p@, "publicIPAllocationMethod"@) == Some(Json::Str("Static"@))),
{
    match p.member("publicIPAllocationMethod") {
        Some(v) => match v {
            JsonValue::Str(m) => {
                let b = crate::text::text_eq(m.as_str(), "Static");
                proof {
                    reveal_strlit("Static");
                    if !b {
                        assert(m@ != "Static"@);
                    }
                }
                b
            },
            _ => false,
        },
        None => false,
    }
}

fn complete_dns(p: &mut JsonValue)
    ensures
        final(p)@ == completed_dns(old(p)@),
{
    let dns2 = match p.member("dnsSettings") {
        Some(dns) => match dns.member("domainNameLabel") {
            Some(v) => match v {
                JsonValue::Str(label) => {
                    if !crate::compute::has_value(dns, "fqdn") {
                        let fqdn = join(&[label.as_str(), ".eastus.cloudapp.azure.com"]);
                        proof {
                            reveal_with_fuel(concat_all, 3);
                        }
                        let mut d = dns.deep_clone();
                        d.set("fqdn", JsonValue::Str(fqdn));
                        Some(d)
                    } else {
                        None
                    }
                },
                _ => None,
            },
            None => None,
        },
        None => None,
    };
    match dns2 {
        Some(d) => p.set("dnsSettings", d),
        None => {},
    }
}

fn make_public_ip_doc(sub: &str, rg: &str, name: &str, params: &CreatePublicIpParams, guid: &str, bytes: &Vec<u8>) -> (r: JsonValue)
    requires
        bytes@.len() >= 3,
    ensures
        r@ == public_ip_doc(sub@, rg@, name@, *params, guid@, bytes@),
{
    let mut p = params.properties.deep_clone();
    mark_succeeded(&mut p);
    p.set("resourceGuid", jstr(guid));
    if is_static(&p) && !crate::compute::has_value(&p, "ipAddress") {
        p.set("ipAddress", JsonValue::Str(make_public_ip(bytes)));
    }
    complete_dns(&mut p);
    let mut tail: Vec<(String, JsonValue)> = Vec::new();
    match &params.sku {
        Some(s) => push_member(&mut tail, "sku", s.deep_clone()),
        None => {},
    }
    match &params.zones {
        Some(z) => push_member(&mut tail, "zones", z.deep_clone()),
        None => {},
    }
    push_member(&mut tail, "properties", p);
    proof {
        assert(members_model(tail@) =~= crate::compute::opt_member("sku"@, crate::compute::opt_doc(params.sku))
            + crate::compute::opt_member("zones"@, crate::compute::opt_doc(params.zones))
            + seq![("properties"@, p@)]);
    }
    make_top_doc(
        make_network_id(sub, rg, "publicIPAddresses", name),
        name,
        "Microsoft.Network/publicIPAddresses",
        params.location.as_str(),
        &params.tags,
        true,
        tail,
    )
}

} // verus!

verus! {

impl MockState {
    // ── Network interfaces ────────────────────────────────────────────

    /// Creates or replaces network interface `name` (PUT semantics),
    /// completing it with `fresh`: a resource guid, a MAC address when it
    /// has none, and its ip configurations. `true` tells that it is new.
    pub fn create_network_interface(&mut self, subscription_id: &str, resource_group: &str, name: &str, params: &CreateResourceParams, fresh: &Fresh) -> (r: Result<(JsonValue, bool), StoreError>)
        requires
            fresh.wf(),
        ensures
            crate::store::parents_exist(old(self)@) ==> crate::store::parents_exist(final(self)@),
            group_missing(old(self)@, subscription_id@, resource_group@) ==> (r matches Err(e) && group_error_matches(old(self)@, subscription_id@, resource_group@, e) && final(self)@ == old(self)@),
            !group_missing(old(self)@, subscription_id@, resource_group@) ==> (r matches Ok((doc, is_new)) && {
                let key = seq![subscription_id@, resource_group@, name@];
                &&& doc@ == nic_doc(subscription_id@, resource_group@, name@, *params, fresh.uuid@, fresh.bytes@)
                &&& is_new == !old(self)@.network_interfaces.contains_key(key)
                &&& final(self)@ == (StoreView { network_interfaces: old(self)@.network_interfaces.insert(key, doc@), ..old(self)@ })
            }),
    {
        match self.check_group(subscription_id, resource_group) {
            Err(e) => return Err(e),
            Ok(()) => {},
        }
        let doc = make_nic_doc(subscription_id, resource_group, name, params, fresh.uuid.as_str(), &fresh.bytes);
        let key = path3(subscription_id, resource_group, name);
        let is_new = !self.network_interfaces.contains_key(&key);
        self.network_interfaces.insert(key, doc.deep_clone());
        Ok((doc, is_new))
    }

    /// Network interface `name`.
    pub fn get_network_interface(&self, subscription_id: &str, resource_group: &str, name: &str) -> (r: Option<JsonValue>)
        ensures
            match r {
                Some(d) => self@.network_interfaces.contains_key(seq![subscription_id@, resource_group@, name@])
                    && d@ == self@.network_interfaces[seq![subscription_id@, resource_group@, name@]],
                None => !self@.network_interfaces.contains_key(seq![subscription_id@, resource_group@, name@]),
            },
    {
        match self.network_interfaces.get(&path3(subscription_id, resource_group, name)) {
            Some(d) => Some(d.deep_clone()),
            None => None,
        }
    }

    /// The network interfaces of a group; `None` when the subscription or
    /// the group does not exist.
    pub fn list_network_interfaces(&self, subscription_id: &str, resource_group: &str) -> (r: Option<Page>)
        ensures
            match r {
                Some(p) => !group_missing(self@, subscription_id@, resource_group@)
                    && docs(p.value@) == values_under(self.network_interfaces.pairs(), seq![subscription_id@, resource_group@])
                    && p.next_link is None,
                None => group_missing(self@, subscription_id@, resource_group@),
            },
    {
        if self.check_group(subscription_id, resource_group).is_err() {
            return None;
        }
        let v = self.network_interfaces.values_under(&path2(subscription_id, resource_group));
        proof {
            assert(docs(v@) =~= v@.map_values(|x: JsonValue| x@));
        }
        Some(Page::new(v))
    }

    /// Deletes network interface `name`; `Ok(false)` when there was none.
    pub fn delete_network_interface(&mut self, subscription_id: &str, resource_group: &str, name: &str) -> (r: Result<bool, StoreError>)
        ensures
            crate::store::parents_exist(old(self)@) ==> crate::store::parents_exist(final(self)@),
            group_missing(old(self)@, subscription_id@, resource_group@) ==> (r matches Err(e) && group_error_matches(old(self)@, subscription_id@, resource_group@, e) && final(self)@ == old(self)@),
            !group_missing(old(self)@, subscription_id@, resource_group@) ==> (r matches Ok(existed) && {
                let key = seq![subscription_id@, resource_group@, name@];
                &&& existed == old(self)@.network_interfaces.contains_key(key)
                &&& final(self)@ == (StoreView { network_interfaces: old(self)@.network_interfaces.remove(key), ..old(self)@ })
            }),
    {
        match self.check_group(subscription_id, resource_group) {
            Err(e) => return Err(e),
            Ok(()) => {},
        }
        let existed = self.network_interfaces.remove(&path3(subscription_id, resource_group, name));
        Ok(existed.is_some())
    }

    // ── Public IP addresses ───────────────────────────────────────────

    /// Creates or replaces public IP address `name` (PUT semantics),
    /// completing it with `fresh`: a resource guid, an address when it is
    /// static and has none, and a DNS name from its label. `true` tells
    /// that it is new.
    pub fn create_public_ip_address(&mut self, subscription_id: &str, resource_group: &str, name: &str, params: &CreatePublicIpParams, fresh: &Fresh) -> (r: Result<(JsonValue, bool), StoreError>)
        requires
            fresh.wf(),
        ensures
            crate::store::parents_exist(old(self)@) ==> crate::store::parents_exist(final(self)@),
            group_missing(old(self)@, subscription_id@, resource_group@) ==> (r matches Err(e) && group_error_matches(old(self)@, subscription_id@, resource_group@, e) && final(self)@ == old(self)@),
            !group_missing(old(self)@, subscription_id@, resource_group@) ==> (r matches Ok((doc, is_new)) && {
                let key = seq![subscription_id@, resource_group@, name@];
                &&& doc@ == public_ip_doc(subscription_id@, resource_group@, name@, *params, fresh.uuid@, fresh.bytes@)
                &&& is_new == !old(self)@.public_ip_addresses.contains_key(key)
                &&& final(self)@ == (StoreView { public_ip_addresses: old(self)@.public_ip_addresses.insert(key, doc@), ..old(self)@ })
            }),
    {
        match self.check_group(subscription_id, resource_group) {
            Err(e) => return Err(e),
            Ok(()) => {},
        }
        let doc = make_public_ip_doc(subscription_id, resource_group, name, params, fresh.uuid.as_str(), &fresh.bytes);
        let key = path3(subscription_id, resource_group, name);
        let is_new = !self.public_ip_addresses.contains_key(&key);
        self.public_ip_addresses.insert(key, doc.deep_clone());
        Ok((doc, is_new))
    }

    /// Public IP address `name`.
    pub fn get_public_ip_address(&self, subscription_id: &str, resource_group: &str, name: &str) -> (r: Option<JsonValue>)
        ensures
            match r {
                Some(d) => self@.public_ip_addresses.contains_key(seq![subscription_id@, resource_group@, name@])
                    && d@ == self@.public_ip_addresses[seq![subscription_id@, resource_group@, name@]],
                None => !self@.public_ip_addresses.contains_key(seq![subscription_id@, resource_group@, name@]),
            },
    {
        match self.public_ip_addresses.get(&path3(subscription_id, resource_group, name)) {
            Some(d) => Some(d.deep_clone()),
            None => None,
        }
    }

    /// The public IP addresses of a group; `None` when the subscription or
    /// the group does not exist.
    pub fn list_public_ip_addresses(&self, subscription_id: &str, resource_group: &str) -> (r: Option<Page>)
        ensures
            match r {
                Some(p) => !group_missing(self@, subscription_id@, resource_group@)
                    && docs(p.value@) == values_under(self.public_ip_addresses.pairs(), seq![subscription_id@, resource_group@])
                    && p.next_link is None,
                None => group_missing(self@, subscription_id@, resource_group@),
            },
    {
        if self.check_group(subscription_id, resource_group).is_err() {
            return None;
        }
        let v = self.public_ip_addresses.values_under(&path2(subscription_id, resource_group));
        proof {
            assert(docs(v@) =~= v@.map_values(|x: JsonValue| x@));
        }
        Some(Page::new(v))
    }

    /// Deletes public IP address `name`; `Ok(false)` when there was none.
    pub fn delete_public_ip_address(&mut self, subscription_id: &str, resource_group: &str, name: &str) -> (r: Result<bool, StoreError>)
        ensures
            crate::store::parents_exist(old(self)@) ==> crate::store::parents_exist(final(self)@),
            group_missing(old(self)@, subscription_id@, resource_group@) ==> (r matches Err(e) && group_error_matches(old(self)@, subscription_id@, resource_group@, e) && final(self)@ == old(self)@),
            !group_missing(old(self)@, subscription_id@, resource_group@) ==> (r matches Ok(existed) && {
                let key = seq![subscription_id@, resource_group@, name@];
                &&& existed == old(self)@.public_ip_addresses.contains_key(key)
                &&& final(self)@ == (StoreView { public_ip_addresses: old(self)@.public_ip_addresses.remove(key), ..old(self)@ })
            }),
    {
        match self.check_group(subscription_id, resource_group) {
            Err(e) => return Err(e),
            Ok(()) => {},
        }
        let existed = self.public_ip_addresses.remove(&path3(subscription_id, resource_group, name));
        Ok(existed.is_some())
    }
}

} // verus!

verus! {

/// Whether an ip configuration has private address `ip`.
pub open spec fn config_uses(cfg: Json, ip: Seq<char>) -> bool {
    match json_get(cfg, "properties"@) {
        Some(p) => json_get(p, "privateIPAddress"@) == Some(Json::Str(ip)),
        None => false,
    }
}

/// The ip configurations of a network interface.
pub open spec fn configs_of(nic: Json) -> Seq<Json> {
    match json_get(nic, "properties"@) {
        Some(p) => items_at(p, "ipConfigurations"@),
        None => Seq::empty(),
    }
}

/// Whether a network interface has private address `ip`.
pub open spec fn nic_uses(nic: Json, ip: Seq<char>) -> bool {
    exists|j: int| 0 <= j < configs_of(nic).len() && config_uses(#[trigger] configs_of(nic)[j], ip)
}

/// Whether some interface of the list has private address `ip`.
pub open spec fn ip_in_use(nics: Seq<Json>, ip: Seq<char>) -> bool {
    exists|j: int| 0 <= j < nics.len() && nic_uses(#[trigger] nics[j], ip)
}

fn config_has_ip(cfg: &JsonValue, ip: &str) -> (b: bool)
    ensures
        b == config_uses(cfg@, ip@),
{
    match cfg.member("properties") {
        Some(p) => match p.member("privateIPAddress") {
            Some(v) => match v {
                JsonValue::Str(s) => crate::text::text_eq(s.as_str(), ip),
                _ => false,
            },
            None => false,
        },
        None => false,
    }
}

fn nic_has_ip(nic: &JsonValue, ip: &str) -> (b: bool)
    ensures
        b == nic_uses(nic@, ip@),
{
    let empty: Vec<JsonValue> = Vec::new();
    let items: &Vec<JsonValue> = match nic.member("properties") {
        Some(p) => match p.member("ipConfigurations") {
            Some(v) => match v {
                JsonValue::Array(items) => items,
                _ => &empty,
            },
            None => &empty,
        },
        None => &empty,
    };
    proof {
        lemma_items_model(items@);
        assert(configs_of(nic@) == items_model(items@));
    }
    let mut i: usize = 0;
    while i < items.len()
        invariant
            i <= items@.len(),
            configs_of(nic@) == items_model(items@),
            items_model(items@).len() == items@.len(),
            forall|j: int| 0 <= j < items@.len() ==> #[trigger] items_model(items@)[j] == items@[j]@,
            forall|j: int| 0 <= j < i ==> !config_uses(#[trigger] configs_of(nic@)[j], ip@),
        decreases items.len() - i,
    {
        if config_has_ip(&items[i], ip) {
            assert(config_uses(configs_of(nic@)[i as int], ip@));
            return true;
        }
        i = i + 1;
    }
    false
}

impl MockState {
    /// Whether private address `ip` is free in a group: it is taken when
    /// an ip configuration of a network interface of the group has it.
    /// The group must exist; the virtual network is not looked at.
    pub fn check_ip_availability(&self, subscription_id: &str, resource_group: &str, vnet: &str, ip: &str) -> (r: Result<(bool, Vec<String>), StoreError>)
        ensures
            match r {
                Ok((available, others)) => !group_missing(self@, subscription_id@, resource_group@)
                    && available == !ip_in_use(values_under(self.network_interfaces.pairs(), seq![subscription_id@, resource_group@]), ip@)
                    && others@.len() == 0,
                Err(e) => group_missing(self@, subscription_id@, resource_group@)
                    && (e matches StoreError::ResourceGroupNotFound(n) && n@ == resource_group@),
            },
    {
        if self.check_group(subscription_id, resource_group).is_err() {
            return Err(StoreError::ResourceGroupNotFound(owned(resource_group)));
        }
        let nics = self.network_interfaces.values_under(&path2(subscription_id, resource_group));
        let ghost all = nics@.map_values(|x: JsonValue| x@);
        assert(all == values_under(self.network_interfaces.pairs(), seq![subscription_id@, resource_group@]));
        let mut i: usize = 0;
        while i < nics.len()
            invariant
                i <= nics@.len(),
                all == nics@.map_values(|x: JsonValue| x@),
                all == values_under(self.network_interfaces.pairs(), seq![subscription_id@, resource_group@]),
                !group_missing(self@, subscription_id@, resource_group@),
                forall|j: int| 0 <= j < i ==> !nic_uses(#[trigger] all[j], ip@),
            decreases nics.len() - i,
        {
            if nic_has_ip(&nics[i], ip) {
                assert(nic_uses(all[i as int], ip@));
                assert(ip_in_use(all, ip@));
                return Ok((false, Vec::new()));
            }
            i = i + 1;
        }
        Ok((true, Vec::new()))
    }
}

} // verus!

verus! {

/// Document of a route table as it is stored.
pub open spec fn route_table_doc(sub: Seq<char>, rg: Seq<char>, name: Seq<char>, params: CreateResourceParams, guid: Seq<char>) -> Json {
    top_doc(
        network_id(sub, rg, "routeTables"@, name),
        name,
        "Microsoft.Network/routeTables"@,
        params.location@,
        string_pairs_object(params.tags@),
        true,
        seq![("properties"@, json_set(succeeded(params.properties@), "resourceGuid"@, Json::Str(guid)))],
    )
}

/// A route table as it is read: its routes listed in its properties.
pub open spec fn route_table_view(v: StoreView, key: Seq<Seq<char>>, route_pairs: Seq<(Seq<Seq<char>>, Json)>) -> Json {
    with_children(v.route_tables[key], "routes"@, values_under(route_pairs, key))
}

/// Document of route `name` of the route table `table`.
pub open spec fn route_doc(table: Json, name: Seq<char>, props: Json) -> Json {
    child_doc(doc_id(table) + "/routes/"@ + name, name, Some("Microsoft.Network/routeTables/routes"@), succeeded(props))
}

/// The error for a missing route table: the group check comes first.
pub open spec fn table_error(v: StoreView, sub: Seq<char>, rg: Seq<char>, name: Seq<char>, e: StoreError) -> bool {
    if group_missing(v, sub, rg) {
        group_error_matches(v, sub, rg, e)
    } else {
        e matches StoreError::RouteTableNotFound(n) && n@ == name
    }
}

fn make_route_table_doc(sub: &str, rg: &str, name: &str, params: &CreateResourceParams, guid: &str) -> (r: JsonValue)
    ensures
        r@ == route_table_doc(sub@, rg@, name@, *params, guid@),
{
    let mut props = params.properties.deep_clone();
    mark_succeeded(&mut props);
    props.set("resourceGuid", jstr(guid));
    let mut tail: Vec<(String, JsonValue)> = Vec::new();
    push_member(&mut tail, "properties", props);
    proof {
        assert(members_model(tail@) =~= seq![("properties"@, props@)]);
    }
    make_top_doc(
        make_network_id(sub, rg, "routeTables", name),
        name,
        "Microsoft.Network/routeTables",
        params.location.as_str(),
        &params.tags,
        true,
        tail,
    )
}

impl MockState {
    // ── Route tables ──────────────────────────────────────────────────

    fn locate_route_table(&self, subscription_id: &str, resource_group: &str, name: &str) -> (r: Result<usize, StoreError>)
        ensures
            match r {
                Ok(i) => found_in(self@, self@.route_tables, subscription_id@, resource_group@, name@)
                    && i < self.route_tables.keys().len()
                    && self.route_tables.keys()[i as int] == seq![subscription_id@, resource_group@, name@],
                Err(e) => !found_in(self@, self@.route_tables, subscription_id@, resource_group@, name@)
                    && table_error(self@, subscription_id@, resource_group@, name@, e),
            },
    {
        match self.check_group(subscription_id, resource_group) {
            Err(e) => return Err(e),
            Ok(()) => {},
        }
        let key = path3(subscription_id, resource_group, name);
        match self.route_tables.find(&key) {
            Some(i) => {
                assert(self.route_tables.keys().contains(key@));
                Ok(i)
            },
            None => Err(StoreError::RouteTableNotFound(owned(name))),
        }
    }

    /// Creates or replaces route table `name` (PUT semantics); the named
    /// items of `properties.routes` become its routes. `true` tells that
    /// it is new.
    pub fn create_route_table(&mut self, subscription_id: &str, resource_group: &str, name: &str, params: &CreateResourceParams, fresh: &Fresh) -> (r: Result<(JsonValue, bool), StoreError>)
        ensures
            crate::store::parents_exist(old(self)@) ==> crate::store::parents_exist(final(self)@),
            group_missing(old(self)@, subscription_id@, resource_group@) ==> (r matches Err(e) && group_error_matches(old(self)@, subscription_id@, resource_group@, e) && final(self)@ == old(self)@),
            !group_missing(old(self)@, subscription_id@, resource_group@) ==> (r matches Ok((doc, is_new)) && {
                let key = seq![subscription_id@, resource_group@, name@];
                &&& doc@ == route_table_doc(subscription_id@, resource_group@, name@, *params, fresh.uuid@)
                &&& is_new == !old(self)@.route_tables.contains_key(key)
                &&& final(self)@ == (StoreView {
                    route_tables: old(self)@.route_tables.insert(key, doc@),
                    routes: without_under(old(self)@.routes, key).union_prefer_right(
                        named_children(key, items_at(params.properties@, "routes"@)),
                    ),
                    ..old(self)@
                })
            }),
    {
        match self.check_group(subscription_id, resource_group) {
            Err(e) => return Err(e),
            Ok(()) => {},
        }
        let doc = make_route_table_doc(subscription_id, resource_group, name, params, fresh.uuid.as_str());
        let key = path3(subscription_id, resource_group, name);
        let is_new = !self.route_tables.contains_key(&key);
        self.routes.remove_under(&key);
        put_children(&mut self.routes, &key, &params.properties, "routes");
        proof {
            if crate::store::parents_exist(old(self)@) {
                let v = old(self)@;
                lemma_wf_parent_put(v.route_tables, v.resource_groups, v.routes, key@, doc@, items_at(params.properties@, "routes"@));
            }
        }
        self.route_tables.insert(key, doc.deep_clone());
        Ok((doc, is_new))
    }

    /// Route table `name` with its routes.
    pub fn get_route_table(&self, subscription_id: &str, resource_group: &str, name: &str) -> (r: Option<JsonValue>)
        ensures
            match r {
                Some(d) => self@.route_tables.contains_key(seq![subscription_id@, resource_group@, name@])
                    && d@ == route_table_view(self@, seq![subscription_id@, resource_group@, name@], self.routes.pairs()),
                None => !self@.route_tables.contains_key(seq![subscription_id@, resource_group@, name@]),
            },
    {
        let key = path3(subscription_id, resource_group, name);
        match self.route_tables.get(&key) {
            Some(d) => {
                let mut doc = d.deep_clone();
                let cs = self.routes.values_under(&key);
                proof {
                    assert(docs(cs@) =~= cs@.map_values(|v: JsonValue| v@));
                }
                attach_children(&mut doc, "routes", cs);
                Some(doc)
            },
            None => None,
        }
    }

    /// The route tables of a group with their routes; `None` when the
    /// subscription or the group does not exist.
    pub fn list_route_tables(&self, subscription_id: &str, resource_group: &str) -> (r: Option<Page>)
        ensures
            match r {
                Some(p) => !group_missing(self@, subscription_id@, resource_group@)
                    && docs(p.value@) == parents_with_children(
                        pairs_under(self.route_tables.pairs(), seq![subscription_id@, resource_group@]),
                        self.routes.pairs(),
                        "routes"@,
                    )
                    && p.next_link is None,
                None => group_missing(self@, subscription_id@, resource_group@),
            },
    {
        if self.check_group(subscription_id, resource_group).is_err() {
            return None;
        }
        let parents = self.route_tables.pairs_under(&path2(subscription_id, resource_group));
        Some(Page::new(docs_with_children(&parents, &self.routes, "routes")))
    }

    /// Deletes route table `name` with its routes; `Ok(false)` when there
    /// was none.
    pub fn delete_route_table(&mut self, subscription_id: &str, resource_group: &str, name: &str) -> (r: Result<bool, StoreError>)
        ensures
            crate::store::parents_exist(old(self)@) ==> crate::store::parents_exist(final(self)@),
            group_missing(old(self)@, subscription_id@, resource_group@) ==> (r matches Err(e) && group_error_matches(old(self)@, subscription_id@, resource_group@, e) && final(self)@ == old(self)@),
            !group_missing(old(self)@, subscription_id@, resource_group@) ==> (r matches Ok(existed) && {
                let key = seq![subscription_id@, resource_group@, name@];
                &&& existed == old(self)@.route_tables.contains_key(key)
                &&& final(self)@ == (StoreView {
                    route_tables: old(self)@.route_tables.remove(key),
                    routes: without_under(old(self)@.routes, key),
                    ..old(self)@
                })
            }),
    {
        match self.check_group(subscription_id, resource_group) {
            Err(e) => return Err(e),
            Ok(()) => {},
        }
        let key = path3(subscription_id, resource_group, name);
        let existed = self.route_tables.remove(&key);
        self.routes.remove_under(&key);
        Ok(existed.is_some())
    }

    // ── Routes ────────────────────────────────────────────────────────

    /// Creates or replaces route `route` of route table `table`. `true`
    /// tells that it is new.
    pub fn create_route(&mut self, subscription_id: &str, resource_group: &str, table: &str, route: &str, properties: &JsonValue) -> (r: Result<(JsonValue, bool), StoreError>)
        ensures
            crate::store::parents_exist(old(self)@) ==> crate::store::parents_exist(final(self)@),
            !found_in(old(self)@, old(self)@.route_tables, subscription_id@, resource_group@, table@) ==> (r matches Err(e) && table_error(old(self)@, subscription_id@, resource_group@, table@, e) && final(self)@ == old(self)@),
            found_in(old(self)@, old(self)@.route_tables, subscription_id@, resource_group@, table@) ==> (r matches Ok((d, is_new)) && {
                let key = seq![subscription_id@, resource_group@, table@];
                &&& d@ == route_doc(old(self)@.route_tables[key], route@, properties@)
                &&& is_new == !old(self)@.routes.contains_key(key.push(route@))
                &&& final(self)@ == (StoreView { routes: old(self)@.routes.insert(key.push(route@), d@), ..old(self)@ })
            }),
    {
        let i = self.locate_route_table(subscription_id, resource_group, table)?;
        let id = child_id(self.route_tables.value_at(i), "/routes/", route);
        let mut props = properties.deep_clone();
        mark_succeeded(&mut props);
        let doc = make_child_doc(id, route, Some("Microsoft.Network/routeTables/routes"), props);
        let key = path4(subscription_id, resource_group, table, route);
        proof {
            assert(seq![subscription_id@, resource_group@, table@].push(route@) =~= key@);
        }
        let is_new = !self.routes.contains_key(&key);
        self.routes.insert(key, doc.deep_clone());
        Ok((doc, is_new))
    }

    /// Route `route` of route table `table`.
    pub fn get_route(&self, subscription_id: &str, resource_group: &str, table: &str, route: &str) -> (r: Option<JsonValue>)
        ensures
            match r {
                Some(d) => self@.routes.contains_key(seq![subscription_id@, resource_group@, table@, route@])
                    && d@ == self@.routes[seq![subscription_id@, resource_group@, table@, route@]],
                None => !self@.routes.contains_key(seq![subscription_id@, resource_group@, table@, route@]),
            },
    {
        match self.routes.get(&path4(subscription_id, resource_group, table, route)) {
            Some(d) => Some(d.deep_clone()),
            None => None,
        }
    }

    /// The routes of route table `table`; `None` when it does not exist.
    pub fn list_routes(&self, subscription_id: &str, resource_group: &str, table: &str) -> (r: Option<Page>)
        ensures
            match r {
                Some(p) => self@.route_tables.contains_key(seq![subscription_id@, resource_group@, table@])
                    && docs(p.value@) == values_under(self.routes.pairs(), seq![subscription_id@, resource_group@, table@])
                    && p.next_link is None,
                None => !self@.route_tables.contains_key(seq![subscription_id@, resource_group@, table@]),
            },
    {
        let key = path3(subscription_id, resource_group, table);
        if !self.route_tables.contains_key(&key) {
            return None;
        }
        let cs = self.routes.values_under(&key);
        proof {
            assert(docs(cs@) =~= cs@.map_values(|v: JsonValue| v@));
        }
        Some(Page::new(cs))
    }

    /// Deletes route `route` of route table `table`; `Ok(false)` when
    /// there was none.
    pub fn delete_route(&mut self, subscription_id: &str, resource_group: &str, table: &str, route: &str) -> (r: Result<bool, StoreError>)
        ensures
            crate::store::parents_exist(old(self)@) ==> crate::store::parents_exist(final(self)@),
            !found_in(old(self)@, old(self)@.route_tables, subscription_id@, resource_group@, table@) ==> (r matches Err(e) && table_error(old(self)@, subscription_id@, resource_group@, table@, e) && final(self)@ == old(self)@),
            found_in(old(self)@, old(self)@.route_tables, subscription_id@, resource_group@, table@) ==> (r matches Ok(existed) && {
                let key = seq![subscription_id@, resource_group@, table@, route@];
                &&& existed == old(self)@.routes.contains_key(key)
                &&& final(self)@ == (StoreView { routes: old(self)@.routes.remove(key), ..old(self)@ })
            }),
    {
        let _ = self.locate_route_table(subscription_id, resource_group, table)?;
        let existed = self.routes.remove(&path4(subscription_id, resource_group, table, route));
        Ok(existed.is_some())
    }
}

} // verus!

verus! {

/// Document of an application security group as it is stored.
pub open spec fn asg_doc(sub: Seq<char>, rg: Seq<char>, name: Seq<char>, location: Seq<char>, tags: Seq<(String, String)>, guid: Seq<char>) -> Json {
    top_doc(
        network_id(sub, rg, "applicationSecurityGroups"@, name),
        name,
        "Microsoft.Network/applicationSecurityGroups"@,
        location,
        string_pairs_object(tags),
        true,
        seq![("properties"@, Json::Object(seq![
            ("provisioningState"@, Json::Str("Succeeded"@)),
            ("resourceGuid"@, Json::Str(guid)),
        ]))],
    )
}

/// The error for a missing application security group: the group check
/// comes first.
pub open spec fn asg_error(v: StoreView, sub: Seq<char>, rg: Seq<char>, name: Seq<char>, e: StoreError) -> bool {
    if group_missing(v, sub, rg) {
        group_error_matches(v, sub, rg, e)
    } else {
        e matches StoreError::ApplicationSecurityGroupNotFound(n) && n@ == name
    }
}

fn make_asg_doc(sub: &str, rg: &str, name: &str, location: &str, tags: &Vec<(String, String)>, guid: &str) -> (r: JsonValue)
    ensures
        r@ == asg_doc(sub@, rg@, name@, location@, tags@, guid@),
{
    let mut props: Vec<(String, JsonValue)> = Vec::new();
    push_member(&mut props, "provisioningState", jstr("Succeeded"));
    push_member(&mut props, "resourceGuid", jstr(guid));
    let mut tail: Vec<(String, JsonValue)> = Vec::new();
    push_member(&mut tail, "properties", JsonValue::Object(props));
    proof {
        assert(members_model(props@) =~= seq![
            ("provisioningState"@, Json::Str("Succeeded"@)),
            ("resourceGuid"@, Json::Str(guid@)),
        ]);
        assert(members_model(tail@) =~= seq![("properties"@, Json::Object(members_model(props@)))]);
    }
    make_top_doc(
        make_network_id(sub, rg, "applicationSecurityGroups", name),
        name,
        "Microsoft.Network/applicationSecurityGroups",
        location,
        tags,
        true,
        tail,
    )
}

impl MockState {
    // ── Application security groups ───────────────────────────────────

    /// Creates or replaces application security group `name` (PUT
    /// semantics); only the location and tags of `params` are used.
    /// `true` tells that it is new.
    pub fn create_application_security_group(&mut self, subscription_id: &str, resource_group: &str, name: &str, params: &CreateResourceParams, fresh: &Fresh) -> (r: Result<(JsonValue, bool), StoreError>)
        ensures
            crate::store::parents_exist(old(self)@) ==> crate::store::parents_exist(final(self)@),
            group_missing(old(self)@, subscription_id@, resource_group@) ==> (r matches Err(e) && group_error_matches(old(self)@, subscription_id@, resource_group@, e) && final(self)@ == old(self)@),
            !group_missing(old(self)@, subscription_id@, resource_group@) ==> (r matches Ok((doc, is_new)) && {
                let key = seq![subscription_id@, resource_group@, name@];
                &&& doc@ == asg_doc(subscription_id@, resource_group@, name@, params.location@, params.tags@, fresh.uuid@)
                &&& is_new == !old(self)@.application_security_groups.contains_key(key)
                &&& final(self)@ == (StoreView {
                    application_security_groups: old(self)@.application_security_groups.insert(key, doc@),
                    ..old(self)@
                })
            }),
    {
        match self.check_group(subscription_id, resource_group) {
            Err(e) => return Err(e),
            Ok(()) => {},
        }
        let doc = make_asg_doc(subscription_id, resource_group, name, params.location.as_str(), &params.tags, fresh.uuid.as_str());
        let key = path3(subscription_id, resource_group, name);
        let is_new = !self.application_security_groups.contains_key(&key);
        self.application_security_groups.insert(key, doc.deep_clone());
        Ok((doc, is_new))
    }

    /// Application security group `name`.
    pub fn get_application_security_group(&self, subscription_id: &str, resource_group: &str, name: &str) -> (r: Option<JsonValue>)
        ensures
            match r {
                Some(d) => self@.application_security_groups.contains_key(seq![subscription_id@, resource_group@, name@])
                    && d@ == self@.application_security_groups[seq![subscription_id@, resource_group@, name@]],
                None => !self@.application_security_groups.contains_key(seq![subscription_id@, resource_group@, name@]),
            },
    {
        match self.application_security_groups.get(&path3(subscription_id, resource_group, name)) {
            Some(d) => Some(d.deep_clone()),
            None => None,
        }
    }

    /// The application security groups of a group; `None` when the
    /// subscription or the group does not exist.
    pub fn list_application_security_groups(&self, subscription_id: &str, resource_group: &str) -> (r: Option<Page>)
        ensures
            match r {
                Some(p) => !group_missing(self@, subscription_id@, resource_group@)
                    && docs(p.value@) == values_under(self.application_security_groups.pairs(), seq![subscription_id@, resource_group@])
                    && p.next_link is None,
                None => group_missing(self@, subscription_id@, resource_group@),
            },
    {
        if self.check_group(subscription_id, resource_group).is_err() {
            return None;
        }
        let v = self.application_security_groups.values_under(&path2(subscription_id, resource_group));
        proof {
            assert(docs(v@) =~= v@.map_values(|x: JsonValue| x@));
        }
        Some(Page::new(v))
    }

    /// The application security groups of every group of a subscription;
    /// `None` when it does not exist.
    pub fn list_all_application_security_groups(&self, subscription_id: &str) -> (r: Option<Page>)
        ensures
            match r {
                Some(p) => self@.subscriptions.contains_key(seq![subscription_id@])
                    && docs(p.value@) == values_under(self.application_security_groups.pairs(), seq![subscription_id@])
                    && p.next_link is None,
                None => !self@.subscriptions.contains_key(seq![subscription_id@]),
            },
    {
        if !self.subscriptions.contains_key(&path1(subscription_id)) {
            return None;
        }
        let v = self.application_security_groups.values_under(&path1(subscription_id));
        proof {
            assert(docs(v@) =~= v@.map_values(|x: JsonValue| x@));
        }
        Some(Page::new(v))
    }

    /// Deletes application security group `name`; `Ok(false)` when there
    /// was none.
    pub fn delete_application_security_group(&mut self, subscription_id: &str, resource_group: &str, name: &str) -> (r: Result<bool, StoreError>)
        ensures
            crate::store::parents_exist(old(self)@) ==> crate::store::parents_exist(final(self)@),
            group_missing(old(self)@, subscription_id@, resource_group@) ==> (r matches Err(e) && group_error_matches(old(self)@, subscription_id@, resource_group@, e) && final(self)@ == old(self)@),
            !group_missing(old(self)@, subscription_id@, resource_group@) ==> (r matches Ok(existed) && {
                let key = seq![subscription_id@, resource_group@, name@];
                &&& existed == old(self)@.application_security_groups.contains_key(key)
                &&& final(self)@ == (StoreView {
                    application_security_groups: old(self)@.application_security_groups.remove(key),
                    ..old(self)@
                })
            }),
    {
        match self.check_group(subscription_id, resource_group) {
            Err(e) => return Err(e),
            Ok(()) => {},
        }
        let existed = self.application_security_groups.remove(&path3(subscription_id, resource_group, name));
        Ok(existed.is_some())
    }

    /// Merges `tags` into the tags of application security group `name`.
    pub fn update_application_security_group_tags(&mut self, subscription_id: &str, resource_group: &str, name: &str, tags: &Vec<(String, String)>) -> (r: Result<JsonValue, StoreError>)
        ensures
            crate::store::parents_exist(old(self)@) ==> crate::store::parents_exist(final(self)@),
            !found_in(old(self)@, old(self)@.application_security_groups, subscription_id@, resource_group@, name@) ==> (r matches Err(e) && asg_error(old(self)@, subscription_id@, resource_group@, name@, e) && final(self)@ == old(self)@),
            found_in(old(self)@, old(self)@.application_security_groups, subscription_id@, resource_group@, name@) ==> (r matches Ok(d) && {
                let key = seq![subscription_id@, resource_group@, name@];
                &&& d@ == with_merged_tags(old(self)@.application_security_groups[key], tags@)
                &&& final(self)@ == (StoreView {
                    application_security_groups: old(self)@.application_security_groups.insert(key, d@),
                    ..old(self)@
                })
            }),
    {
        match self.check_group(subscription_id, resource_group) {
            Err(e) => return Err(e),
            Ok(()) => {},
        }
        let key = path3(subscription_id, resource_group, name);
        match self.application_security_groups.find(&key) {
            None => Err(StoreError::ApplicationSecurityGroupNotFound(owned(name))),
            Some(i) => {
                assert(self.application_security_groups.keys().contains(key@));
                let mut doc = self.application_security_groups.value_at(i).deep_clone();
                merge_tags(&mut doc, tags);
                let out = doc.deep_clone();
                self.application_security_groups.replace_at(i, doc);
                Ok(out)
            },
        }
    }

    // ── Identity ──────────────────────────────────────────────────────

    /// The principal the mock acts as.
    pub fn get_current_principal(&self) -> (r: JsonValue)
        ensures
            r@ == self@.current_principal,
    {
        self.current_principal.deep_clone()
    }

    /// The role assignments; the scope is not looked at.
    pub fn list_role_assignments(&self, scope: &str) -> (r: Page)
        ensures
            docs(r.value@) == self@.role_assignments,
            r.next_link is None,
    {
        let v = crate::json::copy_all(&self.role_assignments);
        Page::new(v)
    }
}

} // verus!

verus! {

/// One entry of the service tag list.
pub open spec fn service_tag(name: Seq<char>, system: Seq<char>, prefixes: Seq<Seq<char>>) -> Json {
    Json::Object(seq![
        ("name"@, Json::Str(name)),
        ("id"@, Json::Str(name)),
        ("serviceTagChangeNumber"@, Json::Str("1"@)),
        ("properties"@, Json::Object(seq![
            ("changeNumber"@, Json::Str("1"@)),
            ("region"@, Json::Str(Seq::empty())),
            ("systemService"@, Json::Str(system)),
            ("addressPrefixes"@, Json::Array(prefixes.map_values(|p: Seq<char>| Json::Str(p)))),
        ])),
    ])
}

/// The service tags the mock lists for `location`.
pub open spec fn service_tags_doc(location: Seq<char>) -> Json {
    Json::Object(seq![
        ("name"@, Json::Str("ServiceTagsListResult_"@ + location)),
        ("id"@, Json::Str("/subscriptions/00000000-0000-0000-0000-000000000000/providers/Microsoft.Network/locations/"@ + location + "/serviceTags/default"@)),
        ("type"@, Json::Str("Microsoft.Network/serviceTags"@)),
        ("changeNumber"@, Json::Str("1"@)),
        ("cloud"@, Json::Str("Public"@)),
        ("values"@, Json::Array(seq![
            service_tag("AzureCloud"@, "AzureCloud"@, seq!["13.64.0.0/11"@, "13.96.0.0/13"@]),
            service_tag("Storage"@, "AzureStorage"@, seq!["20.33.0.0/16"@, "20.34.0.0/15"@]),
            service_tag("Sql"@, "AzureSQL"@, seq!["20.36.0.0/14"@]),
            service_tag("AzureActiveDirectory"@, "AzureAD"@, seq!["20.190.128.0/18"@]),
        ])),
    ])
}

fn make_service_tag(name: &str, system: &str, prefixes: &[&str]) -> (r: JsonValue)
    ensures
        r@ == service_tag(name@, system@, prefixes@.map_values(|p: &str| p@)),
{
    let mut items: Vec<JsonValue> = Vec::new();
    let mut i: usize = 0;
    while i < prefixes.len()
        invariant
            i <= prefixes@.len(),
            items_model(items@) == prefixes@.take(i as int).map_values(|p: &str| p@).map_values(|p: Seq<char>| Json::Str(p)),
        decreases prefixes.len() - i,
    {
        let ghost prev = items@;
        items.push(jstr(prefixes[i]));
        proof {
            assert(items@.drop_last() =~= prev);
            assert(prefixes@.take(i + 1).map_values(|p: &str| p@).map_values(|p: Seq<char>| Json::Str(p)) =~= prefixes@.take(
                i as int,
            ).map_values(|p: &str| p@).map_values(|p: Seq<char>| Json::Str(p)).push(Json::Str(prefixes@[i as int]@)));
        }
        i = i + 1;
    }
    proof {
        assert(prefixes@.take(prefixes@.len() as int) =~= prefixes@);
    }
    let mut props: Vec<(String, JsonValue)> = Vec::new();
    push_member(&mut props, "changeNumber", jstr("1"));
    push_member(&mut props, "region", JsonValue::Str(String::new()));
    push_member(&mut props, "systemService", jstr(system));
    push_member(&mut props, "addressPrefixes", JsonValue::Array(items));
    let mut ms: Vec<(String, JsonValue)> = Vec::new();
    push_member(&mut ms, "name", jstr(name));
    push_member(&mut ms, "id", jstr(name));
    push_member(&mut ms, "serviceTagChangeNumber", jstr("1"));
    push_member(&mut ms, "properties", JsonValue::Object(props));
    proof {
        assert(members_model(props@) =~= seq![
            ("changeNumber"@, Json::Str("1"@)),
            ("region"@, Json::Str(Seq::empty())),
            ("systemService"@, Json::Str(system@)),
            ("addressPrefixes"@, Json::Array(prefixes@.map_values(|p: &str| p@).map_values(|p: Seq<char>| Json::Str(p)))),
        ]);
        assert(members_model(ms@) =~= service_tag(name@, system@, prefixes@.map_values(|p: &str| p@))->Object_0);
    }
    JsonValue::Object(ms)
}

impl MockState {
    /// The service tags of `location`; the list does not depend on the
    /// state.
    pub fn list_service_tags(&self, location: &str) -> (r: JsonValue)
        ensures
            r@ == service_tags_doc(location@),
    {
        let p1: [&str; 2] = ["13.64.0.0/11", "13.96.0.0/13"];
        let p2: [&str; 2] = ["20.33.0.0/16", "20.34.0.0/15"];
        let p3: [&str; 1] = ["20.36.0.0/14"];
        let p4: [&str; 1] = ["20.190.128.0/18"];
        proof {
            assert(p1@.map_values(|p: &str| p@) =~= seq!["13.64.0.0/11"@, "13.96.0.0/13"@]);
            assert(p2@.map_values(|p: &str| p@) =~= seq!["20.33.0.0/16"@, "20.34.0.0/15"@]);
            assert(p3@.map_values(|p: &str| p@) =~= seq!["20.36.0.0/14"@]);
            assert(p4@.map_values(|p: &str| p@) =~= seq!["20.190.128.0/18"@]);
        }
        let t1 = make_service_tag("AzureCloud", "AzureCloud", &p1);
        let t2 = make_service_tag("Storage", "AzureStorage", &p2);
        let t3 = make_service_tag("Sql", "AzureSQL", &p3);
        let t4 = make_service_tag("AzureActiveDirectory", "AzureAD", &p4);
        let values = vec![t1, t2, t3, t4];
        let name = join(&["ServiceTagsListResult_", location]);
        let id = join(&[
            "/subscriptions/00000000-0000-0000-0000-000000000000/providers/Microsoft.Network/locations/",
            location,
            "/serviceTags/default",
        ]);
        proof {
            reveal_with_fuel(concat_all, 4);
        }
        let mut ms: Vec<(String, JsonValue)> = Vec::new();
        push_member(&mut ms, "name", JsonValue::Str(name));
        push_member(&mut ms, "id", JsonValue::Str(id));
        push_member(&mut ms, "type", jstr("Microsoft.Network/serviceTags"));
        push_member(&mut ms, "changeNumber", jstr("1"));
        push_member(&mut ms, "cloud", jstr("Public"));
        proof {
            assert(values@ =~= seq![t1, t2, t3, t4]);
            lemma_items_model(values@);
            assert(items_model(values@) =~= seq![t1@, t2@, t3@, t4@]);
        }
        push_member(&mut ms, "values", JsonValue::Array(values));
        proof {
            assert(members_model(ms@) =~= service_tags_doc(location@)->Object_0);
        }
        JsonValue::Object(ms)
    }
}

} // verus!

verus! {

/// Every child made of named items lies right under `prefix`.
proof fn lemma_named_children_keys(prefix: Seq<Seq<char>>, items: Seq<Json>)
    ensures
        forall|k: Seq<Seq<char>>| #[trigger] named_children(prefix, items).contains_key(k)
            ==> k.len() == prefix.len() + 1 && k.drop_last() == prefix,
    decreases items.len(),
{
    if items.len() > 0 {
        lemma_named_children_keys(prefix, items.drop_last());
        let m = named_children(prefix, items.drop_last());
        match named(items.last()) {
            Some(n) => {
                assert(prefix.push(n).drop_last() =~= prefix);
                assert(named_children(prefix, items) == m.insert(prefix.push(n), items.last()));
                assert forall|k: Seq<Seq<char>>| #[trigger] named_children(prefix, items).contains_key(k)
                    implies k.len() == prefix.len() + 1 && k.drop_last() == prefix by {
                    if k != prefix.push(n) {
                        assert(m.contains_key(k));
                    }
                }
            },
            None => {
                assert(named_children(prefix, items) == m);
            },
        }
    } else {
        assert(named_children(prefix, items) == Map::<Seq<Seq<char>>, Json>::empty());
    }
}

/// Putting a parent of an existing group, its old children replaced by
/// the named items, keeps the hierarchy of parents and children.
proof fn lemma_wf_parent_put(
    parents: Map<Seq<Seq<char>>, Json>,
    groups: Map<Seq<Seq<char>>, Json>,
    children: Map<Seq<Seq<char>>, Json>,
    key: Seq<Seq<char>>,
    doc: Json,
    items: Seq<Json>,
)
    requires
        crate::store::children_of(parents, groups, 3),
        crate::store::children_of(children, parents, 4),
        key.len() == 3,
        groups.contains_key(key.drop_last()),
    ensures
        crate::store::children_of(parents.insert(key, doc), groups, 3),
        crate::store::children_of(
            without_under(children, key).union_prefer_right(named_children(key, items)),
            parents.insert(key, doc),
            4,
        ),
{
    lemma_named_children_keys(key, items);
    let c = without_under(children, key).union_prefer_right(named_children(key, items));
    assert forall|k: Seq<Seq<char>>| #[trigger] c.contains_key(k) implies k.len() == 4 && parents.insert(key, doc).contains_key(k.drop_last()) by {
        if !named_children(key, items).contains_key(k) {
            assert(children.contains_key(k));
        }
    }
}

} // verus!
