use vstd::prelude::*;

use crate::compute::{created_version, next_version, with_power, PowerState, VmView};
use crate::json::{
    json_get, json_remove, json_set, lemma_get_push, lemma_get_remove, lemma_get_set,
    member_get, merge_json, merge_member, merge_members, Json,
};
use crate::keyed::is_prefix;
use crate::store::{group_put, group_removed, StoreView};

verus! {

// ── JSON merge patch ───────────────────────────────────────────────────

/// The value a merge patch leaves under `q`, given the target's value
/// `old` and the patch's value `p`: a `null` removes it, anything else is
/// merged into the old value (an empty object when there is none).
pub open spec fn merged_member(old: Option<Json>, p: Option<Json>) -> Option<Json> {
    match p {
        Some(v) => if v == Json::Null {
            None
        } else {
            Some(merge_json(
                match old {
                    Some(o) => o,
                    None => Json::Object(Seq::empty()),
                },
                v,
            ))
        },
        None => old,
    }
}

/// The member keys of a patch.
pub open spec fn patch_keys(pm: Seq<(Seq<char>, Json)>) -> Seq<Seq<char>> {
    pm.map_values(|m: (Seq<char>, Json)| m.0)
}

proof fn lemma_merge_members(tm: Seq<(Seq<char>, Json)>, pm: Seq<(Seq<char>, Json)>, q: Seq<char>)
    requires
        patch_keys(pm).no_duplicates(),
    ensures
        member_get(merge_members(tm, pm), q) == merged_member(member_get(tm, q), member_get(pm, q)),
    decreases pm.len(),
{
    if pm.len() == 0 {
        crate::json::lemma_key_index_first(pm, q);
    } else {
        let init = pm.drop_last();
        let x = pm.last();
        assert(pm =~= init.push(x));
        assert(patch_keys(init).no_duplicates()) by {
            assert forall|a: int, b: int| 0 <= a < init.len() && 0 <= b < init.len() && a != b implies patch_keys(init)[a] != patch_keys(init)[b] by {
                assert(patch_keys(pm)[a] == patch_keys(init)[a]);
                assert(patch_keys(pm)[b] == patch_keys(init)[b]);
            }
        }
        lemma_merge_members(tm, init, q);
        lemma_get_push(init, x, q);
        let acc = merge_members(tm, init);
        let k = x.0;
        let v = x.1;
        if q == k {
            // the key occurs in the patch only as its last member
            crate::json::lemma_key_index_first(init, q);
            assert(member_get(init, q) is None) by {
                if crate::json::key_index(init, q) >= 0 {
                    let i = crate::json::key_index(init, q);
                    assert(patch_keys(pm)[i] == patch_keys(pm)[pm.len() - 1]);
                }
            }
        }
        assert(merge_members(tm, pm) == merge_member(acc, k, v));
        assert(member_get(pm, q) == if q == k { Some(v) } else { member_get(init, q) });
        match v {
            Json::Null => {
                lemma_get_remove(acc, k, q);
            },
            Json::Object(_) => {
                lemma_get_set(
                    acc,
                    k,
                    merge_json(
                        match member_get(acc, k) {
                            Some(e) => e,
                            None => Json::Object(Seq::empty()),
                        },
                        v,
                    ),
                    q,
                );
            },
            _ => {
                lemma_get_set(acc, k, v, q);
            },
        }
    }
}

/// JSON merge patch, member by member: for a patch object without
/// repeated keys, each member of the result is what the patch says of it
/// (`null` removes it, anything else is merged into the old value) or,
/// when the patch does not name it, the target's member.
pub proof fn law_merge_patch_members(target: Json, patch: Json, q: Seq<char>)
    requires
        patch matches Json::Object(pm) && patch_keys(pm).no_duplicates(),
    ensures
        json_get(merge_json(target, patch), q) == merged_member(json_get(target, q), json_get(patch, q)),
{
    let pm = patch->Object_0;
    let tm = match target {
        Json::Object(tm) => tm,
        _ => Seq::empty(),
    };
    lemma_merge_members(tm, pm, q);
    if !(target is Object) {
        crate::json::lemma_key_index_first(tm, q);
    }
}

/// JSON merge patch: a patch that is not an object replaces the target.
pub proof fn law_merge_patch_replaces(target: Json, patch: Json)
    requires
        !(patch is Object),
    ensures
        merge_json(target, patch) == patch,
{
}

// ── Resource groups ────────────────────────────────────────────────────

/// No resource below resource groups lies under `prefix`.
pub open spec fn nothing_under(v: StoreView, prefix: Seq<Seq<char>>) -> bool {
    forall|k: Seq<Seq<char>>| #[trigger] is_prefix(prefix, k) ==> {
        &&& !v.storage_accounts.contains_key(k)
        &&& !v.containers.contains_key(k)
        &&& !v.blobs.contains_key(k)
        &&& !v.virtual_machines.contains_key(k)
        &&& !v.virtual_networks.contains_key(k)
        &&& !v.subnets.contains_key(k)
        &&& !v.peerings.contains_key(k)
        &&& !v.network_security_groups.contains_key(k)
        &&& !v.network_interfaces.contains_key(k)
        &&& !v.public_ip_addresses.contains_key(k)
        &&& !v.route_tables.contains_key(k)
        &&& !v.routes.contains_key(k)
        &&& !v.application_security_groups.contains_key(k)
    }
}

/// A resource group reads back as it was created, holds nothing yet, and
/// a second creation finds it (and so answers 200, not 201).
pub proof fn law_group_read_after_put(v: StoreView, sub: Seq<char>, name: Seq<char>, doc: Json)
    ensures
        group_put(v, sub, name, doc).resource_groups.contains_key(seq![sub, name]),
        group_put(v, sub, name, doc).resource_groups[seq![sub, name]] == doc,
        nothing_under(group_put(v, sub, name, doc), seq![sub, name]),
        group_put(v, sub, name, doc).subscriptions == v.subscriptions,
{
}

/// Deleting a resource group removes it and everything in it, and leaves
/// other groups as they were.
pub proof fn law_group_delete_cascades(v: StoreView, sub: Seq<char>, name: Seq<char>, other: Seq<char>)
    requires
        other != name,
    ensures
        !group_removed(v, sub, name).resource_groups.contains_key(seq![sub, name]),
        nothing_under(group_removed(v, sub, name), seq![sub, name]),
        group_removed(v, sub, name).resource_groups.contains_key(seq![sub, other]) == v.resource_groups.contains_key(seq![sub, other]),
        group_removed(v, sub, name).subscriptions == v.subscriptions,
{
    assert(seq![sub, other] != seq![sub, name]) by {
        assert(seq![sub, other][1] != seq![sub, name][1]);
    }
}

// ── Virtual machines ───────────────────────────────────────────────────

/// The state after machine `key` is created or replaced with `doc`.
pub open spec fn vm_put(v: StoreView, key: Seq<Seq<char>>, doc: Json) -> StoreView {
    StoreView {
        virtual_machines: v.virtual_machines.insert(
            key,
            VmView { doc, power_state: PowerState::Running, etag_version: created_version(v, key) },
        ),
        ..v
    }
}

/// A new machine has entity-tag version 1 and runs; each replacement
/// moves the version on by one.
pub proof fn law_vm_versions(v: StoreView, key: Seq<Seq<char>>, doc: Json, doc2: Json)
    ensures
        !v.virtual_machines.contains_key(key) ==> created_version(v, key) == 1,
        vm_put(v, key, doc).virtual_machines[key].doc == doc,
        vm_put(v, key, doc).virtual_machines[key].power_state == PowerState::Running,
        created_version(vm_put(v, key, doc), key) == next_version(created_version(v, key)),
        vm_put(vm_put(v, key, doc), key, doc2).virtual_machines[key].etag_version == next_version(created_version(v, key)),
{
}

/// A power change is read back, and leaves the machine's document as it
/// was.
pub proof fn law_power_read_after_set(v: StoreView, key: Seq<Seq<char>>, p: PowerState)
    requires
        v.virtual_machines.contains_key(key),
    ensures
        with_power(v, key, p).virtual_machines[key].power_state == p,
        with_power(v, key, p).virtual_machines[key].doc == v.virtual_machines[key].doc,
        with_power(v, key, p).virtual_machines[key].etag_version == v.virtual_machines[key].etag_version,
{
}

/// The admin password of an os profile is never kept: a patched machine
/// document has none, whatever the patch held.
pub proof fn law_patched_vm_has_no_password(m: Json, version: u64)
    requires
        json_get(m, "properties"@) matches Some(p) && json_get(p, "osProfile"@) matches Some(op) && op is Object,
    ensures
        ({
            let d = crate::compute::patched_vm(m, version);
            json_get(d, "properties"@) matches Some(p) && json_get(p, "osProfile"@) matches Some(op)
                && json_get(op, "adminPassword"@) is None
        }),
{
    let a = json_set(m, "etag"@, Json::Str(crate::compute::version_etag(version)));
    let props = json_get(m, "properties"@)->Some_0;
    let op = json_get(props, "osProfile"@)->Some_0;
    let ms = m->Object_0;
    reveal_strlit("etag");
    reveal_strlit("properties");
    reveal_strlit("osProfile");
    reveal_strlit("adminPassword");
    lemma_get_set(ms, "etag"@, Json::Str(crate::compute::version_etag(version)), "properties"@);
    let am = a->Object_0;
    let pm = props->Object_0;
    let cleaned = json_remove(op, "adminPassword"@);
    lemma_get_remove(op->Object_0, "adminPassword"@, "adminPassword"@);
    lemma_get_set(pm, "osProfile"@, cleaned, "osProfile"@);
    lemma_get_set(am, "properties"@, json_set(props, "osProfile"@, cleaned), "properties"@);
    assert("properties"@ != "etag"@) by {
        assert("properties"@.len() != "etag"@.len());
    }
    assert(json_get(a, "properties"@) == Some(props));
    assert(props is Object);
    assert(op is Object);
    let d = crate::compute::patched_vm(m, version);
    assert(d == json_set(a, "properties"@, json_set(props, "osProfile"@, cleaned)));
    assert(json_get(d, "properties"@) == Some(json_set(props, "osProfile"@, cleaned)));
    assert(json_get(json_set(props, "osProfile"@, cleaned), "osProfile"@) == Some(cleaned));
    assert(json_get(cleaned, "adminPassword"@) is None);
}

// ── Blobs ──────────────────────────────────────────────────────────────

/// Whatever is written to a blob in one piece is what reading it gives
/// back; the blob then exists.
pub proof fn law_blob_read_after_put(
    before: crate::store::MockState,
    after: crate::store::MockState,
    a: Seq<char>,
    c: Seq<char>,
    b: Seq<char>,
    props: Json,
    data: Seq<u8>,
)
    requires
        before.has_container(a, c),
        after.storage_accounts.keys() == before.storage_accounts.keys(),
        after@ == (StoreView {
            blobs: before@.blobs.insert(before.blob_key(a, c, b)->Some_0, crate::storage::written_blob(props, data)),
            ..before@
        }),
    ensures
        after.has_blob(a, c, b),
        after@.blobs[after.blob_key(a, c, b)->Some_0].data == data,
        after@.blobs[after.blob_key(a, c, b)->Some_0].properties == props,
{
}

/// A deleted blob no longer exists; its container still does.
pub proof fn law_blob_gone_after_delete(
    before: crate::store::MockState,
    after: crate::store::MockState,
    a: Seq<char>,
    c: Seq<char>,
    b: Seq<char>,
)
    requires
        before.has_container(a, c),
        after.storage_accounts.keys() == before.storage_accounts.keys(),
        after@ == (StoreView { blobs: before@.blobs.remove(before.blob_key(a, c, b)->Some_0), ..before@ }),
    ensures
        !after.has_blob(a, c, b),
        after.has_container(a, c),
{
}

/// A copy holds the same bytes as its source.
pub proof fn law_copy_keeps_data(
    before: crate::store::MockState,
    after: crate::store::MockState,
    a: Seq<char>,
    c: Seq<char>,
    b: Seq<char>,
    sa: Seq<char>,
    sc: Seq<char>,
    sb: Seq<char>,
    props: Json,
)
    requires
        before.has_blob(sa, sc, sb),
        before.has_container(a, c),
        after.storage_accounts.keys() == before.storage_accounts.keys(),
        after@ == (StoreView {
            blobs: before@.blobs.insert(
                before.blob_key(a, c, b)->Some_0,
                crate::storage::written_blob(props, before@.blobs[before.blob_key(sa, sc, sb)->Some_0].data),
            ),
            ..before@
        }),
    ensures
        after.has_blob(a, c, b),
        after@.blobs[after.blob_key(a, c, b)->Some_0].data == before@.blobs[before.blob_key(sa, sc, sb)->Some_0].data,
{
}

// ── Security rules ─────────────────────────────────────────────────────

proof fn lemma_named_of_not_named(rules: Seq<Json>, n: Seq<char>)
    ensures
        crate::network::rules_named(crate::network::rules_not_named(rules, n), n).len() == 0,
    decreases rules.len(),
{
    reveal(Seq::filter);
    if rules.len() > 0 {
        let r0 = rules.drop_last();
        let x = rules.last();
        lemma_named_of_not_named(r0, n);
        let kept0 = crate::network::rules_not_named(r0, n);
        assert(rules.drop_last() == r0);
        if crate::network::is_named(x, n) {
            assert(crate::network::rules_not_named(rules, n) == kept0);
        } else {
            assert(crate::network::rules_not_named(rules, n) == kept0.push(x));
            assert(kept0.push(x).drop_last() =~= kept0);
            assert(crate::network::rules_named(kept0.push(x), n) == crate::network::rules_named(kept0, n));
        }
    }
}

/// A rule put into a security group is the one rule of that name read
/// back from it; deleting rules of a name leaves none of it.
pub proof fn law_security_rule_read_after_put(group: Json, rules: Seq<Json>, n: Seq<char>, d: Json)
    requires
        json_get(group, "properties"@) matches Some(p) && p is Object,
        crate::network::is_named(d, n),
    ensures
        crate::network::rules_of(crate::network::with_children(
            group,
            "securityRules"@,
            crate::network::rules_not_named(rules, n).push(d),
        )) == crate::network::rules_not_named(rules, n).push(d),
        crate::network::rules_named(crate::network::rules_not_named(rules, n).push(d), n) == seq![d],
        crate::network::rules_named(crate::network::rules_not_named(rules, n), n).len() == 0,
{
    let p = json_get(group, "properties"@)->Some_0;
    let kept = crate::network::rules_not_named(rules, n);
    let x = kept.push(d);
    reveal_strlit("properties");
    reveal_strlit("securityRules");
    lemma_get_set(group->Object_0, "properties"@, json_set(p, "securityRules"@, Json::Array(x)), "properties"@);
    lemma_get_set(p->Object_0, "securityRules"@, Json::Array(x), "securityRules"@);
    lemma_named_of_not_named(rules, n);
    reveal(Seq::filter);
    assert(x.drop_last() =~= kept);
    assert(crate::network::rules_named(x, n) =~= crate::network::rules_named(kept, n).push(d));
    assert(crate::network::rules_named(x, n) =~= seq![d]);
}

// ── Tags ───────────────────────────────────────────────────────────────

/// The value the last pair named `q` gives, if any.
pub open spec fn last_value(pairs: Seq<(String, String)>, q: Seq<char>) -> Option<Seq<char>>
    decreases pairs.len(),
{
    if pairs.len() == 0 {
        None
    } else if pairs.last().0@ == q {
        Some(pairs.last().1@)
    } else {
        last_value(pairs.drop_last(), q)
    }
}

/// Merging tags sets each given tag to the last value given for it and
/// leaves the other tags as they were.
pub proof fn law_tags_merge(t: Json, pairs: Seq<(String, String)>, q: Seq<char>)
    requires
        t is Object,
    ensures
        crate::network::merged_tags(t, pairs) is Object,
        json_get(crate::network::merged_tags(t, pairs), q) == match last_value(pairs, q) {
            Some(v) => Some(Json::Str(v)),
            None => json_get(t, q),
        },
    decreases pairs.len(),
{
    if pairs.len() > 0 {
        law_tags_merge(t, pairs.drop_last(), q);
        let prev = crate::network::merged_tags(t, pairs.drop_last());
        lemma_get_set(prev->Object_0, pairs.last().0@, Json::Str(pairs.last().1@), q);
    }
}

// ── Copy sources ───────────────────────────────────────────────────────

/// The path `/{account}/{container}/{blob}` names that account, container
/// and blob, the blob keeping any slashes of its own.
pub proof fn law_copy_path_round_trip(a: Seq<char>, c: Seq<char>, b: Seq<char>)
    requires
        a.len() > 0,
        forall|i: int| 0 <= i < a.len() ==> a[i] != '/',
        forall|i: int| 0 <= i < c.len() ==> c[i] != '/',
    ensures
        crate::dataplane::copy_path_parts(seq!['/'] + a + seq!['/'] + c + seq!['/'] + b) == Some((a, c, b)),
{
    let t = a + seq!['/'] + c + seq!['/'] + b;
    let path = seq!['/'] + t;
    assert(path =~= seq!['/'] + a + seq!['/'] + c + seq!['/'] + b);
    lemma_trim_one(path, t);
    let i = a.len() as int;
    lemma_slash_run(t, 0, i);
    assert(crate::dataplane::slash_from(t, i) == i);
    let j = i + 1 + c.len();
    lemma_slash_run(t, i + 1, j);
    assert(t[j] == '/');
    assert(crate::dataplane::slash_from(t, j) == j);
    assert(t.subrange(0, i) =~= a);
    assert(t.subrange(i + 1, j) =~= c);
    assert(t.subrange(j + 1, t.len() as int) =~= b);
}

proof fn lemma_trim_one(path: Seq<char>, t: Seq<char>)
    requires
        path == seq!['/'] + t,
        t.len() > 0,
        t[0] != '/',
    ensures
        crate::dataplane::trim_slashes(path) == t,
{
    assert(path.drop_first() =~= t);
    assert(crate::dataplane::trim_slashes(t) == t);
    assert(path[0] == '/');
}

proof fn lemma_slash_run(s: Seq<char>, from: int, to: int)
    requires
        0 <= from <= to <= s.len(),
        forall|m: int| from <= m < to ==> s[m] != '/',
    ensures
        crate::dataplane::slash_from(s, from) == crate::dataplane::slash_from(s, to),
    decreases to - from,
{
    if from < to {
        lemma_slash_run(s, from + 1, to);
    }
}

// ── Credentials and requests ───────────────────────────────────────────

/// The CLI is asked for the resource a `.default` scope stands for.
pub proof fn law_cli_resource_of_default_scope(s: Seq<char>)
    ensures
        crate::credentials::cli_resource(seq![s + "/.default"@]) == crate::credentials::trim_default_suffix(s),
{
    reveal_strlit("/.default");
    let x = s + "/.default"@;
    assert(x.subrange(x.len() - 9, x.len() as int) =~= "/.default"@);
    assert(x.subrange(0, x.len() - 9) =~= s);
}

/// Any bearer token is accepted.
pub proof fn law_any_bearer_accepted(token: Seq<char>)
    ensures
        ({
            let v = "Bearer "@ + token;
            v.len() >= 7 && v.subrange(0, 7) == "Bearer "@
        }),
{
    reveal_strlit("Bearer ");
    assert(("Bearer "@ + token).subrange(0, 7) =~= "Bearer "@);
}

/// A client credentials request with a client id and a secret is granted
/// the mock token of that client.
pub proof fn law_token_granted(req: crate::requests::TokenRequest)
    requires
        req.grant_type@ == "client_credentials"@,
        req.client_id@.len() > 0,
        req.client_secret@.len() > 0,
    ensures
        crate::requests::token_answer(req) == (200u16, crate::requests::token_doc(req.client_id@)),
{
}

// ── Configuration ──────────────────────────────────────────────────────

/// Every subscription of a configuration exists in the state made from
/// it, with the document of its last entry of that id.
pub proof fn law_configured_subscription_present(subs: Seq<(String, crate::config::SubscriptionConfig)>, i: int)
    requires
        0 <= i < subs.len(),
    ensures
        crate::store::configured_subscriptions(subs).contains_key(seq![subs[i].1.id@]),
    decreases subs.len(),
{
    if i < subs.len() - 1 {
        law_configured_subscription_present(subs.drop_last(), i);
    }
}

// ── Metadata headers ───────────────────────────────────────────────────

/// Whether every member of a metadata object is a string.
pub open spec fn all_strings(ms: Seq<(Seq<char>, Json)>) -> bool {
    forall|i: int| 0 <= i < ms.len() ==> ms[i].1 is Str
}

/// Metadata sent as `x-ms-meta-` headers reads back as the same object,
/// for an object of strings without repeated names.
pub proof fn law_metadata_headers_round_trip(ms: Seq<(Seq<char>, Json)>)
    requires
        all_strings(ms),
        patch_keys(ms).no_duplicates(),
    ensures
        crate::dataplane::metadata_doc(crate::dataplane::meta_headers_of(Json::Object(ms))) == Json::Object(ms),
    decreases ms.len(),
{
    reveal_strlit("x-ms-meta-");
    if ms.len() > 0 {
        let ms0 = ms.drop_last();
        let x = ms.last();
        assert(all_strings(ms0)) by {
            assert forall|i: int| 0 <= i < ms0.len() implies ms0[i].1 is Str by {
                assert(ms0[i] == ms[i]);
            }
        }
        assert(patch_keys(ms0).no_duplicates()) by {
            assert forall|a: int, b: int| 0 <= a < ms0.len() && 0 <= b < ms0.len() && a != b implies patch_keys(ms0)[a] != patch_keys(ms0)[b] by {
                assert(patch_keys(ms)[a] == patch_keys(ms0)[a]);
                assert(patch_keys(ms)[b] == patch_keys(ms0)[b]);
            }
        }
        law_metadata_headers_round_trip(ms0);
        assert(x.1 is Str);
        let v = x.1->Str_0;
        let h0 = crate::dataplane::meta_header_pairs(ms0);
        let name = "x-ms-meta-"@ + x.0;
        assert(crate::dataplane::meta_header_pairs(ms) == h0.push((name, v)));
        assert(name.subrange(0, 10) =~= "x-ms-meta-"@);
        assert(name.subrange(10, name.len() as int) =~= x.0);
        assert(h0.push((name, v)).drop_last() =~= h0);
        let e0 = crate::dataplane::meta_entries(h0);
        assert(crate::dataplane::meta_entries(h0.push((name, v))) == e0.push((x.0, v)));
        assert(e0.push((x.0, v)).drop_last() =~= e0);
        assert forall|j: int| 0 <= j < ms0.len() implies ms0[j].0 != x.0 by {
            assert(patch_keys(ms)[j] == ms0[j].0);
            assert(patch_keys(ms)[ms.len() - 1] == x.0);
        }
        crate::json::lemma_key_index(ms0, x.0, ms0.len() as int);
        assert(ms0.push((x.0, Json::Str(v))) =~= ms);
    } else {
        assert(crate::dataplane::meta_header_pairs(ms) =~= Seq::<(Seq<char>, Seq<char>)>::empty());
        assert(ms =~= Seq::<(Seq<char>, Json)>::empty());
    }
}

} // verus!

verus! {

// ── Errors across the wire ─────────────────────────────────────────────

/// The error document the mock sends is read back by the client as the
/// same code and message.
pub proof fn law_error_doc_read_back(code: Seq<char>, message: Seq<char>)
    ensures
        crate::client::cloud_error_of(crate::reply::error_doc(code, message)) == Some((code, message)),
{
    let inner = seq![("code"@, Json::Str(code)), ("message"@, Json::Str(message))];
    let outer = seq![("error"@, Json::Object(inner))];
    crate::json::lemma_key_index(outer, "error"@, 0);
    crate::json::lemma_key_index(inner, "code"@, 0);
    reveal_strlit("code");
    reveal_strlit("message");
    assert("code"@ != "message"@) by {
        assert("code"@.len() != "message"@.len());
    }
    crate::json::lemma_key_index(inner, "message"@, 1);
}

/// A refusal the mock answers with `status` and an error document is
/// reported by the client by its status, with the document's message.
pub proof fn law_refusal_reported(r: crate::client::ClientError, status: u16, body: Seq<char>, code: Seq<char>, message: Seq<char>)
    requires
        crate::client::is_reported_error(r, status, body, crate::client::cloud_error_of(crate::reply::error_doc(code, message))),
    ensures
        status == 404 ==> (r matches crate::client::ClientError::NotFound { name: n, .. } && n@ == message),
        status == 401 ==> (r matches crate::client::ClientError::Authentication { message: m } && m@ == message),
        status != 401 && status != 403 && status != 404 && status != 429 ==> (r matches crate::client::ClientError::Provider { code: c, message: m, .. } && c@ == code && m@ == message),
{
    law_error_doc_read_back(code, message);
}

} // verus!

verus! {

// ── Block blobs ────────────────────────────────────────────────────────

/// The staged blocks of `ids`, in the order of the list.
pub open spec fn staged_in_order(unc: Map<Seq<char>, Seq<u8>>, ids: Seq<Seq<char>>) -> Seq<(Seq<char>, Seq<u8>)> {
    ids.map_values(|id: Seq<char>| (id, unc[id]))
}

/// Committing a list of distinct staged blocks takes exactly those blocks,
/// in the order of the list, and leaves the other staged blocks staged.
pub proof fn law_staged_blocks_commit_in_order(
    unc: Map<Seq<char>, Seq<u8>>,
    committed: Seq<(Seq<char>, Seq<u8>)>,
    ids: Seq<Seq<char>>,
)
    requires
        ids.no_duplicates(),
        forall|i: int| 0 <= i < ids.len() ==> unc.contains_key(#[trigger] ids[i]),
    ensures
        crate::storage::resolve(unc, committed, ids).missing is None,
        crate::storage::resolve(unc, committed, ids).chosen == staged_in_order(unc, ids),
        crate::storage::resolve(unc, committed, ids).remaining == unc.remove_keys(ids.to_set()),
    decreases ids.len(),
{
    if ids.len() == 0 {
        assert(unc.remove_keys(ids.to_set()) =~= unc);
        assert(staged_in_order(unc, ids) =~= Seq::<(Seq<char>, Seq<u8>)>::empty());
    } else {
        let pre = ids.drop_last();
        let id = ids.last();
        assert forall|i: int| 0 <= i < pre.len() implies unc.contains_key(#[trigger] pre[i]) by {
            assert(pre[i] == ids[i]);
        }
        assert(pre.no_duplicates()) by {
            assert forall|i: int, j: int| 0 <= i < pre.len() && 0 <= j < pre.len() && i != j implies pre[i] != pre[j] by {
                assert(pre[i] == ids[i] && pre[j] == ids[j]);
            }
        }
        law_staged_blocks_commit_in_order(unc, committed, pre);
        assert(!pre.contains(id)) by {
            if pre.contains(id) {
                let i = choose|i: int| 0 <= i < pre.len() && pre[i] == id;
                assert(ids[i] == ids[ids.len() - 1]);
            }
        }
        assert(unc.contains_key(ids[ids.len() - 1]));
        let rem = unc.remove_keys(pre.to_set());
        assert(rem.contains_key(id));
        assert(staged_in_order(unc, ids) =~= staged_in_order(unc, pre).push((id, unc[id])));
        assert(rem.remove(id) =~= unc.remove_keys(ids.to_set())) by {
            assert forall|k: Seq<char>| ids.to_set().contains(k) <==> (pre.to_set().contains(k) || k == id) by {
                if ids.contains(k) {
                    let i = choose|i: int| 0 <= i < ids.len() && ids[i] == k;
                    if i < pre.len() {
                        assert(pre[i] == k);
                    }
                }
                if pre.contains(k) {
                    let i = choose|i: int| 0 <= i < pre.len() && pre[i] == k;
                    assert(ids[i] == k);
                }
                if k == id {
                    assert(ids[ids.len() - 1] == k);
                }
            }
        }
    }
}

} // verus!

verus! {

proof fn lemma_without_under_twice<V>(m: Map<Seq<Seq<char>>, V>, p: Seq<Seq<char>>)
    ensures
        crate::store::without_under(crate::store::without_under(m, p), p) == crate::store::without_under(m, p),
{
    assert(crate::store::without_under(crate::store::without_under(m, p), p) =~= crate::store::without_under(m, p));
}

/// Creating a resource group is idempotent: a second identical creation
/// leaves the store as the first left it, and finds the group there (so
/// it reports an update, not a creation).
pub proof fn law_group_put_idempotent(v: StoreView, sub: Seq<char>, name: Seq<char>, doc: Json)
    ensures
        group_put(v, sub, name, doc).resource_groups.contains_key(seq![sub, name]),
        group_put(group_put(v, sub, name, doc), sub, name, doc) == group_put(v, sub, name, doc),
{
    let p = seq![sub, name];
    let once = group_put(v, sub, name, doc);
    let twice = group_put(once, sub, name, doc);
    lemma_without_under_twice(v.storage_accounts, p);
    lemma_without_under_twice(v.containers, p);
    lemma_without_under_twice(v.blobs, p);
    lemma_without_under_twice(v.virtual_machines, p);
    lemma_without_under_twice(v.virtual_networks, p);
    lemma_without_under_twice(v.subnets, p);
    lemma_without_under_twice(v.peerings, p);
    lemma_without_under_twice(v.network_security_groups, p);
    lemma_without_under_twice(v.network_interfaces, p);
    lemma_without_under_twice(v.public_ip_addresses, p);
    lemma_without_under_twice(v.route_tables, p);
    lemma_without_under_twice(v.routes, p);
    lemma_without_under_twice(v.application_security_groups, p);
    assert(twice.resource_groups =~= once.resource_groups);
}

} // verus!

verus! {

// ── Instance views ─────────────────────────────────────────────────────

/// After a power change, the instance view of the machine reports the new
/// power state as its last status.
pub proof fn law_instance_view_reports_power(v: StoreView, key: Seq<Seq<char>>, p: PowerState, now: Seq<char>)
    requires
        v.virtual_machines.contains_key(key),
    ensures
        ({
            let d = crate::compute::instance_view_doc(with_power(v, key, p).virtual_machines[key], now);
            json_get(d, "statuses"@) matches Some(Json::Array(st)) && st.len() == 2
                && json_get(st[1], "code"@) == Some(Json::Str(crate::compute::power_code(p)))
                && json_get(st[1], "displayStatus"@) == Some(Json::Str(crate::compute::power_display(p)))
        }),
{
    let vm = with_power(v, key, p).virtual_machines[key];
    let d = crate::compute::instance_view_doc(vm, now);
    let ms = d->Object_0;
    reveal_strlit("computerName");
    reveal_strlit("osName");
    reveal_strlit("osVersion");
    reveal_strlit("vmAgent");
    reveal_strlit("disks");
    reveal_strlit("extensions");
    reveal_strlit("statuses");
    reveal_strlit("code");
    reveal_strlit("level");
    reveal_strlit("displayStatus");
    assert forall|j: int| 0 <= j < 6 implies ms[j].0 != "statuses"@ by {
        assert(ms[j].0.len() != "statuses"@.len());
    }
    crate::json::lemma_key_index(ms, "statuses"@, 6);
    let st = seq![
        crate::compute::status_doc("ProvisioningState/succeeded"@, "Provisioning succeeded"@, seq![("time"@, Json::Str(now))]),
        crate::compute::status_doc(crate::compute::power_code(p), crate::compute::power_display(p), Seq::empty()),
    ];
    let sm = st[1]->Object_0;
    assert(sm =~= seq![
        ("code"@, Json::Str(crate::compute::power_code(p))),
        ("level"@, Json::Str("Info"@)),
        ("displayStatus"@, Json::Str(crate::compute::power_display(p))),
    ]);
    crate::json::lemma_key_index(sm, "code"@, 0);
    assert forall|j: int| 0 <= j < 2 implies sm[j].0 != "displayStatus"@ by {
        assert(sm[j].0.len() != "displayStatus"@.len());
    }
    crate::json::lemma_key_index(sm, "displayStatus"@, 2);
}

} // verus!

verus! {

// ── Containers ─────────────────────────────────────────────────────────

/// Deleting a container deletes its blobs, and leaves the blobs of the
/// account's other containers as they were.
pub proof fn law_container_delete_cascades(
    before: crate::store::MockState,
    after: crate::store::MockState,
    a: Seq<char>,
    c: Seq<char>,
    b: Seq<char>,
    c2: Seq<char>,
    b2: Seq<char>,
)
    requires
        before.account_key(a) is Some,
        after.storage_accounts.keys() == before.storage_accounts.keys(),
        after@ == (StoreView {
            containers: before@.containers.remove(before.container_key(a, c)->Some_0),
            blobs: crate::store::without_under(before@.blobs, before.container_key(a, c)->Some_0),
            ..before@
        }),
        c2 != c,
    ensures
        !after.has_container(a, c),
        !after.has_blob(a, c, b),
        after.has_container(a, c2) == before.has_container(a, c2),
        after.has_blob(a, c2, b2) == before.has_blob(a, c2, b2),
{
    let k = before.account_key(a)->Some_0;
    assert(after.account_key(a) == before.account_key(a));
    assert(is_prefix(k.push(c), k.push(c).push(b))) by {
        assert(k.push(c).push(b).subrange(0, k.push(c).len() as int) =~= k.push(c));
    }
    assert(k.push(c2) != k.push(c)) by {
        assert(k.push(c2)[k.len() as int] != k.push(c)[k.len() as int]);
    }
    assert(!is_prefix(k.push(c), k.push(c2).push(b2))) by {
        assert(k.push(c2).push(b2)[k.len() as int] == c2);
        assert(k.push(c)[k.len() as int] == c);
    }
}

} // verus!

verus! {

// ── Authentication against the mock ────────────────────────────────────

/// A client secret credential works against the mock unchanged: the form
/// it posts to the token endpoint is granted the mock token of its client
/// when it has a client id and a secret, and refused as an invalid client
/// otherwise.
pub proof fn law_client_secret_form_granted(client_id: Seq<char>, secret: Seq<char>, scopes: Seq<Seq<char>>)
    ensures
        client_id.len() > 0 && secret.len() > 0 ==> crate::requests::form_answer(
            crate::credentials::token_form_pairs(client_id, secret, scopes),
        ) == (200u16, crate::requests::token_doc(client_id)),
        client_id.len() == 0 || secret.len() == 0 ==> crate::requests::form_answer(
            crate::credentials::token_form_pairs(client_id, secret, scopes),
        ).0 == 401,
{
    let pairs = crate::credentials::token_form_pairs(client_id, secret, scopes);
    reveal_strlit("grant_type");
    reveal_strlit("client_id");
    reveal_strlit("client_secret");
    reveal_strlit("scope");
    reveal_with_fuel(crate::requests::form_value, 4);
    assert("client_id"@ != "grant_type"@) by {
        assert("client_id"@.len() != "grant_type"@.len());
    }
    assert("client_secret"@ != "grant_type"@) by {
        assert("client_secret"@.len() != "grant_type"@.len());
    }
    assert("client_secret"@ != "client_id"@) by {
        assert("client_secret"@.len() != "client_id"@.len());
    }
    assert(pairs.drop_first() =~= seq![("client_id"@, client_id), ("client_secret"@, secret), ("scope"@, crate::credentials::joined_scopes(scopes))]);
    assert(pairs.drop_first().drop_first() =~= seq![("client_secret"@, secret), ("scope"@, crate::credentials::joined_scopes(scopes))]);
    assert(crate::requests::form_value(pairs, "grant_type"@) == "client_credentials"@);
    assert(crate::requests::form_value(pairs, "client_id"@) == client_id);
    assert(crate::requests::form_value(pairs, "client_secret"@) == secret);
}

} // verus!

verus! {

// ── Virtual networks ───────────────────────────────────────────────────

/// Deleting a virtual network removes it with its subnets and peerings,
/// and leaves the subnets of other networks as they were.
pub proof fn law_vnet_delete_cascades(
    v: StoreView,
    key: Seq<Seq<char>>,
    subnet: Seq<char>,
    other: Seq<Seq<char>>,
    other_subnet: Seq<char>,
)
    requires
        key.len() == 3,
        other.len() == 3,
        other != key,
    ensures
        ({
            let after = StoreView {
                virtual_networks: v.virtual_networks.remove(key),
                subnets: crate::store::without_under(v.subnets, key),
                peerings: crate::store::without_under(v.peerings, key),
                ..v
            };
            &&& !after.virtual_networks.contains_key(key)
            &&& !after.subnets.contains_key(key.push(subnet))
            &&& !after.peerings.contains_key(key.push(subnet))
            &&& after.subnets.contains_key(other.push(other_subnet)) == v.subnets.contains_key(other.push(other_subnet))
            &&& after.virtual_networks.contains_key(other) == v.virtual_networks.contains_key(other)
        }),
{
    assert(is_prefix(key, key.push(subnet))) by {
        assert(key.push(subnet).subrange(0, 3) =~= key);
    }
    assert(!is_prefix(key, other.push(other_subnet))) by {
        assert(other.push(other_subnet).subrange(0, 3) =~= other);
    }
}

} // verus!

verus! {

// ── Security rule names ────────────────────────────────────────────────

/// No two rules carry the same name.
pub open spec fn names_distinct(rules: Seq<Json>) -> bool {
    forall|i: int, j: int| 0 <= i < rules.len() && 0 <= j < rules.len() && i != j && crate::network::named(rules[i]) is Some
        ==> crate::network::named(#[trigger] rules[i]) != crate::network::named(#[trigger] rules[j])
}

proof fn lemma_not_named_keeps(rules: Seq<Json>, n: Seq<char>)
    requires
        names_distinct(rules),
    ensures
        names_distinct(crate::network::rules_not_named(rules, n)),
        forall|i: int| 0 <= i < crate::network::rules_not_named(rules, n).len()
            ==> !crate::network::is_named(#[trigger] crate::network::rules_not_named(rules, n)[i], n)
                && rules.contains(crate::network::rules_not_named(rules, n)[i]),
    decreases rules.len(),
{
    reveal(Seq::filter);
    if rules.len() > 0 {
        let r0 = rules.drop_last();
        let x = rules.last();
        assert forall|i: int, j: int| 0 <= i < r0.len() && 0 <= j < r0.len() && i != j && crate::network::named(r0[i]) is Some
            implies crate::network::named(#[trigger] r0[i]) != crate::network::named(#[trigger] r0[j]) by {
            assert(r0[i] == rules[i] && r0[j] == rules[j]);
        }
        lemma_not_named_keeps(r0, n);
        let k0 = crate::network::rules_not_named(r0, n);
        let k = crate::network::rules_not_named(rules, n);
        assert(rules.drop_last() == r0);
        assert forall|i: int| 0 <= i < k0.len() implies rules.contains(#[trigger] k0[i]) by {
            let j = choose|j: int| 0 <= j < r0.len() && r0[j] == k0[i];
            assert(rules[j] == r0[j]);
        }
        if crate::network::is_named(x, n) {
            assert(k == k0);
        } else {
            assert(k == k0.push(x));
            assert forall|i: int| 0 <= i < k.len() implies !crate::network::is_named(#[trigger] k[i], n) && rules.contains(k[i]) by {
                if i < k0.len() {
                    assert(k[i] == k0[i]);
                } else {
                    assert(rules[rules.len() - 1] == x);
                }
            }
            assert forall|a: int, b: int| 0 <= a < k.len() && 0 <= b < k.len() && a != b && crate::network::named(k[a]) is Some
                implies crate::network::named(#[trigger] k[a]) != crate::network::named(#[trigger] k[b]) by {
                if a < k0.len() && b < k0.len() {
                    assert(k[a] == k0[a] && k[b] == k0[b]);
                } else {
                    let c = if a < k0.len() { a } else { b };
                    assert(k[c] == k0[c]);
                    let j = choose|j: int| 0 <= j < r0.len() && r0[j] == k0[c];
                    assert(rules[j] == k0[c]);
                    assert(k[k.len() - 1] == x);
                    if crate::network::named(x) is Some {
                        assert(crate::network::named(rules[j]) != crate::network::named(rules[rules.len() - 1]));
                    } else {
                        assert(crate::network::named(rules[j]) != crate::network::named(rules[rules.len() - 1]));
                    }
                }
            }
        }
    }
}

/// Putting a rule keeps the names of a security group's rules distinct:
/// the rules of other names stay, in order, and the new rule is the only
/// one of its name.
pub proof fn law_security_rule_names_distinct(rules: Seq<Json>, n: Seq<char>, d: Json)
    requires
        names_distinct(rules),
        crate::network::is_named(d, n),
    ensures
        names_distinct(crate::network::rules_not_named(rules, n).push(d)),
{
    lemma_not_named_keeps(rules, n);
    let k = crate::network::rules_not_named(rules, n);
    let x = k.push(d);
    assert forall|a: int, b: int| 0 <= a < x.len() && 0 <= b < x.len() && a != b && crate::network::named(x[a]) is Some
        implies crate::network::named(#[trigger] x[a]) != crate::network::named(#[trigger] x[b]) by {
        if a < k.len() && b < k.len() {
            assert(x[a] == k[a] && x[b] == k[b]);
        } else if a < k.len() {
            assert(x[a] == k[a]);
            assert(!crate::network::is_named(k[a], n));
        } else {
            assert(x[b] == k[b]);
            assert(!crate::network::is_named(k[b], n));
        }
    }
}

} // verus!

verus! {

// ── Configuration, field by field ──────────────────────────────────────

/// Each subscription of a configuration reads back with the fields of its
/// last entry of that id.
pub proof fn law_configured_subscription_reads_back(subs: Seq<(String, crate::config::SubscriptionConfig)>, i: int)
    requires
        0 <= i < subs.len(),
        forall|j: int| i < j < subs.len() ==> (#[trigger] subs[j]).1.id@ != subs[i].1.id@,
    ensures
        crate::store::configured_subscriptions(subs).contains_key(seq![subs[i].1.id@]),
        crate::store::configured_subscriptions(subs)[seq![subs[i].1.id@]] == crate::store::subscription_doc(
            subs[i].1.id@,
            subs[i].1.display_name@,
            subs[i].1.state@,
            subs[i].1.tenant_id@,
        ),
    decreases subs.len(),
{
    if i < subs.len() - 1 {
        let r = subs.drop_last();
        assert forall|j: int| i < j < r.len() implies (#[trigger] r[j]).1.id@ != r[i].1.id@ by {
            assert(r[j] == subs[j]);
        }
        law_configured_subscription_reads_back(r, i);
        let c = subs.last().1;
        assert(subs[subs.len() - 1].1.id@ != subs[i].1.id@);
        assert(seq![c.id@] != seq![subs[i].1.id@]) by {
            assert(seq![c.id@][0] != seq![subs[i].1.id@][0]);
        }
    }
}

/// A subscription id that no entry has does not exist.
pub proof fn law_unconfigured_subscription_absent(subs: Seq<(String, crate::config::SubscriptionConfig)>, x: Seq<char>)
    requires
        forall|j: int| 0 <= j < subs.len() ==> (#[trigger] subs[j]).1.id@ != x,
    ensures
        !crate::store::configured_subscriptions(subs).contains_key(seq![x]),
    decreases subs.len(),
{
    if subs.len() > 0 {
        let r = subs.drop_last();
        assert forall|j: int| 0 <= j < r.len() implies (#[trigger] r[j]).1.id@ != x by {
            assert(r[j] == subs[j]);
        }
        law_unconfigured_subscription_absent(r, x);
        assert(seq![subs.last().1.id@] != seq![x]) by {
            assert(seq![subs.last().1.id@][0] != seq![x][0]);
        }
    }
}

/// Every group seeded for `sub` is keyed by `sub` and a name, and the last
/// seed of a name gives its document.
proof fn lemma_seeded_groups(sub: Seq<char>, seeds: Seq<crate::config::ResourceGroupSeed>, k: int)
    ensures
        forall|key: Seq<Seq<char>>| #[trigger] crate::store::seeded_groups(sub, seeds).contains_key(key) ==> key.len() == 2 && key[0] == sub,
        0 <= k < seeds.len() && (forall|l: int| k < l < seeds.len() ==> (#[trigger] seeds[l]).name@ != seeds[k].name@) ==> {
            &&& crate::store::seeded_groups(sub, seeds).contains_key(seq![sub, seeds[k].name@])
            &&& crate::store::seeded_groups(sub, seeds)[seq![sub, seeds[k].name@]] == crate::store::resource_group_doc(
                sub,
                seeds[k].name@,
                seeds[k].location@,
                crate::json::string_pairs_object(seeds[k].tags@),
            )
        },
    decreases seeds.len(),
{
    if seeds.len() > 0 {
        let r = seeds.drop_last();
        let s = seeds.last();
        lemma_seeded_groups(sub, r, k);
        if 0 <= k < seeds.len() - 1 && (forall|l: int| k < l < seeds.len() ==> (#[trigger] seeds[l]).name@ != seeds[k].name@) {
            assert forall|l: int| k < l < r.len() implies (#[trigger] r[l]).name@ != r[k].name@ by {
                assert(r[l] == seeds[l]);
            }
            assert(seeds[seeds.len() - 1].name@ != seeds[k].name@);
            assert(seq![sub, s.name@] != seq![sub, seeds[k].name@]) by {
                assert(seq![sub, s.name@][1] != seq![sub, seeds[k].name@][1]);
            }
            assert(r[k] == seeds[k]);
        }
    }
}

/// Each seeded resource group of a subscription's last entry reads back
/// with its name, location and tags; of two seeds with the same name, the
/// later one wins.
pub proof fn law_seeded_group_reads_back(subs: Seq<(String, crate::config::SubscriptionConfig)>, i: int, k: int)
    requires
        0 <= i < subs.len(),
        forall|j: int| i < j < subs.len() ==> (#[trigger] subs[j]).1.id@ != subs[i].1.id@,
        0 <= k < subs[i].1.resource_groups@.len(),
        forall|l: int| k < l < subs[i].1.resource_groups@.len()
            ==> (#[trigger] subs[i].1.resource_groups@[l]).name@ != subs[i].1.resource_groups@[k].name@,
    ensures
        ({
            let c = subs[i].1;
            let g = c.resource_groups@[k];
            &&& crate::store::configured_groups(subs).contains_key(seq![c.id@, g.name@])
            &&& crate::store::configured_groups(subs)[seq![c.id@, g.name@]] == crate::store::resource_group_doc(
                c.id@,
                g.name@,
                g.location@,
                crate::json::string_pairs_object(g.tags@),
            )
        }),
    decreases subs.len(),
{
    let c = subs[i].1;
    let g = c.resource_groups@[k];
    let key = seq![c.id@, g.name@];
    let last = subs.last().1;
    lemma_seeded_groups(last.id@, last.resource_groups@, k);
    if i < subs.len() - 1 {
        let r = subs.drop_last();
        assert forall|j: int| i < j < r.len() implies (#[trigger] r[j]).1.id@ != r[i].1.id@ by {
            assert(r[j] == subs[j]);
        }
        assert(r[i] == subs[i]);
        law_seeded_group_reads_back(r, i, k);
        assert(subs[subs.len() - 1].1.id@ != c.id@);
        assert(!crate::store::seeded_groups(last.id@, last.resource_groups@).contains_key(key)) by {
            if crate::store::seeded_groups(last.id@, last.resource_groups@).contains_key(key) {
                assert(key[0] == last.id@);
            }
        }
        assert(!is_prefix(seq![last.id@], key)) by {
            assert(key.subrange(0, 1)[0] == c.id@);
        }
    }
}

} // verus!

verus! {

// ── Merge patch is idempotent ──────────────────────────────────────────

/// A patch without repeated member names, at any depth.
pub open spec fn distinct_names_deep(j: Json) -> bool
    decreases j, 1int,
{
    match j {
        Json::Object(ms) => patch_keys(ms).no_duplicates() && members_distinct_deep(ms),
        _ => true,
    }
}

/// Every member value of `ms` has distinct names at any depth.
pub open spec fn members_distinct_deep(ms: Seq<(Seq<char>, Json)>) -> bool
    decreases ms, 0int,
{
    if ms.len() == 0 {
        true
    } else {
        members_distinct_deep(ms.drop_last()) && distinct_names_deep(ms.last().1)
    }
}

proof fn lemma_members_distinct_deep(ms: Seq<(Seq<char>, Json)>, j: int)
    requires
        members_distinct_deep(ms),
        0 <= j < ms.len(),
    ensures
        distinct_names_deep(ms[j].1),
    decreases ms.len(),
{
    if j < ms.len() - 1 {
        lemma_members_distinct_deep(ms.drop_last(), j);
        assert(ms.drop_last()[j] == ms[j]);
    }
}

proof fn lemma_remove_absent(ms: Seq<(Seq<char>, Json)>, k: Seq<char>)
    requires
        forall|i: int| 0 <= i < ms.len() ==> (#[trigger] ms[i]).0 != k,
    ensures
        crate::json::member_remove(ms, k) == ms,
    decreases ms.len(),
{
    reveal(Seq::filter);
    if ms.len() > 0 {
        let r = ms.drop_last();
        assert forall|i: int| 0 <= i < r.len() implies (#[trigger] r[i]).0 != k by {
            assert(r[i] == ms[i]);
        }
        lemma_remove_absent(r, k);
        assert(ms[ms.len() - 1].0 != k);
        assert(r.push(ms.last()) =~= ms);
    }
}

/// Merging a patch into the result of merging it changes nothing.
pub proof fn law_merge_patch_idempotent(t: Json, p: Json)
    requires
        distinct_names_deep(p),
    ensures
        merge_json(merge_json(t, p), p) == merge_json(t, p),
    decreases p, 2int, 0int,
{
    match p {
        Json::Object(pm) => {
            let tm = match t {
                Json::Object(tm) => tm,
                _ => Seq::empty(),
            };
            let m1 = merge_members(tm, pm);
            lemma_merge_idempotent_fold(tm, pm, pm.len() as int);
            assert(pm.take(pm.len() as int) =~= pm);
        },
        _ => {},
    }
}

/// Members `0..j` of the patch, applied again to its result, change nothing.
proof fn lemma_merge_idempotent_fold(tm: Seq<(Seq<char>, Json)>, pm: Seq<(Seq<char>, Json)>, j: int)
    requires
        patch_keys(pm).no_duplicates(),
        members_distinct_deep(pm),
        0 <= j <= pm.len(),
    ensures
        merge_members(merge_members(tm, pm), pm.take(j)) == merge_members(tm, pm),
    decreases pm, 1int, j,
{
    let m1 = merge_members(tm, pm);
    if j == 0 {
        assert(pm.take(0) =~= Seq::<(Seq<char>, Json)>::empty());
    } else {
        lemma_merge_idempotent_fold(tm, pm, j - 1);
        assert(pm.take(j).drop_last() =~= pm.take(j - 1));
        assert(pm.take(j).last() == pm[j - 1]);
        lemma_merge_idempotent_step(tm, pm, j - 1);
    }
}

/// Member `j` of the patch, applied again to its result, changes nothing.
proof fn lemma_merge_idempotent_step(tm: Seq<(Seq<char>, Json)>, pm: Seq<(Seq<char>, Json)>, j: int)
    requires
        patch_keys(pm).no_duplicates(),
        members_distinct_deep(pm),
        0 <= j < pm.len(),
    ensures
        merge_member(merge_members(tm, pm), pm[j].0, pm[j].1) == merge_members(tm, pm),
    decreases pm, 0int, 0int,
{
    let m1 = merge_members(tm, pm);
    let k = pm[j].0;
    let v = pm[j].1;
    assert forall|i: int| 0 <= i < j implies pm[i].0 != k by {
        assert(patch_keys(pm)[i] != patch_keys(pm)[j]);
    }
    crate::json::lemma_key_index(pm, k, j);
    assert(member_get(pm, k) == Some(v));
    lemma_merge_members(tm, pm, k);
    crate::json::lemma_key_index_first(m1, k);
    match v {
        Json::Null => {
            assert(member_get(m1, k) is None);
            lemma_remove_absent(m1, k);
        },
        Json::Object(_) => {
            let base0 = match member_get(tm, k) {
                Some(o) => o,
                None => Json::Object(Seq::empty()),
            };
            lemma_members_distinct_deep(pm, j);
            law_merge_patch_idempotent(base0, v);
            let e = merge_json(base0, v);
            assert(member_get(m1, k) == Some(e));
            let idx = crate::json::key_index(m1, k);
            assert(m1.update(idx, (k, e)) =~= m1);
        },
        _ => {
            assert(member_get(m1, k) == Some(v));
            let idx = crate::json::key_index(m1, k);
            assert(m1.update(idx, (k, v)) =~= m1);
        },
    }
}

} // verus!

verus! {

// ── The hierarchy ──────────────────────────────────────────────────────

/// In a store whose hierarchy holds, as every operation keeps it, a
/// machine or account lies in an existing group of an existing
/// subscription, and a blob in an existing container of an existing
/// account.
pub proof fn law_resources_lie_in_parents(v: StoreView, s: Seq<char>, g: Seq<char>, n: Seq<char>, c: Seq<char>, b: Seq<char>)
    requires
        crate::store::parents_exist(v),
    ensures
        v.virtual_machines.contains_key(seq![s, g, n]) ==> v.resource_groups.contains_key(seq![s, g]) && v.subscriptions.contains_key(seq![s]),
        v.storage_accounts.contains_key(seq![s, g, n]) ==> v.resource_groups.contains_key(seq![s, g]) && v.subscriptions.contains_key(seq![s]),
        v.blobs.contains_key(seq![s, g, n, c, b]) ==> v.containers.contains_key(seq![s, g, n, c]) && v.storage_accounts.contains_key(seq![s, g, n]),
{
    assert(seq![s, g, n].drop_last() =~= seq![s, g]);
    assert(seq![s, g].drop_last() =~= seq![s]);
    assert(seq![s, g, n, c, b].drop_last() =~= seq![s, g, n, c]);
    assert(seq![s, g, n, c].drop_last() =~= seq![s, g, n]);
}

} // verus!

use crate::dataplane::{blob_put_choice, param_is, BlobPutOp, BlobQueryParams};

verus! {

// ── Blob PUT operations ────────────────────────────────────────────────

/// Whether `comp` names one of the operations a PUT on a blob knows.
pub open spec fn names_blob_operation(comp: Option<String>) -> bool {
    ||| param_is(comp, "metadata"@)
    ||| param_is(comp, "tags"@)
    ||| param_is(comp, "properties"@)
    ||| param_is(comp, "snapshot"@)
    ||| param_is(comp, "block"@)
    ||| param_is(comp, "blocklist"@)
    ||| param_is(comp, "tier"@)
}

/// A PUT on a blob performs the operation its `comp` parameter names,
/// whatever else the request carries; the body is written as the blob's
/// data, or a copy started, only when `comp` names none of them.
pub proof fn law_blob_put_follows_comp(p: BlobQueryParams, has_copy_source: bool)
    ensures
        param_is(p.comp, "metadata"@) ==> blob_put_choice(p, has_copy_source) == BlobPutOp::SetMetadata,
        param_is(p.comp, "tags"@) ==> blob_put_choice(p, has_copy_source) == BlobPutOp::SetTags,
        param_is(p.comp, "properties"@) ==> blob_put_choice(p, has_copy_source) == BlobPutOp::SetProperties,
        param_is(p.comp, "snapshot"@) ==> blob_put_choice(p, has_copy_source) == BlobPutOp::Snapshot,
        param_is(p.comp, "block"@) ==> blob_put_choice(p, has_copy_source) == BlobPutOp::PutBlock,
        param_is(p.comp, "blocklist"@) ==> blob_put_choice(p, has_copy_source) == BlobPutOp::PutBlockList,
        param_is(p.comp, "tier"@) ==> blob_put_choice(p, has_copy_source) == BlobPutOp::SetTier,
        (blob_put_choice(p, has_copy_source) == BlobPutOp::Copy) <==> (has_copy_source && !names_blob_operation(p.comp)),
        (blob_put_choice(p, has_copy_source) == BlobPutOp::Put) <==> (!has_copy_source && !names_blob_operation(p.comp)),
{
    reveal_strlit("metadata");
    reveal_strlit("tags");
    reveal_strlit("properties");
    reveal_strlit("snapshot");
    reveal_strlit("block");
    reveal_strlit("blocklist");
    reveal_strlit("tier");
    assert("tags"@ != "metadata"@) by {
        assert("tags"@.len() != "metadata"@.len());
    }
    assert("properties"@ != "metadata"@) by {
        assert("properties"@.len() != "metadata"@.len());
    }
    assert("properties"@ != "tags"@) by {
        assert("properties"@.len() != "tags"@.len());
    }
    assert("snapshot"@ != "tags"@) by {
        assert("snapshot"@.len() != "tags"@.len());
    }
    assert("snapshot"@ != "properties"@) by {
        assert("snapshot"@.len() != "properties"@.len());
    }
    assert("block"@ != "metadata"@) by {
        assert("block"@.len() != "metadata"@.len());
    }
    assert("block"@ != "tags"@) by {
        assert("block"@.len() != "tags"@.len());
    }
    assert("block"@ != "properties"@) by {
        assert("block"@.len() != "properties"@.len());
    }
    assert("block"@ != "snapshot"@) by {
        assert("block"@.len() != "snapshot"@.len());
    }
    assert("blocklist"@ != "metadata"@) by {
        assert("blocklist"@.len() != "metadata"@.len());
    }
    assert("blocklist"@ != "tags"@) by {
        assert("blocklist"@.len() != "tags"@.len());
    }
    assert("blocklist"@ != "properties"@) by {
        assert("blocklist"@.len() != "properties"@.len());
    }
    assert("blocklist"@ != "snapshot"@) by {
        assert("blocklist"@.len() != "snapshot"@.len());
    }
    assert("blocklist"@ != "block"@) by {
        assert("blocklist"@.len() != "block"@.len());
    }
    assert("tier"@ != "metadata"@) by {
        assert("tier"@.len() != "metadata"@.len());
    }
    assert("tier"@ != "properties"@) by {
        assert("tier"@.len() != "properties"@.len());
    }
    assert("tier"@ != "snapshot"@) by {
        assert("tier"@.len() != "snapshot"@.len());
    }
    assert("tier"@ != "block"@) by {
        assert("tier"@.len() != "block"@.len());
    }
    assert("tier"@ != "blocklist"@) by {
        assert("tier"@.len() != "blocklist"@.len());
    }
    assert("metadata"@ != "snapshot"@) by {
        assert("metadata"@[0] != "snapshot"@[0]);
    }
    assert("tags"@ != "tier"@) by {
        assert("tags"@[1] != "tier"@[1]);
    }
}

// ── Power states ───────────────────────────────────────────────────────

/// The instance view tells every power state apart: distinct states get
/// distinct status codes and display texts, and each code is
/// `PowerState/` followed by the word that follows `VM ` in its display
/// text.
pub proof fn law_power_codes_distinct(p: PowerState, q: PowerState)
    ensures
        p != q ==> crate::compute::power_code(p) != crate::compute::power_code(q),
        p != q ==> crate::compute::power_display(p) != crate::compute::power_display(q),
        crate::compute::power_display(p).len() > 3,
        crate::compute::power_display(p).subrange(0, 3) == "VM "@,
        crate::compute::power_code(p) == "PowerState/"@ + crate::compute::power_display(p).subrange(
            3,
            crate::compute::power_display(p).len() as int,
        ),
{
    reveal_strlit("PowerState/");
    reveal_strlit("VM ");
    reveal_strlit("PowerState/running");
    reveal_strlit("PowerState/stopped");
    reveal_strlit("PowerState/deallocated");
    reveal_strlit("PowerState/starting");
    reveal_strlit("PowerState/stopping");
    reveal_strlit("VM running");
    reveal_strlit("VM stopped");
    reveal_strlit("VM deallocated");
    reveal_strlit("VM starting");
    reveal_strlit("VM stopping");
    let d = crate::compute::power_display(p);
    assert(crate::compute::power_code(p) =~= "PowerState/"@ + d.subrange(3, d.len() as int));
    assert(d.subrange(0, 3) =~= "VM "@);
    if p != q {
        let c1 = crate::compute::power_code(p);
        let c2 = crate::compute::power_code(q);
        let d2 = crate::compute::power_display(q);
        if c1.len() == c2.len() {
            assert(c1[11] != c2[11] || c1[13] != c2[13]);
        }
        if d.len() == d2.len() {
            assert(d[3] != d2[3] || d[5] != d2[5]);
        }
    }
}

/// A deallocated machine is reported as deallocated, not as stopped.
pub proof fn law_deallocated_reported_as_such(v: StoreView, key: Seq<Seq<char>>, now: Seq<char>)
    requires
        v.virtual_machines.contains_key(key),
    ensures
        ({
            let d = crate::compute::instance_view_doc(with_power(v, key, PowerState::Deallocated).virtual_machines[key], now);
            json_get(d, "statuses"@) matches Some(Json::Array(st)) && st.len() == 2
                && json_get(st[1], "code"@) == Some(Json::Str("PowerState/deallocated"@))
                && json_get(st[1], "code"@) != Some(Json::Str(crate::compute::power_code(PowerState::Stopped)))
        }),
{
    law_instance_view_reports_power(v, key, PowerState::Deallocated, now);
    law_power_codes_distinct(PowerState::Deallocated, PowerState::Stopped);
    reveal_strlit("PowerState/");
    reveal_strlit("PowerState/deallocated");
    reveal_strlit("VM deallocated");
    reveal_strlit("VM ");
    let dd = crate::compute::power_display(PowerState::Deallocated);
    assert("PowerState/"@ + dd.subrange(3, dd.len() as int) =~= "PowerState/deallocated"@);
}

// ── Subscription states ────────────────────────────────────────────────

/// A configured subscription reports the state it was configured with
/// when that is one of `Warned`, `PastDue`, `Disabled` and `Deleted`, and
/// `Enabled` for any other name; its id, display name and tenant read back
/// as configured.
pub proof fn law_configured_state_reads_back(subs: Seq<(String, crate::config::SubscriptionConfig)>, i: int)
    requires
        0 <= i < subs.len(),
        forall|j: int| i < j < subs.len() ==> (#[trigger] subs[j]).1.id@ != subs[i].1.id@,
    ensures
        ({
            let c = subs[i].1;
            let d = crate::store::configured_subscriptions(subs)[seq![c.id@]];
            &&& json_get(d, "state"@) == Some(Json::Str(
                if c.state@ == "Warned"@ || c.state@ == "PastDue"@ || c.state@ == "Disabled"@ || c.state@ == "Deleted"@ {
                    c.state@
                } else {
                    "Enabled"@
                },
            ))
            &&& json_get(d, "subscriptionId"@) == Some(Json::Str(c.id@))
            &&& json_get(d, "displayName"@) == Some(Json::Str(c.display_name@))
            &&& json_get(d, "tenantId"@) == Some(Json::Str(c.tenant_id@))
        }),
{
    law_configured_subscription_reads_back(subs, i);
    let c = subs[i].1;
    let d = crate::store::subscription_doc(c.id@, c.display_name@, c.state@, c.tenant_id@);
    let ms = d->Object_0;
    reveal_strlit("id");
    reveal_strlit("subscriptionId");
    reveal_strlit("displayName");
    reveal_strlit("state");
    reveal_strlit("tenantId");
    assert forall|j: int| 0 <= j < 1 implies ms[j].0 != "subscriptionId"@ by {
        assert(ms[j].0.len() != "subscriptionId"@.len());
    }
    crate::json::lemma_key_index(ms, "subscriptionId"@, 1);
    assert forall|j: int| 0 <= j < 2 implies ms[j].0 != "displayName"@ by {
        assert(ms[j].0.len() != "displayName"@.len());
    }
    crate::json::lemma_key_index(ms, "displayName"@, 2);
    assert forall|j: int| 0 <= j < 3 implies ms[j].0 != "state"@ by {
        assert(ms[j].0.len() != "state"@.len());
    }
    crate::json::lemma_key_index(ms, "state"@, 3);
    assert forall|j: int| 0 <= j < 4 implies ms[j].0 != "tenantId"@ by {
        assert(ms[j].0.len() != "tenantId"@.len());
    }
    crate::json::lemma_key_index(ms, "tenantId"@, 4);
}

// ── Private address availability ───────────────────────────────────────

/// Whether ip configuration `c` of a network interface document holds
/// `ip` as its private address.
pub open spec fn holds_private_ip(nic: Json, c: int, ip: Seq<char>) -> bool {
    &&& json_get(nic, "properties"@) matches Some(p)
    &&& json_get(p, "ipConfigurations"@) matches Some(Json::Array(cfgs))
    &&& 0 <= c < cfgs.len()
    &&& json_get(cfgs[c], "properties"@) matches Some(q)
    &&& json_get(q, "privateIPAddress"@) == Some(Json::Str(ip))
}

/// An address is in use, and so reported unavailable, exactly when some ip
/// configuration, at any position, of some network interface holds it as
/// its private address.
pub proof fn law_ip_in_use_by_any_configuration(nics: Seq<Json>, ip: Seq<char>)
    ensures
        crate::network::ip_in_use(nics, ip) <==> exists|j: int, c: int|
            0 <= j < nics.len() && #[trigger] holds_private_ip(nics[j], c, ip),
{
    if exists|j: int, c: int| 0 <= j < nics.len() && #[trigger] holds_private_ip(nics[j], c, ip) {
        let (j, c) = choose|j: int, c: int| 0 <= j < nics.len() && #[trigger] holds_private_ip(nics[j], c, ip);
        let cfgs = crate::network::configs_of(nics[j]);
        assert(crate::network::config_uses(cfgs[c], ip));
        assert(crate::network::nic_uses(nics[j], ip));
    }
    if crate::network::ip_in_use(nics, ip) {
        let j = choose|j: int| 0 <= j < nics.len() && crate::network::nic_uses(#[trigger] nics[j], ip);
        let cfgs = crate::network::configs_of(nics[j]);
        let c = choose|c: int| 0 <= c < cfgs.len() && crate::network::config_uses(#[trigger] cfgs[c], ip);
        assert(holds_private_ip(nics[j], c, ip));
    }
}

// ── Data disks ─────────────────────────────────────────────────────────

/// Resource id of a managed disk, written out.
pub open spec fn managed_disk_id(sub: Seq<char>, rg: Seq<char>, disk: Seq<char>) -> Seq<char> {
    "/subscriptions/"@ + sub + "/resourceGroups/"@ + rg + "/providers/Microsoft.Compute/disks/"@ + disk
}

/// Whether a data disk names no disk, has logical unit number `t`, and
/// asks for a managed disk without an id.
pub open spec fn unnamed_managed_disk(disk: Json, t: Seq<char>) -> bool {
    &&& disk is Object
    &&& json_get(disk, "name"@) is None
    &&& json_get(disk, "lun"@) == Some(Json::Number(t))
    &&& json_get(disk, "managedDisk"@) matches Some(md)
    &&& md is Object
    &&& json_get(md, "id"@) is None
}

/// The managed disk id a completed data disk carries.
pub open spec fn data_disk_id(disk: Json) -> Option<Json> {
    match json_get(disk, "managedDisk"@) {
        Some(md) => json_get(md, "id"@),
        None => None,
    }
}

proof fn lemma_unnamed_data_disk(disk: Json, t: Seq<char>, sub: Seq<char>, rg: Seq<char>)
    requires
        unnamed_managed_disk(disk, t),
    ensures
        data_disk_id(crate::compute::enriched_data_disk(disk, sub, rg))
            == Some(Json::Str(managed_disk_id(sub, rg, "datadisk-lun"@ + t))),
{
    let md = json_get(disk, "managedDisk"@)->Some_0;
    let name = "datadisk-lun"@ + crate::compute::lun_text(disk);
    let id = Json::Str(crate::compute::disk_id(sub, rg, crate::compute::name_or(disk, name)));
    let md2 = json_set(md, "id"@, id);
    lemma_get_set(md->Object_0, "id"@, id, "id"@);
    lemma_get_set(disk->Object_0, "managedDisk"@, md2, "managedDisk"@);
}

/// An unnamed data disk with logical unit number `n` that asks for a
/// managed disk without an id gets the id of the disk
/// `datadisk-lun` followed by the text of `n` in the machine's resource
/// group, whatever position it has in the list.
pub proof fn law_unnamed_data_disk_id(
    props: Json,
    sub: Seq<char>,
    rg: Seq<char>,
    vm_id: Seq<char>,
    created: Seq<char>,
    i: int,
    t: Seq<char>,
)
    requires
        props is Object,
        ({
            &&& json_get(props, "storageProfile"@) matches Some(sp)
            &&& sp is Object
            &&& json_get(sp, "dataDisks"@) matches Some(Json::Array(disks))
            &&& 0 <= i < disks.len()
            &&& unnamed_managed_disk(disks[i], t)
        }),
    ensures
        ({
            let p = crate::compute::vm_properties(props, sub, rg, vm_id, created);
            &&& json_get(p, "storageProfile"@) matches Some(sp2)
            &&& json_get(sp2, "dataDisks"@) matches Some(Json::Array(disks2))
            &&& i < disks2.len()
            &&& data_disk_id(disks2[i]) == Some(Json::Str(
                "/subscriptions/"@ + sub + "/resourceGroups/"@ + rg
                    + "/providers/Microsoft.Compute/disks/datadisk-lun"@ + t,
            ))
        }),
{
    reveal_strlit("vmId");
    reveal_strlit("provisioningState");
    reveal_strlit("timeCreated");
    reveal_strlit("storageProfile");
    reveal_strlit("osProfile");
    reveal_strlit("osDisk");
    reveal_strlit("dataDisks");
    reveal_strlit("datadisk-lun");
    reveal_strlit("/providers/Microsoft.Compute/disks/");
    reveal_strlit("/providers/Microsoft.Compute/disks/datadisk-lun");
    assert("vmId"@ != "storageProfile"@) by {
        assert("vmId"@.len() != "storageProfile"@.len());
    }
    assert("provisioningState"@ != "storageProfile"@) by {
        assert("provisioningState"@.len() != "storageProfile"@.len());
    }
    assert("timeCreated"@ != "storageProfile"@) by {
        assert("timeCreated"@.len() != "storageProfile"@.len());
    }
    assert("osDisk"@ != "dataDisks"@) by {
        assert("osDisk"@.len() != "dataDisks"@.len());
    }
    assert("osProfile"@ != "storageProfile"@) by {
        assert("osProfile"@.len() != "storageProfile"@.len());
    }
    let sp = json_get(props, "storageProfile"@)->Some_0;
    let disks = json_get(sp, "dataDisks"@)->Some_0->Array_0;
    // the three members set first leave the storage profile alone
    let a1 = json_set(props, "vmId"@, Json::Str(vm_id));
    lemma_get_set(props->Object_0, "vmId"@, Json::Str(vm_id), "storageProfile"@);
    let a2 = json_set(a1, "provisioningState"@, Json::Str("Succeeded"@));
    lemma_get_set(a1->Object_0, "provisioningState"@, Json::Str("Succeeded"@), "storageProfile"@);
    let p1 = json_set(a2, "timeCreated"@, Json::Str(created));
    lemma_get_set(a2->Object_0, "timeCreated"@, Json::Str(created), "storageProfile"@);
    assert(json_get(p1, "storageProfile"@) == Some(sp));
    // the storage profile: the os disk set first leaves the data disks alone
    let a = match json_get(sp, "osDisk"@) {
        Some(os) => if os is Object {
            json_set(sp, "osDisk"@, crate::compute::enriched_os_disk(os, p1, sub, rg))
        } else {
            sp
        },
        None => sp,
    };
    match json_get(sp, "osDisk"@) {
        Some(os) => if os is Object {
            lemma_get_set(sp->Object_0, "osDisk"@, crate::compute::enriched_os_disk(os, p1, sub, rg), "dataDisks"@);
        },
        None => {},
    }
    assert(json_get(a, "dataDisks"@) == Some(Json::Array(disks)));
    let mapped = disks.map_values(|d: Json| crate::compute::enriched_data_disk(d, sub, rg));
    let sp2 = json_set(a, "dataDisks"@, Json::Array(mapped));
    lemma_get_set(a->Object_0, "dataDisks"@, Json::Array(mapped), "dataDisks"@);
    assert(sp2 == crate::compute::enriched_storage_profile(sp, p1, sub, rg));
    let p2 = json_set(p1, "storageProfile"@, sp2);
    lemma_get_set(p1->Object_0, "storageProfile"@, sp2, "storageProfile"@);
    // the os profile set last leaves the storage profile alone
    match json_get(p2, "osProfile"@) {
        Some(op) => if op is Object {
            lemma_get_set(p2->Object_0, "osProfile"@, crate::compute::stored_os_profile(op), "storageProfile"@);
        },
        None => {},
    }
    lemma_unnamed_data_disk(disks[i], t, sub, rg);
    assert(managed_disk_id(sub, rg, "datadisk-lun"@ + t) =~= "/subscriptions/"@ + sub + "/resourceGroups/"@ + rg
        + "/providers/Microsoft.Compute/disks/datadisk-lun"@ + t);
}

// ── OS disks ───────────────────────────────────────────────────────────

/// Whether member `k` of `j` holds a value other than `null`.
pub open spec fn has_non_null(j: Json, k: Seq<char>) -> bool {
    json_get(j, k) matches Some(v) && v != Json::Null
}

/// The OS disk is completed: without a size it gets 30 GB; without an os
/// type it gets `Linux` when the os profile has a Linux configuration and
/// otherwise `Windows` when it has a Windows one; and an unnamed disk that
/// asks for a managed disk without an id gets the id of the disk `osdisk`.
pub proof fn law_os_disk_completed(os: Json, props: Json, sub: Seq<char>, rg: Seq<char>)
    requires
        os is Object,
        json_get(os, "osType"@) is None,
        json_get(os, "diskSizeGB"@) is None,
    ensures
        ({
            let e = crate::compute::enriched_os_disk(os, props, sub, rg);
            let op = json_get(props, "osProfile"@);
            &&& json_get(e, "diskSizeGB"@) == Some(Json::Number("30"@))
            &&& (op matches Some(o) && o != Json::Null && has_non_null(o, "linuxConfiguration"@))
                ==> json_get(e, "osType"@) == Some(Json::Str("Linux"@))
            &&& (op matches Some(o) && o != Json::Null && !has_non_null(o, "linuxConfiguration"@)
                && has_non_null(o, "windowsConfiguration"@))
                ==> json_get(e, "osType"@) == Some(Json::Str("Windows"@))
            &&& (json_get(os, "managedDisk"@) matches Some(md) && md is Object && json_get(md, "id"@) is None
                && json_get(os, "name"@) is None)
                ==> data_disk_id(e) == Some(Json::Str(managed_disk_id(sub, rg, "osdisk"@)))
        }),
{
    reveal_strlit("osType");
    reveal_strlit("diskSizeGB");
    reveal_strlit("managedDisk");
    reveal_strlit("id");
    assert("osType"@ != "managedDisk"@) by {
        assert("osType"@.len() != "managedDisk"@.len());
    }
    assert("diskSizeGB"@ != "managedDisk"@) by {
        assert("diskSizeGB"@.len() != "managedDisk"@.len());
    }
    assert("diskSizeGB"@ != "osType"@) by {
        assert("diskSizeGB"@.len() != "osType"@.len());
    }
    let a = crate::compute::with_managed_disk_id(os, sub, rg, "osdisk"@);
    match json_get(os, "managedDisk"@) {
        Some(md) => if md is Object && !crate::compute::present(json_get(md, "id"@)) {
            let id = Json::Str(crate::compute::disk_id(sub, rg, crate::compute::name_or(os, "osdisk"@)));
            let md2 = json_set(md, "id"@, id);
            lemma_get_set(md->Object_0, "id"@, id, "id"@);
            lemma_get_set(os->Object_0, "managedDisk"@, md2, "managedDisk"@);
            lemma_get_set(os->Object_0, "managedDisk"@, md2, "osType"@);
            lemma_get_set(os->Object_0, "managedDisk"@, md2, "diskSizeGB"@);
        },
        None => {},
    }
    assert(json_get(a, "osType"@) is None);
    assert(json_get(a, "diskSizeGB"@) is None);
    assert(a is Object);
    let b = match crate::compute::implied_os_type(props) {
        Some(t) => json_set(a, "osType"@, Json::Str(t)),
        None => a,
    };
    match crate::compute::implied_os_type(props) {
        Some(t) => {
            lemma_get_set(a->Object_0, "osType"@, Json::Str(t), "osType"@);
            lemma_get_set(a->Object_0, "osType"@, Json::Str(t), "diskSizeGB"@);
            lemma_get_set(a->Object_0, "osType"@, Json::Str(t), "managedDisk"@);
        },
        None => {},
    }
    assert(json_get(b, "diskSizeGB"@) is None);
    let e = json_set(b, "diskSizeGB"@, Json::Number("30"@));
    lemma_get_set(b->Object_0, "diskSizeGB"@, Json::Number("30"@), "diskSizeGB"@);
    lemma_get_set(b->Object_0, "diskSizeGB"@, Json::Number("30"@), "osType"@);
    lemma_get_set(b->Object_0, "diskSizeGB"@, Json::Number("30"@), "managedDisk"@);
    assert(e == crate::compute::enriched_os_disk(os, props, sub, rg));
}

// ── Eviction ───────────────────────────────────────────────────────────

/// Evicting a machine deletes it when its eviction policy is `Delete`;
/// under any other policy, or none, it stays and is deallocated.
pub proof fn law_eviction_follows_policy(v: StoreView, key: Seq<Seq<char>>, after: StoreView)
    requires
        v.virtual_machines.contains_key(key),
        after == if crate::compute::evicts_by_delete(v.virtual_machines[key].doc) {
            StoreView { virtual_machines: v.virtual_machines.remove(key), ..v }
        } else {
            with_power(v, key, PowerState::Deallocated)
        },
    ensures
        ({
            let d = v.virtual_machines[key].doc;
            let policy_delete = json_get(d, "properties"@) matches Some(p)
                && json_get(p, "evictionPolicy"@) == Some(Json::Str("Delete"@));
            &&& policy_delete ==> !after.virtual_machines.contains_key(key)
            &&& !policy_delete ==> after.virtual_machines.contains_key(key)
                && after.virtual_machines[key].power_state == PowerState::Deallocated
                && after.virtual_machines[key].doc == d
        }),
{
}

// ── Token endpoint and name checks ─────────────────────────────────────

/// The token endpoint grants a token exactly to a client credentials
/// request with a client id and a secret; another grant type is refused
/// with 400, and a missing id or secret with 401.
pub proof fn law_token_outcome(grant_type: Seq<char>, client_id: Seq<char>, client_secret: Seq<char>)
    ensures
        ({
            let (status, doc) = crate::requests::token_outcome(grant_type, client_id, client_secret);
            &&& (status == 200) <==> (grant_type == "client_credentials"@ && client_id.len() > 0 && client_secret.len() > 0)
            &&& (status == 400) <==> grant_type != "client_credentials"@
            &&& (status == 401) <==> (grant_type == "client_credentials"@ && (client_id.len() == 0 || client_secret.len() == 0))
            &&& status == 200 ==> json_get(doc, "access_token"@) == Some(Json::Str("mock-token-for-"@ + client_id))
            &&& status == 400 ==> json_get(doc, "error"@) == Some(Json::Str("unsupported_grant_type"@))
            &&& status == 401 ==> json_get(doc, "error"@) == Some(Json::Str("invalid_client"@))
        }),
{
    let (status, doc) = crate::requests::token_outcome(grant_type, client_id, client_secret);
    let ms = doc->Object_0;
    crate::json::lemma_key_index(ms, ms[0].0, 0);
}

/// A storage account name is reported available exactly when no account
/// has it; a taken name is refused with `AlreadyExists` and a message
/// naming it.
pub proof fn law_name_availability(taken: bool, name: Seq<char>)
    ensures
        ({
            let (ok, reason, message) = crate::storage::availability(taken, name);
            &&& ok == !taken
            &&& taken ==> reason == Some("AlreadyExists"@)
                && message == Some("The storage account named "@ + name + " is already taken."@)
            &&& !taken ==> reason is None && message is None
        }),
{
}

// ── Ip configurations and public addresses ────────────────────────────

/// An ip configuration of a network interface is completed: its
/// properties are marked provisioned and keep their private address; the
/// first configuration is primary unless it says otherwise, and the others
/// keep what they say; and one without an id gets the interface's id, then
/// `/ipConfigurations/` and its name (`ipconfig` when it has none).
pub proof fn law_ip_config_completed(cfg: Json, i: int, nic_id: Seq<char>)
    requires
        cfg is Object,
        json_get(cfg, "properties"@) matches Some(cp) && cp is Object,
    ensures
        ({
            let e = crate::network::completed_config(cfg, i, nic_id);
            let cp = json_get(cfg, "properties"@)->Some_0;
            &&& json_get(e, "properties"@) matches Some(c2)
            &&& json_get(c2, "provisioningState"@) == Some(Json::Str("Succeeded"@))
            &&& json_get(c2, "privateIPAddress"@) == json_get(cp, "privateIPAddress"@)
            &&& json_get(c2, "primary"@) == if has_non_null(cp, "primary"@) {
                json_get(cp, "primary"@)
            } else if i == 0 {
                Some(Json::Bool(true))
            } else {
                json_get(cp, "primary"@)
            }
            &&& !has_non_null(cfg, "id"@) ==> json_get(e, "id"@) == Some(Json::Str(
                nic_id + "/ipConfigurations/"@ + match json_get(cfg, "name"@) {
                    Some(Json::Str(n)) => n,
                    _ => "ipconfig"@,
                },
            ))
            &&& has_non_null(cfg, "id"@) ==> json_get(e, "id"@) == json_get(cfg, "id"@)
        }),
{
    reveal_strlit("id");
    reveal_strlit("properties");
    reveal_strlit("provisioningState");
    reveal_strlit("privateIPAddress");
    reveal_strlit("primary");
    assert("id"@ != "properties"@) by {
        assert("id"@.len() != "properties"@.len());
    }
    assert("provisioningState"@ != "privateIPAddress"@) by {
        assert("provisioningState"@.len() != "privateIPAddress"@.len());
    }
    assert("provisioningState"@ != "primary"@) by {
        assert("provisioningState"@.len() != "primary"@.len());
    }
    assert("primary"@ != "privateIPAddress"@) by {
        assert("primary"@.len() != "privateIPAddress"@.len());
    }
    let cp = json_get(cfg, "properties"@)->Some_0;
    let a = if !crate::compute::present(json_get(cfg, "id"@)) {
        json_set(cfg, "id"@, Json::Str(nic_id + "/ipConfigurations/"@ + crate::network::config_name(cfg)))
    } else {
        cfg
    };
    if !crate::compute::present(json_get(cfg, "id"@)) {
        let idv = Json::Str(nic_id + "/ipConfigurations/"@ + crate::network::config_name(cfg));
        lemma_get_set(cfg->Object_0, "id"@, idv, "id"@);
        lemma_get_set(cfg->Object_0, "id"@, idv, "properties"@);
    }
    assert(json_get(a, "properties"@) == Some(cp));
    let c = crate::network::succeeded(cp);
    lemma_get_set(cp->Object_0, "provisioningState"@, Json::Str("Succeeded"@), "provisioningState"@);
    lemma_get_set(cp->Object_0, "provisioningState"@, Json::Str("Succeeded"@), "privateIPAddress"@);
    lemma_get_set(cp->Object_0, "provisioningState"@, Json::Str("Succeeded"@), "primary"@);
    let c2 = if i == 0 && !crate::compute::present(json_get(c, "primary"@)) {
        json_set(c, "primary"@, Json::Bool(true))
    } else {
        c
    };
    if i == 0 && !crate::compute::present(json_get(c, "primary"@)) {
        lemma_get_set(c->Object_0, "primary"@, Json::Bool(true), "primary"@);
        lemma_get_set(c->Object_0, "primary"@, Json::Bool(true), "provisioningState"@);
        lemma_get_set(c->Object_0, "primary"@, Json::Bool(true), "privateIPAddress"@);
    }
    let e = json_set(a, "properties"@, c2);
    lemma_get_set(a->Object_0, "properties"@, c2, "properties"@);
    lemma_get_set(a->Object_0, "properties"@, c2, "id"@);
    assert(e == crate::network::completed_config(cfg, i, nic_id));
}

/// A public address whose allocation is `Static` and that has no address
/// is given `20.a.b.c` from the first three generated bytes; any other
/// keeps the address it was given, or none.
pub proof fn law_public_ip_address(props: Json, guid: Seq<char>, bytes: Seq<u8>)
    requires
        props is Object,
        bytes.len() >= 3,
    ensures
        ({
            let e = crate::network::ip_properties(props, guid, bytes);
            &&& (json_get(props, "publicIPAllocationMethod"@) == Some(Json::Str("Static"@)) && !has_non_null(props, "ipAddress"@))
                ==> json_get(e, "ipAddress"@) == Some(Json::Str(
                    "20."@ + crate::text::decimal(bytes[0] as nat) + "."@ + crate::text::decimal(bytes[1] as nat) + "."@
                        + crate::text::decimal(bytes[2] as nat),
                ))
            &&& !(json_get(props, "publicIPAllocationMethod"@) == Some(Json::Str("Static"@)) && !has_non_null(props, "ipAddress"@))
                ==> json_get(e, "ipAddress"@) == json_get(props, "ipAddress"@)
            &&& json_get(e, "resourceGuid"@) == Some(Json::Str(guid))
            &&& json_get(e, "provisioningState"@) == Some(Json::Str("Succeeded"@))
        }),
{
    reveal_strlit("provisioningState");
    reveal_strlit("resourceGuid");
    reveal_strlit("publicIPAllocationMethod");
    reveal_strlit("ipAddress");
    reveal_strlit("dnsSettings");
    assert("provisioningState"@ != "resourceGuid"@) by {
        assert("provisioningState"@.len() != "resourceGuid"@.len());
    }
    assert("provisioningState"@ != "publicIPAllocationMethod"@) by {
        assert("provisioningState"@.len() != "publicIPAllocationMethod"@.len());
    }
    assert("provisioningState"@ != "ipAddress"@) by {
        assert("provisioningState"@.len() != "ipAddress"@.len());
    }
    assert("resourceGuid"@ != "publicIPAllocationMethod"@) by {
        assert("resourceGuid"@.len() != "publicIPAllocationMethod"@.len());
    }
    assert("resourceGuid"@ != "ipAddress"@) by {
        assert("resourceGuid"@.len() != "ipAddress"@.len());
    }
    assert("dnsSettings"@ != "ipAddress"@) by {
        assert("dnsSettings"@.len() != "ipAddress"@.len());
    }
    assert("dnsSettings"@ != "resourceGuid"@) by {
        assert("dnsSettings"@.len() != "resourceGuid"@.len());
    }
    assert("dnsSettings"@ != "provisioningState"@) by {
        assert("dnsSettings"@.len() != "provisioningState"@.len());
    }
    let s0 = crate::network::succeeded(props);
    let g = Json::Str(guid);
    let pr = props->Object_0;
    lemma_get_set(pr, "provisioningState"@, Json::Str("Succeeded"@), "provisioningState"@);
    lemma_get_set(pr, "provisioningState"@, Json::Str("Succeeded"@), "resourceGuid"@);
    lemma_get_set(pr, "provisioningState"@, Json::Str("Succeeded"@), "publicIPAllocationMethod"@);
    lemma_get_set(pr, "provisioningState"@, Json::Str("Succeeded"@), "ipAddress"@);
    let p1 = json_set(s0, "resourceGuid"@, g);
    lemma_get_set(s0->Object_0, "resourceGuid"@, g, "provisioningState"@);
    lemma_get_set(s0->Object_0, "resourceGuid"@, g, "resourceGuid"@);
    lemma_get_set(s0->Object_0, "resourceGuid"@, g, "publicIPAllocationMethod"@);
    lemma_get_set(s0->Object_0, "resourceGuid"@, g, "ipAddress"@);
    let addr = Json::Str(crate::network::public_ip_text(bytes));
    let p2 = if json_get(p1, "publicIPAllocationMethod"@) == Some(Json::Str("Static"@))
        && !crate::compute::present(json_get(p1, "ipAddress"@)) {
        json_set(p1, "ipAddress"@, addr)
    } else {
        p1
    };
    lemma_get_set(p1->Object_0, "ipAddress"@, addr, "ipAddress"@);
    lemma_get_set(p1->Object_0, "ipAddress"@, addr, "resourceGuid"@);
    lemma_get_set(p1->Object_0, "ipAddress"@, addr, "provisioningState"@);
    let e = crate::network::completed_dns(p2);
    match json_get(p2, "dnsSettings"@) {
        Some(dns) => match json_get(dns, "domainNameLabel"@) {
            Some(Json::Str(label)) => if !crate::compute::present(json_get(dns, "fqdn"@)) {
                let d2 = json_set(dns, "fqdn"@, Json::Str(label + ".eastus.cloudapp.azure.com"@));
                lemma_get_set(p2->Object_0, "dnsSettings"@, d2, "ipAddress"@);
                lemma_get_set(p2->Object_0, "dnsSettings"@, d2, "resourceGuid"@);
                lemma_get_set(p2->Object_0, "dnsSettings"@, d2, "provisioningState"@);
            },
            _ => {},
        },
        None => {},
    }
    assert(e == crate::network::ip_properties(props, guid, bytes));
}

/// A peering is stored provisioned, and connected unless it states its
/// peering state.
pub proof fn law_peering_connected_by_default(props: Json)
    requires
        props is Object,
    ensures
        ({
            let e = crate::network::peering_properties(props);
            &&& json_get(e, "peeringState"@) == if has_non_null(props, "peeringState"@) {
                json_get(props, "peeringState"@)
            } else {
                Some(Json::Str("Connected"@))
            }
            &&& json_get(e, "provisioningState"@) == Some(Json::Str("Succeeded"@))
        }),
{
    reveal_strlit("provisioningState");
    reveal_strlit("peeringState");
    assert("provisioningState"@ != "peeringState"@) by {
        assert("provisioningState"@.len() != "peeringState"@.len());
    }
    let s0 = crate::network::succeeded(props);
    lemma_get_set(props->Object_0, "provisioningState"@, Json::Str("Succeeded"@), "provisioningState"@);
    lemma_get_set(props->Object_0, "provisioningState"@, Json::Str("Succeeded"@), "peeringState"@);
    let c = Json::Str("Connected"@);
    lemma_get_set(s0->Object_0, "peeringState"@, c, "peeringState"@);
    lemma_get_set(s0->Object_0, "peeringState"@, c, "provisioningState"@);
}

// ── Blob properties ────────────────────────────────────────────────────

/// Setting a blob's properties sets each content header that is given
/// and keeps each that is not, and renews its modification time and
/// entity tag.
pub proof fn law_blob_properties_set(
    props: Json,
    ct: Option<Seq<char>>,
    ce: Option<Seq<char>>,
    cl: Option<Seq<char>>,
    cd: Option<Seq<char>>,
    cc: Option<Seq<char>>,
    modified: Seq<char>,
    hex: Seq<char>,
)
    requires
        props is Object,
    ensures
        ({
            let p1 = crate::storage::set_opt(props, "contentType"@, ct);
            let p2 = crate::storage::set_opt(p1, "contentEncoding"@, ce);
            let p3 = crate::storage::set_opt(p2, "contentLanguage"@, cl);
            let p4 = crate::storage::set_opt(p3, "contentDisposition"@, cd);
            let p5 = crate::storage::set_opt(p4, "cacheControl"@, cc);
            let e = crate::storage::touched(p5, modified, hex);
            &&& json_get(e, "contentType"@) == match ct { Some(v) => Some(Json::Str(v)), None => json_get(props, "contentType"@) }
            &&& json_get(e, "contentEncoding"@) == match ce { Some(v) => Some(Json::Str(v)), None => json_get(props, "contentEncoding"@) }
            &&& json_get(e, "contentLanguage"@) == match cl { Some(v) => Some(Json::Str(v)), None => json_get(props, "contentLanguage"@) }
            &&& json_get(e, "contentDisposition"@) == match cd { Some(v) => Some(Json::Str(v)), None => json_get(props, "contentDisposition"@) }
            &&& json_get(e, "cacheControl"@) == match cc { Some(v) => Some(Json::Str(v)), None => json_get(props, "cacheControl"@) }
            &&& json_get(e, "lastModified"@) == Some(Json::Str(modified))
            &&& json_get(e, "etag"@) == Some(Json::Str("\"0x"@ + hex + "\""@))
        }),
{
    reveal_strlit("contentType");
    reveal_strlit("contentEncoding");
    reveal_strlit("contentLanguage");
    reveal_strlit("contentDisposition");
    reveal_strlit("cacheControl");
    reveal_strlit("lastModified");
    reveal_strlit("etag");
    assert("contentEncoding"@ != "contentType"@) by {
        assert("contentEncoding"@.len() != "contentType"@.len());
    }
    assert("contentLanguage"@ != "contentType"@) by {
        assert("contentLanguage"@.len() != "contentType"@.len());
    }
    assert("contentLanguage"@ != "contentEncoding"@) by {
        assert("contentLanguage"@[7] != "contentEncoding"@[7]);
    }
    assert("contentDisposition"@ != "contentType"@) by {
        assert("contentDisposition"@.len() != "contentType"@.len());
    }
    assert("contentDisposition"@ != "contentEncoding"@) by {
        assert("contentDisposition"@.len() != "contentEncoding"@.len());
    }
    assert("contentDisposition"@ != "contentLanguage"@) by {
        assert("contentDisposition"@.len() != "contentLanguage"@.len());
    }
    assert("cacheControl"@ != "contentType"@) by {
        assert("cacheControl"@.len() != "contentType"@.len());
    }
    assert("cacheControl"@ != "contentEncoding"@) by {
        assert("cacheControl"@.len() != "contentEncoding"@.len());
    }
    assert("cacheControl"@ != "contentLanguage"@) by {
        assert("cacheControl"@.len() != "contentLanguage"@.len());
    }
    assert("cacheControl"@ != "contentDisposition"@) by {
        assert("cacheControl"@.len() != "contentDisposition"@.len());
    }
    assert("lastModified"@ != "contentType"@) by {
        assert("lastModified"@.len() != "contentType"@.len());
    }
    assert("lastModified"@ != "contentEncoding"@) by {
        assert("lastModified"@.len() != "contentEncoding"@.len());
    }
    assert("lastModified"@ != "contentLanguage"@) by {
        assert("lastModified"@.len() != "contentLanguage"@.len());
    }
    assert("lastModified"@ != "contentDisposition"@) by {
        assert("lastModified"@.len() != "contentDisposition"@.len());
    }
    assert("lastModified"@ != "cacheControl"@) by {
        assert("lastModified"@[0] != "cacheControl"@[0]);
    }
    assert("etag"@ != "contentType"@) by {
        assert("etag"@.len() != "contentType"@.len());
    }
    assert("etag"@ != "contentEncoding"@) by {
        assert("etag"@.len() != "contentEncoding"@.len());
    }
    assert("etag"@ != "contentLanguage"@) by {
        assert("etag"@.len() != "contentLanguage"@.len());
    }
    assert("etag"@ != "contentDisposition"@) by {
        assert("etag"@.len() != "contentDisposition"@.len());
    }
    assert("etag"@ != "cacheControl"@) by {
        assert("etag"@.len() != "cacheControl"@.len());
    }
    assert("etag"@ != "lastModified"@) by {
        assert("etag"@.len() != "lastModified"@.len());
    }
    let p0 = props;
    let p1 = crate::storage::set_opt(p0, "contentType"@, ct);
    if let Some(x) = ct {
        lemma_get_set(p0->Object_0, "contentType"@, Json::Str(x), "contentType"@);
        lemma_get_set(p0->Object_0, "contentType"@, Json::Str(x), "contentEncoding"@);
        lemma_get_set(p0->Object_0, "contentType"@, Json::Str(x), "contentLanguage"@);
        lemma_get_set(p0->Object_0, "contentType"@, Json::Str(x), "contentDisposition"@);
        lemma_get_set(p0->Object_0, "contentType"@, Json::Str(x), "cacheControl"@);
        lemma_get_set(p0->Object_0, "contentType"@, Json::Str(x), "lastModified"@);
        lemma_get_set(p0->Object_0, "contentType"@, Json::Str(x), "etag"@);
    }
    let p2 = crate::storage::set_opt(p1, "contentEncoding"@, ce);
    if let Some(x) = ce {
        lemma_get_set(p1->Object_0, "contentEncoding"@, Json::Str(x), "contentType"@);
        lemma_get_set(p1->Object_0, "contentEncoding"@, Json::Str(x), "contentEncoding"@);
        lemma_get_set(p1->Object_0, "contentEncoding"@, Json::Str(x), "contentLanguage"@);
        lemma_get_set(p1->Object_0, "contentEncoding"@, Json::Str(x), "contentDisposition"@);
        lemma_get_set(p1->Object_0, "contentEncoding"@, Json::Str(x), "cacheControl"@);
        lemma_get_set(p1->Object_0, "contentEncoding"@, Json::Str(x), "lastModified"@);
        lemma_get_set(p1->Object_0, "contentEncoding"@, Json::Str(x), "etag"@);
    }
    let p3 = crate::storage::set_opt(p2, "contentLanguage"@, cl);
    if let Some(x) = cl {
        lemma_get_set(p2->Object_0, "contentLanguage"@, Json::Str(x), "contentType"@);
        lemma_get_set(p2->Object_0, "contentLanguage"@, Json::Str(x), "contentEncoding"@);
        lemma_get_set(p2->Object_0, "contentLanguage"@, Json::Str(x), "contentLanguage"@);
        lemma_get_set(p2->Object_0, "contentLanguage"@, Json::Str(x), "contentDisposition"@);
        lemma_get_set(p2->Object_0, "contentLanguage"@, Json::Str(x), "cacheControl"@);
        lemma_get_set(p2->Object_0, "contentLanguage"@, Json::Str(x), "lastModified"@);
        lemma_get_set(p2->Object_0, "contentLanguage"@, Json::Str(x), "etag"@);
    }
    let p4 = crate::storage::set_opt(p3, "contentDisposition"@, cd);
    if let Some(x) = cd {
        lemma_get_set(p3->Object_0, "contentDisposition"@, Json::Str(x), "contentType"@);
        lemma_get_set(p3->Object_0, "contentDisposition"@, Json::Str(x), "contentEncoding"@);
        lemma_get_set(p3->Object_0, "contentDisposition"@, Json::Str(x), "contentLanguage"@);
        lemma_get_set(p3->Object_0, "contentDisposition"@, Json::Str(x), "contentDisposition"@);
        lemma_get_set(p3->Object_0, "contentDisposition"@, Json::Str(x), "cacheControl"@);
        lemma_get_set(p3->Object_0, "contentDisposition"@, Json::Str(x), "lastModified"@);
        lemma_get_set(p3->Object_0, "contentDisposition"@, Json::Str(x), "etag"@);
    }
    let p5 = crate::storage::set_opt(p4, "cacheControl"@, cc);
    if let Some(x) = cc {
        lemma_get_set(p4->Object_0, "cacheControl"@, Json::Str(x), "contentType"@);
        lemma_get_set(p4->Object_0, "cacheControl"@, Json::Str(x), "contentEncoding"@);
        lemma_get_set(p4->Object_0, "cacheControl"@, Json::Str(x), "contentLanguage"@);
        lemma_get_set(p4->Object_0, "cacheControl"@, Json::Str(x), "contentDisposition"@);
        lemma_get_set(p4->Object_0, "cacheControl"@, Json::Str(x), "cacheControl"@);
        lemma_get_set(p4->Object_0, "cacheControl"@, Json::Str(x), "lastModified"@);
        lemma_get_set(p4->Object_0, "cacheControl"@, Json::Str(x), "etag"@);
    }
    let m = Json::Str(modified);
    let p6 = json_set(p5, "lastModified"@, m);
    lemma_get_set(p5->Object_0, "lastModified"@, m, "contentType"@);
    lemma_get_set(p5->Object_0, "lastModified"@, m, "contentEncoding"@);
    lemma_get_set(p5->Object_0, "lastModified"@, m, "contentLanguage"@);
    lemma_get_set(p5->Object_0, "lastModified"@, m, "contentDisposition"@);
    lemma_get_set(p5->Object_0, "lastModified"@, m, "cacheControl"@);
    lemma_get_set(p5->Object_0, "lastModified"@, m, "lastModified"@);
    lemma_get_set(p5->Object_0, "lastModified"@, m, "etag"@);
    let t = Json::Str(crate::storage::etag_text(hex));
    lemma_get_set(p6->Object_0, "etag"@, t, "contentType"@);
    lemma_get_set(p6->Object_0, "etag"@, t, "contentEncoding"@);
    lemma_get_set(p6->Object_0, "etag"@, t, "contentLanguage"@);
    lemma_get_set(p6->Object_0, "etag"@, t, "contentDisposition"@);
    lemma_get_set(p6->Object_0, "etag"@, t, "cacheControl"@);
    lemma_get_set(p6->Object_0, "etag"@, t, "lastModified"@);
    lemma_get_set(p6->Object_0, "etag"@, t, "etag"@);
}

// ── Reply headers ──────────────────────────────────────────────────────

/// Every reply carries the request id and the correlation id it was
/// given, and a JSON content type is added exactly when it has none.
pub proof fn law_reply_headers(has_content_type: bool, request_id: Seq<char>, correlation_id: Seq<char>)
    ensures
        ({
            let h = crate::requests::added_headers(has_content_type, request_id, correlation_id);
            &&& h.len() == if has_content_type { 2int } else { 3int }
            &&& h[0] == ("x-ms-request-id"@, request_id)
            &&& h[1] == ("x-ms-correlation-id"@, correlation_id)
            &&& !has_content_type ==> h[2] == ("content-type"@, "application/json"@)
        }),
{
}

} // verus!
