use vstd::prelude::*;

use crate::fresh::Fresh;
use crate::json::{
    jstr, json_get, json_remove, json_set, members_model, merged, push_member,
    string_pairs_object, string_pairs_to_object, Json, JsonValue,
};
use crate::keyed::{
    keys_under, lemma_lists_by_map_values, lists_by, map_under, path1, path2, path3, values_under, DeepCopy,
};
use crate::storage::{group_error_matches, group_missing};
use crate::store::{docs, MockState, Page, StoreError, StoreView};
use crate::text::{concat_all, decimal, decimal_text, join, owned, text_eq};

verus! {

/// Power state of a virtual machine.
#[derive(Clone, Copy, Debug, PartialEq, Eq, Structural)]
pub enum PowerState {
    Running,
    Stopped,
    Deallocated,
    Starting,
    Stopping,
}

/// A virtual machine: its document, power state and entity-tag version.
pub struct VmState {
    pub doc: JsonValue,
    pub power_state: PowerState,
    pub etag_version: u64,
}

/// Model of a virtual machine.
pub struct VmView {
    pub doc: Json,
    pub power_state: PowerState,
    pub etag_version: u64,
}

impl View for VmState {
    type V = VmView;

    open spec fn view(&self) -> VmView {
        VmView { doc: self.doc@, power_state: self.power_state, etag_version: self.etag_version }
    }
}

impl DeepCopy for VmState {
    fn deep_copy(&self) -> (r: Self) {
        VmState { doc: self.doc.deep_clone(), power_state: self.power_state, etag_version: self.etag_version }
    }
}

} // verus!

verus! {

/// Body of a request that creates or replaces a virtual machine.
pub struct CreateVirtualMachineParams {
    pub location: String,
    pub tags: Vec<(String, String)>,
    pub identity: Option<JsonValue>,
    pub zones: Option<JsonValue>,
    pub extended_location: Option<JsonValue>,
    pub plan: Option<JsonValue>,
    pub properties: JsonValue,
    pub placement: Option<JsonValue>,
}

/// Whether an optional member holds a value other than `null`.
pub open spec fn present(o: Option<Json>) -> bool {
    o matches Some(v) && v != Json::Null
}

/// Resource id of a managed disk.
pub open spec fn disk_id(sub: Seq<char>, rg: Seq<char>, disk: Seq<char>) -> Seq<char> {
    "/subscriptions/"@ + sub + "/resourceGroups/"@ + rg + "/providers/Microsoft.Compute/disks/"@ + disk
}

/// The `name` of a disk, or `default` when it has none.
pub open spec fn name_or(disk: Json, default: Seq<char>) -> Seq<char> {
    match json_get(disk, "name"@) {
        Some(Json::Str(n)) => n,
        _ => default,
    }
}

/// A disk whose managed disk gets an id when it has none.
pub open spec fn with_managed_disk_id(disk: Json, sub: Seq<char>, rg: Seq<char>, default: Seq<char>) -> Json {
    match json_get(disk, "managedDisk"@) {
        Some(md) => if md is Object && !present(json_get(md, "id"@)) {
            json_set(disk, "managedDisk"@, json_set(md, "id"@, Json::Str(disk_id(sub, rg, name_or(disk, default)))))
        } else {
            disk
        },
        None => disk,
    }
}

/// The os type a profile implies, if any.
pub open spec fn implied_os_type(props: Json) -> Option<Seq<char>> {
    match json_get(props, "osProfile"@) {
        Some(p) => if p == Json::Null {
            None
        } else if present(json_get(p, "linuxConfiguration"@)) {
            Some("Linux"@)
        } else if present(json_get(p, "windowsConfiguration"@)) {
            Some("Windows"@)
        } else {
            None
        },
        None => None,
    }
}

/// The OS disk as the service completes it: managed disk id, os type
/// inferred from the os profile, and a 30 GB default size.
pub open spec fn enriched_os_disk(os: Json, props: Json, sub: Seq<char>, rg: Seq<char>) -> Json {
    let a = with_managed_disk_id(os, sub, rg, "osdisk"@);
    let b = if !present(json_get(a, "osType"@)) {
        match implied_os_type(props) {
            Some(t) => json_set(a, "osType"@, Json::Str(t)),
            None => a,
        }
    } else {
        a
    };
    if !present(json_get(b, "diskSizeGB"@)) {
        json_set(b, "diskSizeGB"@, Json::Number("30"@))
    } else {
        b
    }
}

/// The logical unit number of a data disk, as text.
pub open spec fn lun_text(disk: Json) -> Seq<char> {
    match json_get(disk, "lun"@) {
        Some(Json::Number(t)) => t,
        _ => "0"@,
    }
}

/// A data disk as the service completes it.
pub open spec fn enriched_data_disk(disk: Json, sub: Seq<char>, rg: Seq<char>) -> Json {
    if disk is Object {
        with_managed_disk_id(disk, sub, rg, "datadisk-lun"@ + lun_text(disk))
    } else {
        disk
    }
}

/// A storage profile as the service completes it.
pub open spec fn enriched_storage_profile(sp: Json, props: Json, sub: Seq<char>, rg: Seq<char>) -> Json {
    let a = match json_get(sp, "osDisk"@) {
        Some(os) => if os is Object {
            json_set(sp, "osDisk"@, enriched_os_disk(os, props, sub, rg))
        } else {
            sp
        },
        None => sp,
    };
    match json_get(a, "dataDisks"@) {
        Some(Json::Array(items)) => json_set(
            a,
            "dataDisks"@,
            Json::Array(items.map_values(|d: Json| enriched_data_disk(d, sub, rg))),
        ),
        _ => a,
    }
}

/// An os profile as it is stored: without the admin password, and with
/// an empty list of secrets when none were given.
pub open spec fn stored_os_profile(p: Json) -> Json {
    let a = json_remove(p, "adminPassword"@);
    if !present(json_get(a, "secrets"@)) {
        json_set(a, "secrets"@, Json::Array(Seq::empty()))
    } else {
        a
    }
}

/// Properties of a virtual machine as the service stores them.
pub open spec fn vm_properties(props: Json, sub: Seq<char>, rg: Seq<char>, vm_id: Seq<char>, created: Seq<char>) -> Json {
    let p1 = json_set(json_set(json_set(props, "vmId"@, Json::Str(vm_id)), "provisioningState"@, Json::Str("Succeeded"@)), "timeCreated"@, Json::Str(created));
    let p2 = match json_get(p1, "storageProfile"@) {
        Some(sp) => if sp is Object {
            json_set(p1, "storageProfile"@, enriched_storage_profile(sp, p1, sub, rg))
        } else {
            p1
        },
        None => p1,
    };
    match json_get(p2, "osProfile"@) {
        Some(op) => if op is Object {
            json_set(p2, "osProfile"@, stored_os_profile(op))
        } else {
            p2
        },
        None => p2,
    }
}

/// Resource id of a virtual machine.
pub open spec fn vm_id_path(sub: Seq<char>, rg: Seq<char>, name: Seq<char>) -> Seq<char> {
    "/subscriptions/"@ + sub + "/resourceGroups/"@ + rg + "/providers/Microsoft.Compute/virtualMachines/"@ + name
}

/// Entity tag of version `v`.
pub open spec fn version_etag(v: u64) -> Seq<char> {
    "\""@ + decimal(v as nat) + "\""@
}

/// Member `k` with the optional value `o`, as zero or one members.
pub open spec fn opt_member(k: Seq<char>, o: Option<Json>) -> Seq<(Seq<char>, Json)> {
    match o {
        Some(v) => seq![(k, v)],
        None => Seq::empty(),
    }
}

/// The optional documents of the params, as models.
pub open spec fn opt_doc(o: Option<JsonValue>) -> Option<Json> {
    match o {
        Some(v) => Some(v@),
        None => None,
    }
}

/// The document of a virtual machine.
pub open spec fn vm_doc(sub: Seq<char>, rg: Seq<char>, name: Seq<char>, params: CreateVirtualMachineParams, version: u64, vm_id: Seq<char>, created: Seq<char>) -> Json {
    Json::Object(
        seq![
            ("id"@, Json::Str(vm_id_path(sub, rg, name))),
            ("name"@, Json::Str(name)),
            ("type"@, Json::Str("Microsoft.Compute/virtualMachines"@)),
            ("location"@, Json::Str(params.location@)),
            ("tags"@, string_pairs_object(params.tags@)),
            ("etag"@, Json::Str(version_etag(version))),
        ]
            + opt_member("identity"@, opt_doc(params.identity))
            + opt_member("zones"@, opt_doc(params.zones))
            + opt_member("extendedLocation"@, opt_doc(params.extended_location))
            + opt_member("plan"@, opt_doc(params.plan))
            + seq![
                ("properties"@, vm_properties(params.properties@, sub, rg, vm_id, created)),
                ("resources"@, Json::Array(Seq::empty())),
            ]
            + opt_member("placement"@, opt_doc(params.placement)),
    )
}

/// Calls `str::to_lowercase`, whose result depends on its argument alone.
#[verifier::external_body]
fn to_lower(s: &str) -> (r: String)
    ensures
        r@ == lowercase(s@),
{
    s.to_lowercase()
}

/// The lowercase mapping of `str::to_lowercase`.
pub uninterp spec fn lowercase(s: Seq<char>) -> Seq<char>;

} // verus!

verus! {

/// Whether member `key` of `j` holds a value other than `null`.
pub fn has_value(j: &JsonValue, key: &str) -> (b: bool)
    ensures
        b == present(json_get(j@, key@)),
{
    match j.member(key) {
        Some(v) => match v {
            JsonValue::Null => false,
            _ => true,
        },
        None => false,
    }
}

fn is_object(j: &JsonValue) -> (b: bool)
    ensures
        b == (j@ is Object),
{
    match j {
        JsonValue::Object(_) => true,
        _ => false,
    }
}

fn disk_name(disk: &JsonValue, default: &str) -> (r: String)
    ensures
        r@ == name_or(disk@, default@),
{
    match disk.member("name") {
        Some(v) => match v {
            JsonValue::Str(n) => n.clone(),
            _ => owned(default),
        },
        None => owned(default),
    }
}

fn add_managed_disk_id(disk: &mut JsonValue, sub: &str, rg: &str, default: &str)
    ensures
        final(disk)@ == with_managed_disk_id(old(disk)@, sub@, rg@, default@),
{
    let md2 = match disk.member("managedDisk") {
        Some(md) => {
            if is_object(md) && !has_value(md, "id") {
                let name = disk_name(disk, default);
                let id = join(&["/subscriptions/", sub, "/resourceGroups/", rg, "/providers/Microsoft.Compute/disks/", name.as_str()]);
                proof {
                    reveal_with_fuel(concat_all, 7);
                }
                let mut m = md.deep_clone();
                m.set("id", JsonValue::Str(id));
                Some(m)
            } else {
                None
            }
        },
        None => None,
    };
    match md2 {
        Some(m) => disk.set("managedDisk", m),
        None => {},
    }
}

fn os_type_of(props: &JsonValue) -> (r: Option<&'static str>)
    ensures
        match r {
            Some(t) => implied_os_type(props@) == Some(t@),
            None => implied_os_type(props@) is None,
        },
{
    match props.member("osProfile") {
        Some(p) => match p {
            JsonValue::Null => None,
            _ => {
                if has_value(p, "linuxConfiguration") {
                    Some("Linux")
                } else if has_value(p, "windowsConfiguration") {
                    Some("Windows")
                } else {
                    None
                }
            },
        },
        None => None,
    }
}

fn enrich_os_disk(os: &mut JsonValue, props: &JsonValue, sub: &str, rg: &str)
    ensures
        final(os)@ == enriched_os_disk(old(os)@, props@, sub@, rg@),
{
    add_managed_disk_id(os, sub, rg, "osdisk");
    if !has_value(os, "osType") {
        match os_type_of(props) {
            Some(t) => os.set("osType", jstr(t)),
            None => {},
        }
    }
    if !has_value(os, "diskSizeGB") {
        proof {
            reveal_strlit("30");
        }
        os.set("diskSizeGB", JsonValue::Number(owned("30")));
    }
}

fn lun_of(disk: &JsonValue) -> (r: String)
    ensures
        r@ == lun_text(disk@),
{
    match disk.member("lun") {
        Some(v) => match v {
            JsonValue::Number(t) => t.clone(),
            _ => owned("0"),
        },
        None => owned("0"),
    }
}

fn enrich_data_disks(items: &Vec<JsonValue>, sub: &str, rg: &str) -> (r: Vec<JsonValue>)
    ensures
        crate::json::items_model(r@) == crate::json::items_model(items@).map_values(|d: Json| enriched_data_disk(d, sub@, rg@)),
{
    let mut out: Vec<JsonValue> = Vec::new();
    let mut i: usize = 0;
    proof {
        crate::json::lemma_items_model(items@);
    }
    while i < items.len()
        invariant
            i <= items@.len(),
            crate::json::items_model(items@).len() == items@.len(),
            forall|j: int| 0 <= j < items@.len() ==> #[trigger] crate::json::items_model(items@)[j] == items@[j]@,
            out@.len() == i,
            forall|j: int| 0 <= j < i ==> (#[trigger] out@[j])@ == enriched_data_disk(items@[j]@, sub@, rg@),
        decreases items.len() - i,
    {
        let mut d = items[i].deep_clone();
        if is_object(&d) {
            let lun = lun_of(&d);
            let fallback = join(&["datadisk-lun", lun.as_str()]);
            proof {
                reveal_with_fuel(concat_all, 3);
            }
            add_managed_disk_id(&mut d, sub, rg, fallback.as_str());
        }
        out.push(d);
        i = i + 1;
    }
    proof {
        crate::json::lemma_items_model(out@);
        assert(crate::json::items_model(out@) =~= crate::json::items_model(items@).map_values(|d: Json| enriched_data_disk(d, sub@, rg@)));
    }
    out
}

fn enrich_storage_profile(sp: &mut JsonValue, props: &JsonValue, sub: &str, rg: &str)
    ensures
        final(sp)@ == enriched_storage_profile(old(sp)@, props@, sub@, rg@),
{
    let os2 = match sp.member("osDisk") {
        Some(os) => {
            if is_object(os) {
                let mut o = os.deep_clone();
                enrich_os_disk(&mut o, props, sub, rg);
                Some(o)
            } else {
                None
            }
        },
        None => None,
    };
    match os2 {
        Some(o) => sp.set("osDisk", o),
        None => {},
    }
    let dd = match sp.member("dataDisks") {
        Some(v) => match v {
            JsonValue::Array(items) => Some(enrich_data_disks(items, sub, rg)),
            _ => None,
        },
        None => None,
    };
    match dd {
        Some(items) => sp.set("dataDisks", JsonValue::Array(items)),
        None => {},
    }
}

fn strip_os_profile(p: &mut JsonValue)
    ensures
        final(p)@ == stored_os_profile(old(p)@),
{
    p.remove("adminPassword");
    if !has_value(p, "secrets") {
        let v: Vec<JsonValue> = Vec::new();
        proof {
            assert(crate::json::items_model(v@) =~= Seq::<Json>::empty());
        }
        p.set("secrets", JsonValue::Array(v));
    }
}

/// Completes the properties of a virtual machine as the service does.
pub fn complete_vm_properties(props: &JsonValue, sub: &str, rg: &str, vm_id: &str, created: &str) -> (r: JsonValue)
    ensures
        r@ == vm_properties(props@, sub@, rg@, vm_id@, created@),
{
    let mut p = props.deep_clone();
    p.set("vmId", jstr(vm_id));
    p.set("provisioningState", jstr("Succeeded"));
    p.set("timeCreated", jstr(created));
    let sp2 = match p.member("storageProfile") {
        Some(sp) => {
            if is_object(sp) {
                let mut s2 = sp.deep_clone();
                enrich_storage_profile(&mut s2, &p, sub, rg);
                Some(s2)
            } else {
                None
            }
        },
        None => None,
    };
    match sp2 {
        Some(s2) => p.set("storageProfile", s2),
        None => {},
    }
    let op2 = match p.member("osProfile") {
        Some(op) => {
            if is_object(op) {
                let mut o = op.deep_clone();
                strip_os_profile(&mut o);
                Some(o)
            } else {
                None
            }
        },
        None => None,
    };
    match op2 {
        Some(o) => p.set("osProfile", o),
        None => {},
    }
    p
}

} // verus!

verus! {

fn push_opt(ms: &mut Vec<(String, JsonValue)>, key: &str, o: &Option<JsonValue>)
    ensures
        members_model(final(ms)@) == members_model(old(ms)@) + opt_member(key@, opt_doc(*o)),
{
    match o {
        Some(v) => push_member(ms, key, v.deep_clone()),
        None => {},
    }
    proof {
        assert(members_model(ms@) =~= members_model(old(ms)@) + opt_member(key@, opt_doc(*o)));
    }
}

/// Builds an entity tag of version `v`.
pub fn make_version_etag(v: u64) -> (r: String)
    ensures
        r@ == version_etag(v),
{
    let d = decimal_text(v);
    let r = join(&["\"", d.as_str(), "\""]);
    proof {
        reveal_with_fuel(concat_all, 4);
    }
    r
}

/// Builds the document of a virtual machine.
#[verifier::rlimit(50)]
pub fn make_vm(sub: &str, rg: &str, name: &str, params: &CreateVirtualMachineParams, version: u64, vm_id: &str, created: &str) -> (r: JsonValue)
    ensures
        r@ == vm_doc(sub@, rg@, name@, *params, version, vm_id@, created@),
{
    let id = join(&["/subscriptions/", sub, "/resourceGroups/", rg, "/providers/Microsoft.Compute/virtualMachines/", name]);
    proof {
        reveal_with_fuel(concat_all, 7);
    }
    let mut ms: Vec<(String, JsonValue)> = Vec::new();
    push_member(&mut ms, "id", JsonValue::Str(id));
    push_member(&mut ms, "name", jstr(name));
    push_member(&mut ms, "type", jstr("Microsoft.Compute/virtualMachines"));
    push_member(&mut ms, "location", jstr(params.location.as_str()));
    push_member(&mut ms, "tags", string_pairs_to_object(&params.tags));
    push_member(&mut ms, "etag", JsonValue::Str(make_version_etag(version)));
    let ghost m0 = members_model(ms@);
    push_opt(&mut ms, "identity", &params.identity);
    push_opt(&mut ms, "zones", &params.zones);
    push_opt(&mut ms, "extendedLocation", &params.extended_location);
    push_opt(&mut ms, "plan", &params.plan);
    let ghost m1 = members_model(ms@);
    push_member(&mut ms, "properties", complete_vm_properties(&params.properties, sub, rg, vm_id, created));
    let empty: Vec<JsonValue> = Vec::new();
    proof {
        assert(crate::json::items_model(empty@) =~= Seq::<Json>::empty());
    }
    push_member(&mut ms, "resources", JsonValue::Array(empty));
    let ghost m2 = members_model(ms@);
    push_opt(&mut ms, "placement", &params.placement);
    proof {
        assert(m0 =~= seq![
            ("id"@, Json::Str(vm_id_path(sub@, rg@, name@))),
            ("name"@, Json::Str(name@)),
            ("type"@, Json::Str("Microsoft.Compute/virtualMachines"@)),
            ("location"@, Json::Str(params.location@)),
            ("tags"@, string_pairs_object(params.tags@)),
            ("etag"@, Json::Str(version_etag(version))),
        ]);
        assert(m2 =~= m1 + seq![
            ("properties"@, vm_properties(params.properties@, sub@, rg@, vm_id@, created@)),
            ("resources"@, Json::Array(Seq::empty())),
        ]);
        assert(members_model(ms@) =~= vm_doc(sub@, rg@, name@, *params, version, vm_id@, created@)->Object_0);
    }
    JsonValue::Object(ms)
}

/// Whether a document can be read back as a virtual machine: an object
/// whose id, name, type and location are strings, whose properties are an
/// object, and whose tags, when present, are an object of strings.
pub open spec fn is_vm_doc(d: Json) -> bool {
    &&& crate::json::tags_readable(d)
    &&& d is Object
    &&& json_get(d, "id"@) matches Some(Json::Str(_))
    &&& json_get(d, "name"@) matches Some(Json::Str(_))
    &&& json_get(d, "type"@) matches Some(Json::Str(_))
    &&& json_get(d, "location"@) matches Some(Json::Str(_))
    &&& json_get(d, "properties"@) matches Some(Json::Object(_))
}

fn is_string_at(d: &JsonValue, key: &str) -> (b: bool)
    ensures
        b == (json_get(d@, key@) matches Some(Json::Str(_))),
{
    match d.member(key) {
        Some(v) => match v {
            JsonValue::Str(_) => true,
            _ => false,
        },
        None => false,
    }
}

/// Checks the shape `is_vm_doc` describes.
pub fn check_vm_doc(d: &JsonValue) -> (b: bool)
    ensures
        b == is_vm_doc(d@),
{
    if !is_object(d) {
        return false;
    }
    if !crate::json::check_tags(d) {
        return false;
    }
    if !(is_string_at(d, "id") && is_string_at(d, "name") && is_string_at(d, "type") && is_string_at(d, "location")) {
        return false;
    }
    match d.member("properties") {
        Some(p) => is_object(p),
        None => false,
    }
}

/// A machine document without the admin password of its os profile.
pub open spec fn without_admin_password(a: Json) -> Json {
    match json_get(a, "properties"@) {
        Some(props) => match json_get(props, "osProfile"@) {
            Some(op) => if op is Object {
                json_set(a, "properties"@, json_set(props, "osProfile"@, json_remove(op, "adminPassword"@)))
            } else {
                a
            },
            None => a,
        },
        None => a,
    }
}

/// A patched document as it is stored: a new entity tag, and the os
/// profile without its admin password.
pub open spec fn patched_vm(d: Json, version: u64) -> Json {
    without_admin_password(json_set(d, "etag"@, Json::Str(version_etag(version))))
}

/// The documents of virtual machines.
pub open spec fn vm_docs(v: Seq<VmView>) -> Seq<Json> {
    v.map_values(|x: VmView| x.doc)
}

/// The version a replaced or patched machine gets.
pub open spec fn next_version(v: u64) -> u64 {
    if v == u64::MAX { 0 } else { (v + 1) as u64 }
}

/// The documents of machines, in order.
pub fn vm_doc_list(vms: &Vec<VmState>) -> (r: Vec<JsonValue>)
    ensures
        docs(r@) == vm_docs(vms@.map_values(|v: VmState| v@)),
{
    let mut out: Vec<JsonValue> = Vec::new();
    let mut i: usize = 0;
    while i < vms.len()
        invariant
            i <= vms@.len(),
            docs(out@) == vm_docs(vms@.map_values(|v: VmState| v@).take(i as int)),
        decreases vms.len() - i,
    {
        let d = vms[i].doc.deep_clone();
        let ghost prev = out@;
        out.push(d);
        proof {
            assert(docs(out@) =~= docs(prev).push(d@));
            assert(vm_docs(vms@.map_values(|v: VmState| v@).take(i + 1)) =~= vm_docs(vms@.map_values(|v: VmState| v@).take(i as int)).push(vms@[i as int].doc@));
        }
        i = i + 1;
    }
    proof {
        assert(vms@.map_values(|v: VmState| v@).take(vms@.len() as int) =~= vms@.map_values(|v: VmState| v@));
    }
    out
}

} // verus!

verus! {

/// The location of a machine document.
pub open spec fn vm_location(d: Json) -> Seq<char> {
    match json_get(d, "location"@) {
        Some(Json::Str(s)) => s,
        _ => Seq::empty(),
    }
}

/// Documents of the machines whose lowered location equals `wanted`,
/// in order; `lowered[i]` is the lowered location of `vms[i]`.
pub open spec fn docs_at(vms: Seq<VmView>, lowered: Seq<Seq<char>>, wanted: Seq<char>) -> Seq<Json>
    decreases vms.len(),
{
    if vms.len() == 0 {
        Seq::empty()
    } else {
        let rest = docs_at(vms.drop_last(), lowered.drop_last(), wanted);
        if lowered.last() == wanted {
            rest.push(vms.last().doc)
        } else {
            rest
        }
    }
}

/// Keeps the documents of the machines whose lowered location is
/// `wanted`; `lowered` holds the lowered location of each machine.
pub fn select_by_location(vms: &Vec<VmState>, lowered: &Vec<String>, wanted: &str) -> (r: Vec<JsonValue>)
    requires
        lowered@.len() == vms@.len(),
    ensures
        docs(r@) == docs_at(vms@.map_values(|v: VmState| v@), lowered@.map_values(|s: String| s@), wanted@),
{
    let ghost vs = vms@.map_values(|v: VmState| v@);
    let ghost ls = lowered@.map_values(|s: String| s@);
    let mut out: Vec<JsonValue> = Vec::new();
    let mut i: usize = 0;
    while i < vms.len()
        invariant
            i <= vms@.len(),
            lowered@.len() == vms@.len(),
            vs == vms@.map_values(|v: VmState| v@),
            ls == lowered@.map_values(|s: String| s@),
            docs(out@) == docs_at(vs.take(i as int), ls.take(i as int), wanted@),
        decreases vms.len() - i,
    {
        proof {
            assert(vs.take(i + 1).drop_last() =~= vs.take(i as int));
            assert(ls.take(i + 1).drop_last() =~= ls.take(i as int));
        }
        if text_eq(lowered[i].as_str(), wanted) {
            let d = vms[i].doc.deep_clone();
            let ghost prev = out@;
            out.push(d);
            proof {
                assert(docs(out@) =~= docs(prev).push(d@));
            }
        }
        i = i + 1;
    }
    proof {
        assert(vs.take(vms@.len() as int) =~= vs);
        assert(ls.take(vms@.len() as int) =~= ls);
    }
    out
}

/// Status code of a power state in an instance view.
pub open spec fn power_code(p: PowerState) -> Seq<char> {
    match p {
        PowerState::Running => "PowerState/running"@,
        PowerState::Stopped => "PowerState/stopped"@,
        PowerState::Deallocated => "PowerState/deallocated"@,
        PowerState::Starting => "PowerState/starting"@,
        PowerState::Stopping => "PowerState/stopping"@,
    }
}

/// Display text of a power state in an instance view.
pub open spec fn power_display(p: PowerState) -> Seq<char> {
    match p {
        PowerState::Running => "VM running"@,
        PowerState::Stopped => "VM stopped"@,
        PowerState::Deallocated => "VM deallocated"@,
        PowerState::Starting => "VM starting"@,
        PowerState::Stopping => "VM stopping"@,
    }
}

/// The string at `outer.inner` of the machine's properties, or empty text.
pub open spec fn nested_text(props: Json, outer: Seq<char>, inner: Seq<char>) -> Seq<char> {
    match json_get(props, outer) {
        Some(o) => match json_get(o, inner) {
            Some(Json::Str(s)) => s,
            _ => Seq::empty(),
        },
        None => Seq::empty(),
    }
}

/// Computer name a machine reports.
pub open spec fn computer_name(d: Json) -> Seq<char> {
    match json_get(d, "properties"@) {
        Some(p) => nested_text(p, "osProfile"@, "computerName"@),
        None => Seq::empty(),
    }
}

/// OS type a machine reports.
pub open spec fn os_name(d: Json) -> Seq<char> {
    match json_get(d, "properties"@) {
        Some(p) => match json_get(p, "storageProfile"@) {
            Some(sp) => nested_text(sp, "osDisk"@, "osType"@),
            None => Seq::empty(),
        },
        None => Seq::empty(),
    }
}

/// A status entry of an instance view.
pub open spec fn status_doc(code: Seq<char>, display: Seq<char>, extra: Seq<(Seq<char>, Json)>) -> Json {
    Json::Object(seq![("code"@, Json::Str(code)), ("level"@, Json::Str("Info"@)), ("displayStatus"@, Json::Str(display))] + extra)
}

/// The instance view of a machine at time `now`.
pub open spec fn instance_view_doc(v: VmView, now: Seq<char>) -> Json {
    Json::Object(seq![
        ("computerName"@, Json::Str(computer_name(v.doc))),
        ("osName"@, Json::Str(os_name(v.doc))),
        ("osVersion"@, Json::Str(Seq::empty())),
        ("vmAgent"@, Json::Object(seq![
            ("vmAgentVersion"@, Json::Str("2.7.41491.1075"@)),
            ("statuses"@, Json::Array(seq![status_doc(
                "ProvisioningState/succeeded"@,
                "Ready"@,
                seq![
                    ("message"@, Json::Str("GuestAgent is running and processing the extensions."@)),
                    ("time"@, Json::Str(now)),
                ],
            )])),
        ])),
        ("disks"@, Json::Array(Seq::empty())),
        ("extensions"@, Json::Array(Seq::empty())),
        ("statuses"@, Json::Array(seq![
            status_doc("ProvisioningState/succeeded"@, "Provisioning succeeded"@, seq![("time"@, Json::Str(now))]),
            status_doc(power_code(v.power_state), power_display(v.power_state), Seq::empty()),
        ])),
    ])
}

/// Whether the machine's eviction policy is `Delete`.
pub open spec fn evicts_by_delete(d: Json) -> bool {
    match json_get(d, "properties"@) {
        Some(p) => json_get(p, "evictionPolicy"@) == Some(Json::Str("Delete"@)),
        None => false,
    }
}

} // verus!

verus! {

fn nested_string(props: &JsonValue, outer: &str, inner: &str) -> (r: String)
    ensures
        r@ == nested_text(props@, outer@, inner@),
{
    match props.member(outer) {
        Some(o) => match o.member(inner) {
            Some(v) => match v {
                JsonValue::Str(s) => s.clone(),
                _ => String::new(),
            },
            None => String::new(),
        },
        None => String::new(),
    }
}

fn power_code_text(p: PowerState) -> (r: &'static str)
    ensures
        r@ == power_code(p),
{
    match p {
        PowerState::Running => "PowerState/running",
        PowerState::Stopped => "PowerState/stopped",
        PowerState::Deallocated => "PowerState/deallocated",
        PowerState::Starting => "PowerState/starting",
        PowerState::Stopping => "PowerState/stopping",
    }
}

fn power_display_text(p: PowerState) -> (r: &'static str)
    ensures
        r@ == power_display(p),
{
    match p {
        PowerState::Running => "VM running",
        PowerState::Stopped => "VM stopped",
        PowerState::Deallocated => "VM deallocated",
        PowerState::Starting => "VM starting",
        PowerState::Stopping => "VM stopping",
    }
}

fn make_status(code: &str, display: &str, extra: Vec<(String, JsonValue)>) -> (r: JsonValue)
    ensures
        r@ == status_doc(code@, display@, crate::json::members_model(extra@)),
{
    let mut ms: Vec<(String, JsonValue)> = Vec::new();
    push_member(&mut ms, "code", jstr(code));
    push_member(&mut ms, "level", jstr("Info"));
    push_member(&mut ms, "displayStatus", jstr(display));
    let ghost head = ms@;
    let ghost tail = extra@;
    let mut extra = extra;
    ms.append(&mut extra);
    proof {
        assert(ms@ =~= head + tail);
        crate::json::lemma_members_concat(head, tail);
        assert(members_model(head) =~= seq![
            ("code"@, Json::Str(code@)),
            ("level"@, Json::Str("Info"@)),
            ("displayStatus"@, Json::Str(display@)),
        ]);
    }
    JsonValue::Object(ms)
}

/// Builds the instance view of a machine at time `now`.
pub fn make_instance_view(v: &VmState, now: &str) -> (r: JsonValue)
    ensures
        r@ == instance_view_doc(v@, now@),
{
    let computer = match v.doc.member("properties") {
        Some(p) => nested_string(p, "osProfile", "computerName"),
        None => String::new(),
    };
    let os = match v.doc.member("properties") {
        Some(p) => match p.member("storageProfile") {
            Some(sp) => nested_string(sp, "osDisk", "osType"),
            None => String::new(),
        },
        None => String::new(),
    };
    let mut agent_extra: Vec<(String, JsonValue)> = Vec::new();
    push_member(&mut agent_extra, "message", jstr("GuestAgent is running and processing the extensions."));
    push_member(&mut agent_extra, "time", jstr(now));
    let agent_status = make_status("ProvisioningState/succeeded", "Ready", agent_extra);
    let mut agent: Vec<(String, JsonValue)> = Vec::new();
    push_member(&mut agent, "vmAgentVersion", jstr("2.7.41491.1075"));
    let agent_statuses = vec![agent_status];
    proof {
        assert(agent_statuses@ =~= seq![agent_status]);
    }
    push_member(&mut agent, "statuses", JsonValue::Array(agent_statuses));
    let mut prov_extra: Vec<(String, JsonValue)> = Vec::new();
    push_member(&mut prov_extra, "time", jstr(now));
    let prov = make_status("ProvisioningState/succeeded", "Provisioning succeeded", prov_extra);
    let power = make_status(power_code_text(v.power_state), power_display_text(v.power_state), Vec::new());
    let mut ms: Vec<(String, JsonValue)> = Vec::new();
    push_member(&mut ms, "computerName", JsonValue::Str(computer));
    push_member(&mut ms, "osName", JsonValue::Str(os));
    push_member(&mut ms, "osVersion", JsonValue::Str(String::new()));
    push_member(&mut ms, "vmAgent", JsonValue::Object(agent));
    push_member(&mut ms, "disks", JsonValue::Array(Vec::new()));
    push_member(&mut ms, "extensions", JsonValue::Array(Vec::new()));
    let statuses = vec![prov, power];
    proof {
        assert(statuses@ =~= seq![prov, power]);
    }
    push_member(&mut ms, "statuses", JsonValue::Array(statuses));
    proof {
        let e = Seq::<JsonValue>::empty();
        assert(crate::json::items_model(e) =~= Seq::<Json>::empty());
        assert(crate::json::members_model(Seq::<(String, JsonValue)>::empty()) =~= Seq::<(Seq<char>, Json)>::empty());
        crate::json::lemma_items_model(seq![agent_status]);
        assert(crate::json::items_model(seq![agent_status]) =~= seq![agent_status@]);
        crate::json::lemma_items_model(seq![prov, power]);
        assert(crate::json::items_model(seq![prov, power]) =~= seq![prov@, power@]);
        assert(computer@ == computer_name(v.doc@));
        assert(os@ == os_name(v.doc@));
        assert(crate::json::members_model(agent_extra@) =~= seq![
            ("message"@, Json::Str("GuestAgent is running and processing the extensions."@)),
            ("time"@, Json::Str(now@)),
        ]);
        assert(crate::json::members_model(prov_extra@) =~= seq![("time"@, Json::Str(now@))]);
        assert(members_model(agent@) =~= seq![
            ("vmAgentVersion"@, Json::Str("2.7.41491.1075"@)),
            ("statuses"@, Json::Array(seq![agent_status@])),
        ]);
        assert(members_model(ms@) =~= instance_view_doc(v@, now@)->Object_0);
    }
    JsonValue::Object(ms)
}

} // verus!

verus! {

/// The version a machine gets when it is created or replaced under `key`.
pub open spec fn created_version(v: StoreView, key: Seq<Seq<char>>) -> u64 {
    if v.virtual_machines.contains_key(key) {
        next_version(v.virtual_machines[key].etag_version)
    } else {
        1
    }
}

/// `v` with the machine under `key` given power state `p`.
pub open spec fn with_power(v: StoreView, key: Seq<Seq<char>>, p: PowerState) -> StoreView {
    StoreView {
        virtual_machines: v.virtual_machines.insert(key, VmView { power_state: p, ..v.virtual_machines[key] }),
        ..v
    }
}

/// Outcome of an operation on an existing machine: the group check, then
/// the machine itself.
pub open spec fn vm_error(v: StoreView, sub: Seq<char>, rg: Seq<char>, name: Seq<char>, e: StoreError) -> bool {
    if group_missing(v, sub, rg) {
        group_error_matches(v, sub, rg, e)
    } else {
        e matches StoreError::VirtualMachineNotFound(n) && n@ == name
    }
}

/// Whether an operation on machine `name` can go ahead.
pub open spec fn vm_found(v: StoreView, sub: Seq<char>, rg: Seq<char>, name: Seq<char>) -> bool {
    !group_missing(v, sub, rg) && v.virtual_machines.contains_key(seq![sub, rg, name])
}

/// The lowered locations of machines.
pub open spec fn lowered_locations(v: Seq<VmView>) -> Seq<Seq<char>> {
    v.map_values(|x: VmView| lowercase(vm_location(x.doc)))
}

fn location_of(d: &JsonValue) -> (r: String)
    ensures
        r@ == vm_location(d@),
{
    match d.member("location") {
        Some(v) => match v {
            JsonValue::Str(s) => s.clone(),
            _ => String::new(),
        },
        None => String::new(),
    }
}

fn eviction_deletes(d: &JsonValue) -> (b: bool)
    ensures
        b == evicts_by_delete(d@),
{
    match d.member("properties") {
        Some(p) => match p.member("evictionPolicy") {
            Some(v) => match v {
                JsonValue::Str(s) => {
                    let b = text_eq(s.as_str(), "Delete");
                    proof {
                        reveal_strlit("Delete");
                        if b {
                            assert(v@ == Json::Str("Delete"@));
                        } else {
                            assert(s@ != "Delete"@);
                        }
                    }
                    b
                },
                _ => false,
            },
            None => false,
        },
        None => false,
    }
}

impl MockState {
    // ── Virtual machines ───────────────────────────────────────────────

    /// Finds machine `name`, after the group check.
    fn locate_vm(&self, subscription_id: &str, resource_group: &str, name: &str) -> (r: Result<usize, StoreError>)
        ensures
            match r {
                Ok(i) => vm_found(self@, subscription_id@, resource_group@, name@)
                    && i < self.virtual_machines.keys().len()
                    && self.virtual_machines.keys()[i as int] == seq![subscription_id@, resource_group@, name@],
                Err(e) => !vm_found(self@, subscription_id@, resource_group@, name@)
                    && vm_error(self@, subscription_id@, resource_group@, name@, e),
            },
    {
        match self.check_group(subscription_id, resource_group) {
            Err(e) => return Err(e),
            Ok(()) => {},
        }
        let key = path3(subscription_id, resource_group, name);
        match self.virtual_machines.find(&key) {
            Some(i) => {
                assert(self.virtual_machines.keys().contains(key@));
                Ok(i)
            },
            None => Err(StoreError::VirtualMachineNotFound(owned(name))),
        }
    }
}

} // verus!

verus! {

impl MockState {
    /// Creates or replaces machine `name` (PUT semantics). The machine is
    /// running; its entity-tag version is 1 when it is new and one more
    /// than before when it replaces one. `true` tells that it is new.
    pub fn create_virtual_machine(
        &mut self,
        subscription_id: &str,
        resource_group: &str,
        name: &str,
        params: &CreateVirtualMachineParams,
        fresh: &Fresh,
    ) -> (r: Result<(JsonValue, bool), StoreError>)
        ensures
            crate::store::parents_exist(old(self)@) ==> crate::store::parents_exist(final(self)@),
            group_missing(old(self)@, subscription_id@, resource_group@) ==> (r matches Err(e) && group_error_matches(old(self)@, subscription_id@, resource_group@, e) && final(self)@ == old(self)@),
            !group_missing(old(self)@, subscription_id@, resource_group@) ==> (r matches Ok((doc, is_new)) && {
                let key = seq![subscription_id@, resource_group@, name@];
                let version = created_version(old(self)@, key);
                &&& is_new == !old(self)@.virtual_machines.contains_key(key)
                &&& doc@ == vm_doc(subscription_id@, resource_group@, name@, *params, version, fresh.uuid@, fresh.rfc3339@)
                &&& final(self)@ == (StoreView {
                    virtual_machines: old(self)@.virtual_machines.insert(
                        key,
                        VmView { doc: doc@, power_state: PowerState::Running, etag_version: version },
                    ),
                    ..old(self)@
                })
            }),
    {
        match self.check_group(subscription_id, resource_group) {
            Err(e) => return Err(e),
            Ok(()) => {},
        }
        let key = path3(subscription_id, resource_group, name);
        let (is_new, version) = match self.virtual_machines.get(&key) {
            Some(vm) => (false, if vm.etag_version == u64::MAX { 0 } else { vm.etag_version + 1 }),
            None => (true, 1u64),
        };
        let doc = make_vm(subscription_id, resource_group, name, params, version, fresh.uuid.as_str(), fresh.rfc3339.as_str());
        let state = VmState { doc: doc.deep_clone(), power_state: PowerState::Running, etag_version: version };
        self.virtual_machines.insert(key, state);
        Ok((doc, is_new))
    }

    /// Machine `name`.
    pub fn get_virtual_machine(&self, subscription_id: &str, resource_group: &str, name: &str) -> (r: Option<JsonValue>)
        ensures
            match r {
                Some(d) => self@.virtual_machines.contains_key(seq![subscription_id@, resource_group@, name@])
                    && d@ == self@.virtual_machines[seq![subscription_id@, resource_group@, name@]].doc,
                None => !self@.virtual_machines.contains_key(seq![subscription_id@, resource_group@, name@]),
            },
    {
        match self.virtual_machines.get(&path3(subscription_id, resource_group, name)) {
            Some(vm) => Some(vm.doc.deep_clone()),
            None => None,
        }
    }

    /// The machines of a group; `None` when the subscription or the group
    /// does not exist.
    pub fn list_virtual_machines(&self, subscription_id: &str, resource_group: &str) -> (r: Option<Page>)
        ensures
            match r {
                Some(p) => !group_missing(self@, subscription_id@, resource_group@)
                    && docs(p.value@) == vm_docs(values_under(self.virtual_machines.pairs(), seq![subscription_id@, resource_group@]))
                    && lists_by(docs(p.value@), map_under(self@.virtual_machines, seq![subscription_id@, resource_group@]).map_values(|x: VmView| x.doc), keys_under(self.virtual_machines.pairs(), seq![subscription_id@, resource_group@]))
                    && p.value@.len() == map_under(self@.virtual_machines, seq![subscription_id@, resource_group@]).len()
                    && p.next_link is None,
                None => group_missing(self@, subscription_id@, resource_group@),
            },
    {
        if self.check_group(subscription_id, resource_group).is_err() {
            return None;
        }
        let vms = self.virtual_machines.values_under(&path2(subscription_id, resource_group));
        let d = vm_doc_list(&vms);
        proof {
            let s = vms@.map_values(|v: VmState| v@);
            lemma_lists_by_map_values(s, map_under(self@.virtual_machines, seq![subscription_id@, resource_group@]), keys_under(self.virtual_machines.pairs(), seq![subscription_id@, resource_group@]), |x: VmView| x.doc);
            assert(docs(d@) =~= s.map_values(|x: VmView| x.doc));
        }
        Some(Page::new(d))
    }

    /// Deletes machine `name`; `Ok(false)` when there was none.
    pub fn delete_virtual_machine(&mut self, subscription_id: &str, resource_group: &str, name: &str) -> (r: Result<bool, StoreError>)
        ensures
            crate::store::parents_exist(old(self)@) ==> crate::store::parents_exist(final(self)@),
            group_missing(old(self)@, subscription_id@, resource_group@) ==> (r matches Err(e) && group_error_matches(old(self)@, subscription_id@, resource_group@, e) && final(self)@ == old(self)@),
            !group_missing(old(self)@, subscription_id@, resource_group@) ==> (r matches Ok(existed) && {
                let key = seq![subscription_id@, resource_group@, name@];
                &&& existed == old(self)@.virtual_machines.contains_key(key)
                &&& final(self)@ == (StoreView { virtual_machines: old(self)@.virtual_machines.remove(key), ..old(self)@ })
            }),
    {
        match self.check_group(subscription_id, resource_group) {
            Err(e) => return Err(e),
            Ok(()) => {},
        }
        let existed = self.virtual_machines.remove(&path3(subscription_id, resource_group, name));
        Ok(existed.is_some())
    }

    /// Power state of machine `name`.
    pub fn get_vm_power_state(&self, subscription_id: &str, resource_group: &str, name: &str) -> (r: Option<PowerState>)
        ensures
            match r {
                Some(p) => self@.virtual_machines.contains_key(seq![subscription_id@, resource_group@, name@])
                    && p == self@.virtual_machines[seq![subscription_id@, resource_group@, name@]].power_state,
                None => !self@.virtual_machines.contains_key(seq![subscription_id@, resource_group@, name@]),
            },
    {
        match self.virtual_machines.get(&path3(subscription_id, resource_group, name)) {
            Some(vm) => Some(vm.power_state),
            None => None,
        }
    }

    fn put_power(&mut self, i: usize, power_state: PowerState)
        requires
            i < old(self).virtual_machines.keys().len(),
        ensures
            final(self)@ == with_power(old(self)@, old(self).virtual_machines.keys()[i as int], power_state),
    {
        let current = self.virtual_machines.value_at(i);
        let state = VmState { doc: current.doc.deep_clone(), power_state, etag_version: current.etag_version };
        self.virtual_machines.replace_at(i, state);
    }

    /// Sets the power state of machine `name`.
    pub fn set_vm_power_state(&mut self, subscription_id: &str, resource_group: &str, name: &str, power_state: PowerState) -> (r: Result<(), StoreError>)
        ensures
            crate::store::parents_exist(old(self)@) ==> crate::store::parents_exist(final(self)@),
            vm_found(old(self)@, subscription_id@, resource_group@, name@) ==> r is Ok && final(self)@ == with_power(
                old(self)@,
                seq![subscription_id@, resource_group@, name@],
                power_state,
            ),
            !vm_found(old(self)@, subscription_id@, resource_group@, name@) ==> (r matches Err(e) && vm_error(old(self)@, subscription_id@, resource_group@, name@, e) && final(self)@ == old(self)@),
    {
        let i = self.locate_vm(subscription_id, resource_group, name)?;
        self.put_power(i, power_state);
        Ok(())
    }

    /// Marks machine `name` generalized: it is stopped.
    pub fn generalize_virtual_machine(&mut self, subscription_id: &str, resource_group: &str, name: &str) -> (r: Result<(), StoreError>)
        ensures
            crate::store::parents_exist(old(self)@) ==> crate::store::parents_exist(final(self)@),
            vm_found(old(self)@, subscription_id@, resource_group@, name@) ==> r is Ok && final(self)@ == with_power(
                old(self)@,
                seq![subscription_id@, resource_group@, name@],
                PowerState::Stopped,
            ),
            !vm_found(old(self)@, subscription_id@, resource_group@, name@) ==> (r matches Err(e) && vm_error(old(self)@, subscription_id@, resource_group@, name@, e) && final(self)@ == old(self)@),
    {
        self.set_vm_power_state(subscription_id, resource_group, name, PowerState::Stopped)
    }

    /// Evicts spot machine `name`: it is deleted when its eviction policy
    /// is `Delete`, and deallocated otherwise.
    pub fn simulate_eviction(&mut self, subscription_id: &str, resource_group: &str, name: &str) -> (r: Result<(), StoreError>)
        ensures
            crate::store::parents_exist(old(self)@) ==> crate::store::parents_exist(final(self)@),
            vm_found(old(self)@, subscription_id@, resource_group@, name@) ==> r is Ok && {
                let key = seq![subscription_id@, resource_group@, name@];
                final(self)@ == if evicts_by_delete(old(self)@.virtual_machines[key].doc) {
                    StoreView { virtual_machines: old(self)@.virtual_machines.remove(key), ..old(self)@ }
                } else {
                    with_power(old(self)@, key, PowerState::Deallocated)
                }
            },
            !vm_found(old(self)@, subscription_id@, resource_group@, name@) ==> (r matches Err(e) && vm_error(old(self)@, subscription_id@, resource_group@, name@, e) && final(self)@ == old(self)@),
    {
        let i = self.locate_vm(subscription_id, resource_group, name)?;
        let deletes = eviction_deletes(&self.virtual_machines.value_at(i).doc);
        if deletes {
            self.virtual_machines.remove(&path3(subscription_id, resource_group, name));
        } else {
            self.put_power(i, PowerState::Deallocated);
        }
        Ok(())
    }
}

} // verus!

verus! {

fn strip_admin_password(d: &mut JsonValue)
    ensures
        final(d)@ == without_admin_password(old(d)@),
{
    let props2 = match d.member("properties") {
        Some(props) => match props.member("osProfile") {
            Some(op) => {
                if is_object(op) {
                    let mut o = op.deep_clone();
                    o.remove("adminPassword");
                    let mut p2 = props.deep_clone();
                    p2.set("osProfile", o);
                    Some(p2)
                } else {
                    None
                }
            },
            None => None,
        },
        None => None,
    };
    match props2 {
        Some(p2) => d.set("properties", p2),
        None => {},
    }
}

impl MockState {
    /// Merges `patch` into the document of machine `name` (PATCH). The
    /// result must still read as a machine; it gets the next entity-tag
    /// version and loses any admin password.
    pub fn update_virtual_machine(&mut self, subscription_id: &str, resource_group: &str, name: &str, patch: &JsonValue) -> (r: Result<JsonValue, StoreError>)
        ensures
            crate::store::parents_exist(old(self)@) ==> crate::store::parents_exist(final(self)@),
            !vm_found(old(self)@, subscription_id@, resource_group@, name@) ==> (r matches Err(e) && vm_error(old(self)@, subscription_id@, resource_group@, name@, e) && final(self)@ == old(self)@),
            vm_found(old(self)@, subscription_id@, resource_group@, name@) ==> {
                let key = seq![subscription_id@, resource_group@, name@];
                let before = old(self)@.virtual_machines[key];
                let m = crate::json::merge_json(before.doc, patch@);
                let version = next_version(before.etag_version);
                if is_vm_doc(m) {
                    r matches Ok(d) && d@ == patched_vm(m, version) && final(self)@ == (StoreView {
                        virtual_machines: old(self)@.virtual_machines.insert(
                            key,
                            VmView { doc: patched_vm(m, version), power_state: before.power_state, etag_version: version },
                        ),
                        ..old(self)@
                    })
                } else {
                    r matches Err(StoreError::PatchFailed(_)) && final(self)@ == old(self)@
                }
            },
    {
        let i = self.locate_vm(subscription_id, resource_group, name)?;
        let current = self.virtual_machines.value_at(i);
        let mut m = merged(current.doc.deep_clone(), patch);
        if !check_vm_doc(&m) {
            return Err(StoreError::PatchFailed(owned("the result is not a virtual machine")));
        }
        let version = if current.etag_version == u64::MAX { 0 } else { current.etag_version + 1 };
        let power_state = current.power_state;
        m.set("etag", JsonValue::Str(make_version_etag(version)));
        strip_admin_password(&mut m);
        let state = VmState { doc: m.deep_clone(), power_state, etag_version: version };
        self.virtual_machines.replace_at(i, state);
        Ok(m)
    }
}

} // verus!

verus! {

impl MockState {
    /// The machines of every group of a subscription; `None` when it does
    /// not exist.
    pub fn list_all_virtual_machines(&self, subscription_id: &str) -> (r: Option<Page>)
        ensures
            match r {
                Some(p) => self@.subscriptions.contains_key(seq![subscription_id@])
                    && docs(p.value@) == vm_docs(values_under(self.virtual_machines.pairs(), seq![subscription_id@]))
                    && lists_by(docs(p.value@), map_under(self@.virtual_machines, seq![subscription_id@]).map_values(|x: VmView| x.doc), keys_under(self.virtual_machines.pairs(), seq![subscription_id@]))
                    && p.value@.len() == map_under(self@.virtual_machines, seq![subscription_id@]).len()
                    && p.next_link is None,
                None => !self@.subscriptions.contains_key(seq![subscription_id@]),
            },
    {
        if !self.subscriptions.contains_key(&path1(subscription_id)) {
            return None;
        }
        let vms = self.virtual_machines.values_under(&path1(subscription_id));
        let d = vm_doc_list(&vms);
        proof {
            let s = vms@.map_values(|v: VmState| v@);
            lemma_lists_by_map_values(s, map_under(self@.virtual_machines, seq![subscription_id@]), keys_under(self.virtual_machines.pairs(), seq![subscription_id@]), |x: VmView| x.doc);
            assert(docs(d@) =~= s.map_values(|x: VmView| x.doc));
        }
        Some(Page::new(d))
    }

    /// The machines of a subscription at `location`, compared without
    /// regard to case; `None` when the subscription does not exist.
    pub fn list_virtual_machines_by_location(&self, subscription_id: &str, location: &str) -> (r: Option<Page>)
        ensures
            match r {
                Some(p) => self@.subscriptions.contains_key(seq![subscription_id@]) && {
                    let vms = values_under(self.virtual_machines.pairs(), seq![subscription_id@]);
                    &&& docs(p.value@) == docs_at(vms, lowered_locations(vms), lowercase(location@))
                    &&& lists_by(vms, map_under(self@.virtual_machines, seq![subscription_id@]), keys_under(self.virtual_machines.pairs(), seq![subscription_id@]))
                } && p.next_link is None,
                None => !self@.subscriptions.contains_key(seq![subscription_id@]),
            },
    {
        if !self.subscriptions.contains_key(&path1(subscription_id)) {
            return None;
        }
        let vms = self.virtual_machines.values_under(&path1(subscription_id));
        let ghost vs = vms@.map_values(|v: VmState| v@);
        let mut lowered: Vec<String> = Vec::new();
        let mut i: usize = 0;
        while i < vms.len()
            invariant
                i <= vms@.len(),
                vs == vms@.map_values(|v: VmState| v@),
                lowered@.map_values(|s: String| s@) == lowered_locations(vs).take(i as int),
            decreases vms.len() - i,
        {
            let loc = location_of(&vms[i].doc);
            let l = to_lower(loc.as_str());
            let ghost prev = lowered@;
            lowered.push(l);
            proof {
                assert(lowered@.map_values(|s: String| s@) =~= prev.map_values(|s: String| s@).push(l@));
                assert(lowered_locations(vs).take(i + 1) =~= lowered_locations(vs).take(i as int).push(l@));
            }
            i = i + 1;
        }
        proof {
            assert(lowered_locations(vs).take(vs.len() as int) =~= lowered_locations(vs));
        }
        let wanted = to_lower(location);
        let selected = select_by_location(&vms, &lowered, wanted.as_str());
        Some(Page::new(selected))
    }

    /// The instance view of machine `name` at time `fresh.rfc3339`.
    pub fn get_vm_instance_view(&self, subscription_id: &str, resource_group: &str, name: &str, fresh: &Fresh) -> (r: Option<JsonValue>)
        ensures
            match r {
                Some(d) => self@.virtual_machines.contains_key(seq![subscription_id@, resource_group@, name@])
                    && d@ == instance_view_doc(self@.virtual_machines[seq![subscription_id@, resource_group@, name@]], fresh.rfc3339@),
                None => !self@.virtual_machines.contains_key(seq![subscription_id@, resource_group@, name@]),
            },
    {
        match self.virtual_machines.get(&path3(subscription_id, resource_group, name)) {
            Some(vm) => Some(make_instance_view(vm, fresh.rfc3339.as_str())),
            None => None,
        }
    }
}

} // verus!

verus! {

/// One VM size entry.
pub open spec fn size_doc(name: Seq<char>, cores: u64, resource_mb: u64, memory_mb: u64, max_disks: u64) -> Json {
    Json::Object(seq![
        ("name"@, Json::Str(name)),
        ("numberOfCores"@, Json::Number(decimal(cores as nat))),
        ("osDiskSizeInMB"@, Json::Number("1047552"@)),
        ("resourceDiskSizeInMB"@, Json::Number(decimal(resource_mb as nat))),
        ("memoryInMB"@, Json::Number(decimal(memory_mb as nat))),
        ("maxDataDiskCount"@, Json::Number(decimal(max_disks as nat))),
    ])
}

/// The sizes every machine can be resized to.
pub open spec fn vm_sizes_doc() -> Json {
    Json::Object(seq![("value"@, Json::Array(seq![
        size_doc("Standard_A1_v2"@, 1, 10240, 2048, 2),
        size_doc("Standard_A2_v2"@, 2, 20480, 4096, 4),
        size_doc("Standard_B1s"@, 1, 4096, 1024, 2),
        size_doc("Standard_B2s"@, 2, 8192, 4096, 4),
        size_doc("Standard_D2s_v3"@, 2, 16384, 8192, 4),
        size_doc("Standard_D4s_v3"@, 4, 32768, 16384, 8),
        size_doc("Standard_D8s_v3"@, 8, 65536, 32768, 16),
        size_doc("Standard_DS1_v2"@, 1, 7168, 3584, 4),
        size_doc("Standard_DS2_v2"@, 2, 14336, 7168, 8),
        size_doc("Standard_DS3_v2"@, 4, 28672, 14336, 16),
        size_doc("Standard_E2s_v3"@, 2, 32768, 16384, 4),
        size_doc("Standard_F2s_v2"@, 2, 16384, 4096, 4),
    ]))])
}

fn make_size(name: &str, cores: u64, resource_mb: u64, memory_mb: u64, max_disks: u64) -> (r: JsonValue)
    ensures
        r@ == size_doc(name@, cores, resource_mb, memory_mb, max_disks),
{
    let mut ms: Vec<(String, JsonValue)> = Vec::new();
    push_member(&mut ms, "name", jstr(name));
    push_member(&mut ms, "numberOfCores", JsonValue::Number(decimal_text(cores)));
    push_member(&mut ms, "osDiskSizeInMB", JsonValue::Number(owned("1047552")));
    push_member(&mut ms, "resourceDiskSizeInMB", JsonValue::Number(decimal_text(resource_mb)));
    push_member(&mut ms, "memoryInMB", JsonValue::Number(decimal_text(memory_mb)));
    push_member(&mut ms, "maxDataDiskCount", JsonValue::Number(decimal_text(max_disks)));
    proof {
        assert(members_model(ms@) =~= size_doc(name@, cores, resource_mb, memory_mb, max_disks)->Object_0);
    }
    JsonValue::Object(ms)
}

/// The sizes a machine can be resized to; the list is the same for every
/// machine.
pub fn available_sizes() -> (r: JsonValue)
    ensures
        r@ == vm_sizes_doc(),
{
    let v = vec![
        make_size("Standard_A1_v2", 1, 10240, 2048, 2),
        make_size("Standard_A2_v2", 2, 20480, 4096, 4),
        make_size("Standard_B1s", 1, 4096, 1024, 2),
        make_size("Standard_B2s", 2, 8192, 4096, 4),
        make_size("Standard_D2s_v3", 2, 16384, 8192, 4),
        make_size("Standard_D4s_v3", 4, 32768, 16384, 8),
        make_size("Standard_D8s_v3", 8, 65536, 32768, 16),
        make_size("Standard_DS1_v2", 1, 7168, 3584, 4),
        make_size("Standard_DS2_v2", 2, 14336, 7168, 8),
        make_size("Standard_DS3_v2", 4, 28672, 14336, 16),
        make_size("Standard_E2s_v3", 2, 32768, 16384, 4),
        make_size("Standard_F2s_v2", 2, 16384, 4096, 4),
    ];
    proof {
        crate::json::lemma_items_model(v@);
        assert(crate::json::items_model(v@) =~= vm_sizes_doc()->Object_0[0].1->Array_0);
    }
    let mut ms: Vec<(String, JsonValue)> = Vec::new();
    push_member(&mut ms, "value", JsonValue::Array(v));
    proof {
        assert(members_model(ms@) =~= vm_sizes_doc()->Object_0);
    }
    JsonValue::Object(ms)
}

} // verus!
