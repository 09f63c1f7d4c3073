use vstd::prelude::*;

verus! {

/// Mathematical model of a JSON document. Numbers are kept as their
/// decimal text; object members keep their order, and a lookup sees the
/// first member with a given key.
pub enum Json {
    Null,
    Bool(bool),
    Number(Seq<char>),
    Str(Seq<char>),
    Array(Seq<Json>),
    Object(Seq<(Seq<char>, Json)>),
}

/// An executable JSON document.
#[derive(Debug)]
pub enum JsonValue {
    Null,
    Bool(bool),
    Number(String),
    Str(String),
    Array(Vec<JsonValue>),
    Object(Vec<(String, JsonValue)>),
}

pub open spec fn items_model(items: Seq<JsonValue>) -> Seq<Json>
    decreases items,
{
    if items.len() == 0 {
        Seq::empty()
    } else {
        items_model(items.drop_last()).push(json_model(items.last()))
    }
}

pub open spec fn members_model(members: Seq<(String, JsonValue)>) -> Seq<(Seq<char>, Json)>
    decreases members,
{
    if members.len() == 0 {
        Seq::empty()
    } else {
        members_model(members.drop_last()).push(
            (members.last().0@, json_model(members.last().1)),
        )
    }
}

pub open spec fn json_model(v: JsonValue) -> Json
    decreases v,
{
    match v {
        JsonValue::Null => Json::Null,
        JsonValue::Bool(b) => Json::Bool(b),
        JsonValue::Number(n) => Json::Number(n@),
        JsonValue::Str(s) => Json::Str(s@),
        JsonValue::Array(items) => Json::Array(items_model(items@)),
        JsonValue::Object(members) => Json::Object(members_model(members@)),
    }
}

impl View for JsonValue {
    type V = Json;

    open spec fn view(&self) -> Json {
        json_model(*self)
    }
}

} // verus!

verus! {

pub proof fn lemma_items_model(items: Seq<JsonValue>)
    ensures
        items_model(items).len() == items.len(),
        forall|i: int| 0 <= i < items.len() ==> #[trigger] items_model(items)[i] == json_model(items[i]),
    decreases items.len(),
{
    if items.len() > 0 {
        lemma_items_model(items.drop_last());
    }
}

pub proof fn lemma_members_model(members: Seq<(String, JsonValue)>)
    ensures
        members_model(members).len() == members.len(),
        forall|i: int|
            0 <= i < members.len() ==> #[trigger] members_model(members)[i] == (
                members[i].0@,
                json_model(members[i].1),
            ),
    decreases members.len(),
{
    if members.len() > 0 {
        lemma_members_model(members.drop_last());
    }
}

/// `i` is the position of the first member named `k`.
pub open spec fn is_first_key(ms: Seq<(Seq<char>, Json)>, k: Seq<char>, i: int) -> bool {
    &&& 0 <= i < ms.len()
    &&& ms[i].0 == k
    &&& forall|j: int| 0 <= j < i ==> ms[j].0 != k
}

/// Position of the first member named `k`, or -1 when there is none.
pub open spec fn key_index(ms: Seq<(Seq<char>, Json)>, k: Seq<char>) -> int {
    if exists|i: int| is_first_key(ms, k, i) {
        choose|i: int| is_first_key(ms, k, i)
    } else {
        -1
    }
}

/// The value of member `k`, as a reader of the document sees it.
pub open spec fn member_get(ms: Seq<(Seq<char>, Json)>, k: Seq<char>) -> Option<Json> {
    if key_index(ms, k) >= 0 {
        Some(ms[key_index(ms, k)].1)
    } else {
        None
    }
}

/// Member `k` set to `v`: the first member named `k` is replaced, or the
/// member is appended when there is none.
pub open spec fn member_set(ms: Seq<(Seq<char>, Json)>, k: Seq<char>, v: Json) -> Seq<(Seq<char>, Json)> {
    if key_index(ms, k) >= 0 {
        ms.update(key_index(ms, k), (k, v))
    } else {
        ms.push((k, v))
    }
}

/// Every member named `k` removed.
pub open spec fn member_remove(ms: Seq<(Seq<char>, Json)>, k: Seq<char>) -> Seq<(Seq<char>, Json)> {
    ms.filter(|m: (Seq<char>, Json)| m.0 != k)
}

pub proof fn lemma_key_index(ms: Seq<(Seq<char>, Json)>, k: Seq<char>, i: int)
    requires
        0 <= i <= ms.len(),
        forall|j: int| 0 <= j < i ==> ms[j].0 != k,
    ensures
        i < ms.len() && ms[i].0 == k ==> key_index(ms, k) == i,
        i == ms.len() ==> key_index(ms, k) == -1,
{
    if i < ms.len() && ms[i].0 == k {
        assert(is_first_key(ms, k, i));
        let c = choose|c: int| is_first_key(ms, k, c);
        assert(is_first_key(ms, k, c));
        if c < i {
        } else if c > i {
        }
    }
    if i == ms.len() {
        assert(!exists|c: int| is_first_key(ms, k, c));
    }
}

impl JsonValue {
    /// A structurally equal copy of the document.
    pub fn deep_clone(&self) -> (r: JsonValue)
        ensures
            r@ == self@,
        decreases self,
    {
        match self {
            JsonValue::Null => JsonValue::Null,
            JsonValue::Bool(b) => JsonValue::Bool(*b),
            JsonValue::Number(n) => JsonValue::Number(n.clone()),
            JsonValue::Str(s) => JsonValue::Str(s.clone()),
            JsonValue::Array(items) => {
                let mut out: Vec<JsonValue> = Vec::new();
                let mut i: usize = 0;
                while i < items.len()
                    invariant
                        *self == JsonValue::Array(*items),
                        i <= items.len(),
                        out.len() == i,
                        forall|j: int| 0 <= j < i ==> json_model(#[trigger] out@[j]) == json_model(items@[j]),
                    decreases items.len() - i,
                {
                    proof {
                        assert(decreases_to!(self => (*self)->Array_0));
                        assert(decreases_to!(items => items@));
                        assert(decreases_to!(items@ => items@[i as int]));
                    }
                    let c = items[i].deep_clone();
                    out.push(c);
                    i = i + 1;
                }
                proof {
                    lemma_items_model(out@);
                    lemma_items_model(items@);
                    assert(items_model(out@) =~= items_model(items@));
                }
                JsonValue::Array(out)
            },
            JsonValue::Object(members) => {
                let mut out: Vec<(String, JsonValue)> = Vec::new();
                let mut i: usize = 0;
                while i < members.len()
                    invariant
                        *self == JsonValue::Object(*members),
                        i <= members.len(),
                        out.len() == i,
                        forall|j: int|
                            0 <= j < i ==> (#[trigger] out@[j]).0@ == members@[j].0@ && json_model(
                                out@[j].1,
                            ) == json_model(members@[j].1),
                    decreases members.len() - i,
                {
                    let k = members[i].0.clone();
                    proof {
                        assert(decreases_to!(self => (*self)->Object_0));
                        assert(decreases_to!(members => members@));
                        assert(decreases_to!(members@ => members@[i as int]));
                        assert(decreases_to!(members@[i as int] => members@[i as int].1));
                    }
                    let c = members[i].1.deep_clone();
                    out.push((k, c));
                    i = i + 1;
                }
                proof {
                    lemma_members_model(out@);
                    lemma_members_model(members@);
                    assert(members_model(out@) =~= members_model(members@));
                }
                JsonValue::Object(out)
            },
        }
    }
}

} // verus!

verus! {

proof fn lemma_members_push(ms: Seq<(String, JsonValue)>, m: (String, JsonValue))
    ensures
        members_model(ms.push(m)) == members_model(ms).push((m.0@, json_model(m.1))),
{
    assert(ms.push(m).drop_last() =~= ms);
}

proof fn lemma_members_take(ms: Seq<(String, JsonValue)>, i: int)
    requires
        0 <= i < ms.len(),
    ensures
        members_model(ms.take(i + 1)) == members_model(ms.take(i)).push(
            (ms[i].0@, json_model(ms[i].1)),
        ),
{
    assert(ms.take(i + 1).drop_last() =~= ms.take(i));
}

proof fn lemma_members_update(ms: Seq<(String, JsonValue)>, i: int, m: (String, JsonValue))
    requires
        0 <= i < ms.len(),
    ensures
        members_model(ms.update(i, m)) == members_model(ms).update(i, (m.0@, json_model(m.1))),
{
    lemma_members_model(ms);
    lemma_members_model(ms.update(i, m));
    assert(members_model(ms.update(i, m)) =~= members_model(ms).update(i, (m.0@, json_model(m.1))));
}

/// Position of the first member named `key`.
pub fn find_member(ms: &Vec<(String, JsonValue)>, key: &str) -> (r: Option<usize>)
    ensures
        match r {
            Some(i) => i < ms@.len() && key_index(members_model(ms@), key@) == i,
            None => key_index(members_model(ms@), key@) == -1,
        },
{
    proof {
        lemma_members_model(ms@);
    }
    let mut i: usize = 0;
    while i < ms.len()
        invariant
            i <= ms@.len(),
            members_model(ms@).len() == ms@.len(),
            forall|j: int| 0 <= j < ms@.len() ==> #[trigger] members_model(ms@)[j] == (ms@[j].0@, json_model(ms@[j].1)),
            forall|j: int| 0 <= j < i ==> members_model(ms@)[j].0 != key@,
        decreases ms.len() - i,
    {
        if crate::text::text_eq(ms[i].0.as_str(), key) {
            proof {
                lemma_key_index(members_model(ms@), key@, i as int);
            }
            return Some(i);
        }
        i = i + 1;
    }
    proof {
        lemma_key_index(members_model(ms@), key@, i as int);
    }
    None
}

/// Sets member `key` to `v`.
pub fn set_member(ms: &mut Vec<(String, JsonValue)>, key: String, v: JsonValue)
    ensures
        members_model(final(ms)@) == member_set(members_model(old(ms)@), key@, v@),
{
    match find_member(ms, key.as_str()) {
        Some(i) => {
            let ghost k = key@;
            let ghost vv = v@;
            ms.set(i, (key, v));
            proof {
                lemma_members_update(old(ms)@, i as int, ms@[i as int]);
                assert(ms@ =~= old(ms)@.update(i as int, ms@[i as int]));
            }
        },
        None => {
            let ghost k = key@;
            ms.push((key, v));
            proof {
                lemma_members_push(old(ms)@, ms@.last());
                assert(ms@ =~= old(ms)@.push(ms@.last()));
            }
        },
    }
}

/// Removes every member named `key`.
pub fn remove_member(ms: &mut Vec<(String, JsonValue)>, key: &str)
    ensures
        members_model(final(ms)@) == member_remove(members_model(old(ms)@), key@),
{
    let ghost src = ms@;
    let ghost pred = |m: (Seq<char>, Json)| m.0 != key@;
    let mut es: Vec<(String, JsonValue)> = Vec::new();
    std::mem::swap(ms, &mut es);
    let mut kept: Vec<(String, JsonValue)> = Vec::new();
    while es.len() > 0
        invariant
            es@.len() <= src.len(),
            es@ == src.subrange(src.len() - es@.len(), src.len() as int),
            pred == (|m: (Seq<char>, Json)| m.0 != key@),
            members_model(kept@) == members_model(src.take(src.len() - es@.len())).filter(pred),
        decreases es.len(),
    {
        let ghost i = src.len() - es@.len();
        let ghost prev_es = es@;
        let (k, v) = es.remove(0);
        proof {
            reveal(Seq::filter);
            assert(es@ =~= prev_es.subrange(1, prev_es.len() as int));
            assert(es@ =~= src.subrange(src.len() - es@.len(), src.len() as int));
            assert(prev_es[0] == src[i]);
            lemma_members_take(src, i);
            let m1 = members_model(src.take(i + 1));
            let m0 = members_model(src.take(i));
            assert(m1.drop_last() =~= m0);
            assert(m1.last() == (k@, json_model(v)));
        }
        if !crate::text::text_eq(k.as_str(), key) {
            let ghost prev = kept@;
            kept.push((k, v));
            proof {
                lemma_members_push(prev, kept@.last());
                assert(kept@ =~= prev.push(kept@.last()));
            }
        }
    }
    proof {
        assert(src.take(src.len() as int) =~= src);
    }
    *ms = kept;
}

/// The value of member `key`, if there is one.
pub fn get_member<'a>(ms: &'a Vec<(String, JsonValue)>, key: &str) -> (r: Option<&'a JsonValue>)
    ensures
        match r {
            Some(v) => member_get(members_model(ms@), key@) == Some(v@),
            None => member_get(members_model(ms@), key@) == None::<Json>,
        },
{
    proof {
        lemma_members_model(ms@);
    }
    match find_member(ms, key) {
        Some(i) => Some(&ms[i].1),
        None => None,
    }
}

} // verus!

verus! {

/// JSON merge patch (RFC 7396): an object patch is applied member by
/// member to the target, a target that is not an object counting as an
/// empty one; any other patch replaces the target.
pub open spec fn merge_json(target: Json, patch: Json) -> Json
    decreases patch, 1int,
{
    match patch {
        Json::Object(pm) => Json::Object(merge_members(
            match target {
                Json::Object(tm) => tm,
                _ => Seq::empty(),
            },
            pm,
        )),
        _ => patch,
    }
}

/// The members of `pm` applied in order to the members `tm`.
pub open spec fn merge_members(tm: Seq<(Seq<char>, Json)>, pm: Seq<(Seq<char>, Json)>) -> Seq<
    (Seq<char>, Json),
>
    decreases pm, 0int,
{
    if pm.len() == 0 {
        tm
    } else {
        merge_member(merge_members(tm, pm.drop_last()), pm.last().0, pm.last().1)
    }
}

/// One patch member applied: `null` removes the member, an object is
/// merged into the current value (an empty object when there is none),
/// anything else replaces it.
pub open spec fn merge_member(acc: Seq<(Seq<char>, Json)>, k: Seq<char>, v: Json) -> Seq<
    (Seq<char>, Json),
>
    decreases v, 2int,
{
    match v {
        Json::Null => member_remove(acc, k),
        Json::Object(_) => {
            let base = match member_get(acc, k) {
                Some(e) => e,
                None => Json::Object(Seq::empty()),
            };
            member_set(acc, k, merge_json(base, v))
        },
        _ => member_set(acc, k, v),
    }
}

/// `patch` merged into `target`.
pub fn merged(target: JsonValue, patch: &JsonValue) -> (r: JsonValue)
    ensures
        r@ == merge_json(target@, patch@),
    decreases patch,
{
    match patch {
        JsonValue::Object(pm) => {
            let tm0: Vec<(String, JsonValue)> = match target {
                JsonValue::Object(tm) => tm,
                _ => Vec::new(),
            };
            proof {
                assert(members_model(Seq::<(String, JsonValue)>::empty()) =~= Seq::<(Seq<char>, Json)>::empty());
            }
            {
                let ghost orig = members_model(tm0@);
                let ghost pmm = members_model(pm@);
                proof {
                    lemma_members_model(pm@);
                }
                let mut tm = tm0;
                let mut i: usize = 0;
                while i < pm.len()
                    invariant
                        *patch == JsonValue::Object(*pm),
                        i <= pm@.len(),
                        pmm == members_model(pm@),
                        pmm.len() == pm@.len(),
                        forall|j: int| 0 <= j < pm@.len() ==> #[trigger] pmm[j] == (pm@[j].0@, json_model(pm@[j].1)),
                        members_model(tm@) == merge_members(orig, pmm.take(i as int)),
                    decreases pm.len() - i,
                {
                    proof {
                        assert(pmm.take(i + 1).drop_last() =~= pmm.take(i as int));
                        assert(pmm.take(i + 1).last() == pmm[i as int]);
                    }
                    let k = &pm[i].0;
                    let v = &pm[i].1;
                    let ghost acc = members_model(tm@);
                    proof {
                        assert(merge_members(orig, pmm.take(i + 1)) == merge_member(acc, k@, json_model(*v)));
                    }
                    match v {
                        JsonValue::Null => {
                            remove_member(&mut tm, k.as_str());
                        },
                        JsonValue::Object(_) => {
                            let base = match get_member(&tm, k.as_str()) {
                                Some(e) => e.deep_clone(),
                                None => JsonValue::Object(Vec::new()),
                            };
                            proof {
                                assert(members_model(Seq::<(String, JsonValue)>::empty()) =~= Seq::<(Seq<char>, Json)>::empty());
                                assert(decreases_to!(patch => (*patch)->Object_0));
                                assert(decreases_to!(pm => pm@));
                                assert(decreases_to!(pm@ => pm@[i as int]));
                                assert(decreases_to!(pm@[i as int] => pm@[i as int].1));
                            }
                            let m = merged(base, v);
                            set_member(&mut tm, k.clone(), m);
                        },
                        _ => {
                            set_member(&mut tm, k.clone(), v.deep_clone());
                        },
                    }
                    i = i + 1;
                }
                proof {
                    assert(pmm.take(pm@.len() as int) =~= pmm);
                }
                JsonValue::Object(tm)
            }
        },
        _ => patch.deep_clone(),
    }
}

/// Merges `patch` into `target` in place.
pub fn json_merge(target: &mut JsonValue, patch: &JsonValue)
    ensures
        final(target)@ == merge_json(old(target)@, patch@),
{
    let mut t = JsonValue::Null;
    std::mem::swap(target, &mut t);
    *target = merged(t, patch);
}

} // verus!

verus! {

/// Member `k` of an object document.
pub open spec fn json_get(j: Json, k: Seq<char>) -> Option<Json> {
    match j {
        Json::Object(ms) => member_get(ms, k),
        _ => None,
    }
}

/// An object document with member `k` set to `v`; other documents are
/// left as they are.
pub open spec fn json_set(j: Json, k: Seq<char>, v: Json) -> Json {
    match j {
        Json::Object(ms) => Json::Object(member_set(ms, k, v)),
        _ => j,
    }
}

/// An object document without member `k`; other documents are left as
/// they are.
pub open spec fn json_remove(j: Json, k: Seq<char>) -> Json {
    match j {
        Json::Object(ms) => Json::Object(member_remove(ms, k)),
        _ => j,
    }
}

/// A string document.
pub fn jstr(s: &str) -> (r: JsonValue)
    ensures
        r@ == Json::Str(s@),
{
    JsonValue::Str(s.to_owned())
}

/// An object document with the given members.
pub fn jobj(ms: Vec<(String, JsonValue)>) -> (r: JsonValue)
    ensures
        r@ == Json::Object(members_model(ms@)),
{
    JsonValue::Object(ms)
}

/// An empty object document.
pub fn empty_object() -> (r: JsonValue)
    ensures
        r@ == Json::Object(Seq::empty()),
{
    let ms: Vec<(String, JsonValue)> = Vec::new();
    proof {
        assert(members_model(ms@) =~= Seq::<(Seq<char>, Json)>::empty());
    }
    JsonValue::Object(ms)
}

/// Appends member `key` without looking for an earlier one.
pub fn push_member(ms: &mut Vec<(String, JsonValue)>, key: &str, v: JsonValue)
    ensures
        members_model(final(ms)@) == members_model(old(ms)@).push((key@, v@)),
{
    ms.push((key.to_owned(), v));
    proof {
        lemma_members_push(old(ms)@, ms@.last());
        assert(ms@ =~= old(ms)@.push(ms@.last()));
    }
}

impl JsonValue {
    /// Member `key` of an object document.
    pub fn member(&self, key: &str) -> (r: Option<&JsonValue>)
        ensures
            match r {
                Some(v) => json_get(self@, key@) == Some(v@),
                None => json_get(self@, key@) == None::<Json>,
            },
    {
        match self {
            JsonValue::Object(ms) => get_member(ms, key),
            _ => None,
        }
    }

    /// The text of a string document.
    pub fn as_text(&self) -> (r: Option<&String>)
        ensures
            match r {
                Some(s) => self@ == Json::Str(s@),
                None => !(self@ is Str),
            },
    {
        match self {
            JsonValue::Str(s) => Some(s),
            _ => None,
        }
    }

    /// Sets member `key` of an object document; other documents are unchanged.
    pub fn set(&mut self, key: &str, v: JsonValue)
        ensures
            final(self)@ == json_set(old(self)@, key@, v@),
    {
        match self {
            JsonValue::Object(ms) => {
                set_member(ms, key.to_owned(), v);
            },
            _ => {},
        }
    }

    /// Removes member `key` of an object document; other documents are unchanged.
    pub fn remove(&mut self, key: &str)
        ensures
            final(self)@ == json_remove(old(self)@, key@),
    {
        match self {
            JsonValue::Object(ms) => {
                remove_member(ms, key);
            },
            _ => {},
        }
    }
}

} // verus!

verus! {

impl crate::keyed::DeepCopy for JsonValue {
    fn deep_copy(&self) -> (r: Self) {
        self.deep_clone()
    }
}

/// Copies of documents, in order.
pub fn copy_all(v: &Vec<JsonValue>) -> (r: Vec<JsonValue>)
    ensures
        r@.map_values(|x: JsonValue| x@) == v@.map_values(|x: JsonValue| x@),
{
    let mut out: Vec<JsonValue> = Vec::new();
    let mut i: usize = 0;
    while i < v.len()
        invariant
            i <= v@.len(),
            out@.map_values(|x: JsonValue| x@) == v@.take(i as int).map_values(|x: JsonValue| x@),
        decreases v.len() - i,
    {
        let c = v[i].deep_clone();
        let ghost prev = out@;
        out.push(c);
        proof {
            assert(out@.map_values(|x: JsonValue| x@) =~= prev.map_values(|x: JsonValue| x@).push(c@));
            assert(v@.take(i + 1).map_values(|x: JsonValue| x@) =~= v@.take(i as int).map_values(
                |x: JsonValue| x@,
            ).push(v@[i as int]@));
        }
        i = i + 1;
    }
    proof {
        assert(v@.take(v@.len() as int) =~= v@);
    }
    out
}

/// An object document of string members.
pub open spec fn string_pairs_object(pairs: Seq<(String, String)>) -> Json {
    Json::Object(pairs.map_values(|p: (String, String)| (p.0@, Json::Str(p.1@))))
}

/// Builds an object of string members from key/value pairs.
pub fn string_pairs_to_object(pairs: &Vec<(String, String)>) -> (r: JsonValue)
    ensures
        r@ == string_pairs_object(pairs@),
{
    let mut ms: Vec<(String, JsonValue)> = Vec::new();
    let mut i: usize = 0;
    while i < pairs.len()
        invariant
            i <= pairs@.len(),
            members_model(ms@) == pairs@.take(i as int).map_values(
                |p: (String, String)| (p.0@, Json::Str(p.1@)),
            ),
        decreases pairs.len() - i,
    {
        push_member(&mut ms, pairs[i].0.as_str(), jstr(pairs[i].1.as_str()));
        proof {
            assert(pairs@.take(i + 1).map_values(|p: (String, String)| (p.0@, Json::Str(p.1@)))
                =~= pairs@.take(i as int).map_values(
                |p: (String, String)| (p.0@, Json::Str(p.1@)),
            ).push((pairs@[i as int].0@, Json::Str(pairs@[i as int].1@))));
        }
        i = i + 1;
    }
    proof {
        assert(pairs@.take(pairs@.len() as int) =~= pairs@);
    }
    JsonValue::Object(ms)
}

} // verus!

verus! {

pub proof fn lemma_members_concat(a: Seq<(String, JsonValue)>, b: Seq<(String, JsonValue)>)
    ensures
        members_model(a + b) == members_model(a) + members_model(b),
{
    lemma_members_model(a);
    lemma_members_model(b);
    lemma_members_model(a + b);
    assert(members_model(a + b) =~= members_model(a) + members_model(b));
}

} // verus!

verus! {

proof fn lemma_first_exists(ms: Seq<(Seq<char>, Json)>, k: Seq<char>, j: int)
    requires
        0 <= j < ms.len(),
        ms[j].0 == k,
    ensures
        exists|i: int| is_first_key(ms, k, i),
    decreases j,
{
    if exists|p: int| 0 <= p < j && ms[p].0 == k {
        let p = choose|p: int| 0 <= p < j && ms[p].0 == k;
        lemma_first_exists(ms, k, p);
    } else {
        assert(is_first_key(ms, k, j));
    }
}

/// `key_index` is the first position of `k`, or -1 when `k` is absent.
pub proof fn lemma_key_index_first(ms: Seq<(Seq<char>, Json)>, k: Seq<char>)
    ensures
        key_index(ms, k) >= 0 ==> is_first_key(ms, k, key_index(ms, k)),
        key_index(ms, k) < 0 ==> key_index(ms, k) == -1 && forall|j: int| 0 <= j < ms.len() ==> ms[j].0 != k,
{
    if !exists|i: int| is_first_key(ms, k, i) {
        assert forall|j: int| 0 <= j < ms.len() implies ms[j].0 != k by {
            if ms[j].0 == k {
                lemma_first_exists(ms, k, j);
            }
        }
    }
}

/// Reading a member after appending one.
pub proof fn lemma_get_push(s: Seq<(Seq<char>, Json)>, x: (Seq<char>, Json), q: Seq<char>)
    ensures
        member_get(s.push(x), q) == match member_get(s, q) {
            Some(v) => Some(v),
            None => if x.0 == q { Some(x.1) } else { None },
        },
{
    let t = s.push(x);
    lemma_key_index_first(s, q);
    lemma_key_index_first(t, q);
    if key_index(s, q) >= 0 {
        let i = key_index(s, q);
        lemma_key_index(t, q, i);
    } else if x.0 == q {
        lemma_key_index(t, q, s.len() as int);
    } else {
        lemma_key_index(t, q, t.len() as int);
    }
}

/// Reading any member after setting member `k`.
pub proof fn lemma_get_set(ms: Seq<(Seq<char>, Json)>, k: Seq<char>, v: Json, q: Seq<char>)
    ensures
        member_get(member_set(ms, k, v), q) == if q == k { Some(v) } else { member_get(ms, q) },
{
    lemma_key_index_first(ms, k);
    lemma_key_index_first(ms, q);
    if key_index(ms, k) >= 0 {
        let i = key_index(ms, k);
        let t = ms.update(i, (k, v));
        lemma_key_index_first(t, q);
        if q == k {
            lemma_key_index(t, q, i);
        } else if key_index(ms, q) >= 0 {
            lemma_key_index(t, q, key_index(ms, q));
        } else {
            lemma_key_index(t, q, t.len() as int);
        }
    } else {
        lemma_get_push(ms, (k, v), q);
    }
}

/// Reading any member after removing member `k`.
pub proof fn lemma_get_remove(ms: Seq<(Seq<char>, Json)>, k: Seq<char>, q: Seq<char>)
    ensures
        member_get(member_remove(ms, k), q) == if q == k { None } else { member_get(ms, q) },
    decreases ms.len(),
{
    reveal(Seq::filter);
    if ms.len() == 0 {
        lemma_key_index_first(ms, q);
        lemma_key_index_first(member_remove(ms, k), q);
    } else {
        let s = ms.drop_last();
        let x = ms.last();
        assert(ms =~= s.push(x));
        lemma_get_remove(s, k, q);
        lemma_get_push(s, x, q);
        if x.0 != k {
            assert(member_remove(ms, k) == member_remove(s, k).push(x));
            lemma_get_push(member_remove(s, k), x, q);
        } else {
            assert(member_remove(ms, k) == member_remove(s, k));
        }
    }
}

} // verus!

verus! {

/// Whether the `tags` of a resource document read back as a map of
/// strings: absent, or an object whose every member is a string.
pub open spec fn tags_readable(d: Json) -> bool {
    match json_get(d, "tags"@) {
        None => true,
        Some(Json::Object(ms)) => forall|i: int| 0 <= i < ms.len() ==> (#[trigger] ms[i]).1 is Str,
        Some(_) => false,
    }
}

/// Checks `tags_readable`.
pub fn check_tags(d: &JsonValue) -> (b: bool)
    ensures
        b == tags_readable(d@),
{
    match d.member("tags") {
        None => true,
        Some(t) => match t {
            JsonValue::Object(ms) => {
                proof {
                    lemma_members_model(ms@);
                    assert(json_get(d@, "tags"@) == Some(Json::Object(members_model(ms@))));
                }
                let mut i: usize = 0;
                while i < ms.len()
                    invariant
                        i <= ms@.len(),
                        t@ == Json::Object(members_model(ms@)),
                        members_model(ms@).len() == ms@.len(),
                        json_get(d@, "tags"@) == Some(Json::Object(members_model(ms@))),
                        forall|j: int| 0 <= j < i ==> (#[trigger] members_model(ms@)[j]).1 is Str,
                    decreases ms.len() - i,
                {
                    proof {
                        lemma_members_model(ms@);
                    }
                    match &ms[i].1 {
                        JsonValue::Str(_) => {},
                        _ => {
                            assert(!(members_model(ms@)[i as int].1 is Str));
                            return false;
                        },
                    }
                    i = i + 1;
                }
                proof {
                    lemma_members_model(ms@);
                }
                true
            },
            _ => false,
        },
    }
}

} // verus!
