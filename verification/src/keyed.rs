use vstd::prelude::*;

use crate::text::text_eq;

verus! {

/// A key whose identity is its view.
pub trait KeyText: View + Sized {
    fn same(&self, other: &Self) -> (b: bool)
        ensures
            b == (self@ == other@),
    ;

    fn dup(&self) -> (r: Self)
        ensures
            r@ == self@,
    ;
}

/// A value that can be copied without changing its view.
pub trait DeepCopy: View + Sized {
    fn deep_copy(&self) -> (r: Self)
        ensures
            r@ == self@,
    ;
}

impl KeyText for String {
    fn same(&self, other: &Self) -> (b: bool) {
        text_eq(self.as_str(), other.as_str())
    }

    fn dup(&self) -> (r: Self) {
        self.clone()
    }
}

impl DeepCopy for String {
    fn deep_copy(&self) -> (r: Self) {
        self.clone()
    }
}

impl DeepCopy for Vec<u8> {
    fn deep_copy(&self) -> (r: Self) {
        let mut out: Vec<u8> = Vec::new();
        let mut i: usize = 0;
        while i < self.len()
            invariant
                i <= self.len(),
                out@ == self@.take(i as int),
            decreases self.len() - i,
        {
            out.push(self[i]);
            proof {
                assert(self@.take(i + 1) =~= self@.take(i as int).push(self@[i as int]));
            }
            i = i + 1;
        }
        assert(self@.take(self.len() as int) =~= self@);
        out
    }
}

/// Names from the root of the resource hierarchy down to one resource,
/// e.g. subscription, resource group, resource.
pub struct Path {
    pub parts: Vec<String>,
}

impl View for Path {
    type V = Seq<Seq<char>>;

    open spec fn view(&self) -> Seq<Seq<char>> {
        self.parts@.map_values(|s: String| s@)
    }
}

impl KeyText for Path {
    fn same(&self, other: &Self) -> (b: bool) {
        if self.parts.len() != other.parts.len() {
            assert(self@.len() != other@.len());
            return false;
        }
        let mut i: usize = 0;
        while i < self.parts.len()
            invariant
                self.parts.len() == other.parts.len(),
                i <= self.parts.len(),
                forall|j: int| 0 <= j < i ==> self.parts@[j]@ == other.parts@[j]@,
            decreases self.parts.len() - i,
        {
            if !text_eq(self.parts[i].as_str(), other.parts[i].as_str()) {
                assert(self@[i as int] != other@[i as int]);
                return false;
            }
            i = i + 1;
        }
        assert(self@ =~= other@);
        true
    }

    fn dup(&self) -> (r: Self) {
        let mut parts: Vec<String> = Vec::new();
        let mut i: usize = 0;
        while i < self.parts.len()
            invariant
                i <= self.parts.len(),
                parts.len() == i,
                forall|j: int| 0 <= j < i ==> parts@[j]@ == self.parts@[j]@,
            decreases self.parts.len() - i,
        {
            parts.push(self.parts[i].clone());
            i = i + 1;
        }
        let r = Path { parts };
        assert(r@ =~= self@);
        r
    }
}

/// Whether `prefix` names an ancestor of `key` (or `key` itself).
pub open spec fn is_prefix(prefix: Seq<Seq<char>>, key: Seq<Seq<char>>) -> bool {
    prefix.len() <= key.len() && key.subrange(0, prefix.len() as int) == prefix
}

/// Path built from its names.
pub fn path1(a: &str) -> (p: Path)
    ensures
        p@ == seq![a@],
{
    let p = Path { parts: vec![a.to_owned()] };
    assert(p@ =~= seq![a@]);
    p
}

pub fn path2(a: &str, b: &str) -> (p: Path)
    ensures
        p@ == seq![a@, b@],
        p@.drop_last() == seq![a@],
{
    let p = Path { parts: vec![a.to_owned(), b.to_owned()] };
    assert(p@ =~= seq![a@, b@]);
    assert(p@.drop_last() =~= seq![a@]);
    p
}

pub fn path3(a: &str, b: &str, c: &str) -> (p: Path)
    ensures
        p@ == seq![a@, b@, c@],
        p@.drop_last() == seq![a@, b@],
{
    let p = Path { parts: vec![a.to_owned(), b.to_owned(), c.to_owned()] };
    assert(p@ =~= seq![a@, b@, c@]);
    assert(p@.drop_last() =~= seq![a@, b@]);
    p
}

pub fn path4(a: &str, b: &str, c: &str, d: &str) -> (p: Path)
    ensures
        p@ == seq![a@, b@, c@, d@],
        p@.drop_last() == seq![a@, b@, c@],
{
    let p = Path { parts: vec![a.to_owned(), b.to_owned(), c.to_owned(), d.to_owned()] };
    assert(p@ =~= seq![a@, b@, c@, d@]);
    assert(p@.drop_last() =~= seq![a@, b@, c@]);
    p
}

pub fn path5(a: &str, b: &str, c: &str, d: &str, e: &str) -> (p: Path)
    ensures
        p@ == seq![a@, b@, c@, d@, e@],
        p@.drop_last() == seq![a@, b@, c@, d@],
{
    let p = Path {
        parts: vec![a.to_owned(), b.to_owned(), c.to_owned(), d.to_owned(), e.to_owned()],
    };
    assert(p@ =~= seq![a@, b@, c@, d@, e@]);
    assert(p@.drop_last() =~= seq![a@, b@, c@, d@]);
    p
}

/// An insertion-ordered map; each key occurs once.
pub struct KeyedMap<K: KeyText, V: DeepCopy> {
    entries: Vec<(K, V)>,
}

impl<K: KeyText, V: DeepCopy> KeyedMap<K, V> {
    /// The keys, in insertion order.
    pub closed spec fn keys(&self) -> Seq<K::V> {
        self.entries@.map_values(|e: (K, V)| e.0@)
    }

    /// The values, in the order of `keys`.
    pub closed spec fn vals(&self) -> Seq<V::V> {
        self.entries@.map_values(|e: (K, V)| e.1@)
    }

    #[verifier::type_invariant]
    closed spec fn unique_keys(&self) -> bool {
        self.keys().no_duplicates()
    }

    /// Position of `k` among the keys.
    pub open spec fn position(&self, k: K::V) -> int {
        choose|i: int| 0 <= i < self.keys().len() && self.keys()[i] == k
    }

    /// The map seen as a function from keys to values.
    pub open spec fn map(&self) -> Map<K::V, V::V> {
        Map::new(|k: K::V| self.keys().contains(k), |k: K::V| self.vals()[self.position(k)])
    }

    pub proof fn lemma_wf(&self)
        requires
            self.keys().no_duplicates(),
        ensures
            self.keys().no_duplicates(),
            self.keys().len() == self.vals().len(),
            self.map().dom().finite(),
            self.map().len() == self.keys().len(),
            forall|i: int|
                0 <= i < self.keys().len() ==> #[trigger] self.position(self.keys()[i]) == i,
            forall|i: int|
                0 <= i < self.keys().len() ==> #[trigger] self.map()[self.keys()[i]]
                    == self.vals()[i],
    {
        assert forall|i: int| 0 <= i < self.keys().len() implies #[trigger] self.position(
            self.keys()[i],
        ) == i by {
            let p = self.position(self.keys()[i]);
            assert(0 <= p < self.keys().len() && self.keys()[p] == self.keys()[i]);
        }
        self.keys().unique_seq_to_set();
        assert(self.map().dom() =~= self.keys().to_set());
    }

    pub fn new() -> (m: Self)
        ensures
            m.keys() == Seq::<K::V>::empty(),
            m.vals() == Seq::<V::V>::empty(),
            m.map() == Map::<K::V, V::V>::empty(),
    {
        let m = KeyedMap { entries: Vec::new() };
        assert(m.keys() =~= Seq::<K::V>::empty());
        assert(m.vals() =~= Seq::<V::V>::empty());
        assert(m.map() =~= Map::<K::V, V::V>::empty());
        m
    }

    pub fn len(&self) -> (n: usize)
        ensures
            n == self.keys().len(),
            n == self.map().len(),
            lists_by(self.vals(), self.map(), self.keys()),
    {
        proof {
            use_type_invariant(self);
            self.lemma_listed();
        }
        self.entries.len()
    }

    pub fn key_at(&self, i: usize) -> (k: &K)
        requires
            i < self.keys().len(),
        ensures
            k@ == self.keys()[i as int],
    {
        &self.entries[i].0
    }

    pub fn value_at(&self, i: usize) -> (v: &V)
        requires
            i < self.keys().len(),
        ensures
            v@ == self.vals()[i as int],
            self.map().contains_key(self.keys()[i as int]),
            self.map()[self.keys()[i as int]] == self.vals()[i as int],
    {
        proof {
            use_type_invariant(self);
            self.lemma_wf();
        }
        &self.entries[i].1
    }

    /// Position of `k`, if present.
    pub fn find(&self, k: &K) -> (r: Option<usize>)
        ensures
            match r {
                Some(i) => i < self.keys().len() && self.keys()[i as int] == k@
                    && self.position(k@) == i,
                None => !self.keys().contains(k@) && !self.map().contains_key(k@),
            },
    {
        proof {
            use_type_invariant(&*self);
            self.lemma_wf();
        }
        let mut i: usize = 0;
        while i < self.entries.len()
            invariant
                i <= self.keys().len(),
                self.keys().len() == self.entries@.len(),
                forall|j: int| 0 <= j < i ==> self.keys()[j] != k@,
            decreases self.entries.len() - i,
        {
            if self.entries[i].0.same(k) {
                assert(self.keys()[i as int] == k@);
                proof {
                    use_type_invariant(self);
                    self.lemma_wf();
                }
                return Some(i);
            }
            i = i + 1;
        }
        None
    }

    pub fn get(&self, k: &K) -> (r: Option<&V>)
        ensures
            match r {
                Some(v) => self.map().contains_key(k@) && v@ == self.map()[k@] && *v == self.get_value(k@),
                None => !self.map().contains_key(k@),
            },
    {
        proof {
            use_type_invariant(&*self);
            self.lemma_wf();
        }
        match self.find(k) {
            Some(i) => Some(&self.entries[i].1),
            None => None,
        }
    }

    pub fn contains_key(&self, k: &K) -> (b: bool)
        ensures
            b == self.map().contains_key(k@),
    {
        match self.find(k) {
            Some(i) => true,
            None => false,
        }
    }

    /// Copies of the values, in key order.
    pub fn values(&self) -> (r: Vec<V>)
        ensures
            r@.map_values(|v: V| v@) == self.vals(),
            lists_by(r@.map_values(|v: V| v@), self.map(), self.keys()),
    {
        proof {
            use_type_invariant(self);
            self.lemma_listed();
        }
        let mut out: Vec<V> = Vec::new();
        let mut i: usize = 0;
        while i < self.entries.len()
            invariant
                i <= self.entries@.len(),
                self.vals().len() == self.entries@.len(),
                out@.map_values(|v: V| v@) == self.vals().take(i as int),
            decreases self.entries.len() - i,
        {
            let c = self.entries[i].1.deep_copy();
            assert(self.vals()[i as int] == self.entries@[i as int].1@);
            let ghost prev = out@;
            out.push(c);
            proof {
                assert(out@.map_values(|v: V| v@) =~= prev.map_values(|v: V| v@).push(c@));
                assert(self.vals().take(i + 1) =~= self.vals().take(i as int).push(c@));
                assert(out@.map_values(|v: V| v@) =~= self.vals().take(i + 1));
            }
            i = i + 1;
        }
        proof {
            assert(self.vals().take(self.entries@.len() as int) =~= self.vals());
        }
        out
    }

    /// Sets `k` to `v`: an existing key keeps its position, a new key goes last.
    pub fn insert(&mut self, k: K, v: V)
        ensures
            final(self).map() == old(self).map().insert(k@, v@),
            old(self).map().contains_key(k@) ==> final(self).keys() == old(self).keys()
                && final(self).vals() == old(self).vals().update(old(self).position(k@), v@),
            !old(self).map().contains_key(k@) ==> final(self).keys() == old(self).keys().push(k@)
                && final(self).vals() == old(self).vals().push(v@),
    {
        proof {
            use_type_invariant(&*self);
            self.lemma_wf();
        }
        match self.find(&k) {
            Some(i) => {
                let ghost kv = k@;
                let mut es: Vec<(K, V)> = Vec::new();
                std::mem::swap(&mut self.entries, &mut es);
                es.remove(i);
                es.insert(i, (k, v));
                proof {
                    assert(es@.map_values(|e: (K, V)| e.0@) =~= old(self).keys());
                }
                self.entries = es;
                proof {
                    assert(self.keys() =~= old(self).keys());
                    assert(self.vals() =~= old(self).vals().update(i as int, v@));
                    self.lemma_wf();
                    assert(self.map() =~= old(self).map().insert(kv, v@));
                }
            },
            None => {
                let ghost kv = k@;
                proof {
                    assert(old(self).keys().push(kv).no_duplicates()) by {
                        let s = old(self).keys().push(kv);
                        assert forall|a: int, b: int|
                            0 <= a < s.len() && 0 <= b < s.len() && a != b implies s[a]
                            != s[b] by {
                            if a == s.len() - 1 {
                                assert(old(self).keys()[b] == s[b]);
                            } else if b == s.len() - 1 {
                                assert(old(self).keys()[a] == s[a]);
                            }
                        }
                    }
                }
                let mut es: Vec<(K, V)> = Vec::new();
                std::mem::swap(&mut self.entries, &mut es);
                es.push((k, v));
                proof {
                    assert(es@.map_values(|e: (K, V)| e.0@) =~= old(self).keys().push(kv));
                }
                self.entries = es;
                proof {
                    assert(self.keys() =~= old(self).keys().push(kv));
                    assert(self.vals() =~= old(self).vals().push(v@));
                    self.lemma_wf();
                    assert forall|x: K::V| #[trigger] self.map().contains_key(x) implies self.map()[x]
                        == old(self).map().insert(kv, v@)[x] by {
                        let p = self.position(x);
                        if x != kv {
                            assert(old(self).keys().contains(x));
                            let q = old(self).position(x);
                            assert(self.keys()[q] == x);
                        }
                    }
                    assert forall|x: K::V|
                        #[trigger] old(self).map().insert(kv, v@).contains_key(x) implies self.map().contains_key(
                        x,
                    ) by {
                        if x == kv {
                            assert(self.keys()[self.keys().len() - 1] == kv);
                        } else {
                            let q = old(self).position(x);
                            assert(self.keys()[q] == x);
                        }
                    }
                    assert forall|x: K::V| #[trigger] self.map().contains_key(x) implies old(
                        self,
                    ).map().insert(kv, v@).contains_key(x) by {
                        let p = self.position(x);
                        if p < old(self).keys().len() {
                            assert(old(self).keys()[p] == x);
                        }
                    }
                    assert(self.map() =~= old(self).map().insert(kv, v@));
                }
            },
        }
    }

    /// Replaces the value at position `i`, returning the previous one.
    pub fn replace_at(&mut self, i: usize, v: V) -> (prev: V)
        requires
            i < old(self).keys().len(),
        ensures
            prev@ == old(self).vals()[i as int],
            final(self).keys() == old(self).keys(),
            final(self).vals() == old(self).vals().update(i as int, v@),
            final(self).map() == old(self).map().insert(old(self).keys()[i as int], v@),
    {
        proof {
            use_type_invariant(&*self);
            self.lemma_wf();
        }
        let mut es: Vec<(K, V)> = Vec::new();
        std::mem::swap(&mut self.entries, &mut es);
        let (k, prev) = es.remove(i);
        es.insert(i, (k, v));
        proof {
            assert(es@.map_values(|e: (K, V)| e.0@) =~= old(self).keys());
        }
        self.entries = es;
        proof {
            assert(self.keys() =~= old(self).keys());
            assert(self.vals() =~= old(self).vals().update(i as int, v@));
            self.lemma_wf();
            assert(self.map() =~= old(self).map().insert(old(self).keys()[i as int], v@));
        }
        prev
    }

    /// Removes `k`, returning its value if it was present.
    pub fn remove(&mut self, k: &K) -> (r: Option<V>)
        ensures
            final(self).map() == old(self).map().remove(k@),
            match r {
                Some(v) => old(self).map().contains_key(k@) && v@ == old(self).map()[k@]
                    && final(self).keys() == old(self).keys().remove(old(self).position(k@))
                    && final(self).vals() == old(self).vals().remove(old(self).position(k@)),
                None => !old(self).map().contains_key(k@) && final(self).keys() == old(
                    self,
                ).keys() && final(self).vals() == old(self).vals(),
            },
    {
        proof {
            use_type_invariant(&*self);
            self.lemma_wf();
        }
        match self.find(k) {
            Some(i) => {
                let mut es: Vec<(K, V)> = Vec::new();
                std::mem::swap(&mut self.entries, &mut es);
                let (_, v) = es.remove(i);
                proof {
                    let ks = es@.map_values(|e: (K, V)| e.0@);
                    assert(ks =~= old(self).keys().remove(i as int));
                    assert forall|a: int, b: int|
                        0 <= a < ks.len() && 0 <= b < ks.len() && a != b implies ks[a] != ks[b] by {
                        let a2 = if a < i { a } else { a + 1 };
                        let b2 = if b < i { b } else { b + 1 };
                        assert(ks[a] == old(self).keys()[a2]);
                        assert(ks[b] == old(self).keys()[b2]);
                    }
                }
                self.entries = es;
                proof {
                    assert(self.keys() =~= old(self).keys().remove(i as int));
                    assert(self.vals() =~= old(self).vals().remove(i as int));
                    self.lemma_wf();
                    assert forall|x: K::V| #[trigger] self.map().contains_key(x) implies self.map()[x]
                        == old(self).map()[x] && x != k@ by {
                        let p = self.position(x);
                        if p < i {
                            assert(old(self).keys()[p] == x);
                        } else {
                            assert(old(self).keys()[p + 1] == x);
                        }
                    }
                    assert forall|x: K::V|
                        old(self).map().contains_key(x) && x != k@ implies #[trigger] self.map().contains_key(
                        x,
                    ) by {
                        let q = old(self).position(x);
                        if q < i {
                            assert(self.keys()[q] == x);
                        } else {
                            assert(q != i);
                            assert(self.keys()[q - 1] == x);
                        }
                    }
                    assert(self.map() =~= old(self).map().remove(k@));
                }
                Some(v)
            },
            None => {
                proof {
                    assert(self.map() =~= old(self).map().remove(k@));
                }
                None
            },
        }
    }
}

impl<K: KeyText, V: DeepCopy> KeyedMap<K, V> {
    /// Key/value pairs in key order.
    pub open spec fn pairs(&self) -> Seq<(K::V, V::V)> {
        Seq::new(self.keys().len(), |i: int| (self.keys()[i], self.vals()[i]))
    }
}

/// The values of the pairs whose key lies under `prefix`, in order.
pub open spec fn values_under<V>(pairs: Seq<(Seq<Seq<char>>, V)>, prefix: Seq<Seq<char>>) -> Seq<V> {
    pairs.filter(|e: (Seq<Seq<char>>, V)| is_prefix(prefix, e.0)).map_values(
        |e: (Seq<Seq<char>>, V)| e.1,
    )
}

impl<V: DeepCopy> KeyedMap<Path, V> {
    /// Copies of the values whose key lies under `prefix`, in key order.
    pub fn values_under(&self, prefix: &Path) -> (r: Vec<V>)
        ensures
            r@.map_values(|v: V| v@) == values_under(self.pairs(), prefix@),
            lists_by(r@.map_values(|v: V| v@), map_under(self.map(), prefix@), keys_under(self.pairs(), prefix@)),
    {
        proof {
            use_type_invariant(self);
            self.lemma_listed_under(prefix@);
        }
        let ghost ps = self.pairs();
        let ghost pred = |e: (Seq<Seq<char>>, V::V)| is_prefix(prefix@, e.0);
        let mut out: Vec<V> = Vec::new();
        let mut i: usize = 0;
        while i < self.entries.len()
            invariant
                i <= self.entries@.len(),
                ps == self.pairs(),
                ps.len() == self.entries@.len(),
                pred == (|e: (Seq<Seq<char>>, V::V)| is_prefix(prefix@, e.0)),
                out@.map_values(|v: V| v@) == ps.take(i as int).filter(pred).map_values(
                    |e: (Seq<Seq<char>>, V::V)| e.1,
                ),
            decreases self.entries.len() - i,
        {
            assert(ps.take(i + 1).drop_last() =~= ps.take(i as int));
            assert(ps[i as int] == (self.entries@[i as int].0@, self.entries@[i as int].1@));
            proof {
                reveal(Seq::filter);
            }
            if prefix_of(prefix, &self.entries[i].0) {
                let c = self.entries[i].1.deep_copy();
                let ghost prev = out@;
                out.push(c);
                proof {
                    assert(out@.map_values(|v: V| v@) =~= prev.map_values(|v: V| v@).push(c@));
                    assert(ps.take(i + 1).filter(pred) == ps.take(i as int).filter(pred).push(
                        ps[i as int],
                    ));
                    assert(ps.take(i + 1).filter(pred).map_values(
                        |e: (Seq<Seq<char>>, V::V)| e.1,
                    ) =~= ps.take(i as int).filter(pred).map_values(
                        |e: (Seq<Seq<char>>, V::V)| e.1,
                    ).push(c@));
                }
            } else {
                proof {
                    assert(ps.take(i + 1).filter(pred) == ps.take(i as int).filter(pred));
                }
            }
            i = i + 1;
        }
        proof {
            assert(ps.take(ps.len() as int) =~= ps);
        }
        out
    }

    /// Removes every key that lies under `prefix`.
    pub fn remove_under(&mut self, prefix: &Path)
        ensures
            final(self).map() == old(self).map().restrict(
                old(self).map().dom().filter(|k: Seq<Seq<char>>| !is_prefix(prefix@, k)),
            ),
            final(self).pairs() == old(self).pairs().filter(
                |e: (Seq<Seq<char>>, V::V)| !is_prefix(prefix@, e.0),
            ),
    {
        proof {
            use_type_invariant(&*self);
            self.lemma_wf();
        }
        let ghost ps = self.pairs();
        let ghost pred = |e: (Seq<Seq<char>>, V::V)| !is_prefix(prefix@, e.0);
        let mut es: Vec<(Path, V)> = Vec::new();
        std::mem::swap(&mut self.entries, &mut es);
        let mut kept: Vec<(Path, V)> = Vec::new();
        let ghost src = es@;
        let ghost srcmap = old(self).map();
        while es.len() > 0
            invariant
                src.len() == ps.len(),
                es@.len() <= src.len(),
                forall|j: int| 0 <= j < src.len() ==> (#[trigger] src[j]).0@ == ps[j].0 && src[j].1@ == ps[j].1,
                ps.map_values(|e: (Seq<Seq<char>>, V::V)| e.0).no_duplicates(),
                es@ == src.subrange(src.len() - es@.len(), src.len() as int),
                pred == (|e: (Seq<Seq<char>>, V::V)| !is_prefix(prefix@, e.0)),
                kept@.map_values(|e: (Path, V)| (e.0@, e.1@)) == ps.take(src.len() - es@.len()).filter(pred),
            decreases es.len(),
        {
            let ghost i = src.len() - es@.len();
            let ghost prev_es = es@;
            let (k, v) = es.remove(0);
            proof {
                reveal(Seq::filter);
                assert(es@ =~= prev_es.subrange(1, prev_es.len() as int));
                assert(es@ =~= src.subrange(src.len() - es@.len(), src.len() as int));
                assert(ps.take(i + 1).drop_last() =~= ps.take(i));
                assert(prev_es[0] == src[i]);
                assert(ps[i] == (k@, v@));
            }
            if !prefix_of(prefix, &k) {
                let ghost prev = kept@;
                kept.push((k, v));
                proof {
                    assert(kept@.map_values(|e: (Path, V)| (e.0@, e.1@)) =~= prev.map_values(
                        |e: (Path, V)| (e.0@, e.1@),
                    ).push(ps[i]));
                }
            }
        }
        proof {
            assert(ps.take(ps.len() as int) =~= ps);
            let fk = ps.filter(pred);
            let kk = fk.map_values(|e: (Seq<Seq<char>>, V::V)| e.0);
            assert(kept@.map_values(|e: (Path, V)| e.0@) =~= kk);
            lemma_filter_keys_unique(ps, pred);
        }
        self.entries = kept;
        proof {
            assert(self.pairs() =~= ps.filter(pred));
            self.lemma_wf();
            old(self).lemma_pairs_map();
            self.lemma_pairs_map();
            let target = old(self).map().restrict(
                old(self).map().dom().filter(|k: Seq<Seq<char>>| !is_prefix(prefix@, k)),
            );
            assert forall|x: Seq<Seq<char>>| #[trigger] self.map().contains_key(x) implies target.contains_key(x)
                && self.map()[x] == target[x] by {
                assert(self.pairs().contains((x, self.map()[x])));
                ps.lemma_filter_contains_rev(pred, (x, self.map()[x]));
                assert(ps.contains((x, self.map()[x])));
                let j = choose|j: int| 0 <= j < ps.len() && ps[j] == (x, self.map()[x]);
                assert(self.pairs().contains((x, self.map()[x])));
                let f = ps.filter(pred);
                let m = choose|m: int| 0 <= m < f.len() && f[m] == (x, self.map()[x]);
                ps.lemma_filter_pred(pred, m);
            }
            assert forall|x: Seq<Seq<char>>| #[trigger] target.contains_key(x) implies self.map().contains_key(x) by {
                assert(ps.contains((x, old(self).map()[x])));
                let j = choose|j: int| 0 <= j < ps.len() && ps[j] == (x, old(self).map()[x]);
                ps.lemma_filter_contains(pred, j);
            }
            assert(self.map() =~= target);
        }
    }
}

/// Whether `prefix` names an ancestor of `key` (or `key` itself).
pub fn prefix_of(prefix: &Path, key: &Path) -> (b: bool)
    ensures
        b == is_prefix(prefix@, key@),
{
    let n = prefix.parts.len();
    if n > key.parts.len() {
        return false;
    }
    let mut i: usize = 0;
    while i < n
        invariant
            n == prefix.parts.len(),
            n <= key.parts.len(),
            i <= n,
            forall|j: int| 0 <= j < i ==> key@[j] == prefix@[j],
        decreases n - i,
    {
        if !text_eq(prefix.parts[i].as_str(), key.parts[i].as_str()) {
            assert(key@.subrange(0, n as int)[i as int] != prefix@[i as int]);
            return false;
        }
        i = i + 1;
    }
    assert(key@.subrange(0, n as int) =~= prefix@);
    true
}

/// Filtering keeps keys distinct.
pub proof fn lemma_filter_keys_unique<A, B>(s: Seq<(A, B)>, pred: spec_fn((A, B)) -> bool)
    requires
        s.map_values(|e: (A, B)| e.0).no_duplicates(),
    ensures
        s.filter(pred).map_values(|e: (A, B)| e.0).no_duplicates(),
    decreases s.len(),
{
    reveal(Seq::filter);
    if s.len() > 0 {
        let d = s.drop_last();
        assert(d.map_values(|e: (A, B)| e.0) =~= s.map_values(|e: (A, B)| e.0).drop_last());
        lemma_filter_keys_unique(d, pred);
        let fd = d.filter(pred);
        assert(s.filter(pred) == if pred(s.last()) { fd.push(s.last()) } else { fd });
        if pred(s.last()) {
            let ks = s.filter(pred).map_values(|e: (A, B)| e.0);
            assert forall|a: int, b: int| 0 <= a < ks.len() && 0 <= b < ks.len() && a != b implies ks[a] != ks[b] by {
                if a == ks.len() - 1 || b == ks.len() - 1 {
                    let o = if a == ks.len() - 1 { b } else { a };
                    assert(fd.contains(fd[o]));
                    d.lemma_filter_contains_rev(pred, fd[o]);
                    assert(d.contains(fd[o]));
                    let j = choose|j: int| 0 <= j < d.len() && d[j] == fd[o];
                    assert(s.map_values(|e: (A, B)| e.0)[j] == fd[o].0);
                    assert(s.map_values(|e: (A, B)| e.0)[s.len() - 1] == s.last().0);
                } else {
                    assert(ks[a] == fd.map_values(|e: (A, B)| e.0)[a]);
                    assert(ks[b] == fd.map_values(|e: (A, B)| e.0)[b]);
                }
            }
        }
    }
}

impl<K: KeyText, V: DeepCopy> KeyedMap<K, V> {
    /// The pairs and the map agree.
    pub proof fn lemma_pairs_map(&self)
        requires
            self.keys().no_duplicates(),
        ensures
            forall|k: K::V, v: V::V| #[trigger] self.pairs().contains((k, v)) ==> self.map().contains_key(k) && self.map()[k] == v,
            forall|k: K::V| #[trigger] self.map().contains_key(k) ==> self.pairs().contains((k, self.map()[k])),
    {
        self.lemma_wf();
        assert forall|k: K::V, v: V::V| #[trigger] self.pairs().contains((k, v)) implies self.map().contains_key(k) && self.map()[k] == v by {
            let i = choose|i: int| 0 <= i < self.pairs().len() && self.pairs()[i] == (k, v);
            assert(self.keys()[i] == k);
        }
        assert forall|k: K::V| #[trigger] self.map().contains_key(k) implies self.pairs().contains((k, self.map()[k])) by {
            let i = self.position(k);
            assert(self.pairs()[i] == (k, self.map()[k]));
        }
    }
}

impl<K: KeyText, V: DeepCopy> KeyedMap<K, V> {
    /// A copy with the same keys and values, in the same order.
    pub fn copy(&self) -> (r: Self)
        ensures
            r.keys() == self.keys(),
            r.vals() == self.vals(),
            r.map() == self.map(),
            r.pairs() == self.pairs(),
    {
        proof {
            use_type_invariant(self);
        }
        let mut es: Vec<(K, V)> = Vec::new();
        let mut i: usize = 0;
        while i < self.entries.len()
            invariant
                i <= self.entries@.len(),
                es@.map_values(|e: (K, V)| e.0@) == self.keys().take(i as int),
                es@.map_values(|e: (K, V)| e.1@) == self.vals().take(i as int),
            decreases self.entries.len() - i,
        {
            let e = (self.entries[i].0.dup(), self.entries[i].1.deep_copy());
            let ghost prev = es@;
            es.push(e);
            proof {
                assert(es@.map_values(|e: (K, V)| e.0@) =~= prev.map_values(|e: (K, V)| e.0@).push(e.0@));
                assert(es@.map_values(|e: (K, V)| e.1@) =~= prev.map_values(|e: (K, V)| e.1@).push(e.1@));
                assert(self.keys().take(i + 1) =~= self.keys().take(i as int).push(self.entries@[i as int].0@));
                assert(self.vals().take(i + 1) =~= self.vals().take(i as int).push(self.entries@[i as int].1@));
            }
            i = i + 1;
        }
        proof {
            assert(self.keys().take(self.entries@.len() as int) =~= self.keys());
            assert(self.vals().take(self.entries@.len() as int) =~= self.vals());
        }
        let r = KeyedMap { entries: es };
        proof {
            assert(r.keys() =~= self.keys());
            assert(r.vals() =~= self.vals());
            assert(r.map() =~= self.map());
            assert(r.pairs() =~= self.pairs());
        }
        r
    }
}

/// The path one level below `p`.
pub fn child(p: &Path, name: &str) -> (r: Path)
    ensures
        r@ == p@.push(name@),
        r@.drop_last() == p@,
{
    let mut r = p.dup();
    r.parts.push(name.to_owned());
    proof {
        assert(r@ =~= p@.push(name@));
        assert(r@.drop_last() =~= p@);
    }
    r
}

impl<K: KeyText, V: DeepCopy> KeyedMap<K, V> {
    /// The stored value of key `k`.
    pub closed spec fn get_value(&self, k: K::V) -> V {
        self.entries@[self.position(k)].1
    }
}

} // verus!

verus! {

/// The pairs whose key lies under `prefix`, in order.
pub open spec fn pairs_under<V>(pairs: Seq<(Seq<Seq<char>>, V)>, prefix: Seq<Seq<char>>) -> Seq<(Seq<Seq<char>>, V)> {
    pairs.filter(|e: (Seq<Seq<char>>, V)| is_prefix(prefix, e.0))
}

impl<V: DeepCopy> KeyedMap<Path, V> {
    /// Copies of the keys and values that lie under `prefix`, in key order.
    pub fn pairs_under(&self, prefix: &Path) -> (r: Vec<(Path, V)>)
        ensures
            r@.map_values(|e: (Path, V)| (e.0@, e.1@)) == pairs_under(self.pairs(), prefix@),
    {
        let ghost ps = self.pairs();
        let ghost pred = |e: (Seq<Seq<char>>, V::V)| is_prefix(prefix@, e.0);
        let mut out: Vec<(Path, V)> = Vec::new();
        let mut i: usize = 0;
        while i < self.entries.len()
            invariant
                i <= self.entries@.len(),
                ps == self.pairs(),
                ps.len() == self.entries@.len(),
                pred == (|e: (Seq<Seq<char>>, V::V)| is_prefix(prefix@, e.0)),
                out@.map_values(|e: (Path, V)| (e.0@, e.1@)) == ps.take(i as int).filter(pred),
            decreases self.entries.len() - i,
        {
            assert(ps.take(i + 1).drop_last() =~= ps.take(i as int));
            assert(ps[i as int] == (self.entries@[i as int].0@, self.entries@[i as int].1@));
            proof {
                reveal(Seq::filter);
            }
            if prefix_of(prefix, &self.entries[i].0) {
                let c = (self.entries[i].0.dup(), self.entries[i].1.deep_copy());
                let ghost prev = out@;
                out.push(c);
                proof {
                    assert(out@.map_values(|e: (Path, V)| (e.0@, e.1@)) =~= prev.map_values(
                        |e: (Path, V)| (e.0@, e.1@),
                    ).push((c.0@, c.1@)));
                    assert(ps.take(i + 1).filter(pred) == ps.take(i as int).filter(pred).push(
                        ps[i as int],
                    ));
                }
            } else {
                proof {
                    assert(ps.take(i + 1).filter(pred) == ps.take(i as int).filter(pred));
                }
            }
            i = i + 1;
        }
        proof {
            assert(ps.take(ps.len() as int) =~= ps);
        }
        out
    }
}


} // verus!

verus! {

// ── Listings against the map model ─────────────────────────────────────

/// `s` lists the values of `m` in the order of the keys `ks`: each key of
/// `m` occurs once in `ks`, and `s` holds its value at the same position.
pub open spec fn lists_by<K, V>(s: Seq<V>, m: Map<K, V>, ks: Seq<K>) -> bool {
    &&& ks.no_duplicates()
    &&& ks.to_set() == m.dom()
    &&& m.dom().finite()
    &&& ks.len() == s.len()
    &&& m.len() == s.len()
    &&& forall|i: int| 0 <= i < ks.len() ==> s[i] == m[#[trigger] ks[i]]
}

/// The entries of `m` whose key lies under `prefix`.
pub open spec fn map_under<V>(m: Map<Seq<Seq<char>>, V>, prefix: Seq<Seq<char>>) -> Map<Seq<Seq<char>>, V> {
    m.restrict(m.dom().filter(|k: Seq<Seq<char>>| is_prefix(prefix, k)))
}

/// The keys of the pairs that lie under `prefix`, in order.
pub open spec fn keys_under<V>(pairs: Seq<(Seq<Seq<char>>, V)>, prefix: Seq<Seq<char>>) -> Seq<Seq<Seq<char>>> {
    pairs_under(pairs, prefix).map_values(|e: (Seq<Seq<char>>, V)| e.0)
}

/// The keys of a sequence of pairs.
pub open spec fn first_of<K, V>(ps: Seq<(K, V)>) -> Seq<K> {
    ps.map_values(|e: (K, V)| e.0)
}

/// A listing, mapped value by value, lists the mapped map.
pub proof fn lemma_lists_by_map_values<K, V, W>(s: Seq<V>, m: Map<K, V>, ks: Seq<K>, f: spec_fn(V) -> W)
    requires
        lists_by(s, m, ks),
    ensures
        lists_by(s.map_values(f), m.map_values(f), ks),
        m.map_values(f).len() == m.len(),
{
    assert(m.map_values(f).dom() =~= m.dom());
    assert forall|i: int| 0 <= i < ks.len() implies s.map_values(f)[i] == m.map_values(f)[#[trigger] ks[i]] by {
        assert(m.dom().contains(ks[i])) by {
            assert(ks.to_set().contains(ks[i]));
        }
    }
}

/// The pairs under `prefix` are pairs of `ps` that lie under it, each of
/// those is kept, and their keys stay distinct.
proof fn lemma_pairs_under<V>(ps: Seq<(Seq<Seq<char>>, V)>, prefix: Seq<Seq<char>>)
    requires
        first_of(ps).no_duplicates(),
    ensures
        forall|i: int| 0 <= i < pairs_under(ps, prefix).len() ==> ps.contains(#[trigger] pairs_under(ps, prefix)[i])
            && is_prefix(prefix, pairs_under(ps, prefix)[i].0),
        forall|j: int| 0 <= j < ps.len() && is_prefix(prefix, #[trigger] ps[j].0) ==> pairs_under(ps, prefix).contains(ps[j]),
        first_of(pairs_under(ps, prefix)).no_duplicates(),
    decreases ps.len(),
{
    reveal(Seq::filter);
    if ps.len() > 0 {
        let r = ps.drop_last();
        let x = ps.last();
        assert forall|a: int, b: int| 0 <= a < r.len() && 0 <= b < r.len() && a != b implies first_of(r)[a] != first_of(r)[b] by {
            assert(first_of(r)[a] == first_of(ps)[a]);
            assert(first_of(r)[b] == first_of(ps)[b]);
        }
        lemma_pairs_under(r, prefix);
        let fr = pairs_under(r, prefix);
        let f = pairs_under(ps, prefix);
        assert(f == if is_prefix(prefix, x.0) { fr.push(x) } else { fr });
        assert forall|i: int| 0 <= i < f.len() implies ps.contains(#[trigger] f[i]) && is_prefix(prefix, f[i].0) by {
            if i < fr.len() {
                assert(f[i] == fr[i]);
                let j = choose|j: int| 0 <= j < r.len() && r[j] == fr[i];
                assert(ps[j] == r[j]);
            } else {
                assert(ps[ps.len() - 1] == x);
            }
        }
        assert forall|j: int| 0 <= j < ps.len() && is_prefix(prefix, #[trigger] ps[j].0) implies f.contains(ps[j]) by {
            if j < r.len() {
                assert(r[j] == ps[j]);
                assert(is_prefix(prefix, r[j].0));
                assert(fr.contains(r[j]));
                let i = choose|i: int| 0 <= i < fr.len() && fr[i] == r[j];
                assert(f[i] == fr[i]);
            } else {
                assert(f[f.len() - 1] == x);
            }
        }
        if is_prefix(prefix, x.0) {
            assert forall|a: int, b: int| 0 <= a < f.len() && 0 <= b < f.len() && a != b implies first_of(f)[a] != first_of(f)[b] by {
                if a < fr.len() && b < fr.len() {
                    assert(first_of(f)[a] == first_of(fr)[a]);
                    assert(first_of(f)[b] == first_of(fr)[b]);
                } else {
                    let c = if a < fr.len() { a } else { b };
                    assert(c < fr.len());
                    assert(ps.contains(fr[c])) by {
                        let j = choose|j: int| 0 <= j < r.len() && r[j] == fr[c];
                        assert(ps[j] == r[j]);
                    }
                    let j = choose|j: int| 0 <= j < ps.len() && ps[j] == fr[c];
                    assert(j < ps.len() - 1) by {
                        let j2 = choose|j2: int| 0 <= j2 < r.len() && r[j2] == fr[c];
                        if j == ps.len() - 1 {
                            assert(first_of(ps)[j2] == first_of(ps)[ps.len() - 1]);
                        }
                    }
                    assert(first_of(ps)[j] != first_of(ps)[ps.len() - 1]);
                    assert(first_of(f)[c] == fr[c].0);
                }
            }
        } else {
            assert(first_of(f) == first_of(fr));
        }
    } else {
        assert(pairs_under(ps, prefix) =~= Seq::<(Seq<Seq<char>>, V)>::empty());
    }
}

impl<K: KeyText, V: DeepCopy> KeyedMap<K, V> {
    /// The stored value of a key is the map's value for it.
    pub proof fn lemma_get_value(&self, k: K::V)
        requires
            self.map().contains_key(k),
        ensures
            self.get_value(k)@ == self.map()[k],
    {
    }

    /// With distinct keys, the pairs list the map, and so do the values.
    proof fn lemma_listed(&self)
        requires
            self.keys().no_duplicates(),
        ensures
            lists_by(self.vals(), self.map(), self.keys()),
            first_of(self.pairs()) == self.keys(),
            forall|j: int| 0 <= j < self.pairs().len() ==> self.map().contains_key(#[trigger] self.pairs()[j].0)
                && self.map()[self.pairs()[j].0] == self.pairs()[j].1,
    {
        self.lemma_wf();
        self.keys().unique_seq_to_set();
        assert(self.keys().to_set() =~= self.map().dom());
        assert(first_of(self.pairs()) =~= self.keys());
        assert forall|j: int| 0 <= j < self.pairs().len() implies self.map().contains_key(#[trigger] self.pairs()[j].0)
            && self.map()[self.pairs()[j].0] == self.pairs()[j].1 by {
            assert(self.keys().contains(self.keys()[j]));
        }
    }
}

impl<V: DeepCopy> KeyedMap<Path, V> {
    /// With distinct keys, the values under `prefix` list the entries
    /// under it.
    proof fn lemma_listed_under(&self, prefix: Seq<Seq<char>>)
        requires
            self.keys().no_duplicates(),
        ensures
            lists_by(values_under(self.pairs(), prefix), map_under(self.map(), prefix), keys_under(self.pairs(), prefix)),
    {
        let ps = self.pairs();
        let m = self.map();
        let mu = map_under(m, prefix);
        self.lemma_listed();
        lemma_pairs_under(ps, prefix);
        let f = pairs_under(ps, prefix);
        let ks = keys_under(ps, prefix);
        let s = values_under(ps, prefix);
        assert(ks == first_of(f));
        assert(s.len() == f.len());
        assert forall|i: int| 0 <= i < ks.len() implies s[i] == mu[#[trigger] ks[i]] && mu.contains_key(ks[i]) by {
            assert(ps.contains(f[i]));
            let j = choose|j: int| 0 <= j < ps.len() && ps[j] == f[i];
            assert(m.contains_key(ps[j].0));
        }
        assert forall|k: Seq<Seq<char>>| ks.to_set().contains(k) <==> mu.dom().contains(k) by {
            if mu.dom().contains(k) {
                assert(m.dom().contains(k));
                let j = choose|j: int| 0 <= j < self.keys().len() && self.keys()[j] == k;
                assert(ps[j].0 == k);
                assert(f.contains(ps[j]));
                let i = choose|i: int| 0 <= i < f.len() && f[i] == ps[j];
                assert(ks[i] == k);
            }
            if ks.to_set().contains(k) {
                let i = choose|i: int| 0 <= i < ks.len() && ks[i] == k;
                assert(mu.contains_key(ks[i]));
            }
        }
        assert(ks.to_set() =~= mu.dom());
        ks.unique_seq_to_set();
        assert(mu.dom().finite()) by {
            assert(mu.dom().subset_of(m.dom()));
            vstd::set_lib::lemma_len_subset(mu.dom(), m.dom());
        }
    }
}

} // verus!
