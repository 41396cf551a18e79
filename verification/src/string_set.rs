use vstd::prelude::*;

verus! {

/// The text of each string, in order.
pub open spec fn views_of(items: Seq<String>) -> Seq<Seq<char>> {
    items.map_values(|s: String| s@)
}

/// A set of strings kept in insertion order, with no string twice. It takes
/// the place of `HashSet<String>`: vstd specifies std's hash collections
/// only for key types whose hashing and equality are known to obey its key
/// model, which cannot be shown for `String`, so with that type not even
/// the effect of one insertion could be stated.
pub struct StringSet {
    items: Vec<String>,
}

impl StringSet {
    /// The strings, in insertion order.
    pub closed spec fn seq(&self) -> Seq<Seq<char>> {
        views_of(self.items@)
    }

    /// No string occurs twice.
    pub closed spec fn wf(&self) -> bool {
        self.seq().no_duplicates()
    }

    /// The set of strings held.
    pub open spec fn set(&self) -> Set<Seq<char>> {
        self.seq().to_set()
    }

    /// The empty set.
    pub fn new() -> (s: Self)
        ensures
            s.wf(),
            s.seq() == Seq::<Seq<char>>::empty(),
            s.set() == Set::<Seq<char>>::empty(),
    {
        let s = StringSet { items: Vec::new() };
        assert(s.seq() =~= Seq::<Seq<char>>::empty());
        assert(s.set() =~= Set::<Seq<char>>::empty());
        s
    }

    /// How many strings the set holds.
    pub fn len(&self) -> (n: usize)
        requires
            self.wf(),
        ensures
            n == self.set().len(),
            n == self.seq().len(),
    {
        proof {
            self.seq().unique_seq_to_set();
        }
        self.items.len()
    }

    /// The position of `key`, if it is held.
    fn position(&self, key: &str) -> (r: Option<usize>)
        requires
            self.wf(),
        ensures
            match r {
                Some(i) => i < self.seq().len() && self.seq()[i as int] == key@,
                None => !self.seq().contains(key@),
            },
    {
        let target = key.to_owned();
        let mut i: usize = 0;
        while i < self.items.len()
            invariant
                i <= self.items.len(),
                target@ == key@,
                forall|j: int| 0 <= j < i ==> self.seq()[j] != key@,
            decreases self.items.len() - i,
        {
            if self.items[i] == target {
                return Some(i);
            }
            i = i + 1;
        }
        None
    }

    /// Whether the set holds `key`.
    pub fn contains(&self, key: &str) -> (b: bool)
        requires
            self.wf(),
        ensures
            b == self.set().contains(key@),
    {
        match self.position(key) {
            Some(i) => {
                assert(self.seq().contains(key@));
                true
            },
            None => false,
        }
    }

    /// Adds `key`; true when it was not held before.
    pub fn insert(&mut self, key: String) -> (added: bool)
        requires
            old(self).wf(),
        ensures
            final(self).wf(),
            added == !old(self).set().contains(key@),
            final(self).set() == old(self).set().insert(key@),
            added ==> final(self).seq() == old(self).seq().push(key@),
            !added ==> final(self).seq() == old(self).seq(),
    {
        let found = self.position(key.as_str());
        match found {
            Some(_) => {
                assert(self.seq().contains(key@));
                assert(self.set().insert(key@) =~= self.set());
                false
            },
            None => {
                let ghost before = self.seq();
                self.items.push(key);
                assert(self.seq() =~= before.push(key@));
                assert(self.set() =~= before.to_set().insert(key@)) by {
                    before.lemma_push_to_set_commute(key@);
                }
                true
            },
        }
    }

    /// Removes `key`; true when it was held.
    pub fn remove(&mut self, key: &str) -> (removed: bool)
        requires
            old(self).wf(),
        ensures
            final(self).wf(),
            removed == old(self).set().contains(key@),
            final(self).set() == old(self).set().remove(key@),
    {
        let found = self.position(key);
        match found {
            Some(i) => {
                let ghost before = self.seq();
                self.items.remove(i);
                assert(self.seq() =~= before.remove(i as int));
                proof {
                    assert(before.contains(key@));
                    assert forall|x: Seq<char>| #[trigger]
                        self.set().contains(x) <==> before.to_set().remove(key@).contains(x) by {
                        if self.seq().contains(x) {
                            let j = choose|j: int| 0 <= j < self.seq().len() && self.seq()[j] == x;
                            if j < i {
                                assert(before[j] == x);
                            } else {
                                assert(before[j + 1] == x);
                            }
                        }
                        if before.contains(x) && x != key@ {
                            let j = choose|j: int| 0 <= j < before.len() && before[j] == x;
                            if j < i {
                                assert(self.seq()[j] == x);
                            } else {
                                assert(self.seq()[j - 1] == x);
                            }
                        }
                    }
                    assert(self.set() =~= before.to_set().remove(key@));
                }
                true
            },
            None => {
                assert(self.set().remove(key@) =~= self.set());
                false
            },
        }
    }

    /// Empties the set.
    pub fn clear(&mut self)
        ensures
            final(self).wf(),
            final(self).seq() == Seq::<Seq<char>>::empty(),
            final(self).set() == Set::<Seq<char>>::empty(),
    {
        self.items.clear();
        assert(self.seq() =~= Seq::<Seq<char>>::empty());
        assert(self.set() =~= Set::<Seq<char>>::empty());
    }

    /// The string at position `i`.
    pub fn get(&self, i: usize) -> (s: &String)
        requires
            i < self.seq().len(),
        ensures
            s@ == self.seq()[i as int],
    {
        &self.items[i]
    }

    /// A copy of the strings, in insertion order.
    pub fn to_vec(&self) -> (v: Vec<String>)
        ensures
            views_of(v@) == self.seq(),
    {
        let mut v: Vec<String> = Vec::new();
        let mut i: usize = 0;
        while i < self.items.len()
            invariant
                i <= self.items.len(),
                views_of(v@) == self.seq().subrange(0, i as int),
            decreases self.items.len() - i,
        {
            let c = self.items[i].clone();
            assert(c@ == self.seq()[i as int]);
            let ghost prev = v@;
            v.push(c);
            assert(v@ == prev.push(c));
            assert(views_of(v@) =~= views_of(prev).push(c@));
            i = i + 1;
            assert(views_of(v@) =~= self.seq().subrange(0, i as int));
        }
        assert(self.seq().subrange(0, i as int) =~= self.seq());
        v
    }
}

/// The value at a position whose key is `k` (with keys held once, the only one).
pub open spec fn lookup(keys: Seq<Seq<char>>, vals: Seq<i64>, k: Seq<char>) -> i64 {
    vals[keys.index_of(k)]
}

/// A map from strings to ids, kept in insertion order of its keys, with no
/// key twice. It takes the place of `HashMap<String, i64>`, for the reason
/// given at `StringSet`.
pub struct StringMap {
    keys: StringSet,
    vals: Vec<i64>,
}

impl StringMap {
    /// The keys, in insertion order.
    pub closed spec fn key_seq(&self) -> Seq<Seq<char>> {
        self.keys.seq()
    }

    /// The values, in the order of their keys.
    pub closed spec fn val_seq(&self) -> Seq<i64> {
        self.vals@
    }

    /// The keys form a well-formed set, with one value for each.
    pub closed spec fn wf(&self) -> bool {
        &&& self.keys.wf()
        &&& self.vals@.len() == self.keys.seq().len()
    }

    /// The map held.
    pub open spec fn map(&self) -> Map<Seq<char>, i64> {
        Map::new(
            |k: Seq<char>| self.key_seq().contains(k),
            |k: Seq<char>| lookup(self.key_seq(), self.val_seq(), k),
        )
    }

    /// The empty map.
    pub fn new() -> (m: Self)
        ensures
            m.wf(),
            m.map() == Map::<Seq<char>, i64>::empty(),
            m.key_seq() == Seq::<Seq<char>>::empty(),
    {
        let m = StringMap { keys: StringSet::new(), vals: Vec::new() };
        assert(m.map() =~= Map::<Seq<char>, i64>::empty());
        m
    }

    /// How many keys the map holds.
    pub fn len(&self) -> (n: usize)
        requires
            self.wf(),
        ensures
            n == self.key_seq().len(),
            n == self.map().len(),
    {
        proof {
            self.key_seq().unique_seq_to_set();
            assert(self.map().dom() =~= self.key_seq().to_set());
        }
        self.vals.len()
    }

    /// The value under `key`, if any.
    pub fn get(&self, key: &str) -> (r: Option<i64>)
        requires
            self.wf(),
        ensures
            match r {
                Some(v) => self.map().contains_key(key@) && self.map()[key@] == v,
                None => !self.map().contains_key(key@),
            },
    {
        match self.keys.position(key) {
            Some(i) => {
                proof {
                    lemma_index_of_unique(self.key_seq(), i as int);
                }
                Some(self.vals[i])
            },
            None => None,
        }
    }

    /// Sets the value of `key` to `v`; gives back the value it replaced.
    pub fn insert(&mut self, key: String, v: i64) -> (prev: Option<i64>)
        requires
            old(self).wf(),
        ensures
            final(self).wf(),
            final(self).map() == old(self).map().insert(key@, v),
            match prev {
                Some(p) => old(self).map().contains_key(key@) && old(self).map()[key@] == p,
                None => !old(self).map().contains_key(key@),
            },
            old(self).map().contains_key(key@) ==> final(self).key_seq() == old(self).key_seq(),
            !old(self).map().contains_key(key@) ==> final(self).key_seq() == old(
                self,
            ).key_seq().push(key@),
    {
        let ghost old_map = self.map();
        let ghost ks = self.key_seq();
        let ghost vs = self.val_seq();
        match self.keys.position(key.as_str()) {
            Some(i) => {
                proof {
                    lemma_index_of_unique(ks, i as int);
                }
                let p = self.vals[i];
                self.vals.set(i, v);
                proof {
                    assert forall|k: Seq<char>| #[trigger]
                        self.map().contains_key(k) implies self.map()[k] == old_map.insert(
                        key@,
                        v,
                    )[k] by {
                        let j = ks.index_of(k);
                        assert(ks.contains(k));
                        lemma_index_of_is_witness(ks, k);
                        if k != key@ {
                            assert(j != i);
                        }
                    }
                    assert(self.map() =~= old_map.insert(key@, v));
                }
                Some(p)
            },
            None => {
                self.keys.insert(key);
                self.vals.push(v);
                proof {
                    let nks = self.key_seq();
                    assert(nks == ks.push(key@));
                    assert forall|k: Seq<char>| #[trigger]
                        self.map().contains_key(k) implies self.map()[k] == old_map.insert(
                        key@,
                        v,
                    )[k] by {
                        lemma_index_of_is_witness(nks, k);
                        let j = nks.index_of(k);
                        if k == key@ {
                            lemma_index_of_unique(nks, ks.len() as int);
                        } else {
                            assert(j < ks.len());
                            assert(ks[j] == k);
                            lemma_index_of_unique(ks, j);
                        }
                    }
                    assert forall|k: Seq<char>|
                        #![auto]
                        self.map().contains_key(k) <==> old_map.insert(key@, v).contains_key(k) by {
                        if k != key@ && nks.contains(k) {
                            let j = choose|j: int| 0 <= j < nks.len() && nks[j] == k;
                            assert(j < ks.len());
                            assert(ks[j] == k);
                        }
                        if ks.contains(k) {
                            let j = choose|j: int| 0 <= j < ks.len() && ks[j] == k;
                            assert(nks[j] == k);
                        }
                        if k == key@ {
                            assert(nks[ks.len() as int] == k);
                        }
                    }
                    assert(self.map() =~= old_map.insert(key@, v));
                }
                None
            },
        }
    }

    /// The key at position `i`.
    pub fn key_at(&self, i: usize) -> (s: &String)
        requires
            self.wf(),
            i < self.key_seq().len(),
        ensures
            s@ == self.key_seq()[i as int],
    {
        self.keys.get(i)
    }

    /// The value at position `i`.
    pub fn value_at(&self, i: usize) -> (v: i64)
        requires
            self.wf(),
            i < self.key_seq().len(),
        ensures
            v == self.val_seq()[i as int],
            v == self.map()[self.key_seq()[i as int]],
    {
        proof {
            lemma_index_of_unique(self.key_seq(), i as int);
        }
        self.vals[i]
    }
}

/// In a sequence without duplicates, the position found for the element at
/// `i` is `i`.
pub proof fn lemma_index_of_unique(s: Seq<Seq<char>>, i: int)
    requires
        s.no_duplicates(),
        0 <= i < s.len(),
    ensures
        s.index_of(s[i]) == i,
        s.contains(s[i]),
{
    assert(s.contains(s[i]));
    lemma_index_of_is_witness(s, s[i]);
}

/// The position found for an element held is a position where it stands.
pub proof fn lemma_index_of_is_witness(s: Seq<Seq<char>>, k: Seq<char>)
    requires
        s.contains(k),
    ensures
        0 <= s.index_of(k) < s.len(),
        s[s.index_of(k)] == k,
{
}

/// What a map built from the entries `v` holds: exactly their keys, each
/// with the value of its last entry.
pub open spec fn map_of_entries(m: Map<Seq<char>, i64>, v: Seq<(String, i64)>) -> bool {
    &&& forall|k: Seq<char>|
        m.contains_key(k) <==> exists|i: int| 0 <= i < v.len() && #[trigger] v[i].0@ == k
    &&& forall|i: int|
        0 <= i < v.len() && (forall|j: int| i < j < v.len() ==> #[trigger] v[j].0@ != v[i].0@)
            ==> m[#[trigger] v[i].0@] == v[i].1
}

/// What a listing of the map `m` holds: an entry for each key of the map,
/// and only entries of the map.
pub open spec fn entries_of_map(m: Map<Seq<char>, i64>, v: Seq<(String, i64)>) -> bool {
    &&& forall|k: Seq<char>|
        m.contains_key(k) <==> exists|i: int| 0 <= i < v.len() && #[trigger] v[i].0@ == k
    &&& forall|i: int|
        0 <= i < v.len() ==> m.contains_key(#[trigger] v[i].0@) && m[v[i].0@] == v[i].1
}

/// An entry with key `k` has a last entry with that key after it.
proof fn lemma_last_entry(v: Seq<(String, i64)>, k: Seq<char>, i: int)
    requires
        0 <= i < v.len(),
        v[i].0@ == k,
    ensures
        exists|j: int|
            i <= j < v.len() && v[j].0@ == k && forall|l: int| j < l < v.len() ==> #[trigger] v[l].0@
                != k,
    decreases v.len() - i,
{
    if exists|l: int| i < l < v.len() && #[trigger] v[l].0@ == k {
        let l = choose|l: int| i < l < v.len() && #[trigger] v[l].0@ == k;
        lemma_last_entry(v, k, l);
    } else {
        assert(forall|l: int| i < l < v.len() ==> #[trigger] v[l].0@ != k);
    }
}

/// A map listed as entries and built again from them is the map listed.
pub proof fn lemma_entries_round_trip(
    m: Map<Seq<char>, i64>,
    v: Seq<(String, i64)>,
    built: Map<Seq<char>, i64>,
)
    requires
        entries_of_map(m, v),
        map_of_entries(built, v),
    ensures
        built == m,
{
    assert forall|k: Seq<char>| #[trigger] m.contains_key(k) implies built.contains_key(k)
        && built[k] == m[k] by {
        let i = choose|i: int| 0 <= i < v.len() && #[trigger] v[i].0@ == k;
        lemma_last_entry(v, k, i);
        let j = choose|j: int|
            i <= j < v.len() && v[j].0@ == k && forall|l: int| j < l < v.len() ==> #[trigger] v[
                l].0@ != k;
        assert(forall|l: int| j < l < v.len() ==> #[trigger] v[l].0@ != v[j].0@);
        assert(built[v[j].0@] == v[j].1);
    }
    assert(built =~= m);
}

/// The set of the strings in `v`.
pub fn string_set_from(v: Vec<String>) -> (s: StringSet)
    ensures
        s.wf(),
        s.set() == views_of(v@).to_set(),
{
    let mut s = StringSet::new();
    let mut i: usize = 0;
    while i < v.len()
        invariant
            i <= v@.len(),
            s.wf(),
            s.set() == views_of(v@.subrange(0, i as int)).to_set(),
        decreases v.len() - i,
    {
        s.insert(v[i].clone());
        proof {
            let pre = views_of(v@.subrange(0, i as int));
            pre.lemma_push_to_set_commute(v@[i as int]@);
            assert(pre.push(v@[i as int]@) =~= views_of(v@.subrange(0, i + 1)));
        }
        i = i + 1;
    }
    assert(v@.subrange(0, v@.len() as int) =~= v@);
    s
}

/// The map of the pairs in `v`; for a key given twice, the later value.
pub fn string_map_from(v: Vec<(String, i64)>) -> (m: StringMap)
    ensures
        m.wf(),
        map_of_entries(m.map(), v@),
{
    let mut names = StringMap::new();
    let mut i: usize = 0;
    while i < v.len()
        invariant
            i <= v@.len(),
            names.wf(),
            forall|k: Seq<char>|
                names.map().contains_key(k) <==> exists|j: int|
                    0 <= j < i && #[trigger] v@[j].0@ == k,
            forall|j: int|
                0 <= j < i && (forall|l: int| j < l < i ==> #[trigger] v@[l].0@ != v@[j].0@)
                    ==> names.map()[#[trigger] v@[j].0@] == v@[j].1,
        decreases v.len() - i,
    {
        let (name, uid) = (v[i].0.clone(), v[i].1);
        let ghost prev = names.map();
        names.insert(name, uid);
        proof {
            assert forall|k: Seq<char>|
                names.map().contains_key(k) <==> exists|j: int|
                    0 <= j < i + 1 && #[trigger] v@[j].0@ == k by {
                if k == v@[i as int].0@ {
                    assert(v@[i as int].0@ == k);
                } else if names.map().contains_key(k) {
                    assert(prev.contains_key(k));
                } else {
                    assert(!prev.contains_key(k));
                }
            }
            assert forall|j: int|
                0 <= j < i + 1 && (forall|l: int| j < l < i + 1 ==> #[trigger] v@[l].0@ != v@[
                    j].0@) implies names.map()[#[trigger] v@[j].0@] == v@[j].1 by {
                if j < i {
                    assert(v@[i as int].0@ != v@[j].0@);
                    assert forall|l: int| j < l < i implies #[trigger] v@[l].0@ != v@[j].0@ by {
                        assert(j < l < i + 1);
                    }
                }
            }
        }
        i = i + 1;
    }
    names
}

} // verus!
