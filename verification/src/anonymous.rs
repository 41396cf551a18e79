use std::collections::HashMap;
use vstd::prelude::*;
use vstd::set_lib::{FiniteRange, lemma_len_subset};
use crate::random::random_in_range;

verus! {

/// The smallest anonymous code.
pub const CODE_MIN: u16 = 1000;

/// The largest anonymous code.
pub const CODE_MAX: u16 = 9999;

/// How many codes there are.
pub const CODE_COUNT: usize = 9000;

/// How many random draws are made before the lowest free code is taken.
pub const MAX_DRAWS: u32 = 1000000;

/// A well-formed anonymous code: four digits, 1000 to 9999.
pub open spec fn is_code(c: u16) -> bool {
    CODE_MIN <= c <= CODE_MAX
}

/// Whether `s` holds `x`.
fn slice_contains(s: &[u16], x: u16) -> (b: bool)
    ensures
        b == s@.contains(x),
{
    let mut i: usize = 0;
    while i < s.len()
        invariant
            i <= s@.len(),
            forall|j: int| 0 <= j < i ==> s@[j] != x,
        decreases s.len() - i,
    {
        if s[i] == x {
            return true;
        }
        i = i + 1;
    }
    false
}

/// A code that is not in `existing_codes`, drawn at random from 1000..=9999
/// until a free one comes up. After `MAX_DRAWS` draws that all hit used
/// codes, the lowest free code is taken, so that the search ends.
pub fn generate_unique_code(existing_codes: &[u16]) -> (code: u16)
    requires
        exists|c: u16| is_code(c) && !existing_codes@.contains(c),
    ensures
        is_code(code),
        !existing_codes@.contains(code),
{
    let mut draws: u32 = 0;
    while draws < MAX_DRAWS
        invariant
            draws <= MAX_DRAWS,
        decreases MAX_DRAWS - draws,
    {
        let code = random_in_range(CODE_MIN, CODE_MAX);
        if !slice_contains(existing_codes, code) {
            return code;
        }
        draws = draws + 1;
    }
    let mut c: u16 = CODE_MIN;
    while c <= CODE_MAX
        invariant
            CODE_MIN <= c <= CODE_MAX + 1,
            forall|d: u16| CODE_MIN <= d < c ==> existing_codes@.contains(d),
        decreases CODE_MAX + 1 - c,
    {
        if !slice_contains(existing_codes, c) {
            return c;
        }
        c = c + 1;
    }
    proof {
        let free = choose|d: u16| is_code(d) && !existing_codes@.contains(d);
        assert(existing_codes@.contains(free));
    }
    0
}

/// When fewer than 9000 codes are in use, some code is free.
pub proof fn lemma_free_code_exists(codes: Set<u16>)
    requires
        codes.finite(),
        codes.len() < CODE_COUNT,
    ensures
        exists|c: u16| is_code(c) && !codes.contains(c),
{
    let all = <u16 as FiniteRange>::range_set(CODE_MIN, (CODE_MAX + 1) as u16);
    <u16 as FiniteRange>::range_properties(CODE_MIN, (CODE_MAX + 1) as u16);
    if forall|c: u16| is_code(c) ==> codes.contains(c) {
        assert forall|c: u16| all.contains(c) implies codes.contains(c) by {
            assert(is_code(c));
        }
        assert(all.subset_of(codes));
        lemma_len_subset(all, codes);
        assert(false);
    }
}

/// Some user or some code occurs twice, or some code is not four digits.
pub open spec fn conflicting(pairs: Seq<(i64, u16)>) -> bool {
    ||| exists|i: int, j: int|
        0 <= i < j < pairs.len() && #[trigger] pairs[i].0 == #[trigger] pairs[j].0
    ||| exists|i: int, j: int|
        0 <= i < j < pairs.len() && #[trigger] pairs[i].1 == #[trigger] pairs[j].1
    ||| exists|i: int| 0 <= i < pairs.len() && !is_code(#[trigger] pairs[i].1)
}

/// The codes of the pairs, in order.
pub open spec fn codes_of(pairs: Seq<(i64, u16)>) -> Seq<u16> {
    pairs.map_values(|p: (i64, u16)| p.1)
}

/// What a store built from the pairs gives: each user of the pairs its
/// code, no one else a code, and the codes in use in the pairs' order.
pub open spec fn assigns(s: AnonymousStorage, pairs: Seq<(i64, u16)>) -> bool {
    &&& s.used() == codes_of(pairs)
    &&& forall|i: int|
        0 <= i < pairs.len() ==> #[trigger] s.codes().contains_key(pairs[i].0) && s.codes()[pairs[i].0]
            == pairs[i].1
    &&& forall|u: i64|
        s.codes().contains_key(u) ==> exists|i: int| 0 <= i < pairs.len() && #[trigger] pairs[i].0 == u
}

/// What a listing of the store gives: one pair per code in use, in the
/// order the codes were given out, with the user that holds it, and a pair
/// for every user with a code.
pub open spec fn lists_assignments(s: AnonymousStorage, v: Seq<(i64, u16)>) -> bool {
    &&& v.len() == s.used().len()
    &&& forall|i: int|
        0 <= i < v.len() ==> #[trigger] v[i].1 == s.used()[i] && s.codes().contains_key(v[i].0)
            && s.codes()[v[i].0] == v[i].1
    &&& forall|u: i64|
        s.codes().contains_key(u) ==> exists|i: int| 0 <= i < v.len() && #[trigger] v[i].0 == u
}

/// Which code each user was given, and which user each code belongs to.
pub struct AnonymousStorage {
    user_id_to_code: HashMap<i64, u16>,
    code_to_user_id: HashMap<u16, i64>,
    used_codes: Vec<u16>,
}

impl AnonymousStorage {
    /// The code given to each user.
    pub closed spec fn codes(&self) -> Map<i64, u16> {
        self.user_id_to_code@
    }

    /// The user each code in use belongs to.
    pub closed spec fn owners(&self) -> Map<u16, i64> {
        self.code_to_user_id@
    }

    /// The codes in use, in the order they were given out.
    pub closed spec fn used(&self) -> Seq<u16> {
        self.used_codes@
    }

    /// The two maps are inverse to each other, every code is well formed,
    /// and the list of used codes holds each code in use once.
    pub open spec fn wf(&self) -> bool {
        &&& forall|u: i64| #[trigger]
            self.codes().contains_key(u) ==> self.owners().contains_key(self.codes()[u])
                && self.owners()[self.codes()[u]] == u
        &&& forall|c: u16| #[trigger]
            self.owners().contains_key(c) ==> self.codes().contains_key(self.owners()[c])
                && self.codes()[self.owners()[c]] == c && is_code(c)
        &&& self.used().no_duplicates()
        &&& self.used().to_set() == self.owners().dom()
    }

    /// Nobody has a code.
    pub fn new() -> (s: Self)
        ensures
            s.wf(),
            s.codes() == Map::<i64, u16>::empty(),
            s.owners() == Map::<u16, i64>::empty(),
            s.used() == Seq::<u16>::empty(),
    {
        let s = AnonymousStorage {
            user_id_to_code: HashMap::new(),
            code_to_user_id: HashMap::new(),
            used_codes: Vec::new(),
        };
        assert(s.used().to_set() =~= s.owners().dom());
        s
    }

    /// Gives `code` to `user_id`.
    fn assign(&mut self, user_id: i64, code: u16)
        requires
            old(self).wf(),
            !old(self).codes().contains_key(user_id),
            !old(self).owners().contains_key(code),
            is_code(code),
        ensures
            final(self).wf(),
            final(self).codes() == old(self).codes().insert(user_id, code),
            final(self).owners() == old(self).owners().insert(code, user_id),
            final(self).used() == old(self).used().push(code),
    {
        let ghost before = self.used();
        self.user_id_to_code.insert(user_id, code);
        self.code_to_user_id.insert(code, user_id);
        self.used_codes.push(code);
        proof {
            assert(!before.contains(code)) by {
                assert(!before.to_set().contains(code));
            }
            before.lemma_push_to_set_commute(code);
            assert(self.used().to_set() =~= self.owners().dom());
        }
    }

    /// The store that gives each user in `pairs` its code; none when a user
    /// or a code occurs twice or a code is not four digits.
    pub fn from_assignments(pairs: Vec<(i64, u16)>) -> (r: Option<Self>)
        ensures
            match r {
                Some(s) => s.wf() && assigns(s, pairs@),
                None => conflicting(pairs@),
            },
    {
        let mut s = AnonymousStorage::new();
        let mut i: usize = 0;
        while i < pairs.len()
            invariant
                i <= pairs@.len(),
                s.wf(),
                forall|k: int|
                    0 <= k < i ==> #[trigger] s.codes().contains_key(pairs@[k].0)
                        && s.codes()[pairs@[k].0] == pairs@[k].1,
                forall|u: i64|
                    s.codes().contains_key(u) ==> exists|k: int|
                        0 <= k < i && #[trigger] pairs@[k].0 == u,
                forall|c: u16|
                    s.owners().contains_key(c) ==> exists|k: int|
                        0 <= k < i && #[trigger] pairs@[k].1 == c,
                s.used() == codes_of(pairs@.subrange(0, i as int)),
            decreases pairs.len() - i,
        {
            let u = pairs[i].0;
            let c = pairs[i].1;
            if !(CODE_MIN <= c && c <= CODE_MAX) {
                assert(!is_code(pairs@[i as int].1));
                assert(conflicting(pairs@));
                return None;
            }
            if s.user_id_to_code.contains_key(&u) {
                proof {
                    assert(s.codes().contains_key(u));
                    assert(exists|k: int| 0 <= k < i && #[trigger] pairs@[k].0 == u);
                    let k = choose|k: int| 0 <= k < i && #[trigger] pairs@[k].0 == u;
                    assert(pairs@[k].0 == pairs@[i as int].0);
                    assert(conflicting(pairs@));
                }
                return None;
            }
            if s.code_to_user_id.contains_key(&c) {
                proof {
                    let k = choose|k: int| 0 <= k < i && #[trigger] pairs@[k].1 == c;
                    assert(pairs@[k].1 == pairs@[i as int].1);
                    assert(conflicting(pairs@));
                }
                return None;
            }
            s.assign(u, c);
            assert(codes_of(pairs@.subrange(0, i + 1)) =~= codes_of(pairs@.subrange(0, i as int)).push(c));
            proof {
                assert forall|v: i64| s.codes().contains_key(v) implies exists|k: int|
                    0 <= k < i + 1 && #[trigger] pairs@[k].0 == v by {
                    if v == u {
                        assert(pairs@[i as int].0 == v);
                    }
                }
                assert forall|d: u16| s.owners().contains_key(d) implies exists|k: int|
                    0 <= k < i + 1 && #[trigger] pairs@[k].1 == d by {
                    if d == c {
                        assert(pairs@[i as int].1 == d);
                    }
                }
            }
            i = i + 1;
        }
        assert(pairs@.subrange(0, pairs@.len() as int) =~= pairs@);
        Some(s)
    }

    /// Each code in use with the user it belongs to, in the order the codes
    /// were given out.
    pub fn assignments_vec(&self) -> (v: Vec<(i64, u16)>)
        requires
            self.wf(),
        ensures
            lists_assignments(*self, v@),
            !conflicting(v@),
    {
        let mut v: Vec<(i64, u16)> = Vec::new();
        let mut i: usize = 0;
        while i < self.used_codes.len()
            invariant
                self.wf(),
                i <= self.used().len(),
                v@.len() == i,
                forall|k: int|
                    0 <= k < i ==> #[trigger] v@[k].1 == self.used()[k] && self.codes().contains_key(
                        v@[k].0,
                    ) && self.codes()[v@[k].0] == v@[k].1,
            decreases self.used().len() - i,
        {
            let c = self.used_codes[i];
            proof {
                assert(self.used().to_set().contains(c));
            }
            let u = match self.code_to_user_id.get(&c) {
                Some(u) => *u,
                None => {
                    assert(false);
                    0
                },
            };
            v.push((u, c));
            i = i + 1;
        }
        proof {
            assert forall|u: i64| self.codes().contains_key(u) implies exists|i: int|
                0 <= i < v@.len() && #[trigger] v@[i].0 == u by {
                let c = self.codes()[u];
                assert(self.used().to_set().contains(c));
                let k = choose|k: int| 0 <= k < self.used().len() && self.used()[k] == c;
                assert(v@[k].1 == c);
                assert(self.owners()[c] == u);
                assert(self.codes()[v@[k].0] == c);
                assert(self.owners()[c] == v@[k].0);
            }
            lemma_listing_not_conflicting(*self, v@);
        }
        v
    }
}

/// A listing of a well-formed code store is never conflicting: no user and
/// no code occurs twice, and every code is four digits.
pub proof fn lemma_listing_not_conflicting(s: AnonymousStorage, v: Seq<(i64, u16)>)
    requires
        s.wf(),
        lists_assignments(s, v),
    ensures
        !conflicting(v),
{
    assert forall|i: int, j: int| 0 <= i < j < v.len() implies #[trigger] v[i].0 != #[trigger] v[j].0 by {
        assert(v[i].1 == s.used()[i]);
        assert(v[j].1 == s.used()[j]);
        if v[i].0 == v[j].0 {
            assert(s.used()[i] == s.used()[j]);
        }
    }
    assert forall|i: int, j: int| 0 <= i < j < v.len() implies #[trigger] v[i].1 != #[trigger] v[j].1 by {
        assert(v[i].1 == s.used()[i]);
        assert(v[j].1 == s.used()[j]);
    }
    assert forall|i: int| 0 <= i < v.len() implies is_code(#[trigger] v[i].1) by {
        assert(v[i].1 == s.used()[i]);
        assert(s.used().to_set().contains(s.used()[i]));
        assert(s.owners().contains_key(v[i].1));
    }
}

/// A code store written out as pairs is read back without conflict, and
/// is the store that was written: the same code for every user, the same
/// user for every code, and the codes in use in the same order.
pub proof fn lemma_anonymous_store_round_trip(
    s: AnonymousStorage,
    v: Seq<(i64, u16)>,
    t: AnonymousStorage,
)
    requires
        s.wf(),
        lists_assignments(s, v),
        t.wf(),
        assigns(t, v),
    ensures
        !conflicting(v),
        t.codes() == s.codes(),
        t.owners() == s.owners(),
        t.used() == s.used(),
{
    lemma_listing_not_conflicting(s, v);
    assert forall|u: i64| #[trigger] s.codes().contains_key(u) implies t.codes().contains_key(u)
        && t.codes()[u] == s.codes()[u] by {
        let i = choose|i: int| 0 <= i < v.len() && #[trigger] v[i].0 == u;
        assert(t.codes().contains_key(v[i].0));
    }
    assert forall|u: i64| #[trigger] t.codes().contains_key(u) implies s.codes().contains_key(u) by {
        let i = choose|i: int| 0 <= i < v.len() && #[trigger] v[i].0 == u;
        assert(s.codes().contains_key(v[i].0));
    }
    assert(t.codes() =~= s.codes());
    assert(t.used() =~= s.used());
    assert forall|c: u16| #[trigger] s.owners().contains_key(c) implies t.owners().contains_key(c)
        && t.owners()[c] == s.owners()[c] by {
        let u = s.owners()[c];
        assert(s.codes().contains_key(u));
        assert(t.codes().contains_key(u));
    }
    assert forall|c: u16| #[trigger] t.owners().contains_key(c) implies s.owners().contains_key(c) by {
        let u = t.owners()[c];
        assert(t.codes().contains_key(u));
        assert(s.codes().contains_key(u));
    }
    assert(t.owners() =~= s.owners());
}

/// Hands out anonymous codes: one per user, never the same to two users.
pub struct AnonymousManager {
    storage: AnonymousStorage,
}

impl AnonymousManager {
    /// The store is well formed.
    pub open spec fn wf(&self) -> bool {
        self.storage().wf()
    }

    /// The store.
    pub closed spec fn storage(&self) -> AnonymousStorage {
        self.storage
    }

    /// The code given to each user.
    pub open spec fn codes(&self) -> Map<i64, u16> {
        self.storage().codes()
    }

    /// The codes in use.
    pub open spec fn codes_in_use(&self) -> Set<u16> {
        self.storage().owners().dom()
    }

    /// Nobody has a code.
    pub fn new() -> (m: Self)
        ensures
            m.wf(),
            m.codes() == Map::<i64, u16>::empty(),
            m.codes_in_use() == Set::<u16>::empty(),
    {
        AnonymousManager { storage: AnonymousStorage::new() }
    }

    /// A manager over a store that was read back.
    pub fn from_storage(storage: AnonymousStorage) -> (m: Self)
        requires
            storage.wf(),
        ensures
            m.wf(),
            m.storage() == storage,
    {
        AnonymousManager { storage }
    }

    /// The store, to be written out.
    pub fn storage_ref(&self) -> (s: &AnonymousStorage)
        ensures
            *s == self.storage(),
    {
        &self.storage
    }

    /// How many codes are in use.
    pub fn code_count(&self) -> (n: usize)
        requires
            self.wf(),
        ensures
            n == self.codes_in_use().len(),
    {
        proof {
            self.storage().used().unique_seq_to_set();
        }
        self.storage.used_codes.len()
    }

    /// The code of `user_id`; a user without one is given a fresh random
    /// code that no other user has.
    pub fn get_or_create_anonymous_code(&mut self, user_id: i64) -> (code: u16)
        requires
            old(self).wf(),
            old(self).codes().contains_key(user_id) || old(self).codes_in_use().len() < CODE_COUNT,
        ensures
            final(self).wf(),
            is_code(code),
            final(self).codes().contains_key(user_id),
            final(self).codes()[user_id] == code,
            old(self).codes().contains_key(user_id) ==> code == old(self).codes()[user_id]
                && final(self).storage() == old(self).storage(),
            !old(self).codes().contains_key(user_id) ==> {
                &&& !old(self).codes_in_use().contains(code)
                &&& final(self).codes() == old(self).codes().insert(user_id, code)
                &&& final(self).codes_in_use() == old(self).codes_in_use().insert(code)
                &&& final(self).storage().owners() == old(self).storage().owners().insert(
                    code,
                    user_id,
                )
                &&& final(self).storage().used() == old(self).storage().used().push(code)
            },
    {
        if let Some(code) = self.storage.user_id_to_code.get(&user_id) {
            return *code;
        }
        proof {
            let used = self.storage().used();
            assert(used.to_set() == self.codes_in_use());
            used.unique_seq_to_set();
            lemma_free_code_exists(self.codes_in_use());
            let c = choose|c: u16| is_code(c) && !self.codes_in_use().contains(c);
            assert(!used.contains(c)) by {
                if used.contains(c) {
                    assert(used.to_set().contains(c));
                }
            }
        }
        let code = generate_unique_code(self.storage.used_codes.as_slice());
        proof {
            if self.codes_in_use().contains(code) {
                assert(self.storage().used().to_set().contains(code));
            }
        }
        self.storage.assign(user_id, code);
        proof {
            assert(self.codes_in_use() =~= old(self).codes_in_use().insert(code));
        }
        code
    }

    /// The code of `user_id`, if it has one.
    pub fn get_anonymous_code(&self, user_id: i64) -> (r: Option<u16>)
        ensures
            match r {
                Some(c) => self.codes().contains_key(user_id) && self.codes()[user_id] == c,
                None => !self.codes().contains_key(user_id),
            },
    {
        match self.storage.user_id_to_code.get(&user_id) {
            Some(c) => Some(*c),
            None => None,
        }
    }
}

/// Two different users never share a code.
pub proof fn lemma_codes_distinct(m: AnonymousManager, a: i64, b: i64)
    requires
        m.wf(),
        a != b,
        m.codes().contains_key(a),
        m.codes().contains_key(b),
    ensures
        m.codes()[a] != m.codes()[b],
{
}

} // verus!
