use std::collections::HashSet;
use vstd::prelude::*;
use crate::id_set::{id_set_from, ids_in_order};
use crate::string_set::{
    StringMap, entries_of_map, lemma_entries_round_trip, map_of_entries, string_map_from,
};

verus! {

/// Who receives broadcasts: every user seen, those who opted out, and the
/// id last seen under each username.
pub struct BroadcastStorage {
    all_users: HashSet<i64>,
    unsubscribed_users: HashSet<i64>,
    username_to_user_id: StringMap,
}

impl BroadcastStorage {
    /// The username map is well formed.
    pub closed spec fn wf(&self) -> bool {
        self.username_to_user_id.wf()
    }

    /// Every user seen.
    pub closed spec fn all_users(&self) -> Set<i64> {
        self.all_users@
    }

    /// The users who opted out of broadcasts.
    pub closed spec fn unsubscribed(&self) -> Set<i64> {
        self.unsubscribed_users@
    }

    /// The id last seen under each username.
    pub closed spec fn usernames(&self) -> Map<Seq<char>, i64> {
        self.username_to_user_id.map()
    }

    /// The empty store.
    pub fn new() -> (s: Self)
        ensures
            s.wf(),
            s.all_users() == Set::<i64>::empty(),
            s.unsubscribed() == Set::<i64>::empty(),
            s.usernames() == Map::<Seq<char>, i64>::empty(),
    {
        BroadcastStorage {
            all_users: HashSet::new(),
            unsubscribed_users: HashSet::new(),
            username_to_user_id: StringMap::new(),
        }
    }

    /// The store that holds the given users, opted-out users and usernames;
    /// where a username occurs twice, the later id is kept.
    pub fn from_parts(
        all_users: Vec<i64>,
        unsubscribed_users: Vec<i64>,
        usernames: Vec<(String, i64)>,
    ) -> (s: Self)
        ensures
            s.wf(),
            s.all_users() == all_users@.to_set(),
            s.unsubscribed() == unsubscribed_users@.to_set(),
            map_of_entries(s.usernames(), usernames@),
    {
        let all = id_set_from(&all_users);
        let unsub = id_set_from(&unsubscribed_users);
        let names = string_map_from(usernames);
        BroadcastStorage { all_users: all, unsubscribed_users: unsub, username_to_user_id: names }
    }

    /// Every user seen, in the set's own order.
    pub fn all_users_vec(&self) -> (v: Vec<i64>)
        ensures
            v@.to_set() == self.all_users(),
            v@.no_duplicates(),
    {
        ids_in_order(&self.all_users)
    }

    /// The users who opted out, in the set's own order.
    pub fn unsubscribed_vec(&self) -> (v: Vec<i64>)
        ensures
            v@.to_set() == self.unsubscribed(),
            v@.no_duplicates(),
    {
        ids_in_order(&self.unsubscribed_users)
    }

    /// The usernames and their ids, in the order the usernames were first
    /// seen.
    pub fn usernames_vec(&self) -> (v: Vec<(String, i64)>)
        requires
            self.wf(),
        ensures
            entries_of_map(self.usernames(), v@),
    {
        let n = self.username_to_user_id.len();
        let mut v: Vec<(String, i64)> = Vec::new();
        let mut i: usize = 0;
        while i < n
            invariant
                i <= n,
                n == self.username_to_user_id.key_seq().len(),
                self.username_to_user_id.wf(),
                v@.len() == i,
                forall|j: int|
                    0 <= j < i ==> #[trigger] v@[j].0@ == self.username_to_user_id.key_seq()[j]
                        && v@[j].1 == self.username_to_user_id.map()[v@[j].0@],
            decreases n - i,
        {
            let k = self.username_to_user_id.key_at(i).clone();
            let val = self.username_to_user_id.value_at(i);
            v.push((k, val));
            i = i + 1;
        }
        proof {
            let ks = self.username_to_user_id.key_seq();
            assert forall|k: Seq<char>|
                self.usernames().contains_key(k) implies exists|i: int|
                    0 <= i < v@.len() && #[trigger] v@[i].0@ == k by {
                let j = choose|j: int| 0 <= j < ks.len() && ks[j] == k;
                assert(v@[j].0@ == k);
            }
            assert forall|i: int| 0 <= i < v@.len() implies self.usernames().contains_key(
                #[trigger] v@[i].0@,
            ) by {
                assert(ks[i] == v@[i].0@);
            }
        }
        v
    }
}

/// The broadcast store written out as lists and read back is the store
/// that was written.
pub proof fn lemma_broadcast_store_round_trip(
    s: BroadcastStorage,
    all: Seq<i64>,
    unsub: Seq<i64>,
    names: Seq<(String, i64)>,
    t: BroadcastStorage,
)
    requires
        s.wf(),
        all.to_set() == s.all_users(),
        unsub.to_set() == s.unsubscribed(),
        entries_of_map(s.usernames(), names),
        t.all_users() == all.to_set(),
        t.unsubscribed() == unsub.to_set(),
        map_of_entries(t.usernames(), names),
    ensures
        t.all_users() == s.all_users(),
        t.unsubscribed() == s.unsubscribed(),
        t.usernames() == s.usernames(),
{
    lemma_entries_round_trip(s.usernames(), names, t.usernames());
}

/// Who receives broadcasts and how users are found by username.
pub struct BroadcastManager {
    storage: BroadcastStorage,
}

/// The users who receive broadcasts: every user seen who has not opted out.
pub open spec fn broadcast_targets(all: Set<i64>, unsubscribed: Set<i64>) -> Set<i64> {
    all.difference(unsubscribed)
}

impl BroadcastManager {
    /// The store is well formed.
    pub closed spec fn wf(&self) -> bool {
        self.storage.wf()
    }

    /// Every user seen.
    pub closed spec fn all_users(&self) -> Set<i64> {
        self.storage.all_users()
    }

    /// The users who opted out of broadcasts.
    pub closed spec fn unsubscribed(&self) -> Set<i64> {
        self.storage.unsubscribed()
    }

    /// The id last seen under each username.
    pub closed spec fn usernames(&self) -> Map<Seq<char>, i64> {
        self.storage.usernames()
    }

    /// A manager with nobody in it.
    pub fn new() -> (m: Self)
        ensures
            m.wf(),
            m.all_users() == Set::<i64>::empty(),
            m.unsubscribed() == Set::<i64>::empty(),
            m.usernames() == Map::<Seq<char>, i64>::empty(),
    {
        BroadcastManager { storage: BroadcastStorage::new() }
    }

    /// A manager over a store that was read back.
    pub fn from_storage(storage: BroadcastStorage) -> (m: Self)
        requires
            storage.wf(),
        ensures
            m.wf(),
            m.all_users() == storage.all_users(),
            m.unsubscribed() == storage.unsubscribed(),
            m.usernames() == storage.usernames(),
    {
        BroadcastManager { storage }
    }

    /// The store, to be written out.
    pub fn storage(&self) -> (s: &BroadcastStorage)
        ensures
            s.wf() == self.wf(),
            s.all_users() == self.all_users(),
            s.unsubscribed() == self.unsubscribed(),
            s.usernames() == self.usernames(),
    {
        &self.storage
    }

    /// Records that `user_id` wrote, under `username` if it has one. True
    /// when the store changed and must be written out: the user is new, or a
    /// username was given.
    pub fn add_user_with_username(&mut self, user_id: i64, username: Option<String>) -> (changed:
        bool)
        requires
            old(self).wf(),
        ensures
            final(self).wf(),
            changed == (!old(self).all_users().contains(user_id) || username is Some),
            final(self).all_users() == old(self).all_users().insert(user_id),
            final(self).unsubscribed() == old(self).unsubscribed(),
            final(self).usernames() == match username {
                Some(n) => old(self).usernames().insert(n@, user_id),
                None => old(self).usernames(),
            },
    {
        let mut changed = self.storage.all_users.insert(user_id);
        if let Some(name) = username {
            self.storage.username_to_user_id.insert(name, user_id);
            changed = true;
        }
        changed
    }

    /// The users who receive broadcasts, each once.
    pub fn get_broadcast_list(&self) -> (list: Vec<i64>)
        ensures
            list@.to_set() == broadcast_targets(self.all_users(), self.unsubscribed()),
            list@.no_duplicates(),
    {
        let all = ids_in_order(&self.storage.all_users);
        let unsub = &self.storage.unsubscribed_users;
        let mut list: Vec<i64> = Vec::new();
        let mut i: usize = 0;
        while i < all.len()
            invariant
                i <= all@.len(),
                all@.to_set() == self.all_users(),
                all@.no_duplicates(),
                unsub@ == self.unsubscribed(),
                list@.no_duplicates(),
                forall|u: i64|
                    list@.contains(u) <==> (all@.subrange(0, i as int).contains(u)
                        && !self.unsubscribed().contains(u)),
            decreases all.len() - i,
        {
            let u = all[i];
            let ghost seen = all@.subrange(0, i as int);
            proof {
                if seen.contains(u) {
                    let j = choose|j: int| 0 <= j < seen.len() && seen[j] == u;
                    assert(all@[j] == u);
                }
            }
            let ghost old_list = list@;
            let keep = !unsub.contains(&u);
            if keep {
                list.push(u);
            }
            proof {
                let now = all@.subrange(0, i + 1);
                assert(!seen.contains(u));
                assert(!old_list.contains(u));
                assert forall|w: i64| list@.contains(w) <==> (now.contains(w)
                    && !self.unsubscribed().contains(w)) by {
                    if keep {
                        assert(list@ == old_list.push(u));
                        if list@.contains(w) && w != u {
                            let j = choose|j: int| 0 <= j < list@.len() && list@[j] == w;
                            assert(old_list[j] == w);
                        }
                        if old_list.contains(w) {
                            let j = choose|j: int| 0 <= j < old_list.len() && old_list[j] == w;
                            assert(list@[j] == w);
                        }
                        if w == u {
                            assert(list@[old_list.len() as int] == w);
                        }
                    }
                    if seen.contains(w) {
                        let j = choose|j: int| 0 <= j < seen.len() && seen[j] == w;
                        assert(now[j] == w);
                    }
                    if now.contains(w) && w != u {
                        let j = choose|j: int| 0 <= j < now.len() && now[j] == w;
                        assert(j < seen.len());
                        assert(seen[j] == w);
                    }
                    if w == u {
                        assert(now[i as int] == w);
                    }
                }
                if keep {
                    assert forall|a: int, b: int|
                        0 <= a < list@.len() && 0 <= b < list@.len() && a != b implies list@[a]
                        != list@[b] by {
                        if a == old_list.len() {
                            assert(old_list.contains(list@[b]));
                        } else if b == old_list.len() {
                            assert(old_list.contains(list@[a]));
                        }
                    }
                }
            }
            i = i + 1;
        }
        proof {
            assert(all@.subrange(0, all@.len() as int) =~= all@);
            assert forall|u: i64| #[trigger]
                list@.to_set().contains(u) <==> broadcast_targets(
                    self.all_users(),
                    self.unsubscribed(),
                ).contains(u) by {
                assert(all@.to_set().contains(u) <==> all@.contains(u));
            }
            assert(list@.to_set() =~= broadcast_targets(self.all_users(), self.unsubscribed()));
        }
        list
    }

    /// The id last seen under `username`, if any.
    pub fn get_user_by_username(&self, username: &str) -> (r: Option<i64>)
        requires
            self.wf(),
        ensures
            match r {
                Some(id) => self.usernames().contains_key(username@) && self.usernames()[username@]
                    == id,
                None => !self.usernames().contains_key(username@),
            },
    {
        self.storage.username_to_user_id.get(username)
    }
}

} // verus!
