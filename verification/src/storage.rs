use std::collections::HashSet;
use vstd::prelude::*;
use vstd::string::StringExecFns;
use crate::id_set::{id_set_from, ids_in_order};
use crate::string_set::{
    StringMap, StringSet, entries_of_map, lemma_entries_round_trip, map_of_entries,
    string_map_from, string_set_from, views_of,
};
use crate::text::{cat2, cat3, dec_int, fmt_i64};

verus! {

/// The key under which an anonymous code is blocked and registered.
pub open spec fn anon_key(code: Seq<char>) -> Seq<char> {
    "anon"@ + code
}

/// How `{:?}` prints an optional id.
pub open spec fn debug_opt_id(v: Option<i64>) -> Seq<char> {
    match v {
        Some(x) => "Some("@ + dec_int(x as int) + ")"@,
        None => "None"@,
    }
}

/// The line listing a blocked anonymous key with the user registered
/// under it.
pub open spec fn anon_list_line(key: Seq<char>, owner: Option<i64>) -> Seq<char> {
    key + " (пользователь: "@ + debug_opt_id(owner) + ")"@
}

/// The line listing a blocked id.
pub open spec fn id_list_line(id: i64) -> Seq<char> {
    "ID:"@ + dec_int(id as int)
}

/// The block lists: blocked anonymous keys, blocked usernames, blocked ids,
/// and the user registered under each anonymous key.
pub struct BlockStore {
    anons: StringSet,
    usr: StringSet,
    ids: HashSet<i64>,
    a2u: StringMap,
}

impl BlockStore {
    /// The two string sets and the registration map are well formed.
    pub closed spec fn wf(&self) -> bool {
        &&& self.anons.wf()
        &&& self.usr.wf()
        &&& self.a2u.wf()
    }

    /// The blocked anonymous keys ("anon" followed by the code).
    pub closed spec fn anons(&self) -> Set<Seq<char>> {
        self.anons.set()
    }

    /// The blocked anonymous keys, in the order they were blocked.
    pub closed spec fn anon_seq(&self) -> Seq<Seq<char>> {
        self.anons.seq()
    }

    /// The blocked usernames (as written, with their '@').
    pub closed spec fn users(&self) -> Set<Seq<char>> {
        self.usr.set()
    }

    /// The blocked usernames, in the order they were blocked.
    pub closed spec fn user_seq(&self) -> Seq<Seq<char>> {
        self.usr.seq()
    }

    /// The blocked ids.
    pub closed spec fn ids(&self) -> Set<i64> {
        self.ids@
    }

    /// The user registered under each anonymous key.
    pub closed spec fn owners(&self) -> Map<Seq<char>, i64> {
        self.a2u.map()
    }

    /// Empty block lists.
    pub fn new() -> (s: Self)
        ensures
            s.wf(),
            s.anons() == Set::<Seq<char>>::empty(),
            s.users() == Set::<Seq<char>>::empty(),
            s.ids() == Set::<i64>::empty(),
            s.owners() == Map::<Seq<char>, i64>::empty(),
    {
        BlockStore {
            anons: StringSet::new(),
            usr: StringSet::new(),
            ids: HashSet::new(),
            a2u: StringMap::new(),
        }
    }

    /// The block lists holding the given entries; where an anonymous key is
    /// registered twice, the later user is kept.
    pub fn from_parts(
        anons: Vec<String>,
        usr: Vec<String>,
        ids: Vec<i64>,
        a2u: Vec<(String, i64)>,
    ) -> (s: Self)
        ensures
            s.wf(),
            s.anons() == views_of(anons@).to_set(),
            s.users() == views_of(usr@).to_set(),
            s.ids() == ids@.to_set(),
            map_of_entries(s.owners(), a2u@),
    {
        let id_set = id_set_from(&ids);
        BlockStore {
            anons: string_set_from(anons),
            usr: string_set_from(usr),
            ids: id_set,
            a2u: string_map_from(a2u),
        }
    }

    /// The blocked anonymous keys, in the order they were blocked.
    pub fn anons_vec(&self) -> (v: Vec<String>)
        ensures
            views_of(v@) == self.anon_seq(),
    {
        self.anons.to_vec()
    }

    /// The blocked usernames, in the order they were blocked.
    pub fn users_vec(&self) -> (v: Vec<String>)
        ensures
            views_of(v@) == self.user_seq(),
    {
        self.usr.to_vec()
    }

    /// The blocked ids, each once, in the set's own order.
    pub fn ids_vec(&self) -> (v: Vec<i64>)
        ensures
            v@.to_set() == self.ids(),
            v@.no_duplicates(),
    {
        ids_in_order(&self.ids)
    }

    /// The registrations of anonymous keys, in the order the keys were
    /// first registered.
    pub fn owners_vec(&self) -> (v: Vec<(String, i64)>)
        requires
            self.wf(),
        ensures
            entries_of_map(self.owners(), v@),
    {
        let n = self.a2u.len();
        let mut v: Vec<(String, i64)> = Vec::new();
        let mut i: usize = 0;
        while i < n
            invariant
                i <= n,
                n == self.a2u.key_seq().len(),
                self.a2u.wf(),
                v@.len() == i,
                forall|j: int|
                    0 <= j < i ==> #[trigger] v@[j].0@ == self.a2u.key_seq()[j] && v@[j].1
                        == self.a2u.map()[v@[j].0@],
            decreases n - i,
        {
            let k = self.a2u.key_at(i).clone();
            let val = self.a2u.value_at(i);
            v.push((k, val));
            i = i + 1;
        }
        proof {
            let ks = self.a2u.key_seq();
            assert forall|k: Seq<char>| self.owners().contains_key(k) implies exists|i: int|
                0 <= i < v@.len() && #[trigger] v@[i].0@ == k by {
                let j = choose|j: int| 0 <= j < ks.len() && ks[j] == k;
                assert(v@[j].0@ == k);
            }
            assert forall|i: int| 0 <= i < v@.len() implies self.owners().contains_key(
                #[trigger] v@[i].0@,
            ) by {
                assert(ks[i] == v@[i].0@);
            }
        }
        v
    }
}

/// Block lists written out as lists and read back are the lists that were
/// written: the same blocked codes, usernames and ids, and the same
/// registrations.
pub proof fn lemma_block_store_round_trip(
    s: BlockStore,
    anons: Seq<String>,
    usr: Seq<String>,
    ids: Seq<i64>,
    a2u: Seq<(String, i64)>,
    t: BlockStore,
)
    requires
        s.wf(),
        views_of(anons) == s.anon_seq(),
        views_of(usr) == s.user_seq(),
        ids.to_set() == s.ids(),
        entries_of_map(s.owners(), a2u),
        t.anons() == views_of(anons).to_set(),
        t.users() == views_of(usr).to_set(),
        t.ids() == ids.to_set(),
        map_of_entries(t.owners(), a2u),
    ensures
        t.anons() == s.anons(),
        t.users() == s.users(),
        t.ids() == s.ids(),
        t.owners() == s.owners(),
{
    lemma_entries_round_trip(s.owners(), a2u, t.owners());
}

/// The key under which `code` is blocked and registered.
pub fn anon_key_of(code: &str) -> (k: String)
    ensures
        k@ == anon_key(code@),
{
    cat2("anon", code)
}

/// The block lists, with the operations the owner's commands use.
pub struct BlockMgr {
    s: BlockStore,
}

impl BlockMgr {
    /// The block lists are well formed.
    pub closed spec fn wf(&self) -> bool {
        self.s.wf()
    }

    /// The blocked anonymous keys ("anon" followed by the code).
    pub closed spec fn anons(&self) -> Set<Seq<char>> {
        self.s.anons()
    }

    /// The blocked anonymous keys, in the order they were blocked.
    pub closed spec fn anon_seq(&self) -> Seq<Seq<char>> {
        self.s.anon_seq()
    }

    /// The blocked usernames (as written, with their '@').
    pub closed spec fn users(&self) -> Set<Seq<char>> {
        self.s.users()
    }

    /// The blocked usernames, in the order they were blocked.
    pub closed spec fn user_seq(&self) -> Seq<Seq<char>> {
        self.s.user_seq()
    }

    /// The blocked ids.
    pub closed spec fn ids(&self) -> Set<i64> {
        self.s.ids()
    }

    /// The user registered under each anonymous key.
    pub closed spec fn owners(&self) -> Map<Seq<char>, i64> {
        self.s.owners()
    }

    /// Empty block lists.
    pub fn new() -> (m: Self)
        ensures
            m.wf(),
            m.anons() == Set::<Seq<char>>::empty(),
            m.users() == Set::<Seq<char>>::empty(),
            m.ids() == Set::<i64>::empty(),
            m.owners() == Map::<Seq<char>, i64>::empty(),
    {
        BlockMgr { s: BlockStore::new() }
    }

    /// Block lists that were read back.
    pub fn from_store(s: BlockStore) -> (m: Self)
        requires
            s.wf(),
        ensures
            m.wf(),
            m.anons() == s.anons(),
            m.anon_seq() == s.anon_seq(),
            m.users() == s.users(),
            m.user_seq() == s.user_seq(),
            m.ids() == s.ids(),
            m.owners() == s.owners(),
    {
        BlockMgr { s }
    }

    /// The block lists, to be written out.
    pub fn store(&self) -> (s: &BlockStore)
        ensures
            s.wf() == self.wf(),
            s.anons() == self.anons(),
            s.anon_seq() == self.anon_seq(),
            s.users() == self.users(),
            s.user_seq() == self.user_seq(),
            s.ids() == self.ids(),
            s.owners() == self.owners(),
    {
        &self.s
    }

    /// Blocks the anonymous code `c`; true when it was not blocked before.
    pub fn block_anon(&mut self, c: &str) -> (added: bool)
        requires
            old(self).wf(),
        ensures
            final(self).wf(),
            added == !old(self).anons().contains(anon_key(c@)),
            final(self).anons() == old(self).anons().insert(anon_key(c@)),
            final(self).users() == old(self).users(),
            final(self).user_seq() == old(self).user_seq(),
            final(self).ids() == old(self).ids(),
            final(self).owners() == old(self).owners(),
    {
        let k = anon_key_of(c);
        self.s.anons.insert(k)
    }

    /// Unblocks the anonymous code `c`; true when it was blocked.
    pub fn unblock_anon(&mut self, c: &str) -> (removed: bool)
        requires
            old(self).wf(),
        ensures
            final(self).wf(),
            removed == old(self).anons().contains(anon_key(c@)),
            final(self).anons() == old(self).anons().remove(anon_key(c@)),
            final(self).users() == old(self).users(),
            final(self).user_seq() == old(self).user_seq(),
            final(self).ids() == old(self).ids(),
            final(self).owners() == old(self).owners(),
    {
        let k = anon_key_of(c);
        self.s.anons.remove(k.as_str())
    }

    /// Blocks the username `u` (as written, with its '@'); true when it was
    /// not blocked before.
    pub fn block_user(&mut self, u: &str) -> (added: bool)
        requires
            old(self).wf(),
        ensures
            final(self).wf(),
            added == !old(self).users().contains(u@),
            final(self).users() == old(self).users().insert(u@),
            final(self).anons() == old(self).anons(),
            final(self).anon_seq() == old(self).anon_seq(),
            final(self).ids() == old(self).ids(),
            final(self).owners() == old(self).owners(),
    {
        self.s.usr.insert(u.to_owned())
    }

    /// Unblocks the username `u`; true when it was blocked.
    pub fn unblock_user(&mut self, u: &str) -> (removed: bool)
        requires
            old(self).wf(),
        ensures
            final(self).wf(),
            removed == old(self).users().contains(u@),
            final(self).users() == old(self).users().remove(u@),
            final(self).anons() == old(self).anons(),
            final(self).anon_seq() == old(self).anon_seq(),
            final(self).ids() == old(self).ids(),
            final(self).owners() == old(self).owners(),
    {
        self.s.usr.remove(u)
    }

    /// Blocks the id `uid`; true when it was not blocked before.
    pub fn block_id(&mut self, uid: i64) -> (added: bool)
        requires
            old(self).wf(),
        ensures
            final(self).wf(),
            added == !old(self).ids().contains(uid),
            final(self).ids() == old(self).ids().insert(uid),
            final(self).anons() == old(self).anons(),
            final(self).anon_seq() == old(self).anon_seq(),
            final(self).users() == old(self).users(),
            final(self).user_seq() == old(self).user_seq(),
            final(self).owners() == old(self).owners(),
    {
        self.s.ids.insert(uid)
    }

    /// Unblocks the id `uid`; true when it was blocked.
    pub fn unblock_id(&mut self, uid: i64) -> (removed: bool)
        requires
            old(self).wf(),
        ensures
            final(self).wf(),
            removed == old(self).ids().contains(uid),
            final(self).ids() == old(self).ids().remove(uid),
            final(self).anons() == old(self).anons(),
            final(self).anon_seq() == old(self).anon_seq(),
            final(self).users() == old(self).users(),
            final(self).user_seq() == old(self).user_seq(),
            final(self).owners() == old(self).owners(),
    {
        self.s.ids.remove(&uid)
    }

    /// Registers `uid` as the user behind the anonymous code `c`.
    pub fn reg_anon(&mut self, c: &str, uid: i64)
        requires
            old(self).wf(),
        ensures
            final(self).wf(),
            final(self).owners() == old(self).owners().insert(anon_key(c@), uid),
            final(self).anons() == old(self).anons(),
            final(self).anon_seq() == old(self).anon_seq(),
            final(self).users() == old(self).users(),
            final(self).user_seq() == old(self).user_seq(),
            final(self).ids() == old(self).ids(),
    {
        let k = anon_key_of(c);
        self.s.a2u.insert(k, uid);
    }

    /// The user registered behind the anonymous code `c`, if any.
    pub fn get_by_anon(&self, c: &str) -> (r: Option<i64>)
        requires
            self.wf(),
        ensures
            match r {
                Some(uid) => self.owners().contains_key(anon_key(c@)) && self.owners()[anon_key(
                    c@,
                )] == uid,
                None => !self.owners().contains_key(anon_key(c@)),
            },
    {
        let k = anon_key_of(c);
        self.s.a2u.get(k.as_str())
    }

    /// Empties the three block lists and tells how many ids, usernames and
    /// anonymous codes they held; registrations are kept.
    pub fn unblock_all(&mut self) -> (counts: (usize, usize, usize))
        requires
            old(self).wf(),
        ensures
            final(self).wf(),
            counts.0 == old(self).ids().len(),
            counts.1 == old(self).users().len(),
            counts.2 == old(self).anons().len(),
            final(self).ids() == Set::<i64>::empty(),
            final(self).users() == Set::<Seq<char>>::empty(),
            final(self).anons() == Set::<Seq<char>>::empty(),
            final(self).owners() == old(self).owners(),
    {
        let i = self.s.ids.len();
        let u = self.s.usr.len();
        let a = self.s.anons.len();
        self.s.ids.clear();
        self.s.usr.clear();
        self.s.anons.clear();
        (i, u, a)
    }

    /// Whether the anonymous code `c` is blocked.
    pub fn is_anon_blocked(&self, c: &str) -> (b: bool)
        requires
            self.wf(),
        ensures
            b == self.anons().contains(anon_key(c@)),
    {
        let k = anon_key_of(c);
        self.s.anons.contains(k.as_str())
    }

    /// Whether the username `u` is blocked.
    pub fn is_user_blocked(&self, u: &str) -> (b: bool)
        requires
            self.wf(),
        ensures
            b == self.users().contains(u@),
    {
        self.s.usr.contains(u)
    }

    /// Whether the id `uid` is blocked.
    pub fn is_id_blocked(&self, uid: i64) -> (b: bool)
        ensures
            b == self.ids().contains(uid),
    {
        self.s.ids.contains(&uid)
    }

    /// One line per block: each blocked anonymous key with the user
    /// registered under it, in the order blocked; then each blocked
    /// username; then each blocked id.
    pub fn blocked_list(&self) -> (r: Vec<String>)
        requires
            self.wf(),
        ensures
            ({
                let na = self.anon_seq().len();
                let nu = self.user_seq().len();
                &&& r@.len() == na + nu + self.ids().len()
                &&& forall|i: int|
                    0 <= i < na ==> #[trigger] r@[i]@ == anon_list_line(
                        self.anon_seq()[i],
                        if self.owners().contains_key(self.anon_seq()[i]) {
                            Some(self.owners()[self.anon_seq()[i]])
                        } else {
                            None
                        },
                    )
                &&& forall|i: int| 0 <= i < nu ==> #[trigger] r@[na + i]@ == self.user_seq()[i]
                &&& exists|order: Seq<i64>|
                    {
                        &&& order.no_duplicates()
                        &&& order.to_set() == self.ids()
                        &&& order.len() == self.ids().len()
                        &&& forall|i: int|
                            0 <= i < order.len() ==> #[trigger] r@[na + nu + i]@ == id_list_line(
                                order[i],
                            )
                    }
            }),
    {
        let mut r: Vec<String> = Vec::new();
        let na = self.s.anons.len();
        let mut i: usize = 0;
        while i < na
            invariant
                self.wf(),
                i <= na,
                na == self.anon_seq().len(),
                r@.len() == i,
                forall|j: int|
                    0 <= j < i ==> #[trigger] r@[j]@ == anon_list_line(
                        self.anon_seq()[j],
                        if self.owners().contains_key(self.anon_seq()[j]) {
                            Some(self.owners()[self.anon_seq()[j]])
                        } else {
                            None
                        },
                    ),
            decreases na - i,
        {
            let a = self.s.anons.get(i);
            let owner = self.s.a2u.get(a.as_str());
            let line = cat3(a.as_str(), " (пользователь: ", debug_opt_id_string(owner).as_str());
            let line = cat2(line.as_str(), ")");
            r.push(line);
            i = i + 1;
        }
        let nu = self.s.usr.len();
        let mut j: usize = 0;
        while j < nu
            invariant
                self.wf(),
                j <= nu,
                na == self.anon_seq().len(),
                nu == self.user_seq().len(),
                r@.len() == na + j,
                forall|k: int|
                    0 <= k < na ==> #[trigger] r@[k]@ == anon_list_line(
                        self.anon_seq()[k],
                        if self.owners().contains_key(self.anon_seq()[k]) {
                            Some(self.owners()[self.anon_seq()[k]])
                        } else {
                            None
                        },
                    ),
                forall|k: int| 0 <= k < j ==> #[trigger] r@[na + k]@ == self.user_seq()[k],
            decreases nu - j,
        {
            let u = self.s.usr.get(j).clone();
            r.push(u);
            j = j + 1;
        }
        let order = ids_in_order(&self.s.ids);
        proof {
            order@.unique_seq_to_set();
        }
        let mut k: usize = 0;
        while k < order.len()
            invariant
                self.wf(),
                k <= order@.len(),
                na == self.anon_seq().len(),
                nu == self.user_seq().len(),
                r@.len() == na + nu + k,
                forall|m: int|
                    0 <= m < na ==> #[trigger] r@[m]@ == anon_list_line(
                        self.anon_seq()[m],
                        if self.owners().contains_key(self.anon_seq()[m]) {
                            Some(self.owners()[self.anon_seq()[m]])
                        } else {
                            None
                        },
                    ),
                forall|m: int| 0 <= m < nu ==> #[trigger] r@[na + m]@ == self.user_seq()[m],
                forall|m: int| 0 <= m < k ==> #[trigger] r@[na + nu + m]@ == id_list_line(order@[m]),
            decreases order.len() - k,
        {
            let line = cat2("ID:", fmt_i64(order[k]).as_str());
            r.push(line);
            k = k + 1;
        }
        proof {
            assert(order@.len() == self.ids().len());
        }
        r
    }
}

/// How `{:?}` prints an optional id.
pub fn debug_opt_id_string(v: Option<i64>) -> (s: String)
    ensures
        s@ == debug_opt_id(v),
{
    match v {
        Some(x) => cat3("Some(", fmt_i64(x).as_str(), ")"),
        None => String::from_str("None"),
    }
}

} // verus!
