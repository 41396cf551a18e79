use std::collections::HashMap;
use vstd::prelude::*;

verus! {

/// Whether a user is in "always anonymous" mode, given the mode map.
pub open spec fn mode_on(modes: Map<i64, bool>, uid: i64) -> bool {
    modes.contains_key(uid) && modes[uid]
}

/// Which users have switched "always anonymous" mode on.
pub struct AnonForeverTracker {
    users: HashMap<i64, bool>,
}

impl AnonForeverTracker {
    /// The recorded mode of each user.
    pub closed spec fn modes(&self) -> Map<i64, bool> {
        self.users@
    }

    /// Whether `uid` is in "always anonymous" mode.
    pub open spec fn enabled(&self, uid: i64) -> bool {
        mode_on(self.modes(), uid)
    }

    /// Nobody is in "always anonymous" mode.
    pub fn new() -> (t: Self)
        ensures
            t.modes() == Map::<i64, bool>::empty(),
            forall|u: i64| !t.enabled(u),
    {
        AnonForeverTracker { users: HashMap::new() }
    }

    /// Flips the mode of `uid` and gives back the new mode.
    pub fn toggle(&mut self, uid: i64) -> (now_on: bool)
        ensures
            now_on == !old(self).enabled(uid),
            final(self).modes() == old(self).modes().insert(uid, now_on),
            final(self).enabled(uid) == now_on,
            forall|u: i64| u != uid ==> final(self).enabled(u) == old(self).enabled(u),
    {
        let current = match self.users.get(&uid) {
            Some(v) => *v,
            None => false,
        };
        let new_state = !current;
        self.users.insert(uid, new_state);
        new_state
    }

    /// Whether `uid` is in "always anonymous" mode.
    pub fn is_enabled(&self, uid: i64) -> (b: bool)
        ensures
            b == self.enabled(uid),
    {
        match self.users.get(&uid) {
            Some(v) => *v,
            None => false,
        }
    }

    /// Forgets the mode of `uid`, which switches it off.
    pub fn disable(&mut self, uid: i64)
        ensures
            final(self).modes() == old(self).modes().remove(uid),
            !final(self).enabled(uid),
            forall|u: i64| u != uid ==> final(self).enabled(u) == old(self).enabled(u),
    {
        self.users.remove(&uid);
    }
}

/// Toggling twice gives every user back the mode it had.
pub proof fn lemma_toggle_twice(modes: Map<i64, bool>, uid: i64, u: i64)
    ensures
        ({
            let once = modes.insert(uid, !mode_on(modes, uid));
            let twice = once.insert(uid, !mode_on(once, uid));
            mode_on(twice, u) == mode_on(modes, u)
        }),
{
}

} // verus!
