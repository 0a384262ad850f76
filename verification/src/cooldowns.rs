//! When each account last opened a cell.

use vstd::prelude::*;

use crate::assoc::{
    distinct_keys, has_key, lemma_lookup_at, lemma_lookup_push, lemma_lookup_update, lookup,
};

verus! {

/// An account that opened a cell at `last` must wait until `cooldown` seconds
/// have passed; one that never opened a cell need not wait.
pub open spec fn on_cooldown(last: Option<u64>, now: u64, cooldown: u64) -> bool {
    match last {
        Some(last) => now < last + cooldown,
        None => false,
    }
}

/// Whether an account that last opened a cell at `last` must still wait at `now`.
pub fn is_on_cooldown(last: Option<u64>, now: u64, cooldown: u64) -> (waiting: bool)
    ensures
        waiting == on_cooldown(last, now, cooldown),
{
    match last {
        Some(last) => match last.checked_add(cooldown) {
            Some(free_at) => now < free_at,
            None => true,
        },
        None => false,
    }
}

/// The last open attempt of one account.
#[derive(Debug, PartialEq, Eq)]
struct LastOpen {
    user: String,
    time: u64,
}

/// The contents of a list of records.
spec fn records(entries: Seq<LastOpen>) -> Seq<(Seq<char>, u64)> {
    entries.map_values(|entry: LastOpen| (entry.user@, entry.time))
}

/// The time of the last open attempt of every account that made one. Its
/// view maps each such account to that time.
#[derive(Debug, PartialEq, Eq)]
pub struct UserCooldowns {
    entries: Vec<LastOpen>,
}

impl View for UserCooldowns {
    type V = Map<Seq<char>, u64>;

    closed spec fn view(&self) -> Map<Seq<char>, u64> {
        Map::new(
            |user: Seq<char>| has_key(records(self.entries@), user),
            |user: Seq<char>| lookup(records(self.entries@), user)->0,
        )
    }
}

impl UserCooldowns {
    /// No account has two records.
    pub closed spec fn wf(&self) -> bool {
        distinct_keys(records(self.entries@))
    }

    /// The time at which `user` last opened a cell, if ever.
    pub open spec fn spec_last_opened(&self, user: Seq<char>) -> Option<u64> {
        if self@.contains_key(user) {
            Some(self@[user])
        } else {
            None
        }
    }

    /// Nobody has opened a cell yet.
    pub fn new() -> (cooldowns: UserCooldowns)
        ensures
            cooldowns.wf(),
            cooldowns@ == Map::<Seq<char>, u64>::empty(),
    {
        let cooldowns = UserCooldowns { entries: Vec::new() };
        proof {
            assert(cooldowns@ =~= Map::<Seq<char>, u64>::empty());
        }
        cooldowns
    }

    /// The index of the record of `user`, if there is one.
    fn find(&self, user: &String) -> (found: Option<usize>)
        ensures
            match found {
                Some(index) => index < self.entries.len() && records(
                    self.entries@,
                )[index as int].0 == user@,
                None => !has_key(records(self.entries@), user@),
            },
    {
        let mut i: usize = 0;
        while i < self.entries.len()
            invariant
                i <= self.entries.len(),
                forall|j: int| 0 <= j < i ==> records(self.entries@)[j].0 != user@,
            decreases self.entries.len() - i,
        {
            if self.entries[i].user == *user {
                return Some(i);
            }
            i = i + 1;
        }
        None
    }

    /// The time at which `user` last opened a cell, if ever.
    pub fn last_opened(&self, user: &String) -> (last: Option<u64>)
        requires
            self.wf(),
        ensures
            last == self.spec_last_opened(user@),
    {
        match self.find(user) {
            Some(index) => {
                proof {
                    lemma_lookup_at(records(self.entries@), index as int);
                }
                Some(self.entries[index].time)
            },
            None => None,
        }
    }

    /// Records that `user` opened a cell at `time`.
    pub fn record(&mut self, user: &String, time: u64)
        requires
            old(self).wf(),
        ensures
            final(self).wf(),
            final(self)@ == old(self)@.insert(user@, time),
    {
        let ghost before = records(self.entries@);
        match self.find(user) {
            Some(index) => {
                self.entries.set(index, LastOpen { user: user.clone(), time });
                proof {
                    let after = records(self.entries@);
                    assert(after =~= before.update(index as int, (before[index as int].0, time)));
                    assert forall|q: Seq<char>|
                        lookup(after, q) == if q == user@ {
                            Some(time)
                        } else {
                            lookup(before, q)
                        } by {
                        lemma_lookup_update(before, index as int, time, q);
                    }
                    assert forall|q: Seq<char>| #[trigger]
                        has_key(after, q) == (q == user@ || has_key(before, q)) by {
                        assert(lookup(after, q) is Some == has_key(after, q));
                        assert(lookup(before, q) is Some == has_key(before, q));
                    }
                    assert(self@ =~= old(self)@.insert(user@, time));
                }
            },
            None => {
                self.entries.push(LastOpen { user: user.clone(), time });
                proof {
                    let after = records(self.entries@);
                    assert(after =~= before.push((user@, time)));
                    assert forall|q: Seq<char>|
                        lookup(after, q) == if q == user@ {
                            Some(time)
                        } else {
                            lookup(before, q)
                        } by {
                        lemma_lookup_push(before, user@, time, q);
                    }
                    assert forall|q: Seq<char>| #[trigger]
                        has_key(after, q) == (q == user@ || has_key(before, q)) by {
                        assert(lookup(after, q) is Some == has_key(after, q));
                        assert(lookup(before, q) is Some == has_key(before, q));
                    }
                    assert(self@ =~= old(self)@.insert(user@, time));
                }
            },
        }
    }
}

} // verus!
