use vstd::prelude::*;

verus! {

use crate::types::{AccountId, Moment, PetId};

/// One caretaker's last-activity record for one pet.
#[derive(Clone, Copy)]
pub struct FeedEntry {
    pub pet: PetId,
    pub account: AccountId,
    pub time: Moment,
}

/// The key under which a feed entry is stored.
pub open spec fn feed_key(e: FeedEntry) -> (PetId, AccountId) {
    (e.pet, e.account)
}

/// No two entries of the sequence share a key.
pub open spec fn feed_keys_unique(s: Seq<FeedEntry>) -> bool {
    forall|i: int, j: int|
        0 <= i < j < s.len() ==> (#[trigger] feed_key(s[i])) != (#[trigger] feed_key(s[j]))
}

/// Whether some entry of the sequence carries the key `k`.
pub open spec fn feed_has_key(s: Seq<FeedEntry>, k: (PetId, AccountId)) -> bool {
    exists|i: int| 0 <= i < s.len() && (#[trigger] feed_key(s[i])) == k
}

/// The finite map an entry sequence denotes.
pub open spec fn feed_map(s: Seq<FeedEntry>) -> Map<(PetId, AccountId), Moment> {
    Map::new(
        |k: (PetId, AccountId)| feed_has_key(s, k),
        |k: (PetId, AccountId)|
            s[choose|i: int| 0 <= i < s.len() && (#[trigger] feed_key(s[i])) == k].time,
    )
}

/// The entry at a position of a duplicate-free sequence is what the denoted
/// map holds under that entry's key.
proof fn lemma_feed_map_at(s: Seq<FeedEntry>, i: int)
    requires
        feed_keys_unique(s),
        0 <= i < s.len(),
    ensures
        feed_map(s).dom().contains(feed_key(s[i])),
        feed_map(s)[feed_key(s[i])] == s[i].time,
{
    let k = feed_key(s[i]);
    assert(feed_has_key(s, k));
    let j = choose|j: int| 0 <= j < s.len() && (#[trigger] feed_key(s[j])) == k;
    assert(j == i);
}

/// Appending an entry under a fresh key inserts it into the denoted map.
proof fn lemma_feed_push_new(s: Seq<FeedEntry>, e: FeedEntry)
    requires
        feed_keys_unique(s),
        !feed_has_key(s, feed_key(e)),
    ensures
        feed_keys_unique(s.push(e)),
        feed_map(s.push(e)) == feed_map(s).insert(feed_key(e), e.time),
{
    let s2 = s.push(e);
    let k = feed_key(e);
    let n = s.len() as int;
    assert forall|i: int, j: int| 0 <= i < j < s2.len() implies (#[trigger] feed_key(s2[i]))
        != (#[trigger] feed_key(s2[j])) by {
        if j == n {
            assert(s2[i] == s[i]);
            if feed_key(s[i]) == k {
                assert(feed_has_key(s, k));
            }
        } else {
            assert(s2[i] == s[i] && s2[j] == s[j]);
        }
    }
    let m1 = feed_map(s2);
    let m2 = feed_map(s).insert(k, e.time);
    assert forall|k2: (PetId, AccountId)| #[trigger] m1.dom().contains(k2) implies m2.dom()
        .contains(k2) by {
        let i = choose|i: int| 0 <= i < s2.len() && (#[trigger] feed_key(s2[i])) == k2;
        if i < n {
            assert(feed_key(s[i]) == k2);
            assert(feed_has_key(s, k2));
        }
    }
    assert forall|k2: (PetId, AccountId)| #[trigger] m2.dom().contains(k2) implies m1.dom()
        .contains(k2) by {
        if k2 == k {
            assert(feed_key(s2[n]) == k);
            assert(feed_has_key(s2, k));
        } else {
            let i = choose|i: int| 0 <= i < s.len() && (#[trigger] feed_key(s[i])) == k2;
            assert(feed_key(s2[i]) == k2);
            assert(feed_has_key(s2, k2));
        }
    }
    assert forall|k2: (PetId, AccountId)|
        m1.dom().contains(k2) && #[trigger] m2.dom().contains(k2) implies m1[k2] == m2[k2] by {
        let i = choose|i: int| 0 <= i < s2.len() && (#[trigger] feed_key(s2[i])) == k2;
        lemma_feed_map_at(s2, i);
        if i < n {
            assert(feed_key(s[i]) == k2);
            if k2 == k {
                assert(feed_has_key(s, k));
            }
            lemma_feed_map_at(s, i);
        }
    }
    assert(m1 =~= m2);
}

/// Removing the entry at a position by swapping in the last entry removes
/// exactly that entry's key from the denoted map.
proof fn lemma_feed_swap_remove(s: Seq<FeedEntry>, i: int)
    requires
        feed_keys_unique(s),
        0 <= i < s.len(),
    ensures
        feed_keys_unique(s.update(i, s.last()).drop_last()),
        !feed_has_key(s.update(i, s.last()).drop_last(), feed_key(s[i])),
        feed_map(s.update(i, s.last()).drop_last()) == feed_map(s).remove(feed_key(s[i])),
{
    let s2 = s.update(i, s.last()).drop_last();
    let k = feed_key(s[i]);
    let n = s.len() - 1;
    assert(s2.len() == n);
    assert(forall|j: int| 0 <= j < n && j != i ==> s2[j] == s[j]);
    assert(i < n ==> s2[i] == s[n]);
    assert forall|a: int, b: int| 0 <= a < b < s2.len() implies (#[trigger] feed_key(s2[a]))
        != (#[trigger] feed_key(s2[b])) by {
        let a0: int = if a == i && i < n { n } else { a };
        let b0: int = if b == i && i < n { n } else { b };
        assert(s2[a] == s[a0] && s2[b] == s[b0]);
        assert(a0 != b0);
        assert(feed_key(s[a0]) != feed_key(s[b0]));
    }
    assert forall|j: int| 0 <= j < s2.len() implies (#[trigger] feed_key(s2[j])) != k by {
        let j0: int = if j == i && i < n { n } else { j };
        assert(s2[j] == s[j0]);
        assert(j0 != i);
        assert(feed_key(s[j0]) != feed_key(s[i]));
    }
    let m1 = feed_map(s2);
    let m2 = feed_map(s).remove(k);
    assert forall|k2: (PetId, AccountId)| #[trigger] m1.dom().contains(k2) implies m2.dom()
        .contains(k2) by {
        let j = choose|j: int| 0 <= j < s2.len() && (#[trigger] feed_key(s2[j])) == k2;
        let j0: int = if j == i && i < n { n } else { j };
        assert(s2[j] == s[j0]);
        assert(feed_has_key(s, k2));
        assert(k2 != k);
    }
    assert forall|k2: (PetId, AccountId)| #[trigger] m2.dom().contains(k2) implies m1.dom()
        .contains(k2) by {
        let j = choose|j: int| 0 <= j < s.len() && (#[trigger] feed_key(s[j])) == k2;
        assert(j != i);
        if j == n {
            assert(i < n);
            assert(feed_key(s2[i]) == k2);
        } else {
            assert(feed_key(s2[j]) == k2);
        }
        assert(feed_has_key(s2, k2));
    }
    assert forall|k2: (PetId, AccountId)|
        m1.dom().contains(k2) && #[trigger] m2.dom().contains(k2) implies m1[k2] == m2[k2] by {
        let j = choose|j: int| 0 <= j < s2.len() && (#[trigger] feed_key(s2[j])) == k2;
        let j0: int = if j == i && i < n { n } else { j };
        assert(s2[j] == s[j0]);
        lemma_feed_map_at(s2, j);
        lemma_feed_map_at(s, j0);
    }
    assert(m1 =~= m2);
}

/// Keyed store from (pet, caretaker) to that caretaker's last feed time, with
/// enumeration of all caretakers of one pet. At most one record exists per
/// (pet, caretaker) pair.
pub struct FeedLedger {
    entries: Vec<FeedEntry>,
}

impl View for FeedLedger {
    type V = Map<(PetId, AccountId), Moment>;

    closed spec fn view(&self) -> Map<(PetId, AccountId), Moment> {
        feed_map(self.entries@)
    }
}

impl FeedLedger {
    /// Internal well-formedness: one entry per (pet, caretaker) pair.
    pub closed spec fn wf(self) -> bool {
        feed_keys_unique(self.entries@)
    }

    /// An empty ledger.
    pub fn new() -> (r: FeedLedger)
        ensures
            r.wf(),
            r@ == Map::<(PetId, AccountId), Moment>::empty(),
    {
        let r = FeedLedger { entries: Vec::new() };
        proof {
            assert(r@ =~= Map::<(PetId, AccountId), Moment>::empty());
        }
        r
    }

    /// Position of the entry keyed by (pet, account), if any.
    fn find(&self, pet: PetId, account: AccountId) -> (r: Option<usize>)
        ensures
            match r {
                Some(i) => i < self.entries@.len() && feed_key(self.entries@[i as int]) == (
                    pet,
                    account,
                ),
                None => !feed_has_key(self.entries@, (pet, account)),
            },
    {
        let n = self.entries.len();
        let mut i: usize = 0;
        while i < n
            invariant
                i <= n,
                n == self.entries@.len(),
                forall|j: int| 0 <= j < i ==> (#[trigger] feed_key(self.entries@[j])) != (
                    pet,
                    account,
                ),
            decreases n - i,
        {
            let e = self.entries[i];
            if e.pet == pet && e.account == account {
                return Some(i);
            }
            i += 1;
        }
        None
    }

    /// Upsert: create the record if absent, else overwrite its timestamp.
    pub fn record_feed(&mut self, pet: PetId, account: AccountId, time: Moment)
        requires
            old(self).wf(),
        ensures
            final(self).wf(),
            final(self)@ == old(self)@.insert((pet, account), time),
    {
        let entry = FeedEntry { pet, account, time };
        match self.find(pet, account) {
            Some(i) => {
                proof {
                    lemma_feed_swap_remove(self.entries@, i as int);
                }
                let _ = self.entries.swap_remove(i);
                proof {
                    lemma_feed_push_new(self.entries@, entry);
                }
                self.entries.push(entry);
                proof {
                    assert(self@ =~= old(self)@.insert((pet, account), time));
                }
            },
            None => {
                proof {
                    lemma_feed_push_new(self.entries@, entry);
                }
                self.entries.push(entry);
            },
        }
    }

    /// Delete the record keyed by (pet, account) if present; no-op otherwise.
    pub fn remove_record(&mut self, pet: PetId, account: AccountId)
        requires
            old(self).wf(),
        ensures
            final(self).wf(),
            final(self)@ == old(self)@.remove((pet, account)),
    {
        match self.find(pet, account) {
            Some(i) => {
                proof {
                    lemma_feed_swap_remove(self.entries@, i as int);
                }
                let _ = self.entries.swap_remove(i);
            },
            None => {
                proof {
                    assert(self@ =~= self@.remove((pet, account)));
                }
            },
        }
    }

    /// All caretakers of `pet` with their last feed times, in no particular
    /// order: one pair per feed record of `pet`, and nothing else.
    pub fn records_for(&self, pet: PetId) -> (r: Vec<(AccountId, Moment)>)
        requires
            self.wf(),
        ensures
            forall|j: int|
                0 <= j < r@.len() ==> self@.dom().contains((pet, #[trigger] r@[j].0))
                    && self@[(pet, r@[j].0)] == r@[j].1,
            forall|a: AccountId| #[trigger] self@.dom().contains((pet, a))
                ==> exists|j: int| 0 <= j < r@.len() && (#[trigger] r@[j]) == (a, self@[(pet, a)]),
            forall|j1: int, j2: int| 0 <= j1 < j2 < r@.len() ==> r@[j1].0 != r@[j2].0,
    {
        let n = self.entries.len();
        let mut r: Vec<(AccountId, Moment)> = Vec::new();
        let mut i: usize = 0;
        while i < n
            invariant
                i <= n,
                n == self.entries@.len(),
                self.wf(),
                forall|j: int|
                    0 <= j < r@.len() ==> self@.dom().contains((pet, #[trigger] r@[j].0))
                        && self@[(pet, r@[j].0)] == r@[j].1,
                forall|i2: int|
                    0 <= i2 < i && (#[trigger] self.entries@[i2]).pet == pet ==> exists|j: int|
                        0 <= j < r@.len() && (#[trigger] r@[j]) == (
                            self.entries@[i2].account,
                            self.entries@[i2].time,
                        ),
                forall|j: int, i2: int|
                    0 <= j < r@.len() && i <= i2 < n && (#[trigger] self.entries@[i2]).pet == pet
                        ==> (#[trigger] r@[j].0) != self.entries@[i2].account,
                forall|j1: int, j2: int| 0 <= j1 < j2 < r@.len() ==> r@[j1].0 != r@[j2].0,
            decreases n - i,
        {
            let e = self.entries[i];
            if e.pet == pet {
                proof {
                    lemma_feed_map_at(self.entries@, i as int);
                    assert forall|i2: int|
                        i < i2 < n && (#[trigger] self.entries@[i2]).pet == pet implies e.account
                        != self.entries@[i2].account by {
                        if self.entries@[i2].account == e.account {
                            assert(feed_key(self.entries@[i2]) == feed_key(
                                self.entries@[i as int],
                            ));
                        }
                    }
                }
                let ghost r0 = r@;
                r.push((e.account, e.time));
                proof {
                    assert forall|i2: int|
                        0 <= i2 < i + 1 && (#[trigger] self.entries@[i2]).pet == pet implies exists|
                        j: int,
                    |
                        0 <= j < r@.len() && (#[trigger] r@[j]) == (
                            self.entries@[i2].account,
                            self.entries@[i2].time,
                        ) by {
                        if i2 < i {
                            let j0 = choose|j: int|
                                0 <= j < r0.len() && (#[trigger] r0[j]) == (
                                    self.entries@[i2].account,
                                    self.entries@[i2].time,
                                );
                            assert(r@[j0] == r0[j0]);
                        } else {
                            assert(r@[r@.len() - 1] == (e.account, e.time));
                        }
                    }
                }
            }
            i += 1;
        }
        proof {
            assert forall|a: AccountId| #[trigger] self@.dom().contains((pet, a)) implies exists|
                j: int,
            | 0 <= j < r@.len() && (#[trigger] r@[j]) == (a, self@[(pet, a)]) by {
                let i2 = choose|i2: int|
                    0 <= i2 < self.entries@.len() && (#[trigger] feed_key(self.entries@[i2])) == (
                        pet,
                        a,
                    );
                lemma_feed_map_at(self.entries@, i2);
                assert(self.entries@[i2].pet == pet);
            }
        }
        r
    }
}

} // verus!
