use vstd::prelude::*;

verus! {

use crate::types::{AccountId, Error, Pet, PetData, PetId};

/// The identifier under which a registry entry is stored.
pub open spec fn pet_key(e: (PetId, Pet)) -> PetId {
    e.0
}

/// No two entries of the sequence share an identifier.
pub open spec fn pet_keys_unique(s: Seq<(PetId, Pet)>) -> bool {
    forall|i: int, j: int|
        0 <= i < j < s.len() ==> (#[trigger] pet_key(s[i])) != (#[trigger] pet_key(s[j]))
}

/// Whether some entry of the sequence carries the identifier `k`.
pub open spec fn pet_has_key(s: Seq<(PetId, Pet)>, k: PetId) -> bool {
    exists|i: int| 0 <= i < s.len() && (#[trigger] pet_key(s[i])) == k
}

/// The finite map an entry sequence denotes.
pub open spec fn pet_map(s: Seq<(PetId, Pet)>) -> Map<PetId, PetData> {
    Map::new(
        |k: PetId| pet_has_key(s, k),
        |k: PetId| s[choose|i: int| 0 <= i < s.len() && (#[trigger] pet_key(s[i])) == k].1@,
    )
}

/// The entry at a position of a duplicate-free sequence is what the denoted
/// map holds under that entry's identifier.
proof fn lemma_pet_map_at(s: Seq<(PetId, Pet)>, i: int)
    requires
        pet_keys_unique(s),
        0 <= i < s.len(),
    ensures
        pet_map(s).dom().contains(pet_key(s[i])),
        pet_map(s)[pet_key(s[i])] == s[i].1@,
{
    let k = pet_key(s[i]);
    assert(pet_has_key(s, k));
    let j = choose|j: int| 0 <= j < s.len() && (#[trigger] pet_key(s[j])) == k;
    assert(j == i);
}

/// Appending an entry under a fresh identifier inserts it into the denoted
/// map.
proof fn lemma_pet_push_new(s: Seq<(PetId, Pet)>, e: (PetId, Pet))
    requires
        pet_keys_unique(s),
        !pet_has_key(s, pet_key(e)),
    ensures
        pet_keys_unique(s.push(e)),
        pet_map(s.push(e)) == pet_map(s).insert(pet_key(e), e.1@),
{
    let s2 = s.push(e);
    let k = pet_key(e);
    let n = s.len() as int;
    assert forall|i: int, j: int| 0 <= i < j < s2.len() implies (#[trigger] pet_key(s2[i]))
        != (#[trigger] pet_key(s2[j])) by {
        if j == n {
            assert(s2[i] == s[i]);
            if pet_key(s[i]) == k {
                assert(pet_has_key(s, k));
            }
        } else {
            assert(s2[i] == s[i] && s2[j] == s[j]);
        }
    }
    let m1 = pet_map(s2);
    let m2 = pet_map(s).insert(k, e.1@);
    assert forall|k2: PetId| #[trigger] m1.dom().contains(k2) implies m2.dom().contains(k2) by {
        let i = choose|i: int| 0 <= i < s2.len() && (#[trigger] pet_key(s2[i])) == k2;
        if i < n {
            assert(pet_key(s[i]) == k2);
            assert(pet_has_key(s, k2));
        }
    }
    assert forall|k2: PetId| #[trigger] m2.dom().contains(k2) implies m1.dom().contains(k2) by {
        if k2 == k {
            assert(pet_key(s2[n]) == k);
            assert(pet_has_key(s2, k));
        } else {
            let i = choose|i: int| 0 <= i < s.len() && (#[trigger] pet_key(s[i])) == k2;
            assert(pet_key(s2[i]) == k2);
            assert(pet_has_key(s2, k2));
        }
    }
    assert forall|k2: PetId|
        m1.dom().contains(k2) && #[trigger] m2.dom().contains(k2) implies m1[k2] == m2[k2] by {
        let i = choose|i: int| 0 <= i < s2.len() && (#[trigger] pet_key(s2[i])) == k2;
        lemma_pet_map_at(s2, i);
        if i < n {
            assert(pet_key(s[i]) == k2);
            if k2 == k {
                assert(pet_has_key(s, k));
            }
            lemma_pet_map_at(s, i);
        }
    }
    assert(m1 =~= m2);
}

/// Removing the entry at a position by swapping in the last entry removes
/// exactly that entry's identifier from the denoted map.
proof fn lemma_pet_swap_remove(s: Seq<(PetId, Pet)>, i: int)
    requires
        pet_keys_unique(s),
        0 <= i < s.len(),
    ensures
        pet_keys_unique(s.update(i, s.last()).drop_last()),
        !pet_has_key(s.update(i, s.last()).drop_last(), pet_key(s[i])),
        pet_map(s.update(i, s.last()).drop_last()) == pet_map(s).remove(pet_key(s[i])),
{
    let s2 = s.update(i, s.last()).drop_last();
    let k = pet_key(s[i]);
    let n = s.len() - 1;
    assert(s2.len() == n);
    assert(forall|j: int| 0 <= j < n && j != i ==> s2[j] == s[j]);
    assert(i < n ==> s2[i] == s[n]);
    assert forall|a: int, b: int| 0 <= a < b < s2.len() implies (#[trigger] pet_key(s2[a]))
        != (#[trigger] pet_key(s2[b])) by {
        let a0: int = if a == i && i < n { n } else { a };
        let b0: int = if b == i && i < n { n } else { b };
        assert(s2[a] == s[a0] && s2[b] == s[b0]);
        assert(a0 != b0);
        assert(pet_key(s[a0]) != pet_key(s[b0]));
    }
    assert forall|j: int| 0 <= j < s2.len() implies (#[trigger] pet_key(s2[j])) != k by {
        let j0: int = if j == i && i < n { n } else { j };
        assert(s2[j] == s[j0]);
        assert(j0 != i);
        assert(pet_key(s[j0]) != pet_key(s[i]));
    }
    let m1 = pet_map(s2);
    let m2 = pet_map(s).remove(k);
    assert forall|k2: PetId| #[trigger] m1.dom().contains(k2) implies m2.dom().contains(k2) by {
        let j = choose|j: int| 0 <= j < s2.len() && (#[trigger] pet_key(s2[j])) == k2;
        let j0: int = if j == i && i < n { n } else { j };
        assert(s2[j] == s[j0]);
        assert(pet_has_key(s, k2));
        assert(k2 != k);
    }
    assert forall|k2: PetId| #[trigger] m2.dom().contains(k2) implies m1.dom().contains(k2) by {
        let j = choose|j: int| 0 <= j < s.len() && (#[trigger] pet_key(s[j])) == k2;
        assert(j != i);
        if j == n {
            assert(i < n);
            assert(pet_key(s2[i]) == k2);
        } else {
            assert(pet_key(s2[j]) == k2);
        }
        assert(pet_has_key(s2, k2));
    }
    assert forall|k2: PetId|
        m1.dom().contains(k2) && #[trigger] m2.dom().contains(k2) implies m1[k2] == m2[k2] by {
        let j = choose|j: int| 0 <= j < s2.len() && (#[trigger] pet_key(s2[j])) == k2;
        let j0: int = if j == i && i < n { n } else { j };
        assert(s2[j] == s[j0]);
        lemma_pet_map_at(s2, j);
        lemma_pet_map_at(s, j0);
    }
    assert(m1 =~= m2);
}

/// Keyed store from pet identifier to pet record: point lookup, point insert,
/// and in-place change of the owner field. At most one record per identifier.
pub struct PetRegistry {
    entries: Vec<(PetId, Pet)>,
}

impl View for PetRegistry {
    type V = Map<PetId, PetData>;

    closed spec fn view(&self) -> Map<PetId, PetData> {
        pet_map(self.entries@)
    }
}

impl PetRegistry {
    /// Internal well-formedness: one entry per identifier.
    pub closed spec fn wf(self) -> bool {
        pet_keys_unique(self.entries@)
    }

    /// An empty registry.
    pub fn new() -> (r: PetRegistry)
        ensures
            r.wf(),
            r@ == Map::<PetId, PetData>::empty(),
    {
        let r = PetRegistry { entries: Vec::new() };
        proof {
            assert(r@ =~= Map::<PetId, PetData>::empty());
        }
        r
    }

    /// Position of the entry keyed by `id`, if any.
    fn find(&self, id: PetId) -> (r: Option<usize>)
        ensures
            match r {
                Some(i) => i < self.entries@.len() && pet_key(self.entries@[i as int]) == id,
                None => !pet_has_key(self.entries@, id),
            },
    {
        let n = self.entries.len();
        let mut i: usize = 0;
        while i < n
            invariant
                i <= n,
                n == self.entries@.len(),
                forall|j: int| 0 <= j < i ==> (#[trigger] pet_key(self.entries@[j])) != id,
            decreases n - i,
        {
            if self.entries[i].0 == id {
                return Some(i);
            }
            i += 1;
        }
        None
    }

    /// Store a record under a fresh identifier; an identifier that is already
    /// present is rejected and nothing changes.
    pub fn insert(&mut self, id: PetId, pet: Pet) -> (r: Result<(), Error>)
        requires
            old(self).wf(),
        ensures
            final(self).wf(),
            old(self)@.dom().contains(id) ==> r == Err::<(), Error>(Error::PetAlreadyExists)
                && final(self)@ == old(self)@,
            !old(self)@.dom().contains(id) ==> r == Ok::<(), Error>(()) && final(self)@ == old(
                self,
            )@.insert(id, pet@),
    {
        match self.find(id) {
            Some(i) => {
                proof {
                    lemma_pet_map_at(self.entries@, i as int);
                }
                Err(Error::PetAlreadyExists)
            },
            None => {
                proof {
                    lemma_pet_push_new(self.entries@, (id, pet));
                }
                self.entries.push((id, pet));
                Ok(())
            },
        }
    }

    /// Pure point lookup; never fails.
    pub fn get(&self, id: PetId) -> (r: Option<&Pet>)
        requires
            self.wf(),
        ensures
            match r {
                Some(p) => self@.dom().contains(id) && p@ == self@[id],
                None => !self@.dom().contains(id),
            },
    {
        match self.find(id) {
            Some(i) => {
                proof {
                    lemma_pet_map_at(self.entries@, i as int);
                }
                Some(&self.entries[i].1)
            },
            None => None,
        }
    }

    /// Overwrite the owner field of the record keyed by `id`, which the
    /// caller guarantees exists; name and species are untouched.
    pub fn set_owner(&mut self, id: PetId, owner: AccountId)
        requires
            old(self).wf(),
            old(self)@.dom().contains(id),
        ensures
            final(self).wf(),
            final(self)@ == old(self)@.insert(
                id,
                (PetData {
                    owner: owner,
                    name: old(self)@[id].name,
                    species: old(self)@[id].species,
                }),
            ),
    {
        match self.find(id) {
            Some(i) => {
                proof {
                    lemma_pet_map_at(self.entries@, i as int);
                    lemma_pet_swap_remove(self.entries@, i as int);
                }
                let mut entry = self.entries.swap_remove(i);
                entry.1.owner = owner;
                proof {
                    lemma_pet_push_new(self.entries@, entry);
                }
                self.entries.push(entry);
                proof {
                    assert(self@ =~= old(self)@.insert(
                        id,
                        (PetData {
                            owner: owner,
                            name: old(self)@[id].name,
                            species: old(self)@[id].species,
                        }),
                    ));
                }
            },
            None => {
                proof {
                    assert(false);
                }
            },
        }
    }
}

} // verus!
