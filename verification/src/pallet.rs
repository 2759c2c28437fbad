use vstd::prelude::*;

verus! {

use crate::custody::{
    lemma_feed_preserves_wf, lemma_force_save_preserves_wf, lemma_mint_preserves_wf,
    lemma_save_preserves_wf, CustodyState, ABANDON_WINDOW, ACTIVE_WINDOW, NEGLECT_WINDOW,
};
use crate::ledger::FeedLedger;
use crate::registry::PetRegistry;
use crate::types::{AccountId, Error, Event, Moment, Pet, PetId, Species};

/// Host-chosen configuration of the pallet.
pub struct Config {
    /// Maximum length of a pet name, in bytes. The boundary layer rejects
    /// longer names before they reach the pallet.
    pub string_limit: usize,
}

/// The custody pallet: owns the pet registry and the feed ledger and applies
/// each operation as one guarded atomic transition of [`CustodyState`].
///
/// The host runtime hands every operation the authenticated caller and one
/// clock reading, and forwards the returned event; a rejected operation
/// changes nothing.
pub struct Pallet {
    registry: PetRegistry,
    ledger: FeedLedger,
    string_limit: usize,
}

impl Pallet {
    /// The custody state the two stores currently hold.
    pub closed spec fn state(self) -> CustodyState {
        CustodyState { pets: self.registry@, feeds: self.ledger@ }
    }

    /// The configured bound on name length.
    pub closed spec fn name_limit(self) -> nat {
        self.string_limit as nat
    }

    /// The stores are internally consistent and the state is well-formed.
    pub closed spec fn wf(self) -> bool {
        &&& self.registry.wf()
        &&& self.ledger.wf()
        &&& self.state().wf(self.name_limit())
    }

    /// A pallet with no pets and no feed records.
    pub fn new(config: Config) -> (r: Pallet)
        ensures
            r.wf(),
            r.state() == CustodyState::empty(),
            r.name_limit() == config.string_limit,
    {
        let r = Pallet {
            registry: PetRegistry::new(),
            ledger: FeedLedger::new(),
            string_limit: config.string_limit,
        };
        proof {
            assert(r.state() =~= CustodyState::empty());
        }
        r
    }

    /// Register a new pet owned by `sender` and seed the owner's feed record
    /// at `now`. Fails with `PetAlreadyExists` if `id` is taken; on failure
    /// nothing changes.
    pub fn mint_pet(
        &mut self,
        id: PetId,
        name: Vec<u8>,
        species: Species,
        sender: AccountId,
        now: Moment,
    ) -> (r: Result<Event, Error>)
        requires
            old(self).wf(),
            name@.len() <= old(self).name_limit(),
        ensures
            final(self).wf(),
            final(self).name_limit() == old(self).name_limit(),
            ({
                let (s2, res) = old(self).state().mint(id, name@, species, sender, now);
                final(self).state() == s2 && r == res
            }),
    {
        let ghost nm = name@;
        proof {
            lemma_mint_preserves_wf(
                self.state(),
                self.name_limit(),
                id,
                nm,
                species,
                sender,
                now,
            );
        }
        let pet = Pet { owner: sender, name, species };
        match self.registry.insert(id, pet) {
            Err(e) => Err(e),
            Ok(_) => {
                self.ledger.record_feed(id, sender, now);
                proof {
                    assert(self.state() =~= old(self).state().mint(
                        id,
                        nm,
                        species,
                        sender,
                        now,
                    ).0);
                }
                Ok(Event::PetMinted(sender, id))
            },
        }
    }

    /// Refresh the owner's own feed record at `now`. Fails with
    /// `PetNotExists` for an unregistered `id` and with `NotPetOwner` for a
    /// caller other than the owner; on failure nothing changes.
    pub fn feed_pet(&mut self, id: PetId, sender: AccountId, now: Moment) -> (r: Result<
        Event,
        Error,
    >)
        requires
            old(self).wf(),
        ensures
            final(self).wf(),
            final(self).name_limit() == old(self).name_limit(),
            ({
                let (s2, res) = old(self).state().feed(id, sender, now);
                final(self).state() == s2 && r == res
            }),
    {
        proof {
            lemma_feed_preserves_wf(self.state(), self.name_limit(), id, sender, now);
        }
        let owner = match self.registry.get(id) {
            None => {
                return Err(Error::PetNotExists);
            },
            Some(pet) => pet.owner,
        };
        if owner != sender {
            return Err(Error::NotPetOwner);
        }
        self.ledger.record_feed(id, sender, now);
        proof {
            assert(self.state() =~= old(self).state().feed(id, sender, now).0);
        }
        Ok(Event::PetFeeded(sender, id))
    }

    /// A non-owner's bid to register itself as an active caretaker. Succeeds
    /// exactly when every caretaker of `id` other than `sender` has been
    /// idle beyond the neglect window; then `sender`'s own record is created
    /// or refreshed at `now` and ownership is unchanged. On failure nothing
    /// changes.
    pub fn save_pet(&mut self, id: PetId, sender: AccountId, now: Moment) -> (r: Result<
        Event,
        Error,
    >)
        requires
            old(self).wf(),
        ensures
            final(self).wf(),
            final(self).name_limit() == old(self).name_limit(),
            ({
                let (s2, res) = old(self).state().save(id, sender, now);
                final(self).state() == s2 && r == res
            }),
    {
        proof {
            lemma_save_preserves_wf(self.state(), self.name_limit(), id, sender, now);
        }
        let owner = match self.registry.get(id) {
            None => {
                return Err(Error::PetNotExists);
            },
            Some(pet) => pet.owner,
        };
        if owner == sender {
            return Err(Error::OwnerShouldFeedPet);
        }
        let records = self.ledger.records_for(id);
        let m = records.len();
        let mut all_ok = true;
        let mut i: usize = 0;
        while i < m
            invariant
                i <= m,
                m == records@.len(),
                all_ok <==> (forall|j: int|
                    0 <= j < i ==> now > (#[trigger] records@[j]).1 + NEGLECT_WINDOW
                        || records@[j].0 == sender),
            decreases m - i,
        {
            let (a, t) = records[i];
            if !((now as u128) > (t as u128) + (NEGLECT_WINDOW as u128)) && a != sender {
                all_ok = false;
            }
            i += 1;
        }
        proof {
            if all_ok {
                assert forall|a: AccountId| #[trigger] old(self).state().feeds.dom().contains(
                    (id, a),
                ) implies now > old(self).state().feeds[(id, a)] + NEGLECT_WINDOW || a
                    == sender by {
                    let j = choose|j: int|
                        0 <= j < records@.len() && (#[trigger] records@[j]) == (
                            a,
                            self.ledger@[(id, a)],
                        );
                    assert(now > records@[j].1 + NEGLECT_WINDOW || records@[j].0 == sender);
                }
                assert(old(self).state().can_save(id, sender, now));
            } else {
                let j = choose|j: int|
                    0 <= j < records@.len() && !(now > (#[trigger] records@[j]).1 + NEGLECT_WINDOW
                        || records@[j].0 == sender);
                assert(old(self).state().feeds.dom().contains((id, records@[j].0)));
                assert(old(self).state().feeds[(id, records@[j].0)] == records@[j].1);
                assert(!old(self).state().can_save(id, sender, now));
            }
        }
        if !all_ok {
            return Err(Error::NotAvailableToSave);
        }
        self.ledger.record_feed(id, sender, now);
        proof {
            assert(self.state() =~= old(self).state().save(id, sender, now).0);
        }
        Ok(Event::PetSaved(sender, id))
    }

    /// Transfer ownership of `id` to `sender` once the current owner has
    /// abandoned it. Succeeds exactly when the owner's record is idle beyond
    /// the abandon window, `sender`'s record is active within the active
    /// window, and no third account holds a record; then the superseded
    /// owner's record is removed and `sender`'s record keeps its timestamp.
    /// On failure nothing changes.
    pub fn save_pet_by_force(&mut self, id: PetId, sender: AccountId, now: Moment) -> (r: Result<
        Event,
        Error,
    >)
        requires
            old(self).wf(),
        ensures
            final(self).wf(),
            final(self).name_limit() == old(self).name_limit(),
            ({
                let (s2, res) = old(self).state().force_save(id, sender, now);
                final(self).state() == s2 && r == res
            }),
    {
        proof {
            lemma_force_save_preserves_wf(self.state(), self.name_limit(), id, sender, now);
        }
        let prev = match self.registry.get(id) {
            None => {
                return Err(Error::PetNotExists);
            },
            Some(pet) => pet.owner,
        };
        if prev == sender {
            return Err(Error::OwnerShouldFeedPet);
        }
        let records = self.ledger.records_for(id);
        let m = records.len();
        let mut all_ok = true;
        let mut i: usize = 0;
        while i < m
            invariant
                i <= m,
                m == records@.len(),
                all_ok <==> (forall|j: int|
                    0 <= j < i ==> ((#[trigger] records@[j]).0 == prev && now > records@[j].1
                        + ABANDON_WINDOW) || (records@[j].0 == sender && now < records@[j].1
                        + ACTIVE_WINDOW)),
            decreases m - i,
        {
            let (a, t) = records[i];
            let ok = (a == prev && (now as u128) > (t as u128) + (ABANDON_WINDOW as u128)) || (a
                == sender && (now as u128) < (t as u128) + (ACTIVE_WINDOW as u128));
            if !ok {
                all_ok = false;
            }
            i += 1;
        }
        proof {
            if all_ok {
                assert forall|a: AccountId| #[trigger] old(self).state().feeds.dom().contains(
                    (id, a),
                ) implies (a == prev && now > old(self).state().feeds[(id, a)] + ABANDON_WINDOW)
                    || (a == sender && now < old(self).state().feeds[(id, a)]
                    + ACTIVE_WINDOW) by {
                    let j = choose|j: int|
                        0 <= j < records@.len() && (#[trigger] records@[j]) == (
                            a,
                            self.ledger@[(id, a)],
                        );
                    assert((records@[j].0 == prev && now > records@[j].1 + ABANDON_WINDOW) || (
                    records@[j].0 == sender && now < records@[j].1 + ACTIVE_WINDOW));
                }
                assert(old(self).state().can_force_save(id, sender, now));
            } else {
                let j = choose|j: int|
                    0 <= j < records@.len() && !(((#[trigger] records@[j]).0 == prev && now
                        > records@[j].1 + ABANDON_WINDOW) || (records@[j].0 == sender && now
                        < records@[j].1 + ACTIVE_WINDOW));
                assert(old(self).state().feeds.dom().contains((id, records@[j].0)));
                assert(old(self).state().feeds[(id, records@[j].0)] == records@[j].1);
                assert(!old(self).state().can_force_save(id, sender, now));
            }
        }
        if !all_ok {
            return Err(Error::NotAvailableToForceSave);
        }
        self.registry.set_owner(id, sender);
        self.ledger.remove_record(id, prev);
        proof {
            assert(self.state() =~= old(self).state().force_save(id, sender, now).0);
        }
        Ok(Event::PetForceSaved(sender, id))
    }

    /// Pure point lookup of a pet record; never fails.
    pub fn get(&self, id: PetId) -> (r: Option<&Pet>)
        requires
            self.wf(),
        ensures
            match r {
                Some(p) => self.state().pets.dom().contains(id) && p@ == self.state().pets[id],
                None => !self.state().pets.dom().contains(id),
            },
    {
        self.registry.get(id)
    }

    /// All caretakers of `id` with their last feed times, in no particular
    /// order: one pair per feed record of `id`, and nothing else.
    pub fn records_for(&self, id: PetId) -> (r: Vec<(AccountId, Moment)>)
        requires
            self.wf(),
        ensures
            forall|j: int|
                0 <= j < r@.len() ==> self.state().feeds.dom().contains((
                    id,
                    #[trigger] r@[j].0,
                )) && self.state().feeds[(id, r@[j].0)] == r@[j].1,
            forall|a: AccountId| #[trigger] self.state().feeds.dom().contains((id, a))
                ==> exists|j: int|
                    0 <= j < r@.len() && (#[trigger] r@[j]) == (a, self.state().feeds[(id, a)]),
            forall|j1: int, j2: int| 0 <= j1 < j2 < r@.len() ==> r@[j1].0 != r@[j2].0,
    {
        self.ledger.records_for(id)
    }
}

} // verus!
