use vstd::prelude::*;

verus! {

use crate::types::{AccountId, Error, Event, Moment, PetData, PetId, Species};

/// Idle time (ms) after which a caretaker counts as momentarily neglectful,
/// enabling an ordinary claim: three days.
pub const NEGLECT_WINDOW: u64 = 259_200_000;

/// Idle time (ms) after which the owner counts as having abandoned the pet,
/// enabling a forced claim: six days.
pub const ABANDON_WINDOW: u64 = 518_400_000;

/// Maximum idle time (ms) within which a challenger still counts as actively
/// caretaking during a forced claim: one day.
pub const ACTIVE_WINDOW: u64 = 86_400_000;

/// The whole custody state: the registered pets and, per (pet, caretaker)
/// pair, the caretaker's last-activity timestamp.
///
/// Every operation of the pallet is a guarded atomic transition on one value
/// of this type; the transition functions below are the authoritative
/// statement of what each operation does.
#[verifier::ext_equal]
pub ghost struct CustodyState {
    pub pets: Map<PetId, PetData>,
    pub feeds: Map<(PetId, AccountId), Moment>,
}

impl CustodyState {
    /// The state before any pet was minted.
    pub open spec fn empty() -> CustodyState {
        CustodyState { pets: Map::empty(), feeds: Map::empty() }
    }

    /// Well-formedness: every feed record points at a registered pet, and no
    /// stored name exceeds the configured length bound.
    pub open spec fn wf(self, name_limit: nat) -> bool {
        &&& forall|k: (PetId, AccountId)|
            #[trigger] self.feeds.dom().contains(k) ==> self.pets.dom().contains(k.0)
        &&& forall|id: PetId|
            #[trigger] self.pets.dom().contains(id) ==> self.pets[id].name.len() <= name_limit
    }

    /// Eligibility for an ordinary claim: every caretaker of `id` other than
    /// the claimant has been idle beyond the neglect window. The claimant's
    /// own record, if any, is exempt.
    pub open spec fn can_save(self, id: PetId, sender: AccountId, now: Moment) -> bool {
        forall|a: AccountId| #[trigger] self.feeds.dom().contains((id, a))
            ==> now > self.feeds[(id, a)] + NEGLECT_WINDOW || a == sender
    }

    /// Eligibility for a forced claim: every caretaker record of `id` must
    /// either belong to the current owner and show idleness beyond the
    /// abandon window, or belong to the challenger and show activity within
    /// the active window. A record of any third account makes this false, so
    /// a third active caretaker blocks a forced claim entirely.
    pub open spec fn can_force_save(self, id: PetId, sender: AccountId, now: Moment) -> bool {
        let prev = self.pets[id].owner;
        forall|a: AccountId| #[trigger] self.feeds.dom().contains((id, a))
            ==> (a == prev && now > self.feeds[(id, a)] + ABANDON_WINDOW)
                || (a == sender && now < self.feeds[(id, a)] + ACTIVE_WINDOW)
    }

    /// Register a new pet owned by `sender` and seed the owner's own feed
    /// record at `now`. Fails if the identifier is already taken.
    pub open spec fn mint(
        self,
        id: PetId,
        name: Seq<u8>,
        species: Species,
        sender: AccountId,
        now: Moment,
    ) -> (CustodyState, Result<Event, Error>) {
        if self.pets.dom().contains(id) {
            (self, Err(Error::PetAlreadyExists))
        } else {
            (
                CustodyState {
                    pets: self.pets.insert(id, PetData { owner: sender, name, species }),
                    feeds: self.feeds.insert((id, sender), now),
                },
                Ok(Event::PetMinted(sender, id)),
            )
        }
    }

    /// Refresh the owner's own feed record at `now`. Only the owner may feed.
    pub open spec fn feed(self, id: PetId, sender: AccountId, now: Moment) -> (
        CustodyState,
        Result<Event, Error>,
    ) {
        if !self.pets.dom().contains(id) {
            (self, Err(Error::PetNotExists))
        } else if self.pets[id].owner != sender {
            (self, Err(Error::NotPetOwner))
        } else {
            (
                CustodyState { feeds: self.feeds.insert((id, sender), now), ..self },
                Ok(Event::PetFeeded(sender, id)),
            )
        }
    }

    /// A non-owner's bid to register itself as an active caretaker. Creates
    /// or refreshes the claimant's own feed record; ownership is unchanged.
    pub open spec fn save(self, id: PetId, sender: AccountId, now: Moment) -> (
        CustodyState,
        Result<Event, Error>,
    ) {
        if !self.pets.dom().contains(id) {
            (self, Err(Error::PetNotExists))
        } else if self.pets[id].owner == sender {
            (self, Err(Error::OwnerShouldFeedPet))
        } else if !self.can_save(id, sender, now) {
            (self, Err(Error::NotAvailableToSave))
        } else {
            (
                CustodyState { feeds: self.feeds.insert((id, sender), now), ..self },
                Ok(Event::PetSaved(sender, id)),
            )
        }
    }

    /// Transfer ownership to an actively caretaking challenger once the
    /// current owner has abandoned the pet. The superseded owner's feed
    /// record is removed; the challenger's record is left untouched.
    pub open spec fn force_save(self, id: PetId, sender: AccountId, now: Moment) -> (
        CustodyState,
        Result<Event, Error>,
    ) {
        if !self.pets.dom().contains(id) {
            (self, Err(Error::PetNotExists))
        } else if self.pets[id].owner == sender {
            (self, Err(Error::OwnerShouldFeedPet))
        } else if !self.can_force_save(id, sender, now) {
            (self, Err(Error::NotAvailableToForceSave))
        } else {
            let prev = self.pets[id].owner;
            (
                CustodyState {
                    pets: self.pets.insert(
                        id,
                        (PetData { owner: sender, ..self.pets[id] }),
                    ),
                    feeds: self.feeds.remove((id, prev)),
                },
                Ok(Event::PetForceSaved(sender, id)),
            )
        }
    }
}

/// Minting preserves well-formedness when the new name is within the bound.
pub proof fn lemma_mint_preserves_wf(
    s: CustodyState,
    name_limit: nat,
    id: PetId,
    name: Seq<u8>,
    species: Species,
    sender: AccountId,
    now: Moment,
)
    requires
        s.wf(name_limit),
        name.len() <= name_limit,
    ensures
        s.mint(id, name, species, sender, now).0.wf(name_limit),
{
}

/// Feeding preserves well-formedness.
pub proof fn lemma_feed_preserves_wf(
    s: CustodyState,
    name_limit: nat,
    id: PetId,
    sender: AccountId,
    now: Moment,
)
    requires
        s.wf(name_limit),
    ensures
        s.feed(id, sender, now).0.wf(name_limit),
{
}

/// An ordinary claim preserves well-formedness.
pub proof fn lemma_save_preserves_wf(
    s: CustodyState,
    name_limit: nat,
    id: PetId,
    sender: AccountId,
    now: Moment,
)
    requires
        s.wf(name_limit),
    ensures
        s.save(id, sender, now).0.wf(name_limit),
{
}

/// A forced claim preserves well-formedness.
pub proof fn lemma_force_save_preserves_wf(
    s: CustodyState,
    name_limit: nat,
    id: PetId,
    sender: AccountId,
    now: Moment,
)
    requires
        s.wf(name_limit),
    ensures
        s.force_save(id, sender, now).0.wf(name_limit),
{
}

} // verus!
