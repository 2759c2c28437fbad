use vstd::prelude::*;

verus! {

use crate::custody::CustodyState;
use crate::types::{AccountId, Error, Event, Moment, PetId, Species};

/// For an identifier that was never minted, feeding, claiming and forced
/// claiming all fail with `PetNotExists` and no store is mutated.
pub proof fn lemma_unregistered_id_rejected(
    s: CustodyState,
    id: PetId,
    sender: AccountId,
    now: Moment,
)
    requires
        !s.pets.dom().contains(id),
    ensures
        s.feed(id, sender, now) == (s, Err::<Event, Error>(Error::PetNotExists)),
        s.save(id, sender, now) == (s, Err::<Event, Error>(Error::PetNotExists)),
        s.force_save(id, sender, now) == (s, Err::<Event, Error>(Error::PetNotExists)),
{
}

/// Minting the same identifier twice: the first mint succeeds, the second
/// fails with `PetAlreadyExists`, and the state still reflects the first
/// mint's values unchanged.
pub proof fn lemma_mint_twice(
    s: CustodyState,
    id: PetId,
    name1: Seq<u8>,
    species1: Species,
    sender1: AccountId,
    t1: Moment,
    name2: Seq<u8>,
    species2: Species,
    sender2: AccountId,
    t2: Moment,
)
    requires
        !s.pets.dom().contains(id),
    ensures
        ({
            let (s1, r1) = s.mint(id, name1, species1, sender1, t1);
            let (s2, r2) = s1.mint(id, name2, species2, sender2, t2);
            &&& r1 == Ok::<Event, Error>(Event::PetMinted(sender1, id))
            &&& r2 == Err::<Event, Error>(Error::PetAlreadyExists)
            &&& s2 == s1
        }),
{
}

/// Feeding by any account other than the owner fails with `NotPetOwner` and
/// creates no feed record.
pub proof fn lemma_feed_by_non_owner_rejected(
    s: CustodyState,
    id: PetId,
    sender: AccountId,
    now: Moment,
)
    requires
        s.pets.dom().contains(id),
        s.pets[id].owner != sender,
    ensures
        s.feed(id, sender, now) == (s, Err::<Event, Error>(Error::NotPetOwner)),
{
}

/// The owner claiming its own pet fails with `OwnerShouldFeedPet`, for both
/// the ordinary and the forced claim, and nothing changes.
pub proof fn lemma_claim_by_owner_rejected(
    s: CustodyState,
    id: PetId,
    sender: AccountId,
    now: Moment,
)
    requires
        s.pets.dom().contains(id),
        s.pets[id].owner == sender,
    ensures
        s.save(id, sender, now) == (s, Err::<Event, Error>(Error::OwnerShouldFeedPet)),
        s.force_save(id, sender, now) == (s, Err::<Event, Error>(Error::OwnerShouldFeedPet)),
{
}

/// No operation that fails mutates anything: whenever a transition reports
/// an error, the state it returns is the state it started from.
pub proof fn lemma_failure_mutates_nothing(
    s: CustodyState,
    id: PetId,
    name: Seq<u8>,
    species: Species,
    sender: AccountId,
    now: Moment,
)
    ensures
        s.mint(id, name, species, sender, now).1 is Err ==> s.mint(
            id,
            name,
            species,
            sender,
            now,
        ).0 == s,
        s.feed(id, sender, now).1 is Err ==> s.feed(id, sender, now).0 == s,
        s.save(id, sender, now).1 is Err ==> s.save(id, sender, now).0 == s,
        s.force_save(id, sender, now).1 is Err ==> s.force_save(id, sender, now).0 == s,
{
}

/// Repeated feeding by the owner keeps exactly one record per (pet, owner)
/// pair: both feeds succeed, the set of feed records after the second feed
/// is the set after the first, and only the owner's timestamp is overwritten.
pub proof fn lemma_feed_idempotent(
    s: CustodyState,
    id: PetId,
    sender: AccountId,
    t1: Moment,
    t2: Moment,
)
    requires
        s.pets.dom().contains(id),
        s.pets[id].owner == sender,
    ensures
        ({
            let (s1, r1) = s.feed(id, sender, t1);
            let (s2, r2) = s1.feed(id, sender, t2);
            &&& r1 == Ok::<Event, Error>(Event::PetFeeded(sender, id))
            &&& r2 == Ok::<Event, Error>(Event::PetFeeded(sender, id))
            &&& s2.feeds.dom() == s1.feeds.dom()
            &&& s2.feeds == s1.feeds.insert((id, sender), t2)
            &&& s2.pets == s.pets
        }),
{
    let (s1, r1) = s.feed(id, sender, t1);
    let (s2, r2) = s1.feed(id, sender, t2);
    assert(s2.feeds.dom() =~= s1.feeds.dom());
}

} // verus!
