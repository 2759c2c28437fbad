use vstd::prelude::*;

verus! {

/// Unique identifier of a pet, chosen by the minting caller and never reused.
pub type PetId = u32;

/// Opaque account identity, already resolved by the host's authentication
/// layer; the library only ever compares identities for equality.
pub type AccountId = u64;

/// A reading of the ledger clock, in milliseconds. The host guarantees the
/// clock is monotonically non-decreasing and each operation reads it once.
pub type Moment = u64;

/// The closed set of pet species.
#[derive(Clone, Copy, PartialEq, Eq, Structural, Debug)]
pub enum Species {
    Snake,
    Turtle,
    Rabbit,
}

/// A registered pet. `owner` is the only field that ever changes after
/// creation (by a forced claim); `name` and `species` are immutable.
pub struct Pet {
    pub owner: AccountId,
    pub name: Vec<u8>,
    pub species: Species,
}

/// Mathematical image of a [`Pet`].
pub ghost struct PetData {
    pub owner: AccountId,
    pub name: Seq<u8>,
    pub species: Species,
}

impl View for Pet {
    type V = PetData;

    open spec fn view(&self) -> PetData {
        PetData { owner: self.owner, name: self.name@, species: self.species }
    }
}

/// Why an operation was rejected. Every rejection is detected before any
/// mutation, so a failed operation changes nothing.
#[derive(Clone, Copy, PartialEq, Eq, Structural, Debug)]
pub enum Error {
    /// Mint with an identifier that is already registered.
    PetAlreadyExists,
    /// Feed, claim or forced claim of an unregistered identifier.
    PetNotExists,
    /// Feed attempted by an account other than the owner.
    NotPetOwner,
    /// Claim eligibility failed for at least one caretaker record.
    NotAvailableToSave,
    /// Forced-claim eligibility failed for at least one caretaker record.
    NotAvailableToForceSave,
    /// Claim or forced claim attempted by the current owner.
    OwnerShouldFeedPet,
}

/// The event a successful operation hands to the host runtime, carrying the
/// caller and the pet identifier.
#[derive(Clone, Copy, PartialEq, Eq, Structural, Debug)]
pub enum Event {
    PetMinted(AccountId, PetId),
    PetFeeded(AccountId, PetId),
    PetSaved(AccountId, PetId),
    PetForceSaved(AccountId, PetId),
}

} // verus!
