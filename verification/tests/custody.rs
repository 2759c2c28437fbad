use pet_custody::pallet::{Config, Pallet};
use pet_custody::types::{Error, Event, Species};

const A: u64 = 10;
const B: u64 = 20;
const C: u64 = 30;

fn fresh_pallet() -> Pallet {
    Pallet::new(Config { string_limit: 32 })
}

fn time_of(records: &[(u64, u64)], account: u64) -> Option<u64> {
    for &(a, t) in records {
        if a == account {
            return Some(t);
        }
    }
    None
}

#[test]
fn unminted_id_rejected() {
    let mut p = fresh_pallet();
    assert_eq!(p.feed_pet(1, A, 0), Err(Error::PetNotExists));
    assert_eq!(p.save_pet(1, B, 0), Err(Error::PetNotExists));
    assert_eq!(p.save_pet_by_force(1, B, 0), Err(Error::PetNotExists));
    assert!(p.get(1).is_none());
    assert!(p.records_for(1).is_empty());
}

#[test]
fn mint_returns_event_and_registers() {
    let mut p = fresh_pallet();
    let r = p.mint_pet(1, b"Rex".to_vec(), Species::Turtle, A, 0);
    assert_eq!(r, Ok(Event::PetMinted(A, 1)));
    let pet = p.get(1).unwrap();
    assert_eq!(pet.owner, A);
    assert_eq!(pet.name, b"Rex".to_vec());
    assert_eq!(pet.species, Species::Turtle);
    let records = p.records_for(1);
    assert_eq!(records, vec![(A, 0)]);
}

#[test]
fn mint_twice_rejected_and_first_kept() {
    let mut p = fresh_pallet();
    assert!(p.mint_pet(1, b"Rex".to_vec(), Species::Turtle, A, 0).is_ok());
    let r = p.mint_pet(1, b"Sly".to_vec(), Species::Snake, B, 5);
    assert_eq!(r, Err(Error::PetAlreadyExists));
    let pet = p.get(1).unwrap();
    assert_eq!(pet.owner, A);
    assert_eq!(pet.name, b"Rex".to_vec());
    assert_eq!(pet.species, Species::Turtle);
    assert_eq!(p.records_for(1), vec![(A, 0)]);
}

#[test]
fn feed_by_non_owner_rejected() {
    let mut p = fresh_pallet();
    assert!(p.mint_pet(1, b"Rex".to_vec(), Species::Turtle, A, 0).is_ok());
    assert_eq!(p.feed_pet(1, B, 100), Err(Error::NotPetOwner));
    assert_eq!(time_of(&p.records_for(1), B), None);
}

#[test]
fn feed_by_owner_returns_event() {
    let mut p = fresh_pallet();
    assert!(p.mint_pet(1, b"Rex".to_vec(), Species::Turtle, A, 0).is_ok());
    assert_eq!(p.feed_pet(1, A, 100), Ok(Event::PetFeeded(A, 1)));
    assert_eq!(time_of(&p.records_for(1), A), Some(100));
}

#[test]
fn feed_is_idempotent_per_owner() {
    let mut p = fresh_pallet();
    assert!(p.mint_pet(1, b"Rex".to_vec(), Species::Turtle, A, 0).is_ok());
    assert!(p.feed_pet(1, A, 100).is_ok());
    assert!(p.feed_pet(1, A, 200).is_ok());
    assert!(p.feed_pet(1, A, 300).is_ok());
    let records = p.records_for(1);
    assert_eq!(records.len(), 1);
    assert_eq!(records[0], (A, 300));
}

#[test]
fn claim_by_owner_rejected() {
    let mut p = fresh_pallet();
    assert!(p.mint_pet(1, b"Rex".to_vec(), Species::Turtle, A, 0).is_ok());
    assert_eq!(p.save_pet(1, A, 500), Err(Error::OwnerShouldFeedPet));
}

#[test]
fn force_claim_by_owner_rejected() {
    let mut p = fresh_pallet();
    assert!(p.mint_pet(1, b"Rex".to_vec(), Species::Turtle, A, 0).is_ok());
    assert_eq!(p.save_pet_by_force(1, A, 500), Err(Error::OwnerShouldFeedPet));
}

#[test]
fn claim_within_neglect_window_rejected() {
    let mut p = fresh_pallet();
    assert!(p.mint_pet(1, b"Rex".to_vec(), Species::Turtle, A, 0).is_ok());
    // the window closes strictly: at exactly three days the owner is not yet neglectful
    assert_eq!(p.save_pet(1, B, 259_200_000), Err(Error::NotAvailableToSave));
    assert_eq!(time_of(&p.records_for(1), B), None);
}

#[test]
fn claim_after_neglect_window_succeeds() {
    let mut p = fresh_pallet();
    assert!(p.mint_pet(1, b"Rex".to_vec(), Species::Turtle, A, 0).is_ok());
    let r = p.save_pet(1, B, 259_200_001);
    assert_eq!(r, Ok(Event::PetSaved(B, 1)));
    let records = p.records_for(1);
    assert_eq!(records.len(), 2);
    assert_eq!(time_of(&records, A), Some(0));
    assert_eq!(time_of(&records, B), Some(259_200_001));
    // an ordinary claim never transfers ownership
    assert_eq!(p.get(1).unwrap().owner, A);
}

#[test]
fn force_claim_with_stale_challenger_record_rejected() {
    let mut p = fresh_pallet();
    assert!(p.mint_pet(1, b"Rex".to_vec(), Species::Turtle, A, 0).is_ok());
    assert!(p.save_pet(1, B, 259_200_001).is_ok());
    // six days and one millisecond after minting: the owner has abandoned the
    // pet, but the challenger's own record is itself too old to count
    let r = p.save_pet_by_force(1, B, 518_400_001);
    assert_eq!(r, Err(Error::NotAvailableToForceSave));
    assert_eq!(p.get(1).unwrap().owner, A);
    let records = p.records_for(1);
    assert_eq!(time_of(&records, A), Some(0));
    assert_eq!(time_of(&records, B), Some(259_200_001));
}

#[test]
fn force_claim_with_fresh_challenger_record_succeeds() {
    let mut p = fresh_pallet();
    assert!(p.mint_pet(1, b"Rex".to_vec(), Species::Turtle, A, 0).is_ok());
    assert!(p.save_pet(1, B, 259_200_001).is_ok());
    // the challenger refreshes its record, then forces the claim
    assert_eq!(p.save_pet(1, B, 518_400_000), Ok(Event::PetSaved(B, 1)));
    let r = p.save_pet_by_force(1, B, 518_400_001);
    assert_eq!(r, Ok(Event::PetForceSaved(B, 1)));
    assert_eq!(p.get(1).unwrap().owner, B);
    let records = p.records_for(1);
    assert_eq!(records.len(), 1);
    // the superseded owner's record is gone; the challenger's keeps the
    // timestamp that made it eligible
    assert_eq!(time_of(&records, A), None);
    assert_eq!(time_of(&records, B), Some(518_400_000));
    // name and species survive the transfer
    assert_eq!(p.get(1).unwrap().name, b"Rex".to_vec());
    assert_eq!(p.get(1).unwrap().species, Species::Turtle);
}

#[test]
fn force_claim_at_exact_windows_rejected() {
    let mut p = fresh_pallet();
    assert!(p.mint_pet(1, b"Rex".to_vec(), Species::Turtle, A, 0).is_ok());
    assert!(p.save_pet(1, B, 518_400_000).is_ok());
    // at exactly six days the owner does not yet count as having abandoned
    assert_eq!(p.save_pet_by_force(1, B, 518_400_000), Err(Error::NotAvailableToForceSave));
    // at exactly one day of challenger idleness the activity window is shut
    assert_eq!(p.save_pet_by_force(1, B, 604_800_000), Err(Error::NotAvailableToForceSave));
    assert_eq!(p.get(1).unwrap().owner, A);
}

#[test]
fn third_account_record_blocks_force_claim() {
    let mut p = fresh_pallet();
    assert!(p.mint_pet(1, b"Rex".to_vec(), Species::Turtle, A, 0).is_ok());
    assert!(p.save_pet(1, B, 259_200_001).is_ok());
    assert!(p.save_pet(1, C, 518_400_002).is_ok());
    // B is fresh and A is long gone, but C's record alone blocks the transfer
    assert!(p.save_pet(1, B, 800_000_000).is_ok());
    let r = p.save_pet_by_force(1, B, 800_000_001);
    assert_eq!(r, Err(Error::NotAvailableToForceSave));
    assert_eq!(p.get(1).unwrap().owner, A);
}

#[test]
fn force_claim_without_own_record_succeeds() {
    let mut p = fresh_pallet();
    assert!(p.mint_pet(1, b"Rex".to_vec(), Species::Turtle, A, 0).is_ok());
    // the eligibility check quantifies over existing records only, so a
    // challenger that never fed is not held to the activity window
    let r = p.save_pet_by_force(1, B, 518_400_001);
    assert_eq!(r, Ok(Event::PetForceSaved(B, 1)));
    assert_eq!(p.get(1).unwrap().owner, B);
    assert!(p.records_for(1).is_empty());
}

#[test]
fn claim_rejected_while_owner_is_active() {
    let mut p = fresh_pallet();
    assert!(p.mint_pet(1, b"Rex".to_vec(), Species::Turtle, A, 0).is_ok());
    assert!(p.feed_pet(1, A, 300_000_000).is_ok());
    // the feed pushed the owner's last activity forward, closing the window
    assert_eq!(p.save_pet(1, B, 400_000_000), Err(Error::NotAvailableToSave));
}

#[test]
fn claimant_own_stale_record_is_exempt() {
    let mut p = fresh_pallet();
    assert!(p.mint_pet(1, b"Rex".to_vec(), Species::Turtle, A, 0).is_ok());
    assert!(p.save_pet(1, B, 259_200_001).is_ok());
    // B's own record is far older than the neglect window, yet B may still
    // re-claim: only other caretakers' records are held against a claimant
    let r = p.save_pet(1, B, 800_000_000);
    assert_eq!(r, Ok(Event::PetSaved(B, 1)));
    assert_eq!(time_of(&p.records_for(1), B), Some(800_000_000));
}

#[test]
fn separate_pets_do_not_interfere() {
    let mut p = fresh_pallet();
    assert!(p.mint_pet(1, b"Rex".to_vec(), Species::Turtle, A, 0).is_ok());
    assert!(p.mint_pet(2, b"Hop".to_vec(), Species::Rabbit, B, 7).is_ok());
    assert_eq!(p.records_for(1), vec![(A, 0)]);
    assert_eq!(p.records_for(2), vec![(B, 7)]);
    assert_eq!(p.get(1).unwrap().owner, A);
    assert_eq!(p.get(2).unwrap().owner, B);
    // feeding one pet leaves the other pet's ledger alone
    assert!(p.feed_pet(1, A, 50).is_ok());
    assert_eq!(p.records_for(2), vec![(B, 7)]);
}
