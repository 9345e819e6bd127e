// Concrete scenarios for the registry's guarantees: round trips, the
// ownership gate, the size bound, timestamps, and the event discipline.

use poe::{ClaimRecord, Error, Event, Pallet};

#[test]
fn round_trip_create_then_lookup() {
    let mut p = Pallet::new(10);
    p.set_block_number(5);
    let claim = "hello".as_bytes().to_vec();
    assert_eq!(p.create_claim(7, claim.clone()), Ok(()));
    assert_eq!(p.lookup(&claim), Some(ClaimRecord { owner: 7, registered_at: 5 }));
}

#[test]
fn duplicate_create_leaves_state_as_after_first() {
    let mut p = Pallet::new(10);
    let claim = "hello".as_bytes().to_vec();
    assert_eq!(p.create_claim(1, claim.clone()), Ok(()));
    let record_after_first = p.lookup(&claim);
    let events_after_first = p.events().len();
    assert_eq!(p.create_claim(2, claim.clone()), Err(Error::ProofAlreadyExist));
    assert_eq!(p.lookup(&claim), record_after_first);
    assert_eq!(p.events().len(), events_after_first);
}

#[test]
fn ownership_gate_rejects_non_owner_every_time() {
    let mut p = Pallet::new(10);
    let claim = "hello".as_bytes().to_vec();
    assert_eq!(p.create_claim(1, claim.clone()), Ok(()));
    for _ in 0..3 {
        assert_eq!(p.revoke_claim(2, claim.clone()), Err(Error::NotClaimOwner));
        assert_eq!(p.transfer_claim(3, 4, claim.clone()), Err(Error::NotClaimOwner));
        assert_eq!(p.lookup(&claim), Some(ClaimRecord { owner: 1, registered_at: 0 }));
    }
    assert_eq!(p.events().len(), 1);
}

#[test]
fn revoked_claim_is_reclaimable() {
    let mut p = Pallet::new(10);
    let claim = "hello".as_bytes().to_vec();
    assert_eq!(p.create_claim(1, claim.clone()), Ok(()));
    assert_eq!(p.revoke_claim(1, claim.clone()), Ok(()));
    assert_eq!(p.lookup(&claim), None);
    assert_eq!(p.create_claim(2, claim.clone()), Ok(()));
    assert_eq!(p.lookup(&claim), Some(ClaimRecord { owner: 2, registered_at: 0 }));
}

#[test]
fn transfer_updates_owner_and_timestamp() {
    let mut p = Pallet::new(10);
    p.set_block_number(1);
    let claim = "hello".as_bytes().to_vec();
    assert_eq!(p.create_claim(1, claim.clone()), Ok(()));
    p.set_block_number(3);
    assert_eq!(p.transfer_claim(1, 2, claim.clone()), Ok(()));
    let record = p.lookup(&claim).unwrap();
    assert_eq!(record, ClaimRecord { owner: 2, registered_at: 3 });
    assert!(record.registered_at >= 1);
}

#[test]
fn self_transfer_refreshes_timestamp_and_emits_event() {
    let mut p = Pallet::new(10);
    let claim = "hello".as_bytes().to_vec();
    assert_eq!(p.create_claim(1, claim.clone()), Ok(()));
    p.set_block_number(4);
    assert_eq!(p.transfer_claim(1, 1, claim.clone()), Ok(()));
    assert_eq!(p.lookup(&claim), Some(ClaimRecord { owner: 1, registered_at: 4 }));
    assert_eq!(p.events().len(), 2);
    assert_eq!(
        p.events()[1],
        Event::ClaimTransfered(1, 1, "hello".as_bytes().to_vec())
    );
}

#[test]
fn claim_exactly_at_bound_is_accepted() {
    let mut p = Pallet::new(10);
    let claim = vec![0u8; 10];
    assert_eq!(p.create_claim(1, claim.clone()), Ok(()));
    assert_eq!(p.lookup(&claim), Some(ClaimRecord { owner: 1, registered_at: 0 }));
}

#[test]
fn fresh_claim_over_bound_is_rejected() {
    let mut p = Pallet::new(10);
    let claim = vec![0u8; 11];
    assert_eq!(p.create_claim(1, claim.clone()), Err(Error::ClaimTooLarge));
    assert_eq!(p.lookup(&claim), None);
    assert_eq!(p.events().len(), 0);
}

#[test]
fn oversized_claim_is_rejected_as_too_large_even_when_present() {
    // the size check strictly precedes the existence check, so the key being
    // claimed does not change which error an oversized create surfaces
    let mut p = Pallet::new(3);
    let claim = vec![1u8, 2, 3];
    assert_eq!(p.create_claim(1, claim.clone()), Ok(()));
    let mut shrunk = Pallet::new(2);
    assert_eq!(shrunk.create_claim(1, claim.clone()), Err(Error::ClaimTooLarge));
}

#[test]
fn claim_lifecycle_scenario() {
    let mut p = Pallet::new(10);
    let claim = "hello".as_bytes().to_vec();
    assert_eq!(p.create_claim(1, claim.clone()), Ok(()));
    assert_eq!(
        p.events()[0],
        Event::ClaimCreated(1, "hello".as_bytes().to_vec())
    );
    assert_eq!(p.create_claim(1, claim.clone()), Err(Error::ProofAlreadyExist));
    assert_eq!(p.revoke_claim(2, claim.clone()), Err(Error::NotClaimOwner));
    assert_eq!(p.revoke_claim(1, claim.clone()), Ok(()));
    assert_eq!(p.lookup(&claim), None);
    assert_eq!(p.transfer_claim(1, 2, claim.clone()), Err(Error::ProofNotExist));
}

#[test]
fn events_appended_in_commit_order() {
    let mut p = Pallet::new(10);
    let a = vec![1u8];
    let b = vec![2u8];
    assert_eq!(p.create_claim(1, a.clone()), Ok(()));
    assert_eq!(p.create_claim(2, b.clone()), Ok(()));
    assert_eq!(p.transfer_claim(1, 3, a.clone()), Ok(()));
    assert_eq!(p.revoke_claim(2, b.clone()), Ok(()));
    let events = p.events();
    assert_eq!(events.len(), 4);
    assert_eq!(events[0], Event::ClaimCreated(1, vec![1u8]));
    assert_eq!(events[1], Event::ClaimCreated(2, vec![2u8]));
    assert_eq!(events[2], Event::ClaimTransfered(1, 3, vec![1u8]));
    assert_eq!(events[3], Event::ClaimRevoked(2, vec![2u8]));
}

#[test]
fn distinct_claims_are_independent() {
    let mut p = Pallet::new(10);
    let a = "hello".as_bytes().to_vec();
    let b = "world".as_bytes().to_vec();
    assert_eq!(p.create_claim(1, a.clone()), Ok(()));
    assert_eq!(p.create_claim(2, b.clone()), Ok(()));
    assert_eq!(p.revoke_claim(1, a.clone()), Ok(()));
    assert_eq!(p.lookup(&a), None);
    assert_eq!(p.lookup(&b), Some(ClaimRecord { owner: 2, registered_at: 0 }));
}
