//! Laws of the claim registry's transition system.
//!
//! Each proof function here states one property of the model that holds for
//! all states and inputs its premises admit, and Verus proves it from the
//! transition functions alone.

use crate::model::{
    create_spec, lookup_spec, revoke_spec, transfer_spec, wf, AccountId, ClaimRecord, Error,
    EventView, State,
};
use vstd::prelude::*;

verus! {

/// Round trip: creating a claim within the size bound on a key not yet
/// claimed succeeds, and a lookup then returns the caller as owner with the
/// logical time at which the create executed.
pub proof fn lemma_create_then_lookup(s: State, a: AccountId, c: Seq<u8>)
    requires
        c.len() <= s.max_claim_length,
        !s.proofs.contains_key(c),
    ensures
        create_spec(s, a, c).1 == Ok::<(), Error>(()),
        lookup_spec(create_spec(s, a, c).0, c) == Some(
            ClaimRecord { owner: a, registered_at: s.block_number },
        ),
{
}

/// Idempotent rejection: creating the same claim twice, by any two callers,
/// succeeds the first time and fails the second time with
/// `ProofAlreadyExist`, and the second call leaves the state exactly as the
/// first call left it.
pub proof fn lemma_create_idempotent_rejection(s: State, a1: AccountId, a2: AccountId, c: Seq<u8>)
    requires
        c.len() <= s.max_claim_length,
        !s.proofs.contains_key(c),
    ensures
        create_spec(s, a1, c).1 == Ok::<(), Error>(()),
        create_spec(create_spec(s, a1, c).0, a2, c).1 == Err::<(), Error>(
            Error::ProofAlreadyExist,
        ),
        create_spec(create_spec(s, a1, c).0, a2, c).0 == create_spec(s, a1, c).0,
{
}

/// Ownership gate: on a claimed key, revoke and transfer called by any
/// account other than the recorded owner fail with `NotClaimOwner` and leave
/// the whole state unchanged — so any number of such retries leaves it
/// unchanged as well.
pub proof fn lemma_ownership_gate(s: State, caller: AccountId, target: AccountId, claim: Seq<u8>)
    requires
        s.proofs.contains_key(claim),
        s.proofs[claim].owner != caller,
    ensures
        revoke_spec(s, caller, claim) == (s, Err::<(), Error>(Error::NotClaimOwner)),
        transfer_spec(s, caller, target, claim) == (s, Err::<(), Error>(Error::NotClaimOwner)),
{
}

/// Revoke clears state: the owner revoking a claim succeeds, a lookup then
/// finds nothing, and the same key can immediately be created again by any
/// account (revoked claims are fully re-claimable under the same bound).
pub proof fn lemma_revoke_clears(s: State, owner: AccountId, a: AccountId, c: Seq<u8>)
    requires
        s.proofs.contains_key(c),
        s.proofs[c].owner == owner,
        c.len() <= s.max_claim_length,
    ensures
        revoke_spec(s, owner, c).1 == Ok::<(), Error>(()),
        lookup_spec(revoke_spec(s, owner, c).0, c) == None::<ClaimRecord>,
        create_spec(revoke_spec(s, owner, c).0, a, c).1 == Ok::<(), Error>(()),
{
}

/// Transfer updates owner and timestamp: the owner transferring a claim
/// succeeds, a lookup then returns the target as owner with the logical time
/// of the transfer — which is no earlier than the last write to the key.
pub proof fn lemma_transfer_updates(s: State, owner: AccountId, target: AccountId, c: Seq<u8>)
    requires
        wf(s),
        s.proofs.contains_key(c),
        s.proofs[c].owner == owner,
    ensures
        transfer_spec(s, owner, target, c).1 == Ok::<(), Error>(()),
        lookup_spec(transfer_spec(s, owner, target, c).0, c) == Some(
            ClaimRecord { owner: target, registered_at: s.block_number },
        ),
        s.proofs[c].registered_at <= s.block_number,
{
}

/// Size bound enforcement: a fresh claim exactly at the bound is accepted,
/// and one a single byte over the bound is rejected as too large — whether
/// or not the oversized key was ever seen before.
pub proof fn lemma_size_bound(s: State, a: AccountId, c: Seq<u8>, d: Seq<u8>)
    requires
        c.len() == s.max_claim_length,
        !s.proofs.contains_key(c),
        d.len() == s.max_claim_length + 1,
    ensures
        create_spec(s, a, c).1 == Ok::<(), Error>(()),
        create_spec(s, a, d).1 == Err::<(), Error>(Error::ClaimTooLarge),
{
}

/// Rejection is harmless: whenever an operation returns an error, the whole
/// state — bound, clock, mapping and event log — is exactly what it was.
pub proof fn lemma_rejection_no_change(s: State, caller: AccountId, target: AccountId, c: Seq<u8>)
    ensures
        create_spec(s, caller, c).1 is Err ==> create_spec(s, caller, c).0 == s,
        revoke_spec(s, caller, c).1 is Err ==> revoke_spec(s, caller, c).0 == s,
        transfer_spec(s, caller, target, c).1 is Err ==> transfer_spec(s, caller, target, c).0
            == s,
{
}

/// Exactly one event per successful call, in commit order: a successful
/// operation appends the event that names it and changes nothing else of the
/// log, and a rejected operation appends nothing.
pub proof fn lemma_one_event_per_success(
    s: State,
    caller: AccountId,
    target: AccountId,
    c: Seq<u8>,
)
    ensures
        create_spec(s, caller, c).1 is Ok ==> create_spec(s, caller, c).0.log == s.log.push(
            EventView::ClaimCreated(caller, c),
        ),
        revoke_spec(s, caller, c).1 is Ok ==> revoke_spec(s, caller, c).0.log == s.log.push(
            EventView::ClaimRevoked(caller, c),
        ),
        transfer_spec(s, caller, target, c).1 is Ok ==> transfer_spec(s, caller, target, c).0.log
            == s.log.push(EventView::ClaimTransfered(caller, target, c)),
        create_spec(s, caller, c).1 is Err ==> create_spec(s, caller, c).0.log == s.log,
        revoke_spec(s, caller, c).1 is Err ==> revoke_spec(s, caller, c).0.log == s.log,
        transfer_spec(s, caller, target, c).1 is Err ==> transfer_spec(s, caller, target, c).0.log
            == s.log,
{
}

} // verus!
