//! Mathematical model of the claim registry.
//!
//! `State` is the abstract view of the whole registry: the configured size
//! bound, the current logical time, the claim mapping, and the event log.
//! Each operation of the registry is described by a spec function from a
//! state and plain arguments to the successor state and the result. The
//! executable code in `registry` is proved to follow these functions exactly.

use vstd::prelude::*;

verus! {

/// Identifier of an account, as authenticated by the host before dispatch.
pub type AccountId = u64;

/// The host ledger's logical timestamp (e.g. a block height); it never
/// decreases over the lifetime of the registry.
pub type BlockNumber = u64;

/// The value stored for a claimed key: who owns the claim and at which
/// logical time the record was last written (created or transferred).
#[derive(Clone, Copy, PartialEq, Eq, Structural, Debug)]
pub struct ClaimRecord {
    pub owner: AccountId,
    pub registered_at: BlockNumber,
}

/// The four ways a mutating operation can reject a call. Every rejection
/// leaves the registry unchanged and emits no event.
#[derive(Clone, Copy, PartialEq, Eq, Structural, Debug)]
pub enum Error {
    /// Create was attempted on an already-claimed key.
    ProofAlreadyExist,
    /// Revoke or transfer was attempted on an unclaimed key.
    ProofNotExist,
    /// Revoke or transfer was attempted by an account other than the owner.
    NotClaimOwner,
    /// Create was attempted with a claim longer than the configured bound.
    ClaimTooLarge,
}

/// Abstract form of a domain event, with the claim as a byte sequence.
#[verifier::ext_equal]
pub enum EventView {
    ClaimCreated(AccountId, Seq<u8>),
    ClaimRevoked(AccountId, Seq<u8>),
    ClaimTransfered(AccountId, AccountId, Seq<u8>),
}

/// Abstract state of the registry: the configured bound, the current logical
/// time, the claim mapping, and the events emitted so far in commit order.
#[verifier::ext_equal]
pub struct State {
    pub max_claim_length: u32,
    pub block_number: BlockNumber,
    pub proofs: Map<Seq<u8>, ClaimRecord>,
    pub log: Seq<EventView>,
}

impl State {
    /// The state of the registry at genesis: no claims, no events.
    pub open spec fn genesis(max_claim_length: u32) -> State {
        State {
            max_claim_length,
            block_number: 0,
            proofs: Map::empty(),
            log: Seq::empty(),
        }
    }
}

/// Every stored record was written no later than the current logical time.
/// This holds of every state the operations can reach, because records are
/// always stamped with the block number of the moment they are written and
/// the block number never decreases.
pub open spec fn wf(s: State) -> bool {
    forall|c: Seq<u8>| #[trigger] s.proofs.contains_key(c) ==> s.proofs[c].registered_at <= s.block_number
}

/// The point lookup: the record currently stored under `claim`, if any.
pub open spec fn lookup_spec(s: State, claim: Seq<u8>) -> Option<ClaimRecord> {
    if s.proofs.contains_key(claim) {
        Some(s.proofs[claim])
    } else {
        None
    }
}

/// Creating a claim. The size check strictly precedes the existence check,
/// so an oversized claim is rejected as too large even when it is also
/// already present. On success the caller becomes the owner, the record is
/// stamped with the current logical time, and one event is emitted.
pub open spec fn create_spec(s: State, caller: AccountId, claim: Seq<u8>) -> (State, Result<
    (),
    Error,
>) {
    if claim.len() > s.max_claim_length {
        (s, Err(Error::ClaimTooLarge))
    } else if s.proofs.contains_key(claim) {
        (s, Err(Error::ProofAlreadyExist))
    } else {
        (
            State {
                proofs: s.proofs.insert(
                    claim,
                    ClaimRecord { owner: caller, registered_at: s.block_number },
                ),
                log: s.log.push(EventView::ClaimCreated(caller, claim)),
                ..s
            },
            Ok(()),
        )
    }
}

/// Revoking a claim. Only the recorded owner may revoke; on success the key
/// is removed entirely (no tombstone) and one event is emitted.
pub open spec fn revoke_spec(s: State, caller: AccountId, claim: Seq<u8>) -> (State, Result<
    (),
    Error,
>) {
    if !s.proofs.contains_key(claim) {
        (s, Err(Error::ProofNotExist))
    } else if s.proofs[claim].owner != caller {
        (s, Err(Error::NotClaimOwner))
    } else {
        (
            State {
                proofs: s.proofs.remove(claim),
                log: s.log.push(EventView::ClaimRevoked(caller, claim)),
                ..s
            },
            Ok(()),
        )
    }
}

/// Transferring a claim. Only the recorded owner may transfer; on success the
/// record is overwritten with the target as owner and a fresh timestamp, and
/// one event is emitted. A self-transfer (`target == caller`) is permitted
/// and still refreshes the timestamp and emits the event.
pub open spec fn transfer_spec(
    s: State,
    caller: AccountId,
    target: AccountId,
    claim: Seq<u8>,
) -> (State, Result<(), Error>) {
    if !s.proofs.contains_key(claim) {
        (s, Err(Error::ProofNotExist))
    } else if s.proofs[claim].owner != caller {
        (s, Err(Error::NotClaimOwner))
    } else {
        (
            State {
                proofs: s.proofs.insert(
                    claim,
                    ClaimRecord { owner: target, registered_at: s.block_number },
                ),
                log: s.log.push(EventView::ClaimTransfered(caller, target, claim)),
                ..s
            },
            Ok(()),
        )
    }
}

} // verus!
