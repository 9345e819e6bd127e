//! Executable claim registry, verified against the model in `model`.
//!
//! The persistent mapping is held as a vector of entries with pairwise
//! distinct keys; its abstraction to a `Map` is the spec function `map_of`.
//! Every public operation is proved to change the abstract state exactly as
//! the corresponding transition function of the model says.

use crate::model::{
    create_spec, lookup_spec, revoke_spec, transfer_spec, wf, AccountId, BlockNumber, ClaimRecord,
    Error, EventView, State,
};
use vstd::prelude::*;

verus! {

/// A domain event, emitted exactly once per successful operation, in commit
/// order. The host delivers these; the registry only appends them.
#[derive(PartialEq, Eq, Debug)]
pub enum Event {
    ClaimCreated(AccountId, Vec<u8>),
    ClaimRevoked(AccountId, Vec<u8>),
    ClaimTransfered(AccountId, AccountId, Vec<u8>),
}

impl View for Event {
    type V = EventView;

    open spec fn view(&self) -> EventView {
        match self {
            Event::ClaimCreated(who, claim) => EventView::ClaimCreated(*who, claim@),
            Event::ClaimRevoked(who, claim) => EventView::ClaimRevoked(*who, claim@),
            Event::ClaimTransfered(from, to, claim) => EventView::ClaimTransfered(
                *from,
                *to,
                claim@,
            ),
        }
    }
}

/// The abstract event log of a sequence of emitted events.
pub open spec fn log_of(events: Seq<Event>) -> Seq<EventView> {
    events.map_values(|e: Event| e@)
}

/// One stored claim with its record.
struct Entry {
    claim: Vec<u8>,
    record: ClaimRecord,
}

/// The claim registry: the configured size bound, the current logical time
/// as last told by the host, the claim store, and the emitted events.
pub struct Pallet {
    max_claim_length: u32,
    block_number: BlockNumber,
    proofs: Vec<Entry>,
    events: Vec<Event>,
}

/// The mapping that a sequence of entries stores: each entry binds its claim
/// bytes to its record, later entries taking precedence (the registry keeps
/// the keys distinct, so precedence never actually decides).
spec fn map_of(entries: Seq<Entry>) -> Map<Seq<u8>, ClaimRecord>
    decreases entries.len(),
{
    if entries.len() == 0 {
        Map::empty()
    } else {
        map_of(entries.drop_last()).insert(entries.last().claim@, entries.last().record)
    }
}

/// The stored keys are pairwise distinct.
spec fn distinct_keys(entries: Seq<Entry>) -> bool {
    forall|i: int, j: int|
        #![trigger entries[i].claim@, entries[j].claim@]
        0 <= i < j < entries.len() ==> entries[i].claim@ != entries[j].claim@
}

/// A key is in the stored mapping exactly when some entry holds it.
proof fn lemma_map_of_contains(entries: Seq<Entry>, k: Seq<u8>)
    ensures
        map_of(entries).contains_key(k) <==> exists|i: int|
            0 <= i < entries.len() && #[trigger] entries[i].claim@ == k,
    decreases entries.len(),
{
    if entries.len() > 0 {
        let prefix = entries.drop_last();
        lemma_map_of_contains(prefix, k);
        if map_of(prefix).contains_key(k) {
            let i = choose|i: int| 0 <= i < prefix.len() && #[trigger] prefix[i].claim@ == k;
            assert(entries[i].claim@ == k);
        }
        if entries.last().claim@ == k {
            assert(entries[entries.len() - 1].claim@ == k);
        }
        if exists|i: int| 0 <= i < entries.len() && #[trigger] entries[i].claim@ == k {
            let i = choose|i: int| 0 <= i < entries.len() && #[trigger] entries[i].claim@ == k;
            if i < entries.len() - 1 {
                assert(prefix[i].claim@ == k);
            }
        }
    }
}

/// With distinct keys, the entry holding a key determines its record.
proof fn lemma_map_of_index(entries: Seq<Entry>, i: int)
    requires
        distinct_keys(entries),
        0 <= i < entries.len(),
    ensures
        map_of(entries).contains_key(entries[i].claim@),
        map_of(entries)[entries[i].claim@] == entries[i].record,
    decreases entries.len(),
{
    lemma_map_of_contains(entries, entries[i].claim@);
    if i < entries.len() - 1 {
        lemma_map_of_index(entries.drop_last(), i);
    }
}

/// Appending an entry stores its binding on top of the others.
proof fn lemma_map_of_push(entries: Seq<Entry>, e: Entry)
    ensures
        map_of(entries.push(e)) == map_of(entries).insert(e.claim@, e.record),
{
    assert(entries.push(e).drop_last() =~= entries);
}

/// With distinct keys, removing the entry that holds a key removes exactly
/// that key from the stored mapping.
proof fn lemma_map_of_remove(entries: Seq<Entry>, i: int)
    requires
        distinct_keys(entries),
        0 <= i < entries.len(),
    ensures
        map_of(entries.remove(i)) == map_of(entries).remove(entries[i].claim@),
    decreases entries.len(),
{
    let k = entries[i].claim@;
    if i == entries.len() - 1 {
        assert(entries.remove(i) =~= entries.drop_last());
        lemma_map_of_contains(entries.drop_last(), k);
        assert(map_of(entries.drop_last()) =~= map_of(entries).remove(k));
    } else {
        let last = entries.last();
        lemma_map_of_remove(entries.drop_last(), i);
        assert(entries.remove(i).drop_last() =~= entries.drop_last().remove(i));
        assert(entries.remove(i).last() == last);
        // distinct keys give k != last.claim@, so the removal of k and the
        // insertion of the last binding commute
        assert(map_of(entries.drop_last()).remove(k).insert(last.claim@, last.record)
            =~= map_of(entries.drop_last()).insert(last.claim@, last.record).remove(k));
    }
}

impl View for Pallet {
    type V = State;

    closed spec fn view(&self) -> State {
        State {
            max_claim_length: self.max_claim_length,
            block_number: self.block_number,
            proofs: map_of(self.proofs@),
            log: log_of(self.events@),
        }
    }
}

impl Pallet {
    /// Representation invariant: the stored keys are distinct, and every
    /// record was written no later than the current logical time.
    pub closed spec fn inv(&self) -> bool {
        &&& distinct_keys(self.proofs@)
        &&& wf(self@)
    }

    /// A fresh registry for a deployment with the given maximum claim
    /// length: empty at genesis.
    pub fn new(max_claim_length: u32) -> (r: Pallet)
        ensures
            r.inv(),
            r@ == State::genesis(max_claim_length),
    {
        let r = Pallet {
            max_claim_length,
            block_number: 0,
            proofs: Vec::new(),
            events: Vec::new(),
        };
        proof {
            assert(r@ =~~= State::genesis(max_claim_length));
        }
        r
    }

    /// Index of the entry that stores `claim`, if the claim is present.
    fn find_claim(&self, claim: &Vec<u8>) -> (r: Option<usize>)
        ensures
            match r {
                Some(i) => 0 <= i < self.proofs@.len() && self.proofs@[i as int].claim@ == claim@,
                None => !self@.proofs.contains_key(claim@),
            },
    {
        let n = self.proofs.len();
        let mut i: usize = 0;
        while i < n
            invariant
                i <= n,
                n == self.proofs@.len(),
                forall|j: int| 0 <= j < i ==> #[trigger] self.proofs@[j].claim@ != claim@,
            decreases n - i,
        {
            if self.proofs[i].claim == *claim {
                return Some(i);
            }
            i = i + 1;
        }
        proof {
            lemma_map_of_contains(self.proofs@, claim@);
        }
        None
    }

    /// Pure point lookup: the record stored under `claim`, if any.
    pub fn lookup(&self, claim: &Vec<u8>) -> (r: Option<ClaimRecord>)
        requires
            self.inv(),
        ensures
            r == lookup_spec(self@, claim@),
    {
        match self.find_claim(claim) {
            Some(i) => {
                proof {
                    lemma_map_of_index(self.proofs@, i as int);
                }
                Some(self.proofs[i].record)
            },
            None => None,
        }
    }

    /// Create a claim for `caller`: rejected as too large over the bound,
    /// rejected as already existing on a present key, otherwise stored with
    /// the current logical time and announced by one event.
    pub fn create_claim(&mut self, caller: AccountId, claim: Vec<u8>) -> (r: Result<(), Error>)
        requires
            old(self).inv(),
        ensures
            final(self).inv(),
            wf(final(self)@),
            final(self)@ == create_spec(old(self)@, caller, claim@).0,
            r == create_spec(old(self)@, caller, claim@).1,
    {
        let ghost s0 = self@;
        let ghost cv = claim@;
        if claim.len() > self.max_claim_length as usize {
            return Err(Error::ClaimTooLarge);
        }
        if let Some(_) = self.find_claim(&claim) {
            proof {
                lemma_map_of_contains(self.proofs@, cv);
            }
            return Err(Error::ProofAlreadyExist);
        }
        let ghost entries0 = self.proofs@;
        let ghost events0 = self.events@;
        let record = ClaimRecord { owner: caller, registered_at: self.block_number };
        let bytes = claim.clone();
        proof {
            assert(bytes@ =~= cv);
        }
        self.proofs.push(Entry { claim: bytes, record });
        self.events.push(Event::ClaimCreated(caller, claim));
        proof {
            let e = self.proofs@.last();
            assert(self.proofs@ == entries0.push(e));
            lemma_map_of_push(entries0, e);
            lemma_map_of_contains(entries0, cv);
            assert forall|i: int, j: int| 0 <= i < j < self.proofs@.len() implies self.proofs@[i].claim@
                != self.proofs@[j].claim@ by {
                if j == self.proofs@.len() - 1 {
                    assert(entries0[i].claim@ != cv);
                }
            }
            let ev = self.events@.last();
            assert(self.events@ == events0.push(ev));
            events0.lemma_push_map_commute(|x: Event| x@, ev);
            assert(self@ =~~= create_spec(s0, caller, cv).0);
            assert forall|c: Seq<u8>| #[trigger] self@.proofs.contains_key(c) implies self@.proofs[c].registered_at
                <= self@.block_number by {
                if c != cv {
                    assert(s0.proofs.contains_key(c));
                }
            }
        }
        Ok(())
    }

    /// Revoke a claim held by `caller`: rejected when the key is absent or
    /// when the caller is not the recorded owner, otherwise the key is
    /// removed and the removal announced by one event.
    pub fn revoke_claim(&mut self, caller: AccountId, claim: Vec<u8>) -> (r: Result<(), Error>)
        requires
            old(self).inv(),
        ensures
            final(self).inv(),
            wf(final(self)@),
            final(self)@ == revoke_spec(old(self)@, caller, claim@).0,
            r == revoke_spec(old(self)@, caller, claim@).1,
    {
        let ghost s0 = self@;
        let ghost cv = claim@;
        let i = match self.find_claim(&claim) {
            None => {
                return Err(Error::ProofNotExist);
            },
            Some(i) => i,
        };
        proof {
            lemma_map_of_index(self.proofs@, i as int);
        }
        if self.proofs[i].record.owner != caller {
            return Err(Error::NotClaimOwner);
        }
        let ghost entries0 = self.proofs@;
        let ghost events0 = self.events@;
        self.proofs.remove(i);
        self.events.push(Event::ClaimRevoked(caller, claim));
        proof {
            lemma_map_of_remove(entries0, i as int);
            assert forall|a: int, b: int| 0 <= a < b < self.proofs@.len() implies self.proofs@[a].claim@
                != self.proofs@[b].claim@ by {
                assert(self.proofs@ == entries0.remove(i as int));
            }
            let ev = self.events@.last();
            assert(self.events@ == events0.push(ev));
            events0.lemma_push_map_commute(|x: Event| x@, ev);
            assert(self@ =~~= revoke_spec(s0, caller, cv).0);
            assert forall|c: Seq<u8>| #[trigger] self@.proofs.contains_key(c) implies self@.proofs[c].registered_at
                <= self@.block_number by {
                assert(s0.proofs.contains_key(c));
            }
        }
        Ok(())
    }

    /// Transfer a claim from `caller` to `target`: rejected when the key is
    /// absent or when the caller is not the recorded owner, otherwise the
    /// record is overwritten with the target as owner and a fresh timestamp,
    /// and the transfer announced by one event.
    pub fn transfer_claim(
        &mut self,
        caller: AccountId,
        target: AccountId,
        claim: Vec<u8>,
    ) -> (r: Result<(), Error>)
        requires
            old(self).inv(),
        ensures
            final(self).inv(),
            wf(final(self)@),
            final(self)@ == transfer_spec(old(self)@, caller, target, claim@).0,
            r == transfer_spec(old(self)@, caller, target, claim@).1,
    {
        let ghost s0 = self@;
        let ghost cv = claim@;
        let i = match self.find_claim(&claim) {
            None => {
                return Err(Error::ProofNotExist);
            },
            Some(i) => i,
        };
        proof {
            lemma_map_of_index(self.proofs@, i as int);
        }
        if self.proofs[i].record.owner != caller {
            return Err(Error::NotClaimOwner);
        }
        let ghost entries0 = self.proofs@;
        let ghost events0 = self.events@;
        let record = ClaimRecord { owner: target, registered_at: self.block_number };
        let bytes = claim.clone();
        proof {
            assert(bytes@ =~= cv);
        }
        self.proofs.remove(i);
        self.proofs.push(Entry { claim: bytes, record });
        self.events.push(Event::ClaimTransfered(caller, target, claim));
        proof {
            let removed = entries0.remove(i as int);
            lemma_map_of_remove(entries0, i as int);
            let e = self.proofs@.last();
            assert(self.proofs@ == removed.push(e));
            lemma_map_of_push(removed, e);
            assert forall|a: int| 0 <= a < removed.len() implies removed[a].claim@ != cv by {
                assert(distinct_keys(entries0));
            }
            assert forall|a: int, b: int| 0 <= a < b < self.proofs@.len() implies self.proofs@[a].claim@
                != self.proofs@[b].claim@ by {
                if b < removed.len() {
                    assert(removed[a].claim@ != removed[b].claim@);
                }
            }
            let ev = self.events@.last();
            assert(self.events@ == events0.push(ev));
            events0.lemma_push_map_commute(|x: Event| x@, ev);
            assert(self@.proofs =~= s0.proofs.insert(cv, record));
            assert(self@ =~~= transfer_spec(s0, caller, target, cv).0);
            assert forall|c: Seq<u8>| #[trigger] self@.proofs.contains_key(c) implies self@.proofs[c].registered_at
                <= self@.block_number by {
                if c != cv {
                    assert(s0.proofs.contains_key(c));
                }
            }
        }
        Ok(())
    }

    /// The host advances the logical clock; it never moves backwards.
    pub fn set_block_number(&mut self, n: BlockNumber)
        requires
            old(self).inv(),
            n >= old(self)@.block_number,
        ensures
            final(self).inv(),
            wf(final(self)@),
            final(self)@ == (State { block_number: n, ..old(self)@ }),
    {
        let ghost s0 = self@;
        self.block_number = n;
        proof {
            assert(self@ =~~= (State { block_number: n, ..s0 }));
        }
    }

    /// The current logical time, as last told by the host.
    pub fn block_number(&self) -> (r: BlockNumber)
        ensures
            r == self@.block_number,
    {
        self.block_number
    }

    /// The configured upper bound on the length of a claim.
    pub fn max_claim_length(&self) -> (r: u32)
        ensures
            r == self@.max_claim_length,
    {
        self.max_claim_length
    }

    /// The events emitted so far, in commit order.
    pub fn events(&self) -> (r: &Vec<Event>)
        ensures
            log_of(r@) == self@.log,
    {
        &self.events
    }
}

} // verus!
