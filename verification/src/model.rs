//! The ledger as a state machine.
//!
//! Each claim is either absent or registered to one account. The functions
//! here say, for one claim and for the whole ledger, what an operation
//! answers and what state it leaves.

use vstd::prelude::*;
use crate::types::{
    decision_view, held_view, AccountId, ClaimRecord, ClaimRecordView, Error, EventView,
    LedgerPosition,
};

verus! {

/// The state of the whole ledger: the record of each registered claim.
pub type Records = Map<Seq<u8>, ClaimRecordView>;

/// What registering a claim of `claim_len` bytes decides, given the claim's
/// present state: the record to store, or the reason for rejecting.
pub open spec fn register_outcome(
    existing: Option<ClaimRecordView>,
    caller: Seq<u8>,
    claim_len: nat,
    max_claim_length: u32,
    position: LedgerPosition,
) -> Result<ClaimRecordView, Error> {
    if claim_len > max_claim_length {
        Err(Error::ClaimTooLong)
    } else if existing is Some {
        Err(Error::ClaimAlreadyExists)
    } else {
        Ok(ClaimRecordView { owner: caller, registered_at: position })
    }
}

/// What retracting a claim decides, given the claim's present state.
pub open spec fn retract_outcome(existing: Option<ClaimRecordView>, caller: Seq<u8>) -> Result<
    (),
    Error,
> {
    match existing {
        None => Err(Error::ClaimNotFound),
        Some(record) => if record.owner == caller {
            Ok(())
        } else {
            Err(Error::NotClaimOwner)
        },
    }
}

/// The answer of `register` on a ledger in state `records`.
pub open spec fn register_result(
    records: Records,
    max_claim_length: u32,
    caller: Seq<u8>,
    claim: Seq<u8>,
    position: LedgerPosition,
) -> Result<EventView, Error> {
    match register_outcome(records.get(claim), caller, claim.len(), max_claim_length, position) {
        Ok(_) => Ok(EventView::ClaimCreated(caller, claim)),
        Err(e) => Err(e),
    }
}

/// The state that `register` leaves on a ledger in state `records`.
pub open spec fn after_register(
    records: Records,
    max_claim_length: u32,
    caller: Seq<u8>,
    claim: Seq<u8>,
    position: LedgerPosition,
) -> Records {
    match register_outcome(records.get(claim), caller, claim.len(), max_claim_length, position) {
        Ok(record) => records.insert(claim, record),
        Err(_) => records,
    }
}

/// The answer of `retract` on a ledger in state `records`.
pub open spec fn retract_result(records: Records, caller: Seq<u8>, claim: Seq<u8>) -> Result<
    EventView,
    Error,
> {
    match retract_outcome(records.get(claim), caller) {
        Ok(_) => Ok(EventView::ClaimRevoked(caller, claim)),
        Err(e) => Err(e),
    }
}

/// The state that `retract` leaves on a ledger in state `records`.
pub open spec fn after_retract(records: Records, caller: Seq<u8>, claim: Seq<u8>) -> Records {
    match retract_outcome(records.get(claim), caller) {
        Ok(_) => records.remove(claim),
        Err(_) => records,
    }
}

/// Decides a registration from the claim's present state.
///
/// A claim longer than `max_claim_length` is rejected first; then one that
/// has a record. Otherwise the answer is the record to store.
pub fn decide_register(
    existing: Option<&ClaimRecord>,
    caller: &AccountId,
    claim_len: usize,
    max_claim_length: u32,
    position: LedgerPosition,
) -> (r: Result<ClaimRecord, Error>)
    ensures
        decision_view(r) == register_outcome(
            held_view(existing),
            caller@,
            claim_len as nat,
            max_claim_length,
            position,
        ),
{
    if claim_len > max_claim_length as usize {
        Err(Error::ClaimTooLong)
    } else if existing.is_some() {
        Err(Error::ClaimAlreadyExists)
    } else {
        Ok(ClaimRecord { owner: caller.clone(), registered_at: position })
    }
}

/// Decides a retraction from the claim's present state: only the owner of a
/// registered claim may retract it.
pub fn decide_retract(existing: Option<&ClaimRecord>, caller: &AccountId) -> (r: Result<(), Error>)
    ensures
        r == retract_outcome(held_view(existing), caller@),
{
    match existing {
        None => Err(Error::ClaimNotFound),
        Some(record) => if record.owner.same_as(caller) {
            Ok(())
        } else {
            Err(Error::NotClaimOwner)
        },
    }
}

} // verus!
