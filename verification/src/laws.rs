//! What holds of every ledger, proved over the model.
//!
//! The executable ledger states each operation as a step of the model, so
//! what is proved here of the model's steps holds of the ledger's operations.

use vstd::prelude::*;
use crate::model::{
    after_register, after_retract, register_result, retract_result, Records,
};
use crate::types::{ClaimRecordView, Error, EventView, LedgerPosition};

verus! {

/// Only the owner retracts: on a claim registered to another account,
/// `retract` fails with `NotClaimOwner` and the record stays as it was.
pub proof fn lemma_ownership_gate(records: Records, caller: Seq<u8>, claim: Seq<u8>)
    requires
        records.contains_key(claim),
        records[claim].owner != caller,
    ensures
        retract_result(records, caller, claim) == Err::<EventView, Error>(Error::NotClaimOwner),
        after_retract(records, caller, claim) == records,
        after_retract(records, caller, claim).get(claim) == Some(records[claim]),
{
}

/// A rejected `register` leaves the ledger as it was and emits no event.
pub proof fn lemma_failed_register_changes_nothing(
    records: Records,
    max_claim_length: u32,
    caller: Seq<u8>,
    claim: Seq<u8>,
    position: LedgerPosition,
)
    requires
        register_result(records, max_claim_length, caller, claim, position) is Err,
    ensures
        after_register(records, max_claim_length, caller, claim, position) == records,
{
}

/// A rejected `retract` leaves the ledger as it was and emits no event.
pub proof fn lemma_failed_retract_changes_nothing(
    records: Records,
    caller: Seq<u8>,
    claim: Seq<u8>,
)
    requires
        retract_result(records, caller, claim) is Err,
    ensures
        after_retract(records, caller, claim) == records,
{
}

/// `register` succeeds exactly on a claim within the limit that has no
/// record, and its one event is then `ClaimCreated(caller, claim)`.
pub proof fn lemma_register_succeeds_iff(
    records: Records,
    max_claim_length: u32,
    caller: Seq<u8>,
    claim: Seq<u8>,
    position: LedgerPosition,
)
    ensures
        register_result(records, max_claim_length, caller, claim, position) is Ok <==> claim.len()
            <= max_claim_length && !records.contains_key(claim),
        register_result(records, max_claim_length, caller, claim, position) is Ok
            ==> register_result(records, max_claim_length, caller, claim, position) == Ok::<
            EventView,
            Error,
        >(EventView::ClaimCreated(caller, claim)),
{
}

/// `retract` succeeds exactly on a claim registered to the caller, and its
/// one event is then `ClaimRevoked(caller, claim)`.
pub proof fn lemma_retract_succeeds_iff(records: Records, caller: Seq<u8>, claim: Seq<u8>)
    ensures
        retract_result(records, caller, claim) is Ok <==> records.contains_key(claim)
            && records[claim].owner == caller,
        retract_result(records, caller, claim) is Ok ==> retract_result(records, caller, claim)
            == Ok::<EventView, Error>(EventView::ClaimRevoked(caller, claim)),
{
}

/// After a successful `register`, looking the claim up gives the caller and
/// the position of the call.
pub proof fn lemma_register_then_lookup(
    records: Records,
    max_claim_length: u32,
    caller: Seq<u8>,
    claim: Seq<u8>,
    position: LedgerPosition,
)
    requires
        register_result(records, max_claim_length, caller, claim, position) is Ok,
    ensures
        after_register(records, max_claim_length, caller, claim, position).get(claim) == Some(
            ClaimRecordView { owner: caller, registered_at: position },
        ),
{
}

/// After a successful `retract`, looking the claim up gives nothing. The
/// same holds after one rejected with `ClaimNotFound`.
pub proof fn lemma_retract_then_lookup(records: Records, caller: Seq<u8>, claim: Seq<u8>)
    requires
        retract_result(records, caller, claim) != Err::<EventView, Error>(Error::NotClaimOwner),
    ensures
        after_retract(records, caller, claim).get(claim) is None,
{
}

/// A claim of exactly the greatest length is accepted where it has no
/// record; one byte more is rejected with `ClaimTooLong`, whatever the
/// ledger holds.
pub proof fn lemma_length_boundary(
    records: Records,
    max_claim_length: u32,
    caller: Seq<u8>,
    claim: Seq<u8>,
    position: LedgerPosition,
)
    ensures
        claim.len() == max_claim_length && !records.contains_key(claim) ==> register_result(
            records,
            max_claim_length,
            caller,
            claim,
            position,
        ) is Ok,
        claim.len() == max_claim_length + 1 ==> register_result(
            records,
            max_claim_length,
            caller,
            claim,
            position,
        ) == Err::<EventView, Error>(Error::ClaimTooLong),
        claim.len() > max_claim_length <==> register_result(
            records,
            max_claim_length,
            caller,
            claim,
            position,
        ) == Err::<EventView, Error>(Error::ClaimTooLong),
{
}

/// An operation on one claim leaves the record of every other claim alone.
pub proof fn lemma_other_claims_untouched(
    records: Records,
    max_claim_length: u32,
    caller: Seq<u8>,
    claim: Seq<u8>,
    position: LedgerPosition,
    other: Seq<u8>,
)
    requires
        other != claim,
    ensures
        after_register(records, max_claim_length, caller, claim, position).get(other)
            == records.get(other),
        after_retract(records, caller, claim).get(other) == records.get(other),
{
}

/// A record never changes while it exists: whatever operation runs, a claim
/// that has a record before and after it has the same owner and the same
/// position of registration.
pub proof fn lemma_record_is_immutable(
    records: Records,
    max_claim_length: u32,
    caller: Seq<u8>,
    claim: Seq<u8>,
    position: LedgerPosition,
    watched: Seq<u8>,
)
    requires
        records.contains_key(watched),
    ensures
        after_register(records, max_claim_length, caller, claim, position).get(watched) == Some(
            records[watched],
        ),
        after_retract(records, caller, claim).contains_key(watched) ==> after_retract(
            records,
            caller,
            claim,
        ).get(watched) == Some(records[watched]),
{
}

/// A claim that its owner retracted is free again: any account can register
/// it anew, and the new record holds the new owner and the new position.
pub proof fn lemma_retracted_claim_is_free(
    records: Records,
    max_claim_length: u32,
    owner: Seq<u8>,
    next: Seq<u8>,
    claim: Seq<u8>,
    position: LedgerPosition,
)
    requires
        retract_result(records, owner, claim) is Ok,
        claim.len() <= max_claim_length,
    ensures
        register_result(
            after_retract(records, owner, claim),
            max_claim_length,
            next,
            claim,
            position,
        ) is Ok,
        after_register(
            after_retract(records, owner, claim),
            max_claim_length,
            next,
            claim,
            position,
        ).get(claim) == Some(ClaimRecordView { owner: next, registered_at: position }),
{
}

} // verus!
