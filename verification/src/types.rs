//! The plain values that the ledger stores, returns and emits.

use vstd::prelude::*;

verus! {

/// An authenticated principal, as the bytes that identify it. The ledger
/// only compares accounts, byte for byte.
#[derive(Debug, PartialEq, Eq, Hash)]
pub struct AccountId(pub Vec<u8>);

/// A point in the host's ordered history, such as a block height. The ledger
/// stores it and never compares or changes it.
#[derive(Clone, Copy, Debug, PartialEq, Eq, Hash, Structural)]
pub struct LedgerPosition(pub u64);

/// What the ledger holds for a registered claim.
#[derive(Debug, PartialEq, Eq)]
pub struct ClaimRecord {
    /// The account that registered the claim.
    pub owner: AccountId,
    /// The ledger position at which it did so.
    pub registered_at: LedgerPosition,
}

/// A [`ClaimRecord`] with its owner as a sequence of bytes.
pub struct ClaimRecordView {
    pub owner: Seq<u8>,
    pub registered_at: LedgerPosition,
}

/// Why an operation was rejected. A rejected operation changes nothing.
#[derive(Clone, Copy, Debug, PartialEq, Eq, Structural)]
pub enum Error {
    /// The claim has more bytes than the ledger accepts.
    ClaimTooLong,
    /// The claim is registered already.
    ClaimAlreadyExists,
    /// The claim is not registered.
    ClaimNotFound,
    /// The claim is registered to another account.
    NotClaimOwner,
}

/// What a successful operation tells outside observers.
#[derive(Debug, PartialEq, Eq)]
pub enum Event {
    /// The account registered the claim.
    ClaimCreated(AccountId, Vec<u8>),
    /// The account, which owned the claim, retracted it.
    ClaimRevoked(AccountId, Vec<u8>),
}

/// An [`Event`] with its account and its claim as sequences of bytes.
pub enum EventView {
    ClaimCreated(Seq<u8>, Seq<u8>),
    ClaimRevoked(Seq<u8>, Seq<u8>),
}

impl View for AccountId {
    type V = Seq<u8>;

    open spec fn view(&self) -> Seq<u8> {
        self.0@
    }
}

impl View for ClaimRecord {
    type V = ClaimRecordView;

    open spec fn view(&self) -> ClaimRecordView {
        ClaimRecordView { owner: self.owner@, registered_at: self.registered_at }
    }
}

impl View for Event {
    type V = EventView;

    open spec fn view(&self) -> EventView {
        match *self {
            Event::ClaimCreated(who, claim) => EventView::ClaimCreated(who@, claim@),
            Event::ClaimRevoked(who, claim) => EventView::ClaimRevoked(who@, claim@),
        }
    }
}

/// A record that may be there, seen as a value of the model.
pub open spec fn held_view(held: Option<&ClaimRecord>) -> Option<ClaimRecordView> {
    match held {
        Some(record) => Some(record@),
        None => None,
    }
}

/// A decision with its record, if any, seen as a value of the model.
pub open spec fn decision_view(decision: Result<ClaimRecord, Error>) -> Result<
    ClaimRecordView,
    Error,
> {
    match decision {
        Ok(record) => Ok(record@),
        Err(e) => Err(e),
    }
}

/// An answer with its event, if any, seen as a value of the model.
pub open spec fn answer_view(answer: Result<Event, Error>) -> Result<EventView, Error> {
    match answer {
        Ok(event) => Ok(event@),
        Err(e) => Err(e),
    }
}

/// Whether two byte strings are the same, byte for byte.
pub fn bytes_equal(a: &[u8], b: &[u8]) -> (r: bool)
    ensures
        r == (a@ == b@),
{
    if a.len() != b.len() {
        return false;
    }
    let mut i: usize = 0;
    while i < a.len()
        invariant
            a@.len() == b@.len(),
            0 <= i <= a@.len(),
            forall|k: int| 0 <= k < i ==> a@[k] == b@[k],
        decreases a@.len() - i,
    {
        if a[i] != b[i] {
            return false;
        }
        i += 1;
    }
    assert(a@ =~= b@);
    true
}

impl AccountId {
    /// Whether `other` is this account.
    pub fn same_as(&self, other: &AccountId) -> (r: bool)
        ensures
            r == (self@ == other@),
    {
        bytes_equal(self.0.as_slice(), other.0.as_slice())
    }
}

impl Clone for AccountId {
    fn clone(&self) -> (r: AccountId)
        ensures
            r@ == self@,
    {
        AccountId(self.0.clone())
    }
}

impl Clone for ClaimRecord {
    fn clone(&self) -> (r: ClaimRecord)
        ensures
            r@ == self@,
    {
        ClaimRecord { owner: self.owner.clone(), registered_at: self.registered_at }
    }
}

impl Clone for Event {
    fn clone(&self) -> (r: Event)
        ensures
            r@ == self@,
    {
        match self {
            Event::ClaimCreated(who, claim) => Event::ClaimCreated(who.clone(), claim.clone()),
            Event::ClaimRevoked(who, claim) => Event::ClaimRevoked(who.clone(), claim.clone()),
        }
    }
}

} // verus!
