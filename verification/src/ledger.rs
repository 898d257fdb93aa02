//! The executable ledger.
//!
//! The records are kept in a vector in which no claim occurs twice. The
//! ledger's view is the map from each stored claim to its record, and every
//! operation is stated as a step of the model on that map.

use vstd::prelude::*;
use crate::model::{
    after_register, after_retract, decide_register, decide_retract, register_result,
    retract_result, Records,
};
use crate::types::{
    answer_view, bytes_equal, held_view, AccountId, ClaimRecord, ClaimRecordView, Error, Event,
    LedgerPosition,
};

verus! {

/// One registered claim with its record.
#[derive(Debug, PartialEq, Eq)]
struct Entry {
    claim: Vec<u8>,
    record: ClaimRecord,
}

/// The claim ledger: which claims are registered, to whom and since when.
///
/// Two ledgers compare equal with `==` where they store the same entries in
/// the same order.
#[derive(Debug, PartialEq, Eq)]
pub struct ClaimLedger {
    max_claim_length: u32,
    entries: Vec<Entry>,
}

/// Entry `i` of `entries` is the one for `claim`.
spec fn holds_at(entries: Seq<Entry>, claim: Seq<u8>, i: int) -> bool {
    0 <= i < entries.len() && entries[i].claim@ == claim
}

/// Some index at which `entries` holds `claim`, where there is one.
spec fn index_of(entries: Seq<Entry>, claim: Seq<u8>) -> int {
    choose|i: int| holds_at(entries, claim, i)
}

/// The map that `entries` stands for.
spec fn records_of(entries: Seq<Entry>) -> Records {
    Map::new(
        |claim: Seq<u8>| exists|i: int| holds_at(entries, claim, i),
        |claim: Seq<u8>| entries[index_of(entries, claim)].record@,
    )
}

/// No claim occurs at two indices of `entries`.
spec fn distinct(entries: Seq<Entry>) -> bool {
    forall|i: int, j: int|
        0 <= i < j < entries.len() ==> (#[trigger] entries[i]).claim@ != (
        #[trigger] entries[j]).claim@
}

/// The entry at `i` is what the map holds for its claim.
proof fn lemma_entry_is_recorded(entries: Seq<Entry>, i: int)
    requires
        distinct(entries),
        0 <= i < entries.len(),
    ensures
        records_of(entries).get(entries[i].claim@) == Some(entries[i].record@),
{
    let claim = entries[i].claim@;
    assert(holds_at(entries, claim, i));
    let k = index_of(entries, claim);
    assert(holds_at(entries, claim, k));
    assert(k == i) by {
        if k < i {
            assert(entries[k].claim@ != entries[i].claim@);
        } else if i < k {
            assert(entries[i].claim@ != entries[k].claim@);
        }
    }
}

/// Pushing an entry for a claim that is not stored inserts it into the map.
proof fn lemma_push_inserts(entries: Seq<Entry>, entry: Entry)
    requires
        distinct(entries),
        !records_of(entries).contains_key(entry.claim@),
    ensures
        distinct(entries.push(entry)),
        records_of(entries.push(entry)) == records_of(entries).insert(entry.claim@, entry.record@),
{
    let grown = entries.push(entry);
    let n = entries.len() as int;
    assert forall|i: int, j: int| 0 <= i < j < grown.len() implies (#[trigger] grown[i]).claim@ != (
    #[trigger] grown[j]).claim@ by {
        if j == n {
            assert(!holds_at(entries, entry.claim@, i));
        } else {
            assert(entries[i].claim@ != entries[j].claim@);
        }
    }
    let expected = records_of(entries).insert(entry.claim@, entry.record@);
    assert forall|claim: Seq<u8>| #[trigger]
        records_of(grown).get(claim) == expected.get(claim) by {
        if claim == entry.claim@ {
            lemma_entry_is_recorded(grown, n);
        } else if records_of(entries).contains_key(claim) {
            let k = index_of(entries, claim);
            assert(holds_at(entries, claim, k));
            lemma_entry_is_recorded(entries, k);
            lemma_entry_is_recorded(grown, k);
        } else {
            assert forall|i: int| !holds_at(grown, claim, i) by {
                if holds_at(grown, claim, i) {
                    assert(holds_at(entries, claim, i));
                }
            }
        }
    }
    lemma_same_answers(records_of(grown), expected);
}

/// Dropping entry `i` by moving the last entry into its place removes its
/// claim from the map.
proof fn lemma_swap_remove_removes(entries: Seq<Entry>, i: int)
    requires
        distinct(entries),
        0 <= i < entries.len(),
    ensures
        distinct(entries.update(i, entries.last()).drop_last()),
        records_of(entries.update(i, entries.last()).drop_last()) == records_of(entries).remove(
            entries[i].claim@,
        ),
{
    let shrunk = entries.update(i, entries.last()).drop_last();
    let last = entries.len() - 1;
    let gone = entries[i].claim@;
    // where each entry that stays stood before
    let source = |j: int| if j == i { last } else { j };
    assert forall|j: int| 0 <= j < shrunk.len() implies #[trigger] shrunk[j] == entries[source(j)]
        && source(j) != i && 0 <= source(j) < entries.len() by {}
    assert forall|a: int, b: int| 0 <= a < b < shrunk.len() implies (#[trigger] shrunk[a]).claim@
        != (#[trigger] shrunk[b]).claim@ by {
        let sa = source(a);
        let sb = source(b);
        assert(shrunk[a] == entries[sa] && shrunk[b] == entries[sb]);
        if sa < sb {
            assert(entries[sa].claim@ != entries[sb].claim@);
        } else {
            assert(entries[sb].claim@ != entries[sa].claim@);
        }
    }
    let expected = records_of(entries).remove(gone);
    assert forall|claim: Seq<u8>| #[trigger]
        records_of(shrunk).get(claim) == expected.get(claim) by {
        if claim != gone && records_of(entries).contains_key(claim) {
            let k = index_of(entries, claim);
            assert(holds_at(entries, claim, k));
            lemma_entry_is_recorded(entries, k);
            let j = if k == last { i } else { k };
            assert(shrunk[j] == entries[source(j)]);
            lemma_entry_is_recorded(shrunk, j);
        } else {
            assert forall|j: int| !holds_at(shrunk, claim, j) by {
                if holds_at(shrunk, claim, j) {
                    let s = source(j);
                    assert(shrunk[j] == entries[s]);
                    assert(holds_at(entries, claim, s));
                    if claim == gone {
                        if s < i {
                            assert(entries[s].claim@ != entries[i].claim@);
                        } else {
                            assert(entries[i].claim@ != entries[s].claim@);
                        }
                    }
                }
            }
        }
    }
    lemma_same_answers(records_of(shrunk), expected);
}

/// Two maps that answer every key alike are the same map.
proof fn lemma_same_answers(a: Records, b: Records)
    requires
        forall|claim: Seq<u8>| #[trigger] a.get(claim) == b.get(claim),
    ensures
        a == b,
{
    assert forall|claim: Seq<u8>| a.contains_key(claim) == b.contains_key(claim) by {
        assert(a.get(claim) == b.get(claim));
    }
    assert forall|claim: Seq<u8>| a.contains_key(claim) implies a[claim] == b[claim] by {
        assert(a.get(claim) == b.get(claim));
    }
    assert(a =~= b);
}

impl View for ClaimLedger {
    type V = Records;

    /// The record of each registered claim.
    closed spec fn view(&self) -> Records {
        records_of(self.entries@)
    }
}

impl ClaimLedger {
    /// The ledger's invariant: no claim is stored twice, and none is longer
    /// than the limit.
    pub closed spec fn wf(&self) -> bool {
        &&& distinct(self.entries@)
        &&& forall|i: int|
            0 <= i < self.entries@.len() ==> (#[trigger] self.entries@[i]).claim@.len()
                <= self.max_claim_length
    }

    /// The greatest length of a claim that the ledger accepts.
    pub closed spec fn limit(&self) -> u32 {
        self.max_claim_length
    }

    /// The number of entries that the ledger stores.
    pub closed spec fn stored(&self) -> nat {
        self.entries@.len()
    }

    /// The claim of the `i`-th stored entry.
    pub closed spec fn claim_at(&self, i: int) -> Seq<u8> {
        self.entries@[i].claim@
    }

    /// The record of the `i`-th stored entry.
    pub closed spec fn record_at(&self, i: int) -> ClaimRecordView {
        self.entries@[i].record@
    }

    /// No claim is stored twice: two entries for one claim are one entry.
    pub proof fn lemma_one_entry_per_claim(&self, i: int, j: int)
        requires
            self.wf(),
            0 <= i < self.stored(),
            0 <= j < self.stored(),
            self.claim_at(i) == self.claim_at(j),
        ensures
            i == j,
    {
        if i < j {
            assert(self.entries@[i].claim@ != self.entries@[j].claim@);
        } else if j < i {
            assert(self.entries@[j].claim@ != self.entries@[i].claim@);
        }
    }

    /// Every stored entry is what the view holds for its claim, and its claim
    /// is within the limit.
    pub proof fn lemma_entry_is_viewed(&self, i: int)
        requires
            self.wf(),
            0 <= i < self.stored(),
        ensures
            self@.get(self.claim_at(i)) == Some(self.record_at(i)),
            self.claim_at(i).len() <= self.limit(),
    {
        lemma_entry_is_recorded(self.entries@, i);
        assert(self.entries@[i].claim@.len() <= self.max_claim_length);
    }

    /// Every claim of the view is stored in some entry, so none is longer
    /// than the limit.
    pub proof fn lemma_viewed_is_stored(&self, claim: Seq<u8>)
        requires
            self.wf(),
            self@.contains_key(claim),
        ensures
            exists|i: int| 0 <= i < self.stored() && #[trigger] self.claim_at(i) == claim,
            claim.len() <= self.limit(),
    {
        let i = index_of(self.entries@, claim);
        assert(holds_at(self.entries@, claim, i));
        assert(self.claim_at(i) == claim);
        assert(self.entries@[i].claim@.len() <= self.max_claim_length);
    }

    /// The index of `claim` among the entries, if it is stored.
    fn find(&self, claim: &[u8]) -> (r: Option<usize>)
        requires
            self.wf(),
        ensures
            match r {
                Some(i) => i < self.entries@.len() && self.entries@[i as int].claim@ == claim@
                    && self@.get(claim@) == Some(self.entries@[i as int].record@),
                None => !self@.contains_key(claim@),
            },
    {
        let mut i: usize = 0;
        while i < self.entries.len()
            invariant
                self.wf(),
                0 <= i <= self.entries@.len(),
                forall|k: int| 0 <= k < i ==> !holds_at(self.entries@, claim@, k),
            decreases self.entries@.len() - i,
        {
            if bytes_equal(self.entries[i].claim.as_slice(), claim) {
                proof {
                    lemma_entry_is_recorded(self.entries@, i as int);
                }
                return Some(i);
            }
            i += 1;
        }
        None
    }

    /// An empty ledger that accepts claims of up to `max_claim_length` bytes.
    pub fn new(max_claim_length: u32) -> (ledger: ClaimLedger)
        ensures
            ledger.wf(),
            ledger.limit() == max_claim_length,
            ledger@ == Map::<Seq<u8>, ClaimRecordView>::empty(),
    {
        let ledger = ClaimLedger { max_claim_length, entries: Vec::new() };
        assert(ledger@ =~= Map::<Seq<u8>, ClaimRecordView>::empty());
        ledger
    }

    /// The record of `claim`, if it is registered. Changes nothing.
    pub fn lookup(&self, claim: &[u8]) -> (r: Option<&ClaimRecord>)
        requires
            self.wf(),
        ensures
            held_view(r) == self@.get(claim@),
    {
        match self.find(claim) {
            Some(i) => Some(&self.entries[i].record),
            None => None,
        }
    }

    /// Registers `claim` to `caller` at `position`.
    ///
    /// Rejects a claim longer than the limit with `ClaimTooLong` and one that
    /// is registered already with `ClaimAlreadyExists`; the ledger is then
    /// unchanged. Otherwise stores the record and answers with the one event
    /// `ClaimCreated(caller, claim)`.
    pub fn register(&mut self, caller: AccountId, claim: Vec<u8>, position: LedgerPosition) -> (r:
        Result<Event, Error>)
        requires
            old(self).wf(),
        ensures
            final(self).wf(),
            final(self).limit() == old(self).limit(),
            answer_view(r) == register_result(
                old(self)@,
                old(self).limit(),
                caller@,
                claim@,
                position,
            ),
            final(self)@ == after_register(
                old(self)@,
                old(self).limit(),
                caller@,
                claim@,
                position,
            ),
            r is Err ==> *final(self) == *old(self),
    {
        let existing = self.lookup(claim.as_slice());
        match decide_register(existing, &caller, claim.len(), self.max_claim_length, position) {
            Err(e) => Err(e),
            Ok(record) => {
                let entry = Entry { claim: claim.clone(), record };
                proof {
                    lemma_push_inserts(self.entries@, entry);
                }
                self.entries.push(entry);
                Ok(Event::ClaimCreated(caller, claim))
            },
        }
    }

    /// Retracts `claim` on behalf of `caller`.
    ///
    /// Rejects a claim that is not registered with `ClaimNotFound` and one
    /// that is registered to another account with `NotClaimOwner`; the ledger
    /// is then unchanged. Otherwise removes the record and answers with the
    /// one event `ClaimRevoked(caller, claim)`.
    pub fn retract(&mut self, caller: AccountId, claim: Vec<u8>) -> (r: Result<Event, Error>)
        requires
            old(self).wf(),
        ensures
            final(self).wf(),
            final(self).limit() == old(self).limit(),
            answer_view(r) == retract_result(old(self)@, caller@, claim@),
            final(self)@ == after_retract(old(self)@, caller@, claim@),
            r is Err ==> *final(self) == *old(self),
    {
        let found = self.find(claim.as_slice());
        let existing = match found {
            Some(i) => Some(&self.entries[i].record),
            None => None,
        };
        match decide_retract(existing, &caller) {
            Err(e) => Err(e),
            Ok(_) => {
                let i = found.unwrap();
                proof {
                    lemma_swap_remove_removes(self.entries@, i as int);
                }
                self.entries.swap_remove(i);
                Ok(Event::ClaimRevoked(caller, claim))
            },
        }
    }

    /// The greatest length of a claim that the ledger accepts.
    pub fn max_claim_length(&self) -> (r: u32)
        ensures
            r == self.limit(),
    {
        self.max_claim_length
    }
}

} // verus!
