//! A proof-of-existence claim ledger.
//!
//! A claim is an opaque, length-bounded byte string. The ledger records which
//! account registered a claim first and at which ledger position, and lets
//! only that account retract it again.
//!
//! * [`types`]: accounts, positions, records, errors and events.
//! * [`model`]: the state machine of one claim and of the whole ledger, as
//!   spec functions, with the executable decisions for one claim.
//! * [`ledger`]: the executable ledger, which refines the model.
//! * [`laws`]: what holds of every ledger, proved over the model.

pub mod types;
pub mod model;
pub mod ledger;
pub mod laws;

pub use ledger::ClaimLedger;
pub use model::{decide_register, decide_retract};
pub use types::{
    answer_view, bytes_equal, decision_view, held_view, AccountId, ClaimRecord, ClaimRecordView,
    Error, Event, EventView, LedgerPosition,
};
