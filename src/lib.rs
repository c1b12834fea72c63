//! The bookkeeping core of a PSP22 fungible token: balances, allowances and
//! the transitions between them, each returning the events it produced.
//!
//! `PSP22Data` is the ledger. `state::LedgerState` is what a ledger holds,
//! seen as mathematics, with what each operation makes of it; every method of
//! `PSP22Data` is proved to follow it, and `laws` proves what holds across
//! operations.
mod account;
mod data;
mod errors;
mod events;
pub mod laws;
pub mod state;
pub mod table;

pub use account::AccountId;
pub use data::{follows, PSP22Data};
pub use errors::{reports, PSP22Error, Rejection, MAX_SUPPLY_EXCEEDED};
pub use events::{approval_record, transfer_record, Approval, PSP22Event, Transfer};
