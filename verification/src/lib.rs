//! A fungible-token ledger: account balances and delegated spending rights
//! (allowances), with transfer operations that preserve a global conservation
//! invariant. The host environment is expected to supply the caller identity
//! explicitly, persist the ledger value between calls, and deliver the
//! recorded events; the ledger itself is pure, synchronous logic.

pub mod account;
pub mod allowances;
pub mod balances;
pub mod events;
pub mod laws;
pub mod token;

pub use account::AccountId;
pub use events::{Approval, Error, Event, Transfer};
pub use token::Erc20;
