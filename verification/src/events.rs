//! Events raised by the ledger and the errors its operations can report.
//!
//! Events are recorded in an append-only log owned by the ledger value; the
//! host dispatches them to whatever delivery channel it provides.

use vstd::prelude::*;
use crate::account::AccountId;

verus! {

/// Notification that value moved between accounts. `from` is `None` only for
/// the mint performed at construction.
#[derive(Clone, Copy, Debug, PartialEq)]
pub struct Transfer {
    pub from: Option<AccountId>,
    pub to: Option<AccountId>,
    pub value: u128,
}

/// Notification that `owner` granted `spender` the right to withdraw up to
/// `value` tokens on its behalf.
#[derive(Clone, Copy, Debug, PartialEq)]
pub struct Approval {
    pub owner: AccountId,
    pub spender: AccountId,
    pub value: u128,
}

/// A single entry of the ledger's event log.
#[derive(Clone, Copy, Debug, PartialEq)]
pub enum Event {
    Transfer(Transfer),
    Approval(Approval),
}

/// The caller-visible failure outcomes of the ledger's operations.
#[derive(Clone, Copy, Debug, PartialEq, Eq, Structural)]
pub enum Error {
    /// An attempted debit exceeds the source account's balance.
    InsufficientBalance,
    /// A delegated transfer exceeds the remaining allowance.
    InsufficientApproval,
}

} // verus!
