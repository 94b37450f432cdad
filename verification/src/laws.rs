//! Ledger-wide laws, stated as proof functions over the spec functions and
//! transition predicates that the operations' contracts use.

use vstd::prelude::*;
use crate::account::AccountId;
use crate::token::{approve_applied, balances_moved, constructed, Erc20};

verus! {

/// Conservation: a well-formed ledger — which every operation's contract
/// re-establishes, so it holds after any sequence of calls starting from
/// construction — has balances summing to exactly the total supply; in
/// particular no single balance can exceed the supply.
pub proof fn lemma_conservation(e: Erc20)
    requires
        e.wf(),
    ensures
        e.balances.sum() == e.spec_total_supply() as int,
        forall|a: Seq<u8>| e.spec_balance_of(a) <= e.spec_total_supply(),
{
    assert forall|a: Seq<u8>| e.spec_balance_of(a) <= e.spec_total_supply() by {
        e.balances.lemma_get_le_sum(a);
    };
}

/// Default reads: a freshly constructed ledger reads balance zero for every
/// account other than the minter, and allowance zero for every pair.
pub proof fn lemma_default_reads(e: Erc20, supply: u128, caller: AccountId)
    requires
        constructed(e, supply, caller),
    ensures
        forall|a: Seq<u8>| a != caller@ ==> e.spec_balance_of(a) == 0,
        forall|o: Seq<u8>, p: Seq<u8>| e.spec_allowance(o, p) == 0,
{
}

/// Approve overwrites: two consecutive approvals for the same pair leave the
/// allowance at the second value, not at the sum of the two.
pub proof fn lemma_approve_overwrites(
    e0: Erc20,
    e1: Erc20,
    e2: Erc20,
    caller: AccountId,
    spender: AccountId,
    v1: u128,
    v2: u128,
)
    requires
        approve_applied(e0, e1, caller, spender, v1),
        approve_applied(e1, e2, caller, spender, v2),
    ensures
        e2.spec_allowance(caller@, spender@) == v2,
{
}

/// Self-transfer neutrality: a successful transfer from an account to itself
/// leaves every balance unchanged.
pub proof fn lemma_self_transfer_neutral(pre: Erc20, post: Erc20, a: Seq<u8>, value: u128)
    requires
        balances_moved(pre, post, a, a, value),
    ensures
        forall|k: Seq<u8>| post.spec_balance_of(k) == pre.spec_balance_of(k),
{
    assert forall|k: Seq<u8>| post.spec_balance_of(k) == pre.spec_balance_of(k) by {
        if k != a {
            assert(post.spec_balance_of(k) == pre.spec_balance_of(k));
        }
    };
}

} // verus!
