//! The ledger itself: the total supply, the balance and allowance stores,
//! the event log, and the state-changing operations with their validation
//! and event contracts.

use vstd::prelude::*;
use crate::account::AccountId;
use crate::allowances::AllowanceStore;
use crate::balances::BalanceStore;
use crate::events::{Approval, Error, Event, Transfer};

verus! {

/// A fungible-token ledger. The host supplies the caller identity of each
/// mutating call explicitly and is responsible for persisting the value
/// between calls and dispatching the recorded events.
pub struct Erc20 {
    pub total_supply: u128,
    pub balances: BalanceStore,
    pub allowances: AllowanceStore,
    pub events: Vec<Event>,
}

/// The balance change of a successful transfer of `value` from `from` to
/// `to`: `from` is debited and `to` credited by exactly `value`, a
/// self-transfer nets to no change, and every other account keeps its
/// balance.
pub open spec fn balances_moved(pre: Erc20, post: Erc20, from: Seq<u8>, to: Seq<u8>, value: u128) -> bool {
    &&& from == to ==> post.spec_balance_of(from) == pre.spec_balance_of(from)
    &&& from != to ==> post.spec_balance_of(from) == pre.spec_balance_of(from) - value
        && post.spec_balance_of(to) == pre.spec_balance_of(to) + value
    &&& forall|a: Seq<u8>| a != from && a != to ==> post.spec_balance_of(a) == pre.spec_balance_of(a)
}

/// What `approve(caller, spender, value)` does to the ledger: the one
/// allowance is overwritten with `value` — replaced, not added to — while
/// every other pair, every balance, and the supply are kept, and one
/// `Approval` event is appended to the log.
pub open spec fn approve_applied(pre: Erc20, post: Erc20, caller: AccountId, spender: AccountId, value: u128) -> bool {
    &&& post.spec_allowance(caller@, spender@) == value
    &&& forall|o: Seq<u8>, p: Seq<u8>| !(o == caller@ && p == spender@)
        ==> post.spec_allowance(o, p) == pre.spec_allowance(o, p)
    &&& forall|a: Seq<u8>| post.spec_balance_of(a) == pre.spec_balance_of(a)
    &&& post.spec_total_supply() == pre.spec_total_supply()
    &&& post.spec_events() == pre.spec_events().push(Event::Approval((Approval { owner: caller, spender: spender, value: value })))
}

/// What construction with `supply` and minter `caller` yields: the whole
/// supply on the minter's account, zero everywhere else, no allowances, and
/// exactly one minting `Transfer` event.
pub open spec fn constructed(post: Erc20, supply: u128, caller: AccountId) -> bool {
    &&& post.spec_total_supply() == supply
    &&& post.spec_balance_of(caller@) == supply
    &&& forall|a: Seq<u8>| a != caller@ ==> post.spec_balance_of(a) == 0
    &&& forall|o: Seq<u8>, p: Seq<u8>| post.spec_allowance(o, p) == 0
    &&& post.spec_events() == seq![Event::Transfer((Transfer { from: None, to: Some(caller), value: supply }))]
}

impl Erc20 {
    /// Well-formed: both stores keep unique keys, and the balances sum to the
    /// immutable total supply — the conservation invariant. Every operation
    /// requires and re-establishes it.
    pub open spec fn wf(self) -> bool {
        &&& self.balances.wf()
        &&& self.allowances.wf()
        &&& self.balances.sum() == self.total_supply as int
    }

    /// The balance of the account whose bytes are `a`; zero when never
    /// written.
    pub open spec fn spec_balance_of(self, a: Seq<u8>) -> u128 {
        self.balances.spec_get(a)
    }

    /// The allowance granted by owner `o` to spender `p`; zero when never
    /// written.
    pub open spec fn spec_allowance(self, o: Seq<u8>, p: Seq<u8>) -> u128 {
        self.allowances.spec_get(o, p)
    }

    /// The supply fixed at construction.
    pub open spec fn spec_total_supply(self) -> u128 {
        self.total_supply
    }

    /// The events recorded so far, oldest first.
    pub open spec fn spec_events(self) -> Seq<Event> {
        self.events@
    }

    /// Creates the ledger with `supply` tokens, all assigned to `caller`,
    /// and records the minting `Transfer` event. A supply of zero is legal.
    pub fn new(supply: u128, caller: AccountId) -> (r: Erc20)
        ensures
            r.wf(),
            constructed(r, supply, caller),
    {
        let mut balances = BalanceStore::new();
        balances.set(caller, supply);
        let mut events: Vec<Event> = Vec::new();
        events.push(Event::Transfer(Transfer { from: None, to: Some(caller), value: supply }));
        let r = Erc20 {
            total_supply: supply,
            balances,
            allowances: AllowanceStore::new(),
            events,
        };
        proof {
            assert(r.spec_events() =~= seq![
                Event::Transfer((Transfer { from: None, to: Some(caller), value: supply })),
            ]);
        }
        r
    }

    /// Reads the total supply.
    pub fn total_supply(&self) -> (r: u128)
        ensures
            r == self.spec_total_supply(),
    {
        self.total_supply
    }

    /// Reads the balance of `who`; zero for an account that was never
    /// written.
    pub fn balance_of(&self, who: AccountId) -> (r: u128)
        requires
            self.wf(),
        ensures
            r == self.spec_balance_of(who@),
    {
        self.balances.get(&who)
    }

    /// Reads the amount `spender` may still withdraw from `owner`'s account;
    /// zero when no allowance was set.
    pub fn allowance(&self, owner: AccountId, spender: AccountId) -> (r: u128)
        requires
            self.wf(),
        ensures
            r == self.spec_allowance(owner@, spender@),
    {
        self.allowances.get(&owner, &spender)
    }

    /// Reads the recorded events, oldest first.
    pub fn events(&self) -> (r: &Vec<Event>)
        ensures
            r@ == self.spec_events(),
    {
        &self.events
    }

    /// Moves `value` from the account of `caller` to `to`. Fails with
    /// `InsufficientBalance` — leaving the ledger untouched — exactly when
    /// the caller's balance is below `value`.
    pub fn transfer(&mut self, caller: AccountId, to: AccountId, value: u128) -> (r: Result<(), Error>)
        requires
            old(self).wf(),
        ensures
            final(self).wf(),
            r is Ok <==> old(self).spec_balance_of(caller@) >= value,
            r is Err ==> r == Err::<(), Error>(Error::InsufficientBalance) && *final(self) == *old(self),
            r is Ok ==> balances_moved(*old(self), *final(self), caller@, to@, value),
            forall|o: Seq<u8>, p: Seq<u8>| final(self).spec_allowance(o, p) == old(self).spec_allowance(o, p),
            final(self).spec_total_supply() == old(self).spec_total_supply(),
            r is Ok ==> final(self).spec_events() == old(self).spec_events().push(
                Event::Transfer((Transfer { from: Some(caller), to: Some(to), value: value })),
            ),
    {
        self.inner_transfer(caller, to, value)
    }

    /// Sets — replacing, never adding to — the amount `spender` may withdraw
    /// from the account of `caller`, and records an `Approval` event. Never
    /// fails.
    pub fn approve(&mut self, caller: AccountId, spender: AccountId, value: u128) -> (r: Result<(), Error>)
        requires
            old(self).wf(),
        ensures
            final(self).wf(),
            r == Ok::<(), Error>(()),
            approve_applied(*old(self), *final(self), caller, spender, value),
    {
        self.allowances.set(caller, spender, value);
        self.events.push(Event::Approval(Approval { owner: caller, spender: spender, value: value }));
        Ok(())
    }

    /// Moves `value` from `from` to `to` on behalf of `caller`, spending the
    /// allowance `from` granted to `caller`. The allowance is checked before
    /// anything else, but decremented — by exactly `value` — only after the
    /// balance move has succeeded, so either failure leaves the ledger
    /// untouched.
    pub fn transfer_from(&mut self, caller: AccountId, from: AccountId, to: AccountId, value: u128) -> (r: Result<(), Error>)
        requires
            old(self).wf(),
        ensures
            final(self).wf(),
            r is Ok <==> old(self).spec_allowance(from@, caller@) >= value
                && old(self).spec_balance_of(from@) >= value,
            r == Err::<(), Error>(Error::InsufficientApproval)
                <==> old(self).spec_allowance(from@, caller@) < value,
            r == Err::<(), Error>(Error::InsufficientBalance)
                <==> old(self).spec_allowance(from@, caller@) >= value
                    && old(self).spec_balance_of(from@) < value,
            r is Err ==> *final(self) == *old(self),
            r is Ok ==> balances_moved(*old(self), *final(self), from@, to@, value),
            r is Ok ==> final(self).spec_allowance(from@, caller@)
                == old(self).spec_allowance(from@, caller@) - value,
            r is Ok ==> forall|o: Seq<u8>, p: Seq<u8>| !(o == from@ && p == caller@)
                ==> final(self).spec_allowance(o, p) == old(self).spec_allowance(o, p),
            final(self).spec_total_supply() == old(self).spec_total_supply(),
            r is Ok ==> final(self).spec_events() == old(self).spec_events().push(
                Event::Transfer((Transfer { from: Some(from), to: Some(to), value: value })),
            ),
    {
        let allowance = self.allowances.get(&from, &caller);
        if allowance < value {
            return Err(Error::InsufficientApproval);
        }
        let result = self.inner_transfer(from, to, value);
        if let Err(e) = result {
            return Err(e);
        }
        self.allowances.set(from, caller, allowance - value);
        Ok(())
    }

    /// Moves `value` from `from` to `to` when `from`'s balance suffices,
    /// recording a `Transfer` event; otherwise fails with
    /// `InsufficientBalance` and touches nothing. Shared by `transfer` and
    /// `transfer_from`. The credit cannot overflow: conservation bounds
    /// every balance by the total supply.
    pub fn inner_transfer(&mut self, from: AccountId, to: AccountId, value: u128) -> (r: Result<(), Error>)
        requires
            old(self).wf(),
        ensures
            final(self).wf(),
            r is Ok <==> old(self).spec_balance_of(from@) >= value,
            r is Err ==> r == Err::<(), Error>(Error::InsufficientBalance) && *final(self) == *old(self),
            r is Ok ==> balances_moved(*old(self), *final(self), from@, to@, value),
            forall|o: Seq<u8>, p: Seq<u8>| final(self).spec_allowance(o, p) == old(self).spec_allowance(o, p),
            final(self).spec_total_supply() == old(self).spec_total_supply(),
            r is Ok ==> final(self).spec_events() == old(self).spec_events().push(
                Event::Transfer((Transfer { from: Some(from), to: Some(to), value: value })),
            ),
    {
        let from_balance = self.balances.get(&from);
        if from_balance < value {
            return Err(Error::InsufficientBalance);
        }
        self.balances.set(from, from_balance - value);
        let to_balance = self.balances.get(&to);
        proof {
            self.balances.lemma_get_le_sum(to@);
        }
        self.balances.set(to, to_balance + value);
        self.events.push(Event::Transfer(Transfer { from: Some(from), to: Some(to), value: value }));
        Ok(())
    }
}

} // verus!
