//! The balance side of the ledger: an associative store from account to
//! balance, with the summed-balance view that conservation is stated over.

use vstd::prelude::*;
use crate::account::AccountId;

verus! {

/// The balance recorded for account `k` in the entry sequence `s`; zero when
/// `k` is absent.
pub open spec fn seq_balance(s: Seq<(AccountId, u128)>, k: Seq<u8>) -> u128
    decreases s.len(),
{
    if s.len() == 0 {
        0
    } else if s.last().0@ == k {
        s.last().1
    } else {
        seq_balance(s.drop_last(), k)
    }
}

/// The sum of every balance in the entry sequence `s`.
pub open spec fn seq_sum(s: Seq<(AccountId, u128)>) -> int
    decreases s.len(),
{
    if s.len() == 0 {
        0
    } else {
        seq_sum(s.drop_last()) + s.last().1
    }
}

/// No account occurs twice among the entries.
pub open spec fn unique_accounts(s: Seq<(AccountId, u128)>) -> bool {
    forall|i: int, j: int| 0 <= i < j < s.len() ==> s[i].0@ != s[j].0@
}

proof fn lemma_seq_sum_nonneg(s: Seq<(AccountId, u128)>)
    ensures
        0 <= seq_sum(s),
    decreases s.len(),
{
    if s.len() > 0 {
        lemma_seq_sum_nonneg(s.drop_last());
    }
}

proof fn lemma_seq_balance_le_sum(s: Seq<(AccountId, u128)>, k: Seq<u8>)
    ensures
        seq_balance(s, k) <= seq_sum(s),
    decreases s.len(),
{
    if s.len() > 0 {
        lemma_seq_sum_nonneg(s.drop_last());
        if s.last().0@ != k {
            lemma_seq_balance_le_sum(s.drop_last(), k);
        }
    }
}

proof fn lemma_seq_balance_found(s: Seq<(AccountId, u128)>, k: Seq<u8>, i: int)
    requires
        unique_accounts(s),
        0 <= i < s.len(),
        s[i].0@ == k,
    ensures
        seq_balance(s, k) == s[i].1,
    decreases s.len(),
{
    if i < s.len() - 1 {
        lemma_seq_balance_found(s.drop_last(), k, i);
    }
}

proof fn lemma_seq_balance_absent(s: Seq<(AccountId, u128)>, k: Seq<u8>)
    requires
        forall|j: int| 0 <= j < s.len() ==> s[j].0@ != k,
    ensures
        seq_balance(s, k) == 0,
    decreases s.len(),
{
    if s.len() > 0 {
        lemma_seq_balance_absent(s.drop_last(), k);
    }
}

proof fn lemma_seq_balance_update(s: Seq<(AccountId, u128)>, i: int, e: (AccountId, u128), k: Seq<u8>)
    requires
        unique_accounts(s),
        0 <= i < s.len(),
        e.0@ == s[i].0@,
    ensures
        seq_balance(s.update(i, e), k) == if k == s[i].0@ {
            e.1
        } else {
            seq_balance(s, k)
        },
    decreases s.len(),
{
    let t = s.update(i, e);
    if i == s.len() - 1 {
        assert(t.drop_last() =~= s.drop_last());
    } else {
        assert(t.drop_last() =~= s.drop_last().update(i, e));
        lemma_seq_balance_update(s.drop_last(), i, e, k);
    }
}

proof fn lemma_seq_sum_update(s: Seq<(AccountId, u128)>, i: int, e: (AccountId, u128))
    requires
        0 <= i < s.len(),
    ensures
        seq_sum(s.update(i, e)) == seq_sum(s) - s[i].1 + e.1,
    decreases s.len(),
{
    let t = s.update(i, e);
    if i == s.len() - 1 {
        assert(t.drop_last() =~= s.drop_last());
    } else {
        assert(t.drop_last() =~= s.drop_last().update(i, e));
        lemma_seq_sum_update(s.drop_last(), i, e);
    }
}

/// Associative store from account to balance; an account never written reads
/// as zero.
pub struct BalanceStore {
    pub entries: Vec<(AccountId, u128)>,
}

impl BalanceStore {
    /// Well-formed: entries never repeat an account.
    pub open spec fn wf(self) -> bool {
        unique_accounts(self.entries@)
    }

    /// The balance of account `k`; zero when never written.
    pub open spec fn spec_get(self, k: Seq<u8>) -> u128 {
        seq_balance(self.entries@, k)
    }

    /// The sum of all recorded balances.
    pub open spec fn sum(self) -> int {
        seq_sum(self.entries@)
    }

    /// An empty store: every account reads zero.
    pub fn new() -> (r: BalanceStore)
        ensures
            r.wf(),
            forall|k: Seq<u8>| r.spec_get(k) == 0,
            r.sum() == 0,
    {
        BalanceStore { entries: Vec::new() }
    }

    #[verifier::loop_isolation(false)]
    fn find(&self, who: &AccountId) -> (r: Option<usize>)
        ensures
            match r {
                Some(i) => 0 <= (i as int) < self.entries@.len()
                    && self.entries@[i as int].0@ == who@,
                None => forall|j: int| 0 <= j < self.entries@.len()
                    ==> self.entries@[j].0@ != who@,
            },
    {
        let n: usize = self.entries.len();
        let mut i: usize = 0;
        while i < n
            invariant
                i <= n,
                forall|j: int| 0 <= j < i ==> self.entries@[j].0@ != who@,
            decreases n - i,
        {
            if self.entries[i].0 == *who {
                return Some(i);
            }
            i = i + 1;
        }
        None
    }

    /// Reads the balance of `who`; zero when absent.
    pub fn get(&self, who: &AccountId) -> (r: u128)
        requires
            self.wf(),
        ensures
            r == self.spec_get(who@),
    {
        match self.find(who) {
            Some(i) => {
                proof {
                    lemma_seq_balance_found(self.entries@, who@, i as int);
                }
                self.entries[i].1
            }
            None => {
                proof {
                    lemma_seq_balance_absent(self.entries@, who@);
                }
                0
            }
        }
    }

    /// Writes `value` as the balance of `who`, replacing any earlier entry.
    pub fn set(&mut self, who: AccountId, value: u128)
        requires
            old(self).wf(),
        ensures
            final(self).wf(),
            forall|k: Seq<u8>| final(self).spec_get(k) == if k == who@ {
                value
            } else {
                old(self).spec_get(k)
            },
            final(self).sum() == old(self).sum() - old(self).spec_get(who@) + value,
    {
        let ghost s0 = self.entries@;
        match self.find(&who) {
            Some(i) => {
                proof {
                    lemma_seq_balance_found(s0, who@, i as int);
                    lemma_seq_sum_update(s0, i as int, (who, value));
                }
                self.entries[i] = (who, value);
                proof {
                    assert(self.entries@ =~= s0.update(i as int, (who, value)));
                    assert forall|k: Seq<u8>| #[trigger] self.spec_get(k) == (if k == who@ {
                        value
                    } else {
                        seq_balance(s0, k)
                    }) by {
                        lemma_seq_balance_update(s0, i as int, (who, value), k);
                    };
                    assert forall|a: int, b: int| 0 <= a < b < self.entries@.len()
                        implies self.entries@[a].0@ != self.entries@[b].0@ by {
                        assert(s0[a].0@ != s0[b].0@);
                    };
                }
            }
            None => {
                proof {
                    lemma_seq_balance_absent(s0, who@);
                }
                self.entries.push((who, value));
                proof {
                    assert(self.entries@.drop_last() =~= s0);
                    assert(self.entries@.last() == (who, value));
                    assert forall|a: int, b: int| 0 <= a < b < self.entries@.len()
                        implies self.entries@[a].0@ != self.entries@[b].0@ by {
                        if b < self.entries@.len() - 1 {
                            assert(s0[a].0@ != s0[b].0@);
                        } else {
                            assert(s0[a].0@ != who@);
                        }
                    };
                }
            }
        }
    }

    /// Any single balance is bounded by the sum of all balances, and the sum
    /// is never negative.
    pub proof fn lemma_get_le_sum(self, k: Seq<u8>)
        ensures
            self.spec_get(k) <= self.sum(),
            0 <= self.sum(),
    {
        lemma_seq_balance_le_sum(self.entries@, k);
        lemma_seq_sum_nonneg(self.entries@);
    }
}

} // verus!
