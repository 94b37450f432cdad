//! The allowance side of the ledger: an associative store from an
//! (owner, spender) pair to the amount the spender may still withdraw.

use vstd::prelude::*;
use crate::account::AccountId;

verus! {

/// The allowance recorded for the pair `(o, p)` in the entry sequence `s`;
/// zero when the pair is absent.
pub open spec fn seq_allowance(s: Seq<(AccountId, AccountId, u128)>, o: Seq<u8>, p: Seq<u8>) -> u128
    decreases s.len(),
{
    if s.len() == 0 {
        0
    } else if s.last().0@ == o && s.last().1@ == p {
        s.last().2
    } else {
        seq_allowance(s.drop_last(), o, p)
    }
}

/// No (owner, spender) pair occurs twice among the entries.
pub open spec fn unique_pairs(s: Seq<(AccountId, AccountId, u128)>) -> bool {
    forall|i: int, j: int| 0 <= i < j < s.len()
        ==> !(s[i].0@ == s[j].0@ && s[i].1@ == s[j].1@)
}

proof fn lemma_seq_allowance_found(s: Seq<(AccountId, AccountId, u128)>, o: Seq<u8>, p: Seq<u8>, i: int)
    requires
        unique_pairs(s),
        0 <= i < s.len(),
        s[i].0@ == o,
        s[i].1@ == p,
    ensures
        seq_allowance(s, o, p) == s[i].2,
    decreases s.len(),
{
    if i < s.len() - 1 {
        lemma_seq_allowance_found(s.drop_last(), o, p, i);
    }
}

proof fn lemma_seq_allowance_absent(s: Seq<(AccountId, AccountId, u128)>, o: Seq<u8>, p: Seq<u8>)
    requires
        forall|j: int| 0 <= j < s.len() ==> !(s[j].0@ == o && s[j].1@ == p),
    ensures
        seq_allowance(s, o, p) == 0,
    decreases s.len(),
{
    if s.len() > 0 {
        lemma_seq_allowance_absent(s.drop_last(), o, p);
    }
}

proof fn lemma_seq_allowance_update(
    s: Seq<(AccountId, AccountId, u128)>,
    i: int,
    e: (AccountId, AccountId, u128),
    o: Seq<u8>,
    p: Seq<u8>,
)
    requires
        unique_pairs(s),
        0 <= i < s.len(),
        e.0@ == s[i].0@,
        e.1@ == s[i].1@,
    ensures
        seq_allowance(s.update(i, e), o, p) == if o == s[i].0@ && p == s[i].1@ {
            e.2
        } else {
            seq_allowance(s, o, p)
        },
    decreases s.len(),
{
    let t = s.update(i, e);
    if i == s.len() - 1 {
        assert(t.drop_last() =~= s.drop_last());
    } else {
        assert(t.drop_last() =~= s.drop_last().update(i, e));
        lemma_seq_allowance_update(s.drop_last(), i, e, o, p);
    }
}

/// Associative store from (owner, spender) to the approved amount; a pair
/// never written reads as zero.
pub struct AllowanceStore {
    pub entries: Vec<(AccountId, AccountId, u128)>,
}

impl AllowanceStore {
    /// Well-formed: entries never repeat an (owner, spender) pair.
    pub open spec fn wf(self) -> bool {
        unique_pairs(self.entries@)
    }

    /// The allowance of the pair `(o, p)`; zero when never written.
    pub open spec fn spec_get(self, o: Seq<u8>, p: Seq<u8>) -> u128 {
        seq_allowance(self.entries@, o, p)
    }

    /// An empty store: every pair reads zero.
    pub fn new() -> (r: AllowanceStore)
        ensures
            r.wf(),
            forall|o: Seq<u8>, p: Seq<u8>| r.spec_get(o, p) == 0,
    {
        AllowanceStore { entries: Vec::new() }
    }

    #[verifier::loop_isolation(false)]
    fn find(&self, owner: &AccountId, spender: &AccountId) -> (r: Option<usize>)
        ensures
            match r {
                Some(i) => 0 <= (i as int) < self.entries@.len()
                    && self.entries@[i as int].0@ == owner@
                    && self.entries@[i as int].1@ == spender@,
                None => forall|j: int| 0 <= j < self.entries@.len()
                    ==> !(self.entries@[j].0@ == owner@ && self.entries@[j].1@ == spender@),
            },
    {
        let n: usize = self.entries.len();
        let mut i: usize = 0;
        while i < n
            invariant
                i <= n,
                forall|j: int| 0 <= j < i
                    ==> !(self.entries@[j].0@ == owner@ && self.entries@[j].1@ == spender@),
            decreases n - i,
        {
            if self.entries[i].0 == *owner && self.entries[i].1 == *spender {
                return Some(i);
            }
            i = i + 1;
        }
        None
    }

    /// Reads the allowance granted by `owner` to `spender`; zero when absent.
    pub fn get(&self, owner: &AccountId, spender: &AccountId) -> (r: u128)
        requires
            self.wf(),
        ensures
            r == self.spec_get(owner@, spender@),
    {
        match self.find(owner, spender) {
            Some(i) => {
                proof {
                    lemma_seq_allowance_found(self.entries@, owner@, spender@, i as int);
                }
                self.entries[i].2
            }
            None => {
                proof {
                    lemma_seq_allowance_absent(self.entries@, owner@, spender@);
                }
                0
            }
        }
    }

    /// Writes `value` as the allowance of `(owner, spender)`, replacing any
    /// earlier entry.
    pub fn set(&mut self, owner: AccountId, spender: AccountId, value: u128)
        requires
            old(self).wf(),
        ensures
            final(self).wf(),
            forall|o: Seq<u8>, p: Seq<u8>|
                final(self).spec_get(o, p) == if o == owner@ && p == spender@ {
                    value
                } else {
                    old(self).spec_get(o, p)
                },
    {
        let ghost s0 = self.entries@;
        match self.find(&owner, &spender) {
            Some(i) => {
                self.entries[i] = (owner, spender, value);
                proof {
                    assert(self.entries@ =~= s0.update(i as int, (owner, spender, value)));
                    assert forall|o: Seq<u8>, p: Seq<u8>| #[trigger] self.spec_get(o, p)
                        == (if o == owner@ && p == spender@ {
                            value
                        } else {
                            seq_allowance(s0, o, p)
                        }) by {
                        lemma_seq_allowance_update(s0, i as int, (owner, spender, value), o, p);
                    };
                    assert forall|a: int, b: int| 0 <= a < b < self.entries@.len()
                        implies !(self.entries@[a].0@ == self.entries@[b].0@
                            && self.entries@[a].1@ == self.entries@[b].1@) by {
                        assert(!(s0[a].0@ == s0[b].0@ && s0[a].1@ == s0[b].1@));
                    };
                }
            }
            None => {
                self.entries.push((owner, spender, value));
                proof {
                    assert(self.entries@.drop_last() =~= s0);
                    assert(self.entries@.last() == (owner, spender, value));
                    assert forall|a: int, b: int| 0 <= a < b < self.entries@.len()
                        implies !(self.entries@[a].0@ == self.entries@[b].0@
                            && self.entries@[a].1@ == self.entries@[b].1@) by {
                        if b < self.entries@.len() - 1 {
                            assert(!(s0[a].0@ == s0[b].0@ && s0[a].1@ == s0[b].1@));
                        } else {
                            assert(!(s0[a].0@ == owner@ && s0[a].1@ == spender@));
                        }
                    };
                }
            }
        }
    }
}

} // verus!
