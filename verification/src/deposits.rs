//! The deposit ledger: per-account free and reserved balances. Creating a
//! proposal reserves the bond out of the proposer's free balance; executing
//! or cancelling the proposal releases it back.

use vstd::prelude::*;

verus! {

/// Balances of one account.
#[derive(Clone, Copy, Debug)]
pub struct AccountFunds {
    pub account: u64,
    pub free: u128,
    pub reserved: u128,
}

/// The entry for `account` in `s`, if any: the last matching entry decides,
/// and with unique accounts there is at most one.
pub open spec fn find_funds(s: Seq<AccountFunds>, account: u64) -> Option<AccountFunds>
    decreases s.len(),
{
    if s.len() == 0 {
        None
    } else if s.last().account == account {
        Some(s.last())
    } else {
        find_funds(s.drop_last(), account)
    }
}

/// An account that `find_funds` misses has no entry at all.
proof fn lemma_find_funds_absent(s: Seq<AccountFunds>, account: u64)
    requires
        find_funds(s, account) is None,
    ensures
        forall|i: int| 0 <= i < s.len() ==> (#[trigger] s[i]).account != account,
    decreases s.len(),
{
    if s.len() > 0 {
        lemma_find_funds_absent(s.drop_last(), account);
        assert(forall|i: int| 0 <= i < s.len() - 1 ==> s[i] == s.drop_last()[i]);
    }
}

/// Appending an entry changes `find_funds` only for that entry's account.
proof fn lemma_find_funds_push(s: Seq<AccountFunds>, f: AccountFunds, account: u64)
    ensures
        find_funds(s.push(f), account) == if f.account == account {
            Some(f)
        } else {
            find_funds(s, account)
        },
{
    assert(s.push(f).last() == f);
    assert(s.push(f).drop_last() =~= s);
}

/// Replacing the entry at `i` without changing its account changes
/// `find_funds` only for that account, provided accounts are unique.
proof fn lemma_find_funds_update(s: Seq<AccountFunds>, i: int, f: AccountFunds, account: u64)
    requires
        0 <= i < s.len(),
        s[i].account == f.account,
        forall|k: int, l: int|
            0 <= k < l < s.len() ==> (#[trigger] s[k]).account != (#[trigger] s[l]).account,
        find_funds(s, f.account) == Some(s[i]),
    ensures
        find_funds(s.update(i, f), account) == if f.account == account {
            Some(f)
        } else {
            find_funds(s, account)
        },
    decreases s.len(),
{
    let t = s.update(i, f);
    if i == s.len() - 1 {
        assert(t.last() == f);
        assert(t.drop_last() =~= s.drop_last());
    } else {
        assert(t.last() == s.last());
        assert(t.drop_last() =~= s.drop_last().update(i, f));
        assert(s.last().account != s[i].account);
        assert(forall|k: int| 0 <= k < s.len() - 1 ==> s.drop_last()[k] == s[k]);
        lemma_find_funds_update(s.drop_last(), i, f, account);
    }
}

/// Per-account record of free and reserved funds. Absent accounts hold
/// nothing.
pub struct DepositLedger {
    accounts: Vec<AccountFunds>,
}

impl DepositLedger {
    /// The free balance of `account`.
    pub closed spec fn free_of(self, account: u64) -> u128 {
        match find_funds(self.accounts@, account) {
            Some(f) => f.free,
            None => 0,
        }
    }

    /// The reserved balance of `account`.
    pub closed spec fn reserved_of(self, account: u64) -> u128 {
        match find_funds(self.accounts@, account) {
            Some(f) => f.reserved,
            None => 0,
        }
    }

    /// Accounts are unique and each account's total holding fits the
    /// balance type.
    pub closed spec fn wf(self) -> bool {
        &&& forall|k: int, l: int|
            0 <= k < l < self.accounts@.len() ==> (#[trigger] self.accounts@[k]).account != (
            #[trigger] self.accounts@[l]).account
        &&& forall|i: int|
            0 <= i < self.accounts@.len() ==> (#[trigger] self.accounts@[i]).free
                + self.accounts@[i].reserved <= u128::MAX
    }

    /// An empty ledger: every account holds nothing.
    pub fn new() -> (r: Self)
        ensures
            r.wf(),
            forall|a: u64| #[trigger] r.free_of(a) == 0,
            forall|a: u64| #[trigger] r.reserved_of(a) == 0,
    {
        DepositLedger { accounts: Vec::new() }
    }

    /// Index of the entry for `account`, if any.
    fn position(&self, account: u64) -> (r: Option<usize>)
        ensures
            r matches Some(i) ==> i < self.accounts@.len() && find_funds(self.accounts@, account)
                == Some(self.accounts@[i as int]) && self.accounts@[i as int].account == account,
            r is None ==> find_funds(self.accounts@, account) is None,
    {
        let mut i: usize = self.accounts.len();
        proof {
            assert(self.accounts@.take(i as int) =~= self.accounts@);
        }
        while i > 0
            invariant
                i <= self.accounts@.len(),
                find_funds(self.accounts@, account) == find_funds(
                    self.accounts@.take(i as int),
                    account,
                ),
            decreases i,
        {
            i = i - 1;
            proof {
                assert(self.accounts@.take(i as int + 1).last() == self.accounts@[i as int]);
                assert(self.accounts@.take(i as int + 1).drop_last() =~= self.accounts@.take(
                    i as int,
                ));
            }
            if self.accounts[i].account == account {
                return Some(i);
            }
        }
        None
    }

    /// The free balance of `account`.
    pub fn free_balance(&self, account: u64) -> (r: u128)
        ensures
            r == self.free_of(account),
    {
        match self.position(account) {
            Some(i) => self.accounts[i].free,
            None => 0,
        }
    }

    /// The reserved balance of `account`.
    pub fn reserved_balance(&self, account: u64) -> (r: u128)
        ensures
            r == self.reserved_of(account),
    {
        match self.position(account) {
            Some(i) => self.accounts[i].reserved,
            None => 0,
        }
    }

    /// Adds `amount` to the free balance of `account`.
    pub fn fund(&mut self, account: u64, amount: u128)
        requires
            old(self).wf(),
            old(self).free_of(account) + old(self).reserved_of(account) + amount <= u128::MAX,
        ensures
            final(self).wf(),
            final(self).free_of(account) == old(self).free_of(account) + amount,
            final(self).reserved_of(account) == old(self).reserved_of(account),
            forall|a: u64|
                a != account ==> #[trigger] final(self).free_of(a) == old(self).free_of(a),
            forall|a: u64|
                a != account ==> #[trigger] final(self).reserved_of(a) == old(
                    self,
                ).reserved_of(a),
    {
        match self.position(account) {
            Some(i) => {
                let entry = self.accounts[i];
                let updated = AccountFunds { free: entry.free + amount, ..entry };
                proof {
                    lemma_find_funds_update(self.accounts@, i as int, updated, account);
                    assert forall|a: u64| a != account implies find_funds(
                        self.accounts@.update(i as int, updated),
                        a,
                    ) == find_funds(self.accounts@, a) by {
                        lemma_find_funds_update(self.accounts@, i as int, updated, a);
                    }
                }
                self.accounts.set(i, updated);
            },
            None => {
                let entry = AccountFunds { account, free: amount, reserved: 0 };
                proof {
                    lemma_find_funds_absent(self.accounts@, account);
                    assert forall|a: u64| a != account implies find_funds(
                        self.accounts@.push(entry),
                        a,
                    ) == find_funds(self.accounts@, a) by {
                        lemma_find_funds_push(self.accounts@, entry, a);
                    }
                    lemma_find_funds_push(self.accounts@, entry, account);
                }
                self.accounts.push(entry);
            },
        }
    }

    /// Moves `amount` from free to reserved, if the free balance covers it;
    /// on failure nothing changes.
    pub fn reserve(&mut self, account: u64, amount: u128) -> (ok: bool)
        requires
            old(self).wf(),
        ensures
            final(self).wf(),
            ok == (old(self).free_of(account) >= amount),
            ok ==> final(self).free_of(account) == old(self).free_of(account) - amount
                && final(self).reserved_of(account) == old(self).reserved_of(account) + amount,
            !ok ==> *final(self) == *old(self),
            forall|a: u64|
                a != account ==> #[trigger] final(self).free_of(a) == old(self).free_of(a),
            forall|a: u64|
                a != account ==> #[trigger] final(self).reserved_of(a) == old(
                    self,
                ).reserved_of(a),
    {
        match self.position(account) {
            Some(i) => {
                let entry = self.accounts[i];
                if entry.free >= amount {
                    let updated = AccountFunds {
                        free: entry.free - amount,
                        reserved: entry.reserved + amount,
                        ..entry
                    };
                    proof {
                        lemma_find_funds_update(self.accounts@, i as int, updated, account);
                        assert forall|a: u64| a != account implies find_funds(
                            self.accounts@.update(i as int, updated),
                            a,
                        ) == find_funds(self.accounts@, a) by {
                            lemma_find_funds_update(self.accounts@, i as int, updated, a);
                        }
                    }
                    self.accounts.set(i, updated);
                    true
                } else {
                    false
                }
            },
            None => amount == 0,
        }
    }

    /// Moves `amount` from reserved back to free. The caller guarantees the
    /// reserved balance covers it, so the release cannot fail.
    pub fn release(&mut self, account: u64, amount: u128)
        requires
            old(self).wf(),
            old(self).reserved_of(account) >= amount,
        ensures
            final(self).wf(),
            final(self).free_of(account) == old(self).free_of(account) + amount,
            final(self).reserved_of(account) == old(self).reserved_of(account) - amount,
            forall|a: u64|
                a != account ==> #[trigger] final(self).free_of(a) == old(self).free_of(a),
            forall|a: u64|
                a != account ==> #[trigger] final(self).reserved_of(a) == old(
                    self,
                ).reserved_of(a),
    {
        match self.position(account) {
            Some(i) => {
                let entry = self.accounts[i];
                let updated = AccountFunds {
                    free: entry.free + amount,
                    reserved: entry.reserved - amount,
                    ..entry
                };
                proof {
                    lemma_find_funds_update(self.accounts@, i as int, updated, account);
                    assert forall|a: u64| a != account implies find_funds(
                        self.accounts@.update(i as int, updated),
                        a,
                    ) == find_funds(self.accounts@, a) by {
                        lemma_find_funds_update(self.accounts@, i as int, updated, a);
                    }
                }
                self.accounts.set(i, updated);
            },
            None => {
                // reserved_of is 0, so amount is 0 and nothing moves.
            },
        }
    }
}

} // verus!
