use vstd::prelude::*;
use crate::address::Address;
use crate::error::EscrowError;

verus! {

/// A balance of one asset (`mint`) held by one owner.
#[derive(Debug, Clone, Copy)]
pub struct TokenAccount {
    pub owner: Address,
    pub mint: Address,
    pub amount: u64,
}

/// Whether `a` is the account of `owner` for `mint`.
pub open spec fn is_account_of(a: TokenAccount, owner: Seq<u8>, mint: Seq<u8>) -> bool {
    a.owner@ == owner && a.mint@ == mint
}

/// The balance that a list of account records gives to `(owner, mint)`: the
/// latest record of that pair counts, and a pair with no record holds nothing.
pub open spec fn balance_in(s: Seq<TokenAccount>, owner: Seq<u8>, mint: Seq<u8>) -> u64
    decreases s.len(),
{
    if s.len() == 0 {
        0
    } else if is_account_of(s.last(), owner, mint) {
        s.last().amount
    } else {
        balance_in(s.drop_last(), owner, mint)
    }
}

proof fn lemma_balance_prefix(s: Seq<TokenAccount>, i: int, owner: Seq<u8>, mint: Seq<u8>)
    requires
        0 <= i <= s.len(),
        forall|j: int| i <= j < s.len() ==> !is_account_of(#[trigger] s[j], owner, mint),
    ensures
        balance_in(s, owner, mint) == balance_in(s.subrange(0, i), owner, mint),
    decreases s.len(),
{
    if i == s.len() {
        assert(s.subrange(0, i) =~= s);
    } else {
        assert(!is_account_of(s[s.len() - 1], owner, mint));
        lemma_balance_prefix(s.drop_last(), i, owner, mint);
        assert(s.drop_last().subrange(0, i) =~= s.subrange(0, i));
    }
}

proof fn lemma_balance_update_other(s: Seq<TokenAccount>, i: int, x: TokenAccount, owner: Seq<u8>, mint: Seq<u8>)
    requires
        0 <= i < s.len(),
        !is_account_of(s[i], owner, mint),
        !is_account_of(x, owner, mint),
    ensures
        balance_in(s.update(i, x), owner, mint) == balance_in(s, owner, mint),
    decreases s.len(),
{
    let t = s.update(i, x);
    if i == s.len() - 1 {
        assert(t.drop_last() =~= s.drop_last());
    } else {
        assert(t.last() == s.last());
        assert(t.drop_last() =~= s.drop_last().update(i, x));
        lemma_balance_update_other(s.drop_last(), i, x, owner, mint);
    }
}

/// The asset ledger: balances per `(owner, mint)` pair.
pub struct Ledger {
    accounts: Vec<TokenAccount>,
}

impl Ledger {
    /// The balance of `owner` in `mint`.
    pub closed spec fn balance(&self, owner: Seq<u8>, mint: Seq<u8>) -> u64 {
        balance_in(self.accounts@, owner, mint)
    }

    /// An empty ledger: every balance is zero.
    pub fn new() -> (r: Ledger)
        ensures
            forall|o: Seq<u8>, m: Seq<u8>| r.balance(o, m) == 0,
    {
        Ledger { accounts: Vec::new() }
    }

    /// A copy with the same balances.
    pub fn snapshot(&self) -> (r: Ledger)
        ensures
            forall|o: Seq<u8>, m: Seq<u8>| r.balance(o, m) == self.balance(o, m),
    {
        let mut v: Vec<TokenAccount> = Vec::new();
        let mut i: usize = 0;
        while i < self.accounts.len()
            invariant
                0 <= i <= self.accounts@.len(),
                v@ == self.accounts@.subrange(0, i as int),
            decreases self.accounts@.len() - i,
        {
            v.push(self.accounts[i]);
            i = i + 1;
            assert(v@ =~= self.accounts@.subrange(0, i as int));
        }
        assert(self.accounts@.subrange(0, self.accounts@.len() as int) =~= self.accounts@);
        Ledger { accounts: v }
    }

    /// The index of the latest record of `(owner, mint)`, if any.
    fn find(&self, owner: &Address, mint: &Address) -> (r: Option<usize>)
        ensures
            r is Some ==> (r->0) < self.accounts@.len() && is_account_of(self.accounts@[r->0 as int], owner@, mint@)
                && forall|j: int| (r->0) < j < self.accounts@.len() ==> !is_account_of(#[trigger] self.accounts@[j], owner@, mint@),
            r is None ==> forall|j: int| 0 <= j < self.accounts@.len() ==> !is_account_of(#[trigger] self.accounts@[j], owner@, mint@),
    {
        let mut i: usize = self.accounts.len();
        while i > 0
            invariant
                0 <= i <= self.accounts@.len(),
                forall|j: int| i <= j < self.accounts@.len() ==> !is_account_of(#[trigger] self.accounts@[j], owner@, mint@),
            decreases i,
        {
            let a = &self.accounts[i - 1];
            if a.owner.same(owner) && a.mint.same(mint) {
                return Some(i - 1);
            }
            i = i - 1;
        }
        None
    }

    /// The balance of `owner` in `mint`.
    pub fn balance_of(&self, owner: &Address, mint: &Address) -> (r: u64)
        ensures
            r == self.balance(owner@, mint@),
    {
        match self.find(owner, mint) {
            Some(i) => {
                proof {
                    lemma_balance_prefix(self.accounts@, i + 1, owner@, mint@);
                    assert(self.accounts@.subrange(0, i + 1).last() == self.accounts@[i as int]);
                }
                self.accounts[i].amount
            },
            None => {
                proof {
                    lemma_balance_prefix(self.accounts@, 0, owner@, mint@);
                }
                0
            },
        }
    }

    /// Sets the balance of `owner` in `mint`; every other balance is kept.
    fn set_balance(&mut self, owner: &Address, mint: &Address, amount: u64)
        ensures
            forall|o: Seq<u8>, m: Seq<u8>|
                #[trigger] final(self).balance(o, m) == if o == owner@ && m == mint@ {
                    amount
                } else {
                    old(self).balance(o, m)
                },
    {
        let rec = TokenAccount { owner: *owner, mint: *mint, amount };
        match self.find(owner, mint) {
            Some(i) => {
                let ghost s = self.accounts@;
                self.accounts.set(i, rec);
                proof {
                    let t = s.update(i as int, rec);
                    assert(self.accounts@ == t);
                    assert forall|o: Seq<u8>, m: Seq<u8>|
                        #[trigger] balance_in(t, o, m) == if o == owner@ && m == mint@ {
                            amount
                        } else {
                            balance_in(s, o, m)
                        } by {
                        if o == owner@ && m == mint@ {
                            assert forall|j: int| i + 1 <= j < t.len() implies !is_account_of(#[trigger] t[j], o, m) by {
                                assert(t[j] == s[j]);
                            }
                            lemma_balance_prefix(t, i + 1, o, m);
                            assert(t.subrange(0, i + 1).last() == rec);
                        } else {
                            lemma_balance_update_other(s, i as int, rec, o, m);
                        }
                    }
                }
            },
            None => {
                let ghost s = self.accounts@;
                self.accounts.push(rec);
                assert(self.accounts@.drop_last() =~= s);
            },
        }
    }

    /// Adds `amount` to the balance of `owner` in `mint`, or fails with
    /// `Overflow` where the sum exceeds `u64::MAX` and changes nothing.
    pub fn credit(&mut self, owner: &Address, mint: &Address, amount: u64) -> (r: Result<(), EscrowError>)
        ensures
            r is Err <==> old(self).balance(owner@, mint@) + amount > u64::MAX,
            r is Err ==> r->Err_0 == EscrowError::Overflow && *final(self) == *old(self),
            r is Ok ==> forall|o: Seq<u8>, m: Seq<u8>|
                #[trigger] final(self).balance(o, m) == if o == owner@ && m == mint@ {
                    (old(self).balance(o, m) + amount) as u64
                } else {
                    old(self).balance(o, m)
                },
    {
        let have = self.balance_of(owner, mint);
        if have > u64::MAX - amount {
            return Err(EscrowError::Overflow);
        }
        self.set_balance(owner, mint, have + amount);
        Ok(())
    }

    /// Takes `amount` from the balance of `owner` in `mint`, or fails with
    /// `InsufficientFunds` where it holds less and changes nothing.
    pub fn debit(&mut self, owner: &Address, mint: &Address, amount: u64) -> (r: Result<(), EscrowError>)
        ensures
            r is Err <==> old(self).balance(owner@, mint@) < amount,
            r is Err ==> r->Err_0 == EscrowError::InsufficientFunds && *final(self) == *old(self),
            r is Ok ==> forall|o: Seq<u8>, m: Seq<u8>|
                #[trigger] final(self).balance(o, m) == if o == owner@ && m == mint@ {
                    (old(self).balance(o, m) - amount) as u64
                } else {
                    old(self).balance(o, m)
                },
    {
        let have = self.balance_of(owner, mint);
        if have < amount {
            return Err(EscrowError::InsufficientFunds);
        }
        self.set_balance(owner, mint, have - amount);
        Ok(())
    }

    /// Moves `amount` of `mint` from `from` to `to`. Fails with
    /// `InsufficientFunds` where `from` holds less, with `Overflow` where the
    /// receiving balance would exceed `u64::MAX`; a failure changes nothing.
    /// Moving to the same owner leaves every balance as it was.
    pub fn transfer(&mut self, from: &Address, to: &Address, mint: &Address, amount: u64) -> (r: Result<(), EscrowError>)
        ensures
            old(self).balance(from@, mint@) < amount ==> r == Err::<(), EscrowError>(EscrowError::InsufficientFunds),
            old(self).balance(from@, mint@) >= amount && from@ != to@
                && old(self).balance(to@, mint@) + amount > u64::MAX ==> r == Err::<(), EscrowError>(EscrowError::Overflow),
            r is Err ==> *final(self) == *old(self),
            r is Ok ==> forall|o: Seq<u8>, m: Seq<u8>|
                #[trigger] final(self).balance(o, m) == moved(old(self).balance(o, m), o, m, from@, to@, mint@, amount),
            r is Ok <==> old(self).balance(from@, mint@) >= amount
                && (from@ == to@ || old(self).balance(to@, mint@) + amount <= u64::MAX),
    {
        let have = self.balance_of(from, mint);
        if have < amount {
            return Err(EscrowError::InsufficientFunds);
        }
        if from.same(to) {
            return Ok(());
        }
        let dest = self.balance_of(to, mint);
        if dest > u64::MAX - amount {
            return Err(EscrowError::Overflow);
        }
        self.set_balance(from, mint, have - amount);
        self.set_balance(to, mint, dest + amount);
        Ok(())
    }
}

/// The balance of `(o, m)` after `amount` of `mint` moved from `from` to `to`,
/// given its balance `b` before.
pub open spec fn moved(b: u64, o: Seq<u8>, m: Seq<u8>, from: Seq<u8>, to: Seq<u8>, mint: Seq<u8>, amount: u64) -> u64 {
    if m != mint || from == to {
        b
    } else if o == from {
        (b - amount) as u64
    } else if o == to {
        (b + amount) as u64
    } else {
        b
    }
}

} // verus!
