use vstd::prelude::*;
use crate::address::Address;
use crate::error::EscrowError;
use crate::ledger::{Ledger, TokenAccount};
use crate::state::{Escrow, EscrowView};

verus! {

/// The accounts of one make instruction, loaded for a transaction: the new
/// escrow record, its vault, and the ledger the maker pays from.
pub struct Make {
    pub maker: Address,
    pub mint_x: Address,
    pub mint_y: Address,
    pub escrow: Escrow,
    pub vault: TokenAccount,
    pub ledger: Ledger,
}

impl Make {
    /// What `transfer(deposit)` returns, given the accounts before it.
    pub open spec fn transfer_result(&self, deposit: u64) -> Result<(), EscrowError> {
        if self.vault.mint@ != self.mint_x@ {
            Err(EscrowError::AssetMismatch)
        } else if self.ledger.balance(self.maker@, self.mint_x@) < deposit {
            Err(EscrowError::InsufficientFunds)
        } else if self.vault.amount + deposit > u64::MAX {
            Err(EscrowError::Overflow)
        } else {
            Ok(())
        }
    }

    /// Writes the escrow record, then locks `amount_x` of the maker's asset X
    /// in the vault.
    pub fn make(&mut self, seed: u64, amount_x: u64, amount_y: u64, bump: u8) -> (r: Result<(), EscrowError>)
        ensures
            final(self).escrow@ == (EscrowView {
                seed,
                maker: old(self).maker@,
                mint_x: old(self).mint_x@,
                mint_y: old(self).mint_y@,
                amount_x,
                amount_y,
                bump,
            }),
            r == old(self).transfer_result(amount_x),
            final(self).maker == old(self).maker,
            final(self).mint_x == old(self).mint_x,
            final(self).mint_y == old(self).mint_y,
            r is Err ==> final(self).vault == old(self).vault && final(self).ledger == old(self).ledger,
            r is Ok ==> deposited(*old(self), *final(self), amount_x),
    {
        self.escrow = Escrow {
            seed,
            mint_x: self.mint_x,
            mint_y: self.mint_y,
            amount_x,
            amount_y,
            bump,
            maker: self.maker,
        };
        self.transfer(amount_x)
    }

    /// Moves `deposit` of asset X from the maker's account into the vault, on
    /// the maker's own authority.
    pub fn transfer(&mut self, deposit: u64) -> (r: Result<(), EscrowError>)
        ensures
            r == old(self).transfer_result(deposit),
            final(self).maker == old(self).maker,
            final(self).mint_x == old(self).mint_x,
            final(self).mint_y == old(self).mint_y,
            final(self).escrow == old(self).escrow,
            r is Err ==> final(self).vault == old(self).vault && final(self).ledger == old(self).ledger,
            r is Ok ==> deposited(*old(self), *final(self), deposit),
    {
        if !self.vault.mint.same(&self.mint_x) {
            return Err(EscrowError::AssetMismatch);
        }
        let have = self.ledger.balance_of(&self.maker, &self.mint_x);
        if have < deposit {
            return Err(EscrowError::InsufficientFunds);
        }
        if self.vault.amount > u64::MAX - deposit {
            return Err(EscrowError::Overflow);
        }
        let r = self.ledger.debit(&self.maker, &self.mint_x, deposit);
        assert(r is Ok);
        self.vault.amount = self.vault.amount + deposit;
        Ok(())
    }
}

/// `after` is `before` with `deposit` of the maker's asset X moved into the vault.
pub open spec fn deposited(before: Make, after: Make, deposit: u64) -> bool {
    &&& after.vault.owner == before.vault.owner
    &&& after.vault.mint == before.vault.mint
    &&& after.vault.amount == before.vault.amount + deposit
    &&& forall|o: Seq<u8>, m: Seq<u8>|
        #[trigger] after.ledger.balance(o, m) == if o == before.maker@ && m == before.mint_x@ {
            (before.ledger.balance(o, m) - deposit) as u64
        } else {
            before.ledger.balance(o, m)
        }
}

} // verus!
