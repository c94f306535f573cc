use vstd::prelude::*;
use crate::address::Address;
use crate::derive::{derived_authority, escrow_authority};
use crate::error::EscrowError;
use crate::ledger::{moved, Ledger, TokenAccount};
use crate::state::Escrow;

verus! {

/// The accounts of one take instruction, loaded for a transaction: the escrow
/// record, its vault, and the ledger holding the taker's and maker's balances.
pub struct Take {
    pub program: Address,
    pub taker: Address,
    pub maker: Address,
    pub mint_x: Address,
    pub mint_y: Address,
    pub escrow: Escrow,
    pub vault: TokenAccount,
    pub closed: bool,
    pub ledger: Ledger,
}

impl Take {
    /// Whether the authority re-derived from the record's seeds and bump is
    /// the vault's owner.
    pub open spec fn authorized(&self) -> bool {
        derived_authority(self.program@, self.maker@, self.escrow.seed, self.escrow.bump) == Some(
            self.vault.owner@,
        )
    }

    /// What `vault_to_taker` returns, given the accounts before it.
    pub open spec fn vault_to_taker_result(&self) -> Result<(), EscrowError> {
        if !self.authorized() {
            Err(EscrowError::Unauthorized)
        } else if self.vault.mint@ != self.mint_x@ {
            Err(EscrowError::AssetMismatch)
        } else if self.vault.amount < self.escrow.amount_x {
            Err(EscrowError::InsufficientFunds)
        } else if self.ledger.balance(self.taker@, self.mint_x@) + self.escrow.amount_x > u64::MAX {
            Err(EscrowError::Overflow)
        } else {
            Ok(())
        }
    }

    /// What `taker_to_maker` returns, given the accounts before it.
    pub open spec fn taker_to_maker_result(&self) -> Result<(), EscrowError> {
        if self.ledger.balance(self.taker@, self.mint_y@) < self.escrow.amount_y {
            Err(EscrowError::InsufficientFunds)
        } else if self.taker@ != self.maker@ && self.ledger.balance(self.maker@, self.mint_y@)
            + self.escrow.amount_y > u64::MAX {
            Err(EscrowError::Overflow)
        } else {
            Ok(())
        }
    }

    /// What `close_vault` returns, given the accounts before it.
    pub open spec fn close_vault_result(&self) -> Result<(), EscrowError> {
        if !self.authorized() {
            Err(EscrowError::Unauthorized)
        } else if self.vault.amount != 0 {
            Err(EscrowError::NonEmptyVault)
        } else {
            Ok(())
        }
    }

    /// Pays the locked asset X from the vault to the taker, signing with the
    /// escrow's re-derived authority.
    pub fn vault_to_taker(&mut self) -> (r: Result<(), EscrowError>)
        ensures
            r == old(self).vault_to_taker_result(),
            r is Err ==> *final(self) == *old(self),
            r is Ok ==> *final(self) == (Take {
                vault: TokenAccount {
                    amount: (old(self).vault.amount - old(self).escrow.amount_x) as u64,
                    ..old(self).vault
                },
                ledger: final(self).ledger,
                ..*old(self)
            }),
            r is Ok ==> forall|o: Seq<u8>, m: Seq<u8>|
                #[trigger] final(self).ledger.balance(o, m) == if o == old(self).taker@ && m
                    == old(self).mint_x@ {
                    (old(self).ledger.balance(o, m) + old(self).escrow.amount_x) as u64
                } else {
                    old(self).ledger.balance(o, m)
                },
    {
        match escrow_authority(&self.program, &self.maker, self.escrow.seed, self.escrow.bump) {
            Some(authority) => {
                if !authority.same(&self.vault.owner) {
                    return Err(EscrowError::Unauthorized);
                }
            },
            None => {
                return Err(EscrowError::Unauthorized);
            },
        }
        if !self.vault.mint.same(&self.mint_x) {
            return Err(EscrowError::AssetMismatch);
        }
        let amount = self.escrow.amount_x;
        if self.vault.amount < amount {
            return Err(EscrowError::InsufficientFunds);
        }
        let r = self.ledger.credit(&self.taker, &self.mint_x, amount);
        if r.is_err() {
            return r;
        }
        self.vault.amount = self.vault.amount - amount;
        Ok(())
    }

    /// Pays the requested asset Y from the taker to the maker, on the taker's
    /// own authority.
    pub fn taker_to_maker(&mut self) -> (r: Result<(), EscrowError>)
        ensures
            r == old(self).taker_to_maker_result(),
            r is Err ==> *final(self) == *old(self),
            r is Ok ==> *final(self) == (Take { ledger: final(self).ledger, ..*old(self) }),
            r is Ok ==> forall|o: Seq<u8>, m: Seq<u8>|
                #[trigger] final(self).ledger.balance(o, m) == moved(
                    old(self).ledger.balance(o, m),
                    o,
                    m,
                    old(self).taker@,
                    old(self).maker@,
                    old(self).mint_y@,
                    old(self).escrow.amount_y,
                ),
    {
        let r = self.ledger.transfer(&self.taker, &self.maker, &self.mint_y, self.escrow.amount_y);
        if r.is_err() {
            return r;
        }
        Ok(())
    }

    /// Closes the emptied vault, signing with the escrow's re-derived authority.
    pub fn close_vault(&mut self) -> (r: Result<(), EscrowError>)
        ensures
            r == old(self).close_vault_result(),
            r is Err ==> *final(self) == *old(self),
            r is Ok ==> *final(self) == (Take { closed: true, ..*old(self) }),
    {
        match escrow_authority(&self.program, &self.maker, self.escrow.seed, self.escrow.bump) {
            Some(authority) => {
                if !authority.same(&self.vault.owner) {
                    return Err(EscrowError::Unauthorized);
                }
            },
            None => {
                return Err(EscrowError::Unauthorized);
            },
        }
        if self.vault.amount != 0 {
            return Err(EscrowError::NonEmptyVault);
        }
        self.closed = true;
        Ok(())
    }
}

} // verus!
