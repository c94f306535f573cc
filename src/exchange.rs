use vstd::prelude::*;
use crate::address::Address;
use crate::derive::{derived_authority, derived_escrow, escrow_address};
use crate::error::EscrowError;
use crate::ledger::{moved, Ledger, TokenAccount};
use crate::make::Make;
use crate::offers::{
    lemma_offer_absent, lemma_offer_found, lemma_offer_push, lemma_offer_remove, offer_in,
    unique_keys, Offer,
};
use crate::state::{Escrow, EscrowView};
use crate::take::Take;

verus! {

/// Whether an offer is consistent: its vault is owned by the escrow's address,
/// holds exactly the locked amount of asset X, and the address is the one
/// derived from the record's maker, seed and bump.
pub open spec fn offer_ok(program: Seq<u8>, o: Offer) -> bool {
    &&& o.vault.owner@ == o.address@
    &&& o.vault.mint@ == o.escrow.mint_x@
    &&& o.vault.amount == o.escrow.amount_x
    &&& derived_escrow(program, o.escrow.maker@, o.escrow.seed) == Some((o.address@, o.escrow.bump))
    &&& derived_authority(program, o.escrow.maker@, o.escrow.seed, o.escrow.bump) == Some(o.address@)
}

/// A balance after `amount` of `mint` was credited to `owner`.
pub open spec fn credited(b: u64, o: Seq<u8>, m: Seq<u8>, owner: Seq<u8>, mint: Seq<u8>, amount: u64) -> u64 {
    if o == owner && m == mint {
        (b + amount) as u64
    } else {
        b
    }
}

/// The escrow program's state: the asset ledger and the outstanding escrows.
pub struct Exchange {
    program: Address,
    ledger: Ledger,
    offers: Vec<Offer>,
}

impl Exchange {
    /// The id of the program that escrow addresses are derived under.
    pub closed spec fn program_id(&self) -> Seq<u8> {
        self.program@
    }

    /// The ledger balance of `owner` in `mint`.
    pub closed spec fn balance(&self, owner: Seq<u8>, mint: Seq<u8>) -> u64 {
        self.ledger.balance(owner, mint)
    }

    /// The record of the escrow at `key`, if one is outstanding.
    pub closed spec fn escrow_at(&self, key: Seq<u8>) -> Option<EscrowView> {
        match offer_in(self.offers@, key) {
            Some(o) => Some(o.escrow@),
            None => None,
        }
    }

    /// The balance of the vault of the escrow at `key`, while it is open.
    pub closed spec fn vault_at(&self, key: Seq<u8>) -> Option<u64> {
        match offer_in(self.offers@, key) {
            Some(o) => Some(o.vault.amount),
            None => None,
        }
    }

    /// Addresses are unique and every outstanding escrow is consistent.
    pub closed spec fn wf(&self) -> bool {
        &&& unique_keys(self.offers@)
        &&& forall|i: int| 0 <= i < self.offers@.len() ==> offer_ok(self.program@, #[trigger] self.offers@[i])
    }

    /// What `make` returns on this state: the new escrow's address, or why not.
    pub open spec fn make_result(
        &self,
        maker: Seq<u8>,
        seed: u64,
        amount_x: u64,
        mint_x: Seq<u8>,
    ) -> Result<Seq<u8>, EscrowError> {
        match derived_escrow(self.program_id(), maker, seed) {
            None => Err(EscrowError::DerivationExhausted),
            Some(d) => if self.escrow_at(d.0) is Some {
                Err(EscrowError::AlreadyExists)
            } else if self.balance(maker, mint_x) < amount_x {
                Err(EscrowError::InsufficientFunds)
            } else {
                Ok(d.0)
            },
        }
    }

    /// What `take` returns on this state.
    pub open spec fn take_result(
        &self,
        taker: Seq<u8>,
        key: Seq<u8>,
        mint_x: Seq<u8>,
        mint_y: Seq<u8>,
    ) -> Result<(), EscrowError> {
        match self.escrow_at(key) {
            None => Err(EscrowError::NotFound),
            Some(e) => if mint_x != e.mint_x || mint_y != e.mint_y {
                Err(EscrowError::AssetMismatch)
            } else if self.balance(taker, mint_x) + e.amount_x > u64::MAX {
                Err(EscrowError::Overflow)
            } else if credited(self.balance(taker, mint_y), taker, mint_y, taker, mint_x, e.amount_x)
                < e.amount_y {
                Err(EscrowError::InsufficientFunds)
            } else if taker != e.maker && credited(
                self.balance(e.maker, mint_y),
                e.maker,
                mint_y,
                taker,
                mint_x,
                e.amount_x,
            ) + e.amount_y > u64::MAX {
                Err(EscrowError::Overflow)
            } else {
                Ok(())
            },
        }
    }

    /// A fresh state for `program`: an empty ledger and no escrow.
    pub fn new(program: Address) -> (r: Exchange)
        ensures
            r.wf(),
            r.program_id() == program@,
            forall|o: Seq<u8>, m: Seq<u8>| r.balance(o, m) == 0,
            forall|k: Seq<u8>| r.escrow_at(k) is None && r.vault_at(k) is None,
    {
        Exchange { program, ledger: Ledger::new(), offers: Vec::new() }
    }

    /// The index of the escrow at `key`, if one is outstanding.
    fn find_offer(&self, key: &Address) -> (r: Option<usize>)
        requires
            self.wf(),
        ensures
            r is Some ==> (r->0) < self.offers@.len() && offer_in(self.offers@, key@) == Some(
                self.offers@[r->0 as int],
            ) && self.offers@[r->0 as int].address@ == key@,
            r is None ==> offer_in(self.offers@, key@) is None,
    {
        let mut i: usize = 0;
        while i < self.offers.len()
            invariant
                0 <= i <= self.offers@.len(),
                unique_keys(self.offers@),
                forall|j: int| 0 <= j < i ==> (#[trigger] self.offers@[j]).address@ != key@,
            decreases self.offers@.len() - i,
        {
            if self.offers[i].address.same(key) {
                proof {
                    lemma_offer_found(self.offers@, i as int);
                }
                return Some(i);
            }
            i = i + 1;
        }
        proof {
            lemma_offer_absent(self.offers@, key@);
        }
        None
    }

    /// Opens an escrow: derives its address from `maker` and `seed`, writes the
    /// record and locks `amount_x` of `mint_x` from the maker in its vault. All
    /// of it happens, or nothing does.
    pub fn make(
        &mut self,
        maker: &Address,
        seed: u64,
        amount_x: u64,
        amount_y: u64,
        mint_x: &Address,
        mint_y: &Address,
    ) -> (r: Result<Address, EscrowError>)
        requires
            old(self).wf(),
        ensures
            final(self).wf(),
            final(self).program_id() == old(self).program_id(),
            r is Ok <==> old(self).make_result(maker@, seed, amount_x, mint_x@) is Ok,
            r is Ok ==> old(self).make_result(maker@, seed, amount_x, mint_x@) == Ok::<Seq<u8>, EscrowError>(
                r->Ok_0@,
            ),
            r is Err ==> old(self).make_result(maker@, seed, amount_x, mint_x@) == Err::<Seq<u8>, EscrowError>(
                r->Err_0,
            ),
            r is Err ==> *final(self) == *old(self),
            r is Ok ==> final(self).escrow_at(r->Ok_0@) == Some(
                EscrowView {
                    seed,
                    maker: maker@,
                    mint_x: mint_x@,
                    mint_y: mint_y@,
                    amount_x,
                    amount_y,
                    bump: (derived_escrow(old(self).program_id(), maker@, seed)->0).1,
                },
            ),
            r is Ok ==> final(self).vault_at(r->Ok_0@) == Some(amount_x),
            r is Ok ==> forall|k: Seq<u8>|
                k != r->Ok_0@ ==> #[trigger] final(self).escrow_at(k) == old(self).escrow_at(k)
                    && final(self).vault_at(k) == old(self).vault_at(k),
            r is Ok ==> forall|o: Seq<u8>, m: Seq<u8>|
                #[trigger] final(self).balance(o, m) == if o == maker@ && m == mint_x@ {
                    (old(self).balance(o, m) - amount_x) as u64
                } else {
                    old(self).balance(o, m)
                },
    {
        let (address, bump) = match escrow_address(&self.program, maker, seed) {
            Ok(found) => found,
            Err(e) => {
                return Err(e);
            },
        };
        if self.find_offer(&address).is_some() {
            return Err(EscrowError::AlreadyExists);
        }
        let mut ctx = Make {
            maker: *maker,
            mint_x: *mint_x,
            mint_y: *mint_y,
            escrow: Escrow::blank(*maker, *mint_x, *mint_y),
            vault: TokenAccount { owner: address, mint: *mint_x, amount: 0 },
            ledger: self.ledger.snapshot(),
        };
        match ctx.make(seed, amount_x, amount_y, bump) {
            Ok(()) => {},
            Err(e) => {
                return Err(e);
            },
        }
        let offer = Offer { address, escrow: ctx.escrow, vault: ctx.vault };
        let ghost before = self.offers@;
        self.ledger = ctx.ledger;
        self.offers.push(offer);
        proof {
            assert(self.offers@ == before.push(offer));
            assert forall|k: Seq<u8>| #[trigger] offer_in(self.offers@, k) == if address@ == k {
                Some(offer)
            } else {
                offer_in(before, k)
            } by {
                lemma_offer_push(before, offer, k);
            }
            assert forall|j: int| 0 <= j < before.len() implies (#[trigger] before[j]).address@ != address@ by {
                if before[j].address@ == address@ {
                    lemma_offer_found(before, j);
                }
            }
            assert forall|i: int| 0 <= i < self.offers@.len() implies offer_ok(self.program@, #[trigger] self.offers@[i]) by {
                if i < before.len() {
                    assert(self.offers@[i] == before[i]);
                }
            }
        }
        Ok(address)
    }

    /// Settles the escrow at `escrow` for `taker`: the vault's asset X goes to
    /// the taker, the requested asset Y goes from the taker to the maker, the
    /// vault is closed and the record deleted. All of it happens, or nothing
    /// does.
    pub fn take(&mut self, taker: &Address, escrow: &Address, mint_x: &Address, mint_y: &Address) -> (r: Result<(), EscrowError>)
        requires
            old(self).wf(),
        ensures
            final(self).wf(),
            final(self).program_id() == old(self).program_id(),
            r == old(self).take_result(taker@, escrow@, mint_x@, mint_y@),
            r is Err ==> *final(self) == *old(self),
            r is Ok ==> final(self).escrow_at(escrow@) is None && final(self).vault_at(escrow@) is None,
            r is Ok ==> forall|k: Seq<u8>|
                k != escrow@ ==> #[trigger] final(self).escrow_at(k) == old(self).escrow_at(k)
                    && final(self).vault_at(k) == old(self).vault_at(k),
            r is Ok ==> forall|o: Seq<u8>, m: Seq<u8>|
                #[trigger] final(self).balance(o, m) == moved(
                    credited(
                        old(self).balance(o, m),
                        o,
                        m,
                        taker@,
                        mint_x@,
                        old(self).escrow_at(escrow@)->0.amount_x,
                    ),
                    o,
                    m,
                    taker@,
                    old(self).escrow_at(escrow@)->0.maker,
                    mint_y@,
                    old(self).escrow_at(escrow@)->0.amount_y,
                ),
    {
        let i = match self.find_offer(escrow) {
            Some(i) => i,
            None => {
                return Err(EscrowError::NotFound);
            },
        };
        let offer = self.offers[i];
        if !offer.escrow.mint_x.same(mint_x) || !offer.escrow.mint_y.same(mint_y) {
            return Err(EscrowError::AssetMismatch);
        }
        proof {
            assert(offer_ok(self.program@, self.offers@[i as int]));
        }
        let mut ctx = Take {
            program: self.program,
            taker: *taker,
            maker: offer.escrow.maker,
            mint_x: *mint_x,
            mint_y: *mint_y,
            escrow: offer.escrow,
            vault: offer.vault,
            closed: false,
            ledger: self.ledger.snapshot(),
        };
        let ghost start = ctx;
        match ctx.vault_to_taker() {
            Ok(()) => {},
            Err(e) => {
                return Err(e);
            },
        }
        let ghost paid = ctx;
        match ctx.taker_to_maker() {
            Ok(()) => {},
            Err(e) => {
                return Err(e);
            },
        }
        match ctx.close_vault() {
            Ok(()) => {},
            Err(e) => {
                return Err(e);
            },
        }
        let ghost before = self.offers@;
        self.ledger = ctx.ledger;
        self.offers.remove(i);
        proof {
            assert forall|k: Seq<u8>| #[trigger] offer_in(self.offers@, k) == if escrow@ == k {
                None
            } else {
                offer_in(before, k)
            } by {
                lemma_offer_remove(before, i as int, k);
            }
            lemma_offer_remove(before, i as int, escrow@);
            assert forall|j: int| 0 <= j < self.offers@.len() implies offer_ok(self.program@, #[trigger] self.offers@[j]) by {
                if j < i {
                    assert(self.offers@[j] == before[j]);
                } else {
                    assert(self.offers@[j] == before[j + 1]);
                }
            }
        }
        Ok(())
    }

    /// Credits `amount` of `mint` to `owner`, as the ledger's issuer does; fails
    /// with `Overflow`, changing nothing, where the balance would exceed `u64::MAX`.
    pub fn fund(&mut self, owner: &Address, mint: &Address, amount: u64) -> (r: Result<(), EscrowError>)
        requires
            old(self).wf(),
        ensures
            final(self).wf(),
            final(self).program_id() == old(self).program_id(),
            r is Err <==> old(self).balance(owner@, mint@) + amount > u64::MAX,
            r is Err ==> r->Err_0 == EscrowError::Overflow && *final(self) == *old(self),
            r is Ok ==> forall|k: Seq<u8>|
                #[trigger] final(self).escrow_at(k) == old(self).escrow_at(k) && final(self).vault_at(k)
                    == old(self).vault_at(k),
            r is Ok ==> forall|o: Seq<u8>, m: Seq<u8>|
                #[trigger] final(self).balance(o, m) == credited(old(self).balance(o, m), o, m, owner@, mint@, amount),
    {
        self.ledger.credit(owner, mint, amount)
    }

    /// The ledger balance of `owner` in `mint`.
    pub fn balance_of(&self, owner: &Address, mint: &Address) -> (r: u64)
        ensures
            r == self.balance(owner@, mint@),
    {
        self.ledger.balance_of(owner, mint)
    }

    /// The record of the escrow at `key`, if one is outstanding.
    pub fn escrow(&self, key: &Address) -> (r: Option<Escrow>)
        requires
            self.wf(),
        ensures
            r is None <==> self.escrow_at(key@) is None,
            r is Some ==> self.escrow_at(key@) == Some((r->0)@),
    {
        match self.find_offer(key) {
            Some(i) => Some(self.offers[i].escrow),
            None => None,
        }
    }

    /// The balance of the vault of the escrow at `key`, while it is open.
    pub fn vault_balance(&self, key: &Address) -> (r: Option<u64>)
        requires
            self.wf(),
        ensures
            r == self.vault_at(key@),
    {
        match self.find_offer(key) {
            Some(i) => Some(self.offers[i].vault.amount),
            None => None,
        }
    }

    /// The id of the program that escrow addresses are derived under.
    pub fn program(&self) -> (r: Address)
        ensures
            r@ == self.program_id(),
    {
        self.program
    }
}

/// While an escrow is outstanding its vault holds exactly the amount of asset
/// X that the record names.
pub proof fn lemma_outstanding_escrow_is_funded(ex: Exchange, key: Seq<u8>)
    requires
        ex.wf(),
    ensures
        ex.escrow_at(key) is Some ==> ex.vault_at(key) == Some(ex.escrow_at(key)->0.amount_x),
{
    if offer_in(ex.offers@, key) is Some {
        lemma_offer_in_is_stored(ex.offers@, key);
        let i = choose|i: int| 0 <= i < ex.offers@.len() && offer_in(ex.offers@, key) == Some(ex.offers@[i]);
        assert(offer_ok(ex.program@, ex.offers@[i]));
    }
}

proof fn lemma_offer_in_is_stored(s: Seq<Offer>, key: Seq<u8>)
    requires
        offer_in(s, key) is Some,
    ensures
        exists|i: int| 0 <= i < s.len() && offer_in(s, key) == Some(s[i]),
    decreases s.len(),
{
    if s.last().address@ == key {
        assert(offer_in(s, key) == Some(s[s.len() - 1]));
    } else {
        lemma_offer_in_is_stored(s.drop_last(), key);
        let i = choose|i: int| 0 <= i < s.drop_last().len() && offer_in(s.drop_last(), key) == Some(s.drop_last()[i]);
        assert(s.drop_last()[i] == s[i]);
    }
}

/// An escrow is settled at most once: once its record is gone, every further
/// take of it fails with `NotFound`.
pub proof fn lemma_escrow_settles_once(ex: Exchange, taker: Seq<u8>, key: Seq<u8>, mint_x: Seq<u8>, mint_y: Seq<u8>)
    requires
        ex.escrow_at(key) is None,
    ensures
        ex.take_result(taker, key, mint_x, mint_y) == Err::<(), EscrowError>(EscrowError::NotFound),
{
}

/// Two makes with the same maker and seed: once the first has opened its
/// escrow, the second fails with `AlreadyExists`, whatever its other inputs.
pub proof fn lemma_escrow_made_once(
    before: Exchange,
    after: Exchange,
    maker: Seq<u8>,
    seed: u64,
    amount_x: u64,
    mint_x: Seq<u8>,
    again_amount_x: u64,
    again_mint_x: Seq<u8>,
)
    requires
        before.make_result(maker, seed, amount_x, mint_x) is Ok,
        after.program_id() == before.program_id(),
        after.escrow_at(before.make_result(maker, seed, amount_x, mint_x)->Ok_0) is Some,
    ensures
        after.make_result(maker, seed, again_amount_x, again_mint_x) == Err::<Seq<u8>, EscrowError>(
            EscrowError::AlreadyExists,
        ),
{
}

/// A take naming another asset pair than the record's fails with
/// `AssetMismatch` (and, as every failed take, changes nothing).
pub proof fn lemma_asset_pair_is_bound(ex: Exchange, taker: Seq<u8>, key: Seq<u8>, mint_x: Seq<u8>, mint_y: Seq<u8>)
    requires
        ex.escrow_at(key) is Some,
        mint_x != ex.escrow_at(key)->0.mint_x || mint_y != ex.escrow_at(key)->0.mint_y,
    ensures
        ex.take_result(taker, key, mint_x, mint_y) == Err::<(), EscrowError>(EscrowError::AssetMismatch),
{
}

} // verus!
