use vstd::prelude::*;
use crate::address::Address;

verus! {

/// An outstanding offer: the maker locked `amount_x` of `mint_x` and asks
/// `amount_y` of `mint_y` in return. Written once, at creation.
#[derive(Debug, Clone, Copy)]
pub struct Escrow {
    pub seed: u64,
    pub maker: Address,
    pub mint_x: Address,
    pub mint_y: Address,
    pub amount_x: u64,
    pub amount_y: u64,
    pub bump: u8,
}

/// The contents of an escrow record, with addresses as byte strings.
pub struct EscrowView {
    pub seed: u64,
    pub maker: Seq<u8>,
    pub mint_x: Seq<u8>,
    pub mint_y: Seq<u8>,
    pub amount_x: u64,
    pub amount_y: u64,
    pub bump: u8,
}

impl View for Escrow {
    type V = EscrowView;

    open spec fn view(&self) -> EscrowView {
        EscrowView {
            seed: self.seed,
            maker: self.maker@,
            mint_x: self.mint_x@,
            mint_y: self.mint_y@,
            amount_x: self.amount_x,
            amount_y: self.amount_y,
            bump: self.bump,
        }
    }
}

/// Bytes an escrow record occupies on the ledger: an eight-byte type tag, then
/// the fields in declaration order, integers little-endian.
pub const ESCROW_SPACE: usize = 8 + 8 + 32 + 32 + 32 + 8 + 8 + 1;

impl Escrow {
    /// A blank record, as a freshly allocated escrow account holds it.
    pub fn blank(maker: Address, mint_x: Address, mint_y: Address) -> (r: Escrow)
        ensures
            r.seed == 0 && r.amount_x == 0 && r.amount_y == 0 && r.bump == 0,
            r.maker == maker && r.mint_x == mint_x && r.mint_y == mint_y,
    {
        Escrow { seed: 0, maker, mint_x, mint_y, amount_x: 0, amount_y: 0, bump: 0 }
    }
}

} // verus!
