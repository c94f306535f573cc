//! A two-party escrow: a maker locks an amount of one asset in a vault owned by
//! a derived address, and a taker settles the offer atomically by paying the
//! requested amount of a second asset.

mod address;
mod derive;
mod error;
mod exchange;
mod ledger;
mod make;
mod offers;
mod state;
mod take;

pub use address::Address;
pub use derive::{escrow_address, escrow_authority, escrow_seeds, le_bytes_of};
pub use error::EscrowError;
pub use exchange::{
    lemma_asset_pair_is_bound, lemma_escrow_made_once, lemma_escrow_settles_once,
    lemma_outstanding_escrow_is_funded, Exchange,
};
pub use ledger::{Ledger, TokenAccount};
pub use make::Make;
pub use offers::Offer;
pub use state::{Escrow, ESCROW_SPACE};
pub use take::Take;
