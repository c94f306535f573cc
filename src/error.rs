use vstd::prelude::*;

verus! {

/// Why an escrow operation was refused. Every error leaves all state as it was.
#[derive(Debug, Clone, Copy, PartialEq, Eq, Structural)]
pub enum EscrowError {
    /// An escrow already lives at the derived address.
    AlreadyExists,
    /// No escrow lives at the given address.
    NotFound,
    /// A supplied asset does not match the one recorded or expected.
    AssetMismatch,
    /// The paying account holds less than the amount to move.
    InsufficientFunds,
    /// The signing authority does not own the account it moves funds from.
    Unauthorized,
    /// No bump in the search space yields a valid derived address.
    DerivationExhausted,
    /// Crediting an account would exceed the largest representable balance.
    Overflow,
    /// The vault cannot be closed while it still holds assets.
    NonEmptyVault,
}

} // verus!
