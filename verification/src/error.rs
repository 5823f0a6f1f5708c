use vstd::prelude::*;

verus! {

/// Typed rejection of a whole instruction. Every failure is detected
/// before any mutation is applied, so a rejected instruction leaves the
/// ledger exactly as it was.
#[derive(Clone, Copy, Debug, PartialEq, Eq, Structural)]
pub enum CustodyError {
    /// A required transaction signature is absent.
    MissingSignature,
    /// A re-derived address does not match the account presented, or a
    /// custody account is not owned by the expected derived authority.
    AuthorityMismatch,
    /// An asset account's mint does not match the one the record names.
    MintMismatch,
    /// The debited account holds less than the requested amount.
    InsufficientFunds,
    /// A named account does not exist, or holds the wrong kind of data.
    AccountNotFound,
    /// A creation targeted an address that is already occupied.
    AddressInUse,
    /// The payer cannot cover the minimum balances of the new accounts.
    CannotCoverRent,
    /// Crediting the destination would overflow its 64-bit balance.
    BalanceOverflow,
}

} // verus!
