use vstd::prelude::*;

verus! {

/// The five ways in which an operation is turned down. Whichever it is,
/// nothing has changed.
#[derive(Clone, Copy, Debug, PartialEq, Eq, Structural)]
pub enum EscrowError {
    /// An offer is already open where the new one would live.
    AlreadyExists,
    /// No offer is open for the maker and the seed, or their addresses cannot
    /// be derived.
    NotFound,
    /// The signer is not the one who may do this.
    Unauthorized,
    /// The source holds less than is to leave it, or nothing is to leave it
    /// where something must.
    InsufficientFunds,
    /// A mint that was supplied is not the one the record declares.
    MintMismatch,
}

} // verus!
