use vstd::prelude::*;

verus! {

/// Why an operation was refused. Every refusal leaves the state as it was.
#[derive(Clone, Copy, Debug, PartialEq, Eq, Structural)]
pub enum ContractError {
    Unauthorized,
    RegistrationClosed,
    SupplyLowerThanMinted,
    SoldOut,
    InvalidMintGroup,
    GroupNotOpenToMint,
    InvalidMerkleProof,
    InvalidSender,
    MaxTokensMinted,
    InvalidFunds,
    /// No confirmed collection is registered under the given address.
    CollectionNotFound,
    /// No pending registration carries the acknowledged ticket.
    UnknownTicket,
    /// A confirmed collection already uses the acknowledged address.
    CollectionExists,
    /// A claim reaches a sequence number that was never granted.
    MintRecordNotFound,
}

} // verus!
