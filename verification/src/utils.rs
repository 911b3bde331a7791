//! What every module shares: the shape of a block and the result of a call.

use vstd::prelude::*;

verus! {

/// Why a call, or a block, was refused.
#[derive(Clone, Copy, Debug, PartialEq, Eq, Structural)]
pub enum DispatchError {
    /// The header of a block does not carry the number that is due.
    BlockNumberMismatch,
    /// The caller holds less than the amount to transfer.
    InsufficientBalance,
    /// The recipient's balance would no longer fit its integer type.
    Overflow,
    /// The content already has an owner.
    ClaimAlreadyExists,
    /// The content has no owner.
    ClaimNotExists,
    /// The content is owned by another account than the caller.
    NotClaimOwner,
}

/// The result of a call: success, or the reason for its refusal.
pub type DispatchResult = Result<(), DispatchError>;

impl DispatchError {
    /// A sentence for diagnostics.
    pub fn message(&self) -> (text: &'static str)
        ensures
            text@ == match *self {
                DispatchError::BlockNumberMismatch => "block number does not match what is expected"@,
                DispatchError::InsufficientBalance => "Not enough funds."@,
                DispatchError::Overflow => "Overflow"@,
                DispatchError::ClaimAlreadyExists => "this content is already claimed"@,
                DispatchError::ClaimNotExists => "claim does not exist"@,
                DispatchError::NotClaimOwner => "this content is owned by someone else"@,
            },
    {
        match self {
            DispatchError::BlockNumberMismatch => "block number does not match what is expected",
            DispatchError::InsufficientBalance => "Not enough funds.",
            DispatchError::Overflow => "Overflow",
            DispatchError::ClaimAlreadyExists => "this content is already claimed",
            DispatchError::ClaimNotExists => "claim does not exist",
            DispatchError::NotClaimOwner => "this content is owned by someone else",
        }
    }
}

/// The head of a block: the number it claims.
#[derive(Debug)]
pub struct Header<BlockNumber> {
    pub block_number: BlockNumber,
}

/// One operation, and the account that submits it.
#[derive(Debug)]
pub struct Extrinsic<Caller, Call> {
    pub caller: Caller,
    pub call: Call,
}

/// A header and the extrinsics to execute under it, in order.
#[derive(Debug)]
pub struct Block<Header, Extrinsic> {
    pub header: Header,
    pub extrinsics: Vec<Extrinsic>,
}

} // verus!
