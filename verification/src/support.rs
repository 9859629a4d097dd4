//! Shared runtime primitives: the dispatch error taxonomy and the record in
//! which the block executor reports a failed extrinsic.

use vstd::prelude::*;

verus! {

/// Why a dispatched call, or a whole block, was rejected.
#[derive(Clone, Copy, Debug, PartialEq, Eq, Structural)]
pub enum DispatchError {
    /// A transfer would overdraw the sending account.
    InsufficientFunds,
    /// A transfer would overflow the receiving account.
    Overflow,
    /// The content is already claimed.
    ClaimAlreadyExists,
    /// The content is not claimed at all.
    ClaimNotFound,
    /// The content is claimed, but not by the caller.
    NotClaimOwner,
    /// The block's stated number does not continue the chain.
    BlockNumberMismatch,
}

/// The outcome of dispatching one call.
pub type DispatchResult = Result<(), DispatchError>;

/// The message text for each error kind.
pub open spec fn spec_message(e: DispatchError) -> Seq<char> {
    match e {
        DispatchError::InsufficientFunds => "Not enough funds"@,
        DispatchError::Overflow => "Amount is too large"@,
        DispatchError::ClaimAlreadyExists => "Claim already exists"@,
        DispatchError::ClaimNotFound => "Claim does not exist"@,
        DispatchError::NotClaimOwner => "Not the owner"@,
        DispatchError::BlockNumberMismatch => "The imported block number doesn't match the current's"@,
    }
}

impl DispatchError {
    /// A human-readable description of the error.
    pub fn message(&self) -> (r: &'static str)
        ensures
            r@ == spec_message(*self),
    {
        match self {
            DispatchError::InsufficientFunds => "Not enough funds",
            DispatchError::Overflow => "Amount is too large",
            DispatchError::ClaimAlreadyExists => "Claim already exists",
            DispatchError::ClaimNotFound => "Claim does not exist",
            DispatchError::NotClaimOwner => "Not the owner",
            DispatchError::BlockNumberMismatch => "The imported block number doesn't match the current's",
        }
    }
}

/// One failed extrinsic, reported by the block executor while the rest of the
/// block goes on: the block it happened in, the zero-based position of the
/// extrinsic in that block, and the error the pallet returned.
#[derive(Clone, Copy, Debug, PartialEq, Eq, Structural)]
pub struct ExtrinsicFailure {
    pub block_number: u32,
    pub index: usize,
    pub error: DispatchError,
}

} // verus!
