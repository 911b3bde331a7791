//! The concrete types that the runtime fixes for all of its modules.

use vstd::prelude::*;

verus! {

/// Who submits an extrinsic and who holds a balance or a claim.
pub type AccountId = String;

/// What an account holds.
pub type Balance = u128;

/// The height of the chain.
pub type BlockNumber = u32;

/// How many extrinsics an account has submitted.
pub type Nonce = u32;

/// What can be claimed.
pub type Content = String;

/// An extrinsic of the runtime.
pub type Extrinsic = crate::utils::Extrinsic<AccountId, crate::runtime::RuntimeCall>;

/// A header of the runtime.
pub type Header = crate::utils::Header<BlockNumber>;

/// A block of the runtime.
pub type Block = crate::utils::Block<Header, Extrinsic>;

} // verus!
