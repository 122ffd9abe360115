//! The concrete types that the runtime and all of its pallets share.

use crate::runtime::RuntimeCall;
use crate::support;
use vstd::prelude::*;

verus! {

/// The identity of an account.
pub type AccountId = String;

/// The balance of an account.
pub type Balance = u128;

/// The height of a block.
pub type BlockNumber = u32;

/// The number of extrinsics an account has submitted.
pub type Nonce = u32;

/// The content that can be claimed.
pub type Content = String;

/// An extrinsic of the runtime.
pub type Extrinsic = support::Extrinsic<AccountId, RuntimeCall>;

/// A block header of the runtime.
pub type Header = support::Header<BlockNumber>;

/// A block of the runtime.
pub type Block = support::Block<Header, Extrinsic>;

} // verus!
