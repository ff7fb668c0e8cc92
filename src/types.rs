use vstd::prelude::*;

verus! {

/// Who acts: an account's name.
pub type AccountId = String;

/// An amount of funds.
pub type Balance = u128;

/// The number of a block.
pub type BlockNumber = u32;

/// How many extrinsics an account has authored.
pub type Nonce = u32;

/// What a claim is made on.
pub type Content = String;

} // verus!
