use vstd::prelude::*;

verus! {

/// Why an operation was refused.
#[derive(Debug, Clone, Copy, PartialEq, Eq, Structural)]
pub enum DispatchError {
    /// A transfer's destination has never been given a balance.
    UnknownDestination,
    /// A transfer's amount exceeds the origin's balance.
    InsufficientFunds,
    /// A transfer would take the destination's balance past the largest balance.
    BalanceOverflow,
    /// The content is already claimed, by anyone.
    AlreadyClaimed,
    /// The content has no claim to revoke.
    NoSuchClaim,
    /// The content is claimed by another account.
    NotOwner,
    /// A block's header number is not the one that follows the current block.
    BlockNumberMismatch,
}

/// The human-readable text of each error.
pub open spec fn error_text(e: DispatchError) -> Seq<char> {
    match e {
        DispatchError::UnknownDestination => "Account doesn't exist."@,
        DispatchError::InsufficientFunds => "Not enough funds."@,
        DispatchError::BalanceOverflow => "Reached limit amount on origin."@,
        DispatchError::AlreadyClaimed => "Content already claimed."@,
        DispatchError::NoSuchClaim => "No owner for that claim."@,
        DispatchError::NotOwner => "Claim can't be revoked, since doesn't belongs to caller."@,
        DispatchError::BlockNumberMismatch => "block number doesn't match"@,
    }
}

impl DispatchError {
    pub fn message(&self) -> (r: &'static str)
        ensures
            r@ == error_text(*self),
    {
        match self {
            DispatchError::UnknownDestination => "Account doesn't exist.",
            DispatchError::InsufficientFunds => "Not enough funds.",
            DispatchError::BalanceOverflow => "Reached limit amount on origin.",
            DispatchError::AlreadyClaimed => "Content already claimed.",
            DispatchError::NoSuchClaim => "No owner for that claim.",
            DispatchError::NotOwner => "Claim can't be revoked, since doesn't belongs to caller.",
            DispatchError::BlockNumberMismatch => "block number doesn't match",
        }
    }
}

/// The outcome of one operation.
pub type DispatchResult = Result<(), DispatchError>;

/// Routes a call made by a caller to the operation that the call names.
pub trait Dispatch: Sized {
    /// Who makes the call.
    type Caller;

    /// What is called.
    type Call;

    /// The states on which `dispatch` may run.
    spec fn dispatchable(&self) -> bool;

    /// What `dispatch` does: from `pre`, the call by `caller` leads to `post`
    /// with result `r`.
    spec fn dispatched(
        pre: Self,
        caller: Self::Caller,
        call: Self::Call,
        post: Self,
        r: DispatchResult,
    ) -> bool;

    fn dispatch(&mut self, caller: Self::Caller, call: Self::Call) -> (r: DispatchResult)
        requires
            old(self).dispatchable(),
        ensures
            final(self).dispatchable(),
            Self::dispatched(*old(self), caller, call, *final(self), r),
    ;
}

/// A block header: the number of the block.
pub struct Header<BlockNumber> {
    pub block_number: BlockNumber,
}

/// One operation of a block: who calls, and what.
pub struct Extrinsic<Caller, Call> {
    pub caller: Caller,
    pub call: Call,
}

/// A header and the extrinsics to run, in order.
pub struct Block<Header, Extrinsic> {
    pub header: Header,
    pub extrinsics: Vec<Extrinsic>,
}

} // verus!
