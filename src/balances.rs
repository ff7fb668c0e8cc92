use vstd::prelude::*;
use crate::keyed::KeyedStore;
use crate::support::{Dispatch, DispatchError, DispatchResult};
use crate::types::{AccountId, Balance};

verus! {

/// Relies on num's `CheckedAdd` for `u128`: the sum, or `None` where it
/// exceeds `u128::MAX`.
#[verifier::external_body]
fn checked_add(a: Balance, b: Balance) -> (r: Option<Balance>)
    ensures
        r == (if a + b <= u128::MAX {
            Some((a + b) as u128)
        } else {
            None::<u128>
        }),
{
    num::CheckedAdd::checked_add(&a, &b)
}

/// Relies on num's `CheckedSub` for `u128`: the difference, or `None` where
/// `b` exceeds `a`.
#[verifier::external_body]
fn checked_sub(a: Balance, b: Balance) -> (r: Option<Balance>)
    ensures
        r == (if b <= a {
            Some((a - b) as u128)
        } else {
            None::<u128>
        }),
{
    num::CheckedSub::checked_sub(&a, &b)
}

/// The balance of `who` in the ledger `m`: zero where it has no entry.
pub open spec fn balance_in(m: Map<Seq<char>, u128>, who: Seq<char>) -> u128 {
    if m.contains_key(who) {
        m[who]
    } else {
        0
    }
}

/// What a transfer does to the ledger `m`: the ledger after it, or the error.
///
/// The destination must have an entry; then the origin must hold the amount;
/// then the destination's balance must have room for it. The origin is
/// debited first and the destination credited after, so that a transfer to
/// oneself leaves the balance as it was.
pub open spec fn transfer_spec(
    m: Map<Seq<char>, u128>,
    origin: Seq<char>,
    destination: Seq<char>,
    amount: u128,
) -> Result<Map<Seq<char>, u128>, DispatchError> {
    if !m.contains_key(destination) {
        Err(DispatchError::UnknownDestination)
    } else if amount > balance_in(m, origin) {
        Err(DispatchError::InsufficientFunds)
    } else if balance_in(m, destination) + amount > u128::MAX {
        Err(DispatchError::BalanceOverflow)
    } else {
        let debited = m.insert(origin, (balance_in(m, origin) - amount) as u128);
        Ok(debited.insert(destination, (balance_in(debited, destination) + amount) as u128))
    }
}

/// A transfer that succeeds conserves the sum of the two balances it touches.
pub proof fn lemma_transfer_conserves(
    m: Map<Seq<char>, u128>,
    origin: Seq<char>,
    destination: Seq<char>,
    amount: u128,
)
    requires
        transfer_spec(m, origin, destination, amount) is Ok,
    ensures
        ({
            let after = transfer_spec(m, origin, destination, amount)->Ok_0;
            balance_in(after, origin) + balance_in(after, destination) == balance_in(m, origin)
                + balance_in(m, destination)
        }),
{
}

/// A transfer to an account without an entry fails with `UnknownDestination`,
/// whatever the amount.
pub proof fn lemma_transfer_needs_destination(
    m: Map<Seq<char>, u128>,
    origin: Seq<char>,
    destination: Seq<char>,
    amount: u128,
)
    requires
        !m.contains_key(destination),
    ensures
        transfer_spec(m, origin, destination, amount) == Err::<Map<Seq<char>, u128>, DispatchError>(
            DispatchError::UnknownDestination,
        ),
{
}

/// To an existing destination, a transfer fails with `InsufficientFunds`
/// exactly when the amount exceeds the origin's balance.
pub proof fn lemma_transfer_underflow(
    m: Map<Seq<char>, u128>,
    origin: Seq<char>,
    destination: Seq<char>,
    amount: u128,
)
    requires
        m.contains_key(destination),
    ensures
        transfer_spec(m, origin, destination, amount) == Err::<Map<Seq<char>, u128>, DispatchError>(
            DispatchError::InsufficientFunds,
        ) <==> amount > balance_in(m, origin),
{
}

/// To an existing destination, from an origin that holds the amount, a
/// transfer fails with `BalanceOverflow` exactly when the destination's
/// balance plus the amount exceeds `u128::MAX`.
pub proof fn lemma_transfer_overflow(
    m: Map<Seq<char>, u128>,
    origin: Seq<char>,
    destination: Seq<char>,
    amount: u128,
)
    requires
        m.contains_key(destination),
        amount <= balance_in(m, origin),
    ensures
        transfer_spec(m, origin, destination, amount) == Err::<Map<Seq<char>, u128>, DispatchError>(
            DispatchError::BalanceOverflow,
        ) <==> balance_in(m, destination) + amount > u128::MAX,
{
}

/// The ledger: a balance for each account that has been given one.
pub struct Pallet {
    balances: KeyedStore<Balance>,
}

impl View for Pallet {
    type V = Map<Seq<char>, u128>;

    closed spec fn view(&self) -> Map<Seq<char>, u128> {
        self.balances@
    }
}

impl Pallet {
    pub closed spec fn wf(&self) -> bool {
        self.balances.wf()
    }

    pub fn new() -> (r: Self)
        ensures
            r.wf(),
            r@ == Map::<Seq<char>, u128>::empty(),
    {
        Pallet { balances: KeyedStore::new() }
    }

    /// Gives `who` the balance `amount`; `who` has an entry from then on.
    pub fn set_balance(&mut self, who: &AccountId, amount: Balance)
        requires
            old(self).wf(),
        ensures
            final(self).wf(),
            final(self)@ == old(self)@.insert(who@, amount),
    {
        self.balances.insert(who.clone(), amount);
    }

    pub fn balance(&self, who: &AccountId) -> (r: Balance)
        requires
            self.wf(),
        ensures
            r == balance_in(self@, who@),
    {
        match self.balances.get(who) {
            Some(b) => *b,
            None => 0,
        }
    }

    /// Whether `who` has an entry, whatever its balance.
    pub fn account_exists(&self, who: &AccountId) -> (r: bool)
        requires
            self.wf(),
        ensures
            r == self@.contains_key(who@),
    {
        self.balances.contains_key(who)
    }

    /// Moves `amount` from `origin` to `destination`; on an error nothing changes.
    pub fn transfer_balance(
        &mut self,
        origin: AccountId,
        destination: AccountId,
        amount: Balance,
    ) -> (r: DispatchResult)
        requires
            old(self).wf(),
        ensures
            final(self).wf(),
            match transfer_spec(old(self)@, origin@, destination@, amount) {
                Ok(m) => r == Ok::<(), DispatchError>(()) && final(self)@ == m,
                Err(e) => r == Err::<(), DispatchError>(e) && final(self)@ == old(self)@,
            },
    {
        let origin_balance = self.balance(&origin);
        let destination_balance = self.balance(&destination);
        if !self.account_exists(&destination) {
            return Err(DispatchError::UnknownDestination);
        }
        let new_origin_balance = match checked_sub(origin_balance, amount) {
            Some(b) => b,
            None => return Err(DispatchError::InsufficientFunds),
        };
        if checked_add(destination_balance, amount).is_none() {
            return Err(DispatchError::BalanceOverflow);
        }
        self.set_balance(&origin, new_origin_balance);
        // Read again after the debit: for a transfer to oneself this is the
        // debited balance, which the credit restores.
        let current = self.balance(&destination);
        self.set_balance(&destination, current + amount);
        Ok(())
    }
}

/// The operations of the ledger that an extrinsic can call.
pub enum Call {
    Transfer { to: AccountId, amount: Balance },
}

impl Dispatch for Pallet {
    type Caller = AccountId;

    type Call = Call;

    open spec fn dispatchable(&self) -> bool {
        self.wf()
    }

    open spec fn dispatched(
        pre: Self,
        caller: AccountId,
        call: Call,
        post: Self,
        r: DispatchResult,
    ) -> bool {
        match call {
            Call::Transfer { to, amount } => match transfer_spec(pre@, caller@, to@, amount) {
                Ok(m) => r == Ok::<(), DispatchError>(()) && post@ == m,
                Err(e) => r == Err::<(), DispatchError>(e) && post@ == pre@,
            },
        }
    }

    fn dispatch(&mut self, caller: AccountId, call: Call) -> (r: DispatchResult) {
        match call {
            Call::Transfer { to, amount } => self.transfer_balance(caller, to, amount),
        }
    }
}

} // verus!
