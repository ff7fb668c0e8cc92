use vstd::prelude::*;
use crate::keyed::KeyedStore;
use crate::support::{Dispatch, DispatchError, DispatchResult};
use crate::types::{AccountId, Content};

verus! {

/// What creating a claim on `content` by `caller` does to the registry `m`.
pub open spec fn create_claim_spec(
    m: Map<Seq<char>, Seq<char>>,
    caller: Seq<char>,
    content: Seq<char>,
) -> Result<Map<Seq<char>, Seq<char>>, DispatchError> {
    if m.contains_key(content) {
        Err(DispatchError::AlreadyClaimed)
    } else {
        Ok(m.insert(content, caller))
    }
}

/// What revoking the claim on `content` by `caller` does to the registry `m`.
pub open spec fn revoke_claim_spec(
    m: Map<Seq<char>, Seq<char>>,
    caller: Seq<char>,
    content: Seq<char>,
) -> Result<Map<Seq<char>, Seq<char>>, DispatchError> {
    if !m.contains_key(content) {
        Err(DispatchError::NoSuchClaim)
    } else if m[content] != caller {
        Err(DispatchError::NotOwner)
    } else {
        Ok(m.remove(content))
    }
}

/// Once content is claimed, a second claim on it fails, whoever makes it.
pub proof fn lemma_claim_is_exclusive(
    m: Map<Seq<char>, Seq<char>>,
    first: Seq<char>,
    second: Seq<char>,
    content: Seq<char>,
)
    requires
        create_claim_spec(m, first, content) is Ok,
    ensures
        create_claim_spec(create_claim_spec(m, first, content)->Ok_0, second, content) == Err::<
            Map<Seq<char>, Seq<char>>,
            DispatchError,
        >(DispatchError::AlreadyClaimed),
{
}

/// After its owner revokes a claim, anyone may claim the content anew.
pub proof fn lemma_revoke_frees_content(
    m: Map<Seq<char>, Seq<char>>,
    newcomer: Seq<char>,
    content: Seq<char>,
)
    requires
        m.contains_key(content),
    ensures
        revoke_claim_spec(m, m[content], content) is Ok,
        create_claim_spec(revoke_claim_spec(m, m[content], content)->Ok_0, newcomer, content)
            == Ok::<Map<Seq<char>, Seq<char>>, DispatchError>(m.remove(content).insert(content, newcomer)),
{
}

/// The claim registry: the owner of each claimed content.
pub struct Pallet {
    claims: KeyedStore<AccountId>,
}

impl View for Pallet {
    type V = Map<Seq<char>, Seq<char>>;

    /// From each claimed content to its owner.
    closed spec fn view(&self) -> Map<Seq<char>, Seq<char>> {
        self.claims@.map_values(|owner: AccountId| owner@)
    }
}

impl Pallet {
    pub closed spec fn wf(&self) -> bool {
        self.claims.wf()
    }

    pub fn new() -> (r: Self)
        ensures
            r.wf(),
            r@ == Map::<Seq<char>, Seq<char>>::empty(),
    {
        let r = Pallet { claims: KeyedStore::new() };
        proof {
            assert(r@ =~= Map::<Seq<char>, Seq<char>>::empty());
        }
        r
    }

    /// The owner of `claim`, if it is claimed.
    pub fn get_claim(&self, claim: &Content) -> (r: Option<&AccountId>)
        requires
            self.wf(),
        ensures
            match r {
                Some(owner) => self@.contains_key(claim@) && owner@ == self@[claim@],
                None => !self@.contains_key(claim@),
            },
    {
        self.claims.get(claim)
    }

    pub fn create_claim(&mut self, caller: AccountId, claim: Content) -> (r: DispatchResult)
        requires
            old(self).wf(),
        ensures
            final(self).wf(),
            match create_claim_spec(old(self)@, caller@, claim@) {
                Ok(m) => r == Ok::<(), DispatchError>(()) && final(self)@ == m,
                Err(e) => r == Err::<(), DispatchError>(e) && final(self)@ == old(self)@,
            },
    {
        if self.claims.contains_key(&claim) {
            return Err(DispatchError::AlreadyClaimed);
        }
        let ghost c = caller@;
        self.claims.insert(claim, caller);
        proof {
            assert(self@ =~= old(self)@.insert(claim@, c));
        }
        Ok(())
    }

    pub fn revoke_claim(&mut self, caller: AccountId, claim: Content) -> (r: DispatchResult)
        requires
            old(self).wf(),
        ensures
            final(self).wf(),
            match revoke_claim_spec(old(self)@, caller@, claim@) {
                Ok(m) => r == Ok::<(), DispatchError>(()) && final(self)@ == m,
                Err(e) => r == Err::<(), DispatchError>(e) && final(self)@ == old(self)@,
            },
    {
        match self.claims.get(&claim) {
            None => {
                return Err(DispatchError::NoSuchClaim);
            },
            Some(owner) => {
                if !(*owner == caller) {
                    return Err(DispatchError::NotOwner);
                }
            },
        }
        self.claims.remove(&claim);
        proof {
            assert(self@ =~= old(self)@.remove(claim@));
        }
        Ok(())
    }
}

/// The operations of the registry that an extrinsic can call.
pub enum Call {
    CreateClaim { claim: Content },
    RevokeClaim { claim: Content },
}

impl Dispatch for Pallet {
    type Caller = AccountId;

    type Call = Call;

    open spec fn dispatchable(&self) -> bool {
        self.wf()
    }

    open spec fn dispatched(
        pre: Self,
        caller: AccountId,
        call: Call,
        post: Self,
        r: DispatchResult,
    ) -> bool {
        let outcome = match call {
            Call::CreateClaim { claim } => create_claim_spec(pre@, caller@, claim@),
            Call::RevokeClaim { claim } => revoke_claim_spec(pre@, caller@, claim@),
        };
        match outcome {
            Ok(m) => r == Ok::<(), DispatchError>(()) && post@ == m,
            Err(e) => r == Err::<(), DispatchError>(e) && post@ == pre@,
        }
    }

    fn dispatch(&mut self, caller: AccountId, call: Call) -> (r: DispatchResult) {
        match call {
            Call::CreateClaim { claim } => self.create_claim(caller, claim),
            Call::RevokeClaim { claim } => self.revoke_claim(caller, claim),
        }
    }
}

} // verus!
