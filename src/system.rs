use vstd::prelude::*;
use crate::keyed::KeyedStore;
use crate::types::{AccountId, BlockNumber, Nonce};

verus! {

/// The nonce of `who` in `m`: zero where it has none yet.
pub open spec fn nonce_in(m: Map<Seq<char>, u32>, who: Seq<char>) -> u32 {
    if m.contains_key(who) {
        m[who]
    } else {
        0
    }
}

/// The block counter and the nonce of each account.
pub struct Pallet {
    block_number: BlockNumber,
    nonce: KeyedStore<Nonce>,
}

impl Pallet {
    pub closed spec fn wf(&self) -> bool {
        self.nonce.wf()
    }

    /// The number of the last block executed; zero before the first.
    pub closed spec fn spec_block_number(&self) -> u32 {
        self.block_number
    }

    /// The nonces of the accounts that have authored an extrinsic.
    pub closed spec fn nonces(&self) -> Map<Seq<char>, u32> {
        self.nonce@
    }

    pub fn new() -> (r: Self)
        ensures
            r.wf(),
            r.spec_block_number() == 0,
            r.nonces() == Map::<Seq<char>, u32>::empty(),
    {
        Pallet { block_number: 0, nonce: KeyedStore::new() }
    }

    pub fn block_number(&self) -> (r: BlockNumber)
        ensures
            r == self.spec_block_number(),
    {
        self.block_number
    }

    pub fn inc_block_number(&mut self)
        requires
            old(self).spec_block_number() < u32::MAX,
        ensures
            final(self).wf() == old(self).wf(),
            final(self).spec_block_number() == old(self).spec_block_number() + 1,
            final(self).nonces() == old(self).nonces(),
    {
        self.block_number = self.block_number + 1;
    }

    pub fn inc_nonce(&mut self, user: &AccountId)
        requires
            old(self).wf(),
            nonce_in(old(self).nonces(), user@) < u32::MAX,
        ensures
            final(self).wf(),
            final(self).spec_block_number() == old(self).spec_block_number(),
            final(self).nonces() == old(self).nonces().insert(
                user@,
                (nonce_in(old(self).nonces(), user@) + 1) as u32,
            ),
    {
        let nonce = self.get_nonce(user);
        self.nonce.insert(user.clone(), nonce + 1);
    }

    pub fn get_nonce(&self, user: &AccountId) -> (r: Nonce)
        requires
            self.wf(),
        ensures
            r == nonce_in(self.nonces(), user@),
    {
        match self.nonce.get(user) {
            Some(n) => *n,
            None => 0,
        }
    }
}

} // verus!
