use vstd::prelude::*;
use crate::balances;
use crate::balances::transfer_spec;
use crate::proof_of_existence;
use crate::proof_of_existence::{create_claim_spec, revoke_claim_spec};
use crate::support::{Dispatch, DispatchError, DispatchResult};
use crate::system;
use crate::system::nonce_in;
use crate::types::{AccountId, BlockNumber};

verus! {

/// A call that an extrinsic makes: which module, and that module's call.
pub enum RuntimeCall {
    Balances(balances::Call),
    ProofOfExistence(proof_of_existence::Call),
}

pub type Header = crate::support::Header<BlockNumber>;

pub type Extrinsic = crate::support::Extrinsic<AccountId, RuntimeCall>;

pub type Block = crate::support::Block<Header, Extrinsic>;

/// The whole state of a runtime, as mathematical values.
pub struct RuntimeState {
    pub block_number: u32,
    pub nonces: Map<Seq<char>, u32>,
    pub balances: Map<Seq<char>, u128>,
    pub claims: Map<Seq<char>, Seq<char>>,
}

/// What dispatching `call` by `caller` does: the state after it and the result.
/// A failed call leaves the state as it was.
pub open spec fn dispatch_spec(
    s: RuntimeState,
    caller: Seq<char>,
    call: RuntimeCall,
) -> (RuntimeState, DispatchResult) {
    match call {
        RuntimeCall::Balances(balances::Call::Transfer { to, amount }) => {
            match transfer_spec(s.balances, caller, to@, amount) {
                Ok(m) => (RuntimeState { balances: m, ..s }, Ok(())),
                Err(e) => (s, Err(e)),
            }
        },
        RuntimeCall::ProofOfExistence(c) => {
            let outcome = match c {
                proof_of_existence::Call::CreateClaim { claim } => create_claim_spec(
                    s.claims,
                    caller,
                    claim@,
                ),
                proof_of_existence::Call::RevokeClaim { claim } => revoke_claim_spec(
                    s.claims,
                    caller,
                    claim@,
                ),
            };
            match outcome {
                Ok(m) => (RuntimeState { claims: m, ..s }, Ok(())),
                Err(e) => (s, Err(e)),
            }
        },
    }
}

/// What one extrinsic does: the caller's nonce goes up by one, whatever
/// becomes of the call; then the call is dispatched.
pub open spec fn apply_extrinsic(s: RuntimeState, x: Extrinsic) -> (RuntimeState, DispatchResult) {
    let counted = RuntimeState {
        nonces: s.nonces.insert(x.caller@, (nonce_in(s.nonces, x.caller@) + 1) as u32),
        ..s
    };
    dispatch_spec(counted, x.caller@, x.call)
}

/// The extrinsics `xs` applied in order: the final state and each result.
pub open spec fn apply_extrinsics(s: RuntimeState, xs: Seq<Extrinsic>) -> (RuntimeState, Seq<
    DispatchResult,
>)
    decreases xs.len(),
{
    if xs.len() == 0 {
        (s, Seq::empty())
    } else {
        let (before, results) = apply_extrinsics(s, xs.drop_last());
        let (after, r) = apply_extrinsic(before, xs.last());
        (after, results.push(r))
    }
}

/// How many of the extrinsics `xs` `who` authored.
pub open spec fn authored(xs: Seq<Extrinsic>, who: Seq<char>) -> nat
    decreases xs.len(),
{
    if xs.len() == 0 {
        0
    } else {
        authored(xs.drop_last(), who) + if xs.last().caller@ == who {
            1nat
        } else {
            0nat
        }
    }
}

/// What executing the block `b` does. The block number goes up first, and
/// stays up even where the header does not match: then no extrinsic runs.
/// Otherwise each extrinsic runs in order, and the block succeeds whatever
/// their results.
pub open spec fn execute_block_spec(s: RuntimeState, b: Block) -> (RuntimeState, Result<
    Seq<DispatchResult>,
    DispatchError,
>) {
    let advanced = RuntimeState { block_number: (s.block_number + 1) as u32, ..s };
    if b.header.block_number != advanced.block_number {
        (advanced, Err(DispatchError::BlockNumberMismatch))
    } else {
        let (after, results) = apply_extrinsics(advanced, b.extrinsics@);
        (after, Ok(results))
    }
}

/// Whether no account's nonce would pass `u32::MAX` while `xs` run from `s`.
pub open spec fn nonces_fit(s: RuntimeState, xs: Seq<Extrinsic>) -> bool {
    forall|a: Seq<char>| nonce_in(s.nonces, a) + #[trigger] authored(xs, a) <= u32::MAX
}

/// A dispatched call leaves the block number and the nonces as they were.
pub proof fn lemma_dispatch_keeps_counters(s: RuntimeState, caller: Seq<char>, call: RuntimeCall)
    ensures
        dispatch_spec(s, caller, call).0.block_number == s.block_number,
        dispatch_spec(s, caller, call).0.nonces == s.nonces,
{
}

/// A prefix of `xs` holds no more extrinsics of `who` than `xs` does.
pub proof fn lemma_authored_prefix(xs: Seq<Extrinsic>, k: int, who: Seq<char>)
    requires
        0 <= k <= xs.len(),
    ensures
        authored(xs.take(k), who) <= authored(xs, who),
    decreases xs.len(),
{
    if k == xs.len() {
        assert(xs.take(k) =~= xs);
    } else {
        assert(xs.drop_last().take(k) =~= xs.take(k));
        lemma_authored_prefix(xs.drop_last(), k, who);
    }
}

/// Where all of `xs` fits, so does any prefix of it.
pub proof fn lemma_fit_prefix(s: RuntimeState, xs: Seq<Extrinsic>, k: int)
    requires
        0 <= k <= xs.len(),
        nonces_fit(s, xs),
    ensures
        nonces_fit(s, xs.take(k)),
{
    assert forall|a: Seq<char>| nonce_in(s.nonces, a) + #[trigger] authored(xs.take(k), a) <= u32::MAX by {
        lemma_authored_prefix(xs, k, a);
    }
}

/// An account that authored anything in `xs` is the caller of one of them.
pub proof fn lemma_authored_has_witness(xs: Seq<Extrinsic>, who: Seq<char>)
    requires
        authored(xs, who) > 0,
    ensures
        exists|j: int| 0 <= j < xs.len() && (#[trigger] xs[j]).caller@ == who,
    decreases xs.len(),
{
    if xs.last().caller@ != who {
        lemma_authored_has_witness(xs.drop_last(), who);
        let j = choose|j: int| 0 <= j < xs.drop_last().len() && (#[trigger] xs.drop_last()[j]).caller@ == who;
        assert(xs[j] == xs.drop_last()[j]);
    } else {
        assert(xs[xs.len() - 1].caller@ == who);
    }
}

/// Running `xs` raises each account's nonce by the number of extrinsics it
/// authored, whatever became of their calls, and leaves the block number.
pub proof fn lemma_nonces_count_authored(s: RuntimeState, xs: Seq<Extrinsic>)
    requires
        nonces_fit(s, xs),
    ensures
        apply_extrinsics(s, xs).0.block_number == s.block_number,
        forall|a: Seq<char>|
            #[trigger] nonce_in(apply_extrinsics(s, xs).0.nonces, a) == nonce_in(s.nonces, a)
                + authored(xs, a),
    decreases xs.len(),
{
    if xs.len() > 0 {
        let init = xs.drop_last();
        assert forall|a: Seq<char>| nonce_in(s.nonces, a) + #[trigger] authored(init, a) <= u32::MAX by {
            assert(authored(init, a) <= authored(xs, a));
        }
        lemma_nonces_count_authored(s, init);
        let before = apply_extrinsics(s, init).0;
        let x = xs.last();
        let counted = RuntimeState {
            nonces: before.nonces.insert(x.caller@, (nonce_in(before.nonces, x.caller@) + 1) as u32),
            ..before
        };
        lemma_dispatch_keeps_counters(counted, x.caller@, x.call);
        assert(apply_extrinsics(s, xs).0 == dispatch_spec(counted, x.caller@, x.call).0);
        assert forall|a: Seq<char>|
            #[trigger] nonce_in(apply_extrinsics(s, xs).0.nonces, a) == nonce_in(s.nonces, a)
                + authored(xs, a) by {
            assert(authored(xs, a) == authored(init, a) + if x.caller@ == a {
                1nat
            } else {
                0nat
            });
            assert(nonce_in(s.nonces, a) + authored(xs, a) <= u32::MAX);
            assert(nonce_in(before.nonces, a) == nonce_in(s.nonces, a) + authored(init, a));
            assert(nonce_in(counted.nonces, a) == nonce_in(before.nonces, a) + if x.caller@ == a {
                1nat
            } else {
                0nat
            });
        }
    }
}

/// A block whose header number is not the one after the current block fails
/// with `BlockNumberMismatch`, runs none of its extrinsics and leaves ledger,
/// claims and nonces as they were; the block number still advances.
pub proof fn lemma_mismatched_block_changes_nothing(s: RuntimeState, b: Block)
    requires
        s.block_number < u32::MAX,
        b.header.block_number != s.block_number + 1,
    ensures
        execute_block_spec(s, b).1 == Err::<Seq<DispatchResult>, DispatchError>(
            DispatchError::BlockNumberMismatch,
        ),
        execute_block_spec(s, b).0.balances == s.balances,
        execute_block_spec(s, b).0.claims == s.claims,
        execute_block_spec(s, b).0.nonces == s.nonces,
        execute_block_spec(s, b).0.block_number == s.block_number + 1,
{
}

/// The state after the blocks `bs` are executed in order from `s`.
pub open spec fn execute_blocks_spec(s: RuntimeState, bs: Seq<Block>) -> RuntimeState
    decreases bs.len(),
{
    if bs.len() == 0 {
        s
    } else {
        execute_block_spec(execute_blocks_spec(s, bs.drop_last()), bs.last()).0
    }
}

/// How many extrinsics `who` authored in those of the blocks `bs` whose
/// header matched when they ran from `s`: the block at index `k` runs as
/// block number `s.block_number + k + 1`.
pub open spec fn authored_in_blocks(s: RuntimeState, bs: Seq<Block>, who: Seq<char>) -> nat
    decreases bs.len(),
{
    if bs.len() == 0 {
        0
    } else {
        authored_in_blocks(s, bs.drop_last(), who) + if bs.last().header.block_number
            == s.block_number + bs.len() {
            authored(bs.last().extrinsics@, who)
        } else {
            0nat
        }
    }
}

/// Across any number of blocks, each account's nonce rises by the number of
/// extrinsics it authored in the blocks that ran, whatever became of their
/// calls; the block number rises by one per block.
pub proof fn lemma_nonces_across_blocks(s: RuntimeState, bs: Seq<Block>)
    requires
        s.block_number + bs.len() <= u32::MAX,
        forall|a: Seq<char>| nonce_in(s.nonces, a) + #[trigger] authored_in_blocks(s, bs, a) <= u32::MAX,
    ensures
        execute_blocks_spec(s, bs).block_number == s.block_number + bs.len(),
        forall|a: Seq<char>|
            #[trigger] nonce_in(execute_blocks_spec(s, bs).nonces, a) == nonce_in(s.nonces, a)
                + authored_in_blocks(s, bs, a),
    decreases bs.len(),
{
    if bs.len() > 0 {
        let init = bs.drop_last();
        assert forall|a: Seq<char>|
            nonce_in(s.nonces, a) + #[trigger] authored_in_blocks(s, init, a) <= u32::MAX by {
            assert(authored_in_blocks(s, init, a) <= authored_in_blocks(s, bs, a));
        }
        lemma_nonces_across_blocks(s, init);
        let before = execute_blocks_spec(s, init);
        let b = bs.last();
        let advanced = RuntimeState { block_number: (before.block_number + 1) as u32, ..before };
        if b.header.block_number == advanced.block_number {
            assert forall|a: Seq<char>|
                nonce_in(advanced.nonces, a) + #[trigger] authored(b.extrinsics@, a) <= u32::MAX by {
                assert(nonce_in(before.nonces, a) == nonce_in(s.nonces, a) + authored_in_blocks(s, init, a));
                assert(authored_in_blocks(s, bs, a) == authored_in_blocks(s, init, a) + authored(
                    b.extrinsics@,
                    a,
                ));
                assert(nonce_in(s.nonces, a) + authored_in_blocks(s, bs, a) <= u32::MAX);
            }
            lemma_nonces_count_authored(advanced, b.extrinsics@);
            assert forall|a: Seq<char>|
                #[trigger] nonce_in(execute_blocks_spec(s, bs).nonces, a) == nonce_in(s.nonces, a)
                    + authored_in_blocks(s, bs, a) by {
                assert(nonce_in(before.nonces, a) == nonce_in(s.nonces, a) + authored_in_blocks(s, init, a));
                assert(nonce_in(advanced.nonces, a) == nonce_in(before.nonces, a));
            }
        } else {
            assert forall|a: Seq<char>|
                #[trigger] nonce_in(execute_blocks_spec(s, bs).nonces, a) == nonce_in(s.nonces, a)
                    + authored_in_blocks(s, bs, a) by {
                assert(nonce_in(before.nonces, a) == nonce_in(s.nonces, a) + authored_in_blocks(s, init, a));
            }
        }
    }
}

/// The runtime: a block counter with nonces, a ledger, and a claim registry.
pub struct Runtime {
    pub system: system::Pallet,
    pub balances: balances::Pallet,
    pub proof_of_existence: proof_of_existence::Pallet,
}

impl View for Runtime {
    type V = RuntimeState;

    open spec fn view(&self) -> RuntimeState {
        RuntimeState {
            block_number: self.system.spec_block_number(),
            nonces: self.system.nonces(),
            balances: self.balances@,
            claims: self.proof_of_existence@,
        }
    }
}

impl Runtime {
    pub open spec fn wf(&self) -> bool {
        &&& self.system.wf()
        &&& self.balances.wf()
        &&& self.proof_of_existence.wf()
    }

    pub fn new() -> (r: Self)
        ensures
            r.wf(),
            r@ == (RuntimeState {
                block_number: 0,
                nonces: Map::empty(),
                balances: Map::empty(),
                claims: Map::empty(),
            }),
    {
        Runtime {
            system: system::Pallet::new(),
            balances: balances::Pallet::new(),
            proof_of_existence: proof_of_existence::Pallet::new(),
        }
    }
    /// How many of the extrinsics `xs` `who` authored.
    pub fn count_authored(xs: &Vec<Extrinsic>, who: &AccountId) -> (r: usize)
        ensures
            r == authored(xs@, who@),
    {
        let mut count: usize = 0;
        let mut j: usize = 0;
        while j < xs.len()
            invariant
                j <= xs@.len(),
                count <= j,
                count == authored(xs@.take(j as int), who@),
            decreases xs@.len() - j,
        {
            proof {
                assert(xs@.take(j + 1).drop_last() =~= xs@.take(j as int));
            }
            if xs[j].caller == *who {
                count = count + 1;
            }
            j = j + 1;
        }
        proof {
            assert(xs@.take(j as int) =~= xs@);
        }
        count
    }

    /// Whether `block` can run without the block number or any nonce passing
    /// `u32::MAX`: what `execute_block` asks of its caller.
    pub fn fits_counters(&self, block: &Block) -> (r: bool)
        requires
            self.wf(),
        ensures
            r == (self@.block_number < u32::MAX && nonces_fit(self@, block.extrinsics@)),
    {
        if self.system.block_number() == u32::MAX {
            return false;
        }
        let mut i: usize = 0;
        while i < block.extrinsics.len()
            invariant
                self.wf(),
                i <= block.extrinsics@.len(),
                forall|j: int|
                    0 <= j < i ==> {
                        let who = (#[trigger] block.extrinsics@[j]).caller@;
                        nonce_in(self@.nonces, who) + authored(block.extrinsics@, who) <= u32::MAX
                    },
            decreases block.extrinsics@.len() - i,
        {
            let who = &block.extrinsics[i].caller;
            let count = Self::count_authored(&block.extrinsics, who);
            let nonce = self.system.get_nonce(who);
            if nonce as u128 + count as u128 > u32::MAX as u128 {
                proof {
                    if nonces_fit(self@, block.extrinsics@) {
                        assert(nonce_in(self@.nonces, who@) + authored(block.extrinsics@, who@)
                            <= u32::MAX);
                    }
                }
                return false;
            }
            i = i + 1;
        }
        proof {
            let xs = block.extrinsics@;
            assert forall|a: Seq<char>| nonce_in(self@.nonces, a) + #[trigger] authored(xs, a) <= u32::MAX by {
                if authored(xs, a) > 0 {
                    lemma_authored_has_witness(xs, a);
                    let j = choose|j: int| 0 <= j < xs.len() && (#[trigger] xs[j]).caller@ == a;
                    assert(xs[j] == block.extrinsics@[j]);
                }
            }
        }
        true
    }

    /// Executes `block` and returns the result of each of its extrinsics, in
    /// order, or the block's own error.
    pub fn execute_block_outcomes(&mut self, block: Block) -> (r: Result<
        Vec<DispatchResult>,
        DispatchError,
    >)
        requires
            old(self).wf(),
            old(self)@.block_number < u32::MAX,
            nonces_fit(old(self)@, block.extrinsics@),
        ensures
            final(self).wf(),
            final(self)@ == execute_block_spec(old(self)@, block).0,
            match execute_block_spec(old(self)@, block).1 {
                Ok(results) => r is Ok && r->Ok_0@ == results,
                Err(e) => r == Err::<Vec<DispatchResult>, DispatchError>(e),
            },
    {
        self.system.inc_block_number();
        // The increment stands even where the header is refused below.
        if block.header.block_number != self.system.block_number() {
            return Err(DispatchError::BlockNumberMismatch);
        }
        let ghost start = self@;
        let ghost xs = block.extrinsics@;
        let n = block.extrinsics.len();
        let mut rest = block.extrinsics;
        // Reverse the extrinsics, so that popping yields them in order.
        let mut pending: Vec<Extrinsic> = Vec::new();
        while rest.len() > 0
            invariant
                rest@ == xs.take(rest@.len() as int),
                rest@.len() + pending@.len() == n,
                n == xs.len(),
                forall|j: int| 0 <= j < pending@.len() ==> pending@[j] == xs[n - 1 - j],
            decreases rest@.len(),
        {
            let x = rest.pop().unwrap();
            pending.push(x);
        }
        let mut results: Vec<DispatchResult> = Vec::new();
        let mut i: usize = 0;
        proof {
            assert(xs.take(0) =~= Seq::<Extrinsic>::empty());
            lemma_nonces_count_authored(start, xs.take(0));
        }
        while pending.len() > 0
            invariant
                self.wf(),
                n == xs.len(),
                i + pending@.len() == n,
                forall|j: int| 0 <= j < pending@.len() ==> pending@[j] == xs[n - 1 - j],
                nonces_fit(start, xs),
                self@ == apply_extrinsics(start, xs.take(i as int)).0,
                results@ == apply_extrinsics(start, xs.take(i as int)).1,
                forall|a: Seq<char>|
                    #[trigger] nonce_in(self@.nonces, a) == nonce_in(start.nonces, a)
                        + authored(xs.take(i as int), a),
            decreases pending@.len(),
        {
            let x = pending.pop().unwrap();
            let ghost before = self@;
            proof {
                assert(x == xs[i as int]);
                assert(xs.take(i + 1).drop_last() =~= xs.take(i as int));
                assert(xs.take(i + 1).last() == x);
                lemma_authored_prefix(xs, i + 1, x.caller@);
                assert(authored(xs.take(i + 1), x.caller@) == authored(xs.take(i as int), x.caller@)
                    + 1);
                assert(nonce_in(start.nonces, x.caller@) + authored(xs, x.caller@) <= u32::MAX);
                assert(nonce_in(self@.nonces, x.caller@) == nonce_in(start.nonces, x.caller@)
                    + authored(xs.take(i as int), x.caller@));
            }
            self.system.inc_nonce(&x.caller);
            let r = self.dispatch(x.caller, x.call);
            results.push(r);
            i = i + 1;
            proof {
                lemma_fit_prefix(start, xs, i as int);
                lemma_nonces_count_authored(start, xs.take(i as int));
            }
        }
        proof {
            assert(xs.take(n as int) =~= xs);
        }
        Ok(results)
    }

    /// Executes `block`: fails only where its header number is not the one
    /// that follows the current block. The extrinsics' own failures do not
    /// fail the block.
    pub fn execute_block(&mut self, block: Block) -> (r: DispatchResult)
        requires
            old(self).wf(),
            old(self)@.block_number < u32::MAX,
            nonces_fit(old(self)@, block.extrinsics@),
        ensures
            final(self).wf(),
            final(self)@ == execute_block_spec(old(self)@, block).0,
            match execute_block_spec(old(self)@, block).1 {
                Ok(_) => r == Ok::<(), DispatchError>(()),
                Err(e) => r == Err::<(), DispatchError>(e),
            },
    {
        match self.execute_block_outcomes(block) {
            Ok(_) => Ok(()),
            Err(e) => Err(e),
        }
    }
}

impl Dispatch for Runtime {
    type Caller = AccountId;

    type Call = RuntimeCall;

    open spec fn dispatchable(&self) -> bool {
        self.wf()
    }

    open spec fn dispatched(
        pre: Self,
        caller: AccountId,
        call: RuntimeCall,
        post: Self,
        r: DispatchResult,
    ) -> bool {
        (post@, r) == dispatch_spec(pre@, caller@, call)
    }

    fn dispatch(&mut self, caller: AccountId, call: RuntimeCall) -> (r: DispatchResult) {
        match call {
            RuntimeCall::Balances(c) => self.balances.dispatch(caller, c),
            RuntimeCall::ProofOfExistence(c) => self.proof_of_existence.dispatch(caller, c),
        }
    }
}

} // verus!
