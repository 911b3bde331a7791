//! The runtime: the modules under one owner, the routing of calls to them,
//! and the execution of blocks.

use vstd::prelude::*;
use crate::balances;
use crate::proof_of_existence;
use crate::system;
use crate::types::{AccountId, Block, BlockNumber, Extrinsic, Nonce};
use crate::utils::{DispatchError, DispatchResult};

verus! {

/// The state of all modules as mathematics.
pub struct State {
    /// Height and nonces.
    pub system: system::State,
    /// The balance of each account that has one.
    pub balances: Map<Seq<char>, nat>,
    /// The owner of each claimed content.
    pub claims: Map<Seq<char>, Seq<char>>,
}

/// The state of a new runtime: height zero, no nonce, no balance, no claim.
pub open spec fn initial() -> State {
    State { system: system::initial(), balances: Map::empty(), claims: Map::empty() }
}

/// Every operation that can be submitted, tagged by the module that owns it.
#[derive(Debug)]
pub enum RuntimeCall {
    Balances(balances::Call),
    ProofOfExistence(proof_of_existence::Call),
}

/// The result of routing `call` to its module.
pub open spec fn call_result(s: State, caller: Seq<char>, call: RuntimeCall) -> DispatchResult {
    match call {
        RuntimeCall::Balances(c) => balances::call_result(s.balances, caller, c),
        RuntimeCall::ProofOfExistence(c) => proof_of_existence::call_result(s.claims, caller, c),
    }
}

/// The state after routing `call` to its module: only that module's state
/// can differ.
pub open spec fn call_state(s: State, caller: Seq<char>, call: RuntimeCall) -> State {
    match call {
        RuntimeCall::Balances(c) => State {
            balances: balances::call_ledger(s.balances, caller, c),
            ..s
        },
        RuntimeCall::ProofOfExistence(c) => State {
            claims: proof_of_existence::call_claims(s.claims, caller, c),
            ..s
        },
    }
}

/// The state in which the call of an extrinsic is made: its caller's nonce
/// has been counted.
pub open spec fn counted(s: State, ext: Extrinsic) -> State {
    State { system: system::bump_nonce(s.system, ext.caller@), ..s }
}

/// The state after one extrinsic, whether its call succeeds or not.
pub open spec fn applied(s: State, ext: Extrinsic) -> State {
    call_state(counted(s, ext), ext.caller@, ext.call)
}

/// The state after a sequence of extrinsics, taken in order.
pub open spec fn applied_all(s: State, exts: Seq<Extrinsic>) -> State
    decreases exts.len(),
{
    if exts.len() == 0 {
        s
    } else {
        applied(applied_all(s, exts.drop_last()), exts.last())
    }
}

/// An extrinsic whose call was refused: where it stood, and why.
#[derive(Clone, Copy, Debug, PartialEq, Eq, Structural)]
pub struct Failure {
    /// The number of the enclosing block.
    pub block_number: BlockNumber,
    /// The place of the extrinsic in its block, from zero.
    pub index: usize,
    /// Why its call was refused.
    pub error: DispatchError,
}

/// The refused extrinsics of a sequence executed from `s`, in order.
pub open spec fn failures(s: State, exts: Seq<Extrinsic>, block_number: BlockNumber) -> Seq<
    Failure,
>
    decreases exts.len(),
{
    if exts.len() == 0 {
        Seq::empty()
    } else {
        let before = failures(s, exts.drop_last(), block_number);
        let ext = exts.last();
        match call_result(counted(applied_all(s, exts.drop_last()), ext), ext.caller@, ext.call) {
            Ok(_) => before,
            Err(error) => before.push(
                Failure { block_number, index: (exts.len() - 1) as usize, error },
            ),
        }
    }
}

/// The state once a block has begun: the height has grown by one.
pub open spec fn begun(s: State) -> State {
    State { system: system::next_block(s.system), ..s }
}

/// Whether a block carries the number that is due in `s`.
pub open spec fn accepts(s: State, block: Block) -> bool {
    block.header.block_number == s.system.block_number + 1
}

/// The state after a block: the height grows in any case, the extrinsics
/// are executed only where the header carries the number that is due.
pub open spec fn block_state(s: State, block: Block) -> State {
    if accepts(s, block) {
        applied_all(begun(s), block.extrinsics@)
    } else {
        begun(s)
    }
}

/// What executing a block reports: the refused extrinsics of an accepted
/// block, or the refusal of the block.
pub open spec fn block_result(s: State, block: Block) -> Result<Seq<Failure>, DispatchError> {
    if accepts(s, block) {
        Ok(failures(begun(s), block.extrinsics@, block.header.block_number))
    } else {
        Err(DispatchError::BlockNumberMismatch)
    }
}

/// How many extrinsics of a sequence `who` has submitted.
pub open spec fn submitted(exts: Seq<Extrinsic>, who: Seq<char>) -> nat
    decreases exts.len(),
{
    if exts.len() == 0 {
        0
    } else {
        submitted(exts.drop_last(), who) + if exts.last().caller@ == who {
            1nat
        } else {
            0nat
        }
    }
}

/// Whether the counters of `s` have room for `block`: the height can grow,
/// and, where the block is accepted, so can the nonce of each caller by the
/// number of its extrinsics.
pub open spec fn executable(s: State, block: Block) -> bool {
    &&& s.system.block_number < BlockNumber::MAX
    &&& accepts(s, block) ==> forall|who: Seq<char>|
        system::nonce_in(s.system.nonces, who) + #[trigger] submitted(block.extrinsics@, who)
            <= Nonce::MAX
}

/// Extrinsics leave the height alone and count, for each account, the
/// extrinsics it has submitted, whether their calls succeed or not.
pub proof fn lemma_nonce_counts(s: State, exts: Seq<Extrinsic>, who: Seq<char>)
    ensures
        applied_all(s, exts).system.block_number == s.system.block_number,
        system::nonce_in(applied_all(s, exts).system.nonces, who) == system::nonce_in(
            s.system.nonces,
            who,
        ) + submitted(exts, who),
    decreases exts.len(),
{
    if exts.len() > 0 {
        lemma_nonce_counts(s, exts.drop_last(), who);
    }
}

/// Conservation: no sequence of extrinsics changes the sum of all balances.
pub proof fn lemma_applied_conserves(s: State, exts: Seq<Extrinsic>)
    requires
        s.balances.dom().finite(),
    ensures
        applied_all(s, exts).balances.dom().finite(),
        balances::total(applied_all(s, exts).balances) == balances::total(s.balances),
    decreases exts.len(),
{
    if exts.len() > 0 {
        lemma_applied_conserves(s, exts.drop_last());
        let before = applied_all(s, exts.drop_last());
        let ext = exts.last();
        match ext.call {
            RuntimeCall::Balances(balances::Call::Transfer { to, amount }) => {
                balances::lemma_transfer_conserves(
                    before.balances,
                    ext.caller@,
                    to@,
                    amount as nat,
                );
            },
            RuntimeCall::ProofOfExistence(_) => {},
        }
    }
}

/// An account has submitted no more extrinsics in the first `n` of a
/// sequence than in all of it.
pub proof fn lemma_submitted_prefix(exts: Seq<Extrinsic>, n: int, who: Seq<char>)
    requires
        0 <= n <= exts.len(),
    ensures
        submitted(exts.take(n), who) <= submitted(exts, who),
    decreases exts.len(),
{
    if n == exts.len() {
        assert(exts.take(n) =~= exts);
    } else {
        lemma_submitted_prefix(exts.drop_last(), n, who);
        assert(exts.drop_last().take(n) =~= exts.take(n));
    }
}

/// A block raises the height by one, whether it is accepted or not. An
/// accepted block counts each caller's extrinsics; a refused one changes
/// nothing else. Neither changes the sum of all balances.
pub proof fn lemma_block(s: State, block: Block, who: Seq<char>)
    requires
        s.balances.dom().finite(),
    ensures
        block_state(s, block).system.block_number == s.system.block_number + 1,
        accepts(s, block) ==> system::nonce_in(block_state(s, block).system.nonces, who)
            == system::nonce_in(s.system.nonces, who) + submitted(block.extrinsics@, who),
        !accepts(s, block) ==> block_state(s, block) == begun(s) && block_result(s, block)
            == Err::<Seq<Failure>, DispatchError>(DispatchError::BlockNumberMismatch),
        block_state(s, block).balances.dom().finite(),
        balances::total(block_state(s, block).balances) == balances::total(s.balances),
{
    if accepts(s, block) {
        lemma_nonce_counts(begun(s), block.extrinsics@, who);
        lemma_applied_conserves(begun(s), block.extrinsics@);
    }
}

/// A refused block is fatal to itself only: the block that carries the
/// number then due is accepted.
pub proof fn lemma_refusal_recovers(s: State, refused: Block, next: Block)
    requires
        !accepts(s, refused),
        next.header.block_number == s.system.block_number + 2,
    ensures
        block_result(s, refused) is Err,
        block_state(s, refused) == begun(s),
        accepts(block_state(s, refused), next),
        block_result(block_state(s, refused), next) is Ok,
{
}

/// An account has submitted no more extrinsics of a sequence than it holds.
pub proof fn lemma_submitted_bound(exts: Seq<Extrinsic>, who: Seq<char>)
    ensures
        submitted(exts, who) <= exts.len(),
    decreases exts.len(),
{
    if exts.len() > 0 {
        lemma_submitted_bound(exts.drop_last(), who);
    }
}

/// An account that has submitted an extrinsic of a sequence is the caller
/// of one of them.
pub proof fn lemma_submitted_witness(exts: Seq<Extrinsic>, who: Seq<char>) -> (i: int)
    requires
        submitted(exts, who) > 0,
    ensures
        0 <= i < exts.len(),
        exts[i].caller@ == who,
    decreases exts.len(),
{
    if exts.last().caller@ == who {
        exts.len() - 1
    } else {
        lemma_submitted_witness(exts.drop_last(), who)
    }
}

/// Room enough: where the height can grow and every nonce can grow by the
/// length of the block, the block can be executed.
pub proof fn lemma_executable(s: State, block: Block)
    requires
        s.system.block_number < BlockNumber::MAX,
        forall|who: Seq<char>| #[trigger]
            system::nonce_in(s.system.nonces, who) + block.extrinsics@.len() <= Nonce::MAX,
    ensures
        executable(s, block),
{
    assert forall|who: Seq<char>|
        system::nonce_in(s.system.nonces, who) + #[trigger] submitted(block.extrinsics@, who)
            <= Nonce::MAX by {
        lemma_submitted_bound(block.extrinsics@, who);
        assert(system::nonce_in(s.system.nonces, who) + block.extrinsics@.len() <= Nonce::MAX);
    }
}

/// How many extrinsics of a sequence `who` has submitted.
fn count_submitted(exts: &Vec<Extrinsic>, who: &AccountId) -> (count: usize)
    ensures
        count == submitted(exts@, who@),
{
    let mut count: usize = 0;
    let mut i: usize = 0;
    while i < exts.len()
        invariant
            i <= exts@.len(),
            count <= i,
            count == submitted(exts@.take(i as int), who@),
        decreases exts@.len() - i,
    {
        proof {
            assert(exts@.take(i + 1).drop_last() =~= exts@.take(i as int));
        }
        if exts[i].caller == *who {
            count = count + 1;
        }
        i = i + 1;
    }
    proof {
        assert(exts@.take(i as int) =~= exts@);
    }
    count
}

/// The runtime: the one owner of every module's state.
#[derive(Debug)]
pub struct Runtime {
    pub system: system::Pallet,
    pub balances: balances::Pallet,
    pub proof_of_existence: proof_of_existence::Pallet,
}

impl View for Runtime {
    type V = State;

    open spec fn view(&self) -> State {
        State {
            system: self.system@,
            balances: self.balances@,
            claims: self.proof_of_existence@,
        }
    }
}

impl Runtime {
    /// Every module's state is consistent.
    pub open spec fn wf(&self) -> bool {
        &&& self.system.wf()
        &&& self.balances.wf()
        &&& self.proof_of_existence.wf()
    }

    /// A runtime in which nothing has happened yet.
    pub fn new() -> (runtime: Self)
        ensures
            runtime.wf(),
            runtime@ == initial(),
    {
        Runtime {
            system: system::Pallet::new(),
            balances: balances::Pallet::new(),
            proof_of_existence: proof_of_existence::Pallet::new(),
        }
    }

    /// Routes `call` to the module that owns it and hands back that
    /// module's result.
    pub fn dispatch(&mut self, caller: AccountId, call: RuntimeCall) -> (r: DispatchResult)
        requires
            old(self).wf(),
        ensures
            final(self).wf(),
            r == call_result(old(self)@, caller@, call),
            final(self)@ == call_state(old(self)@, caller@, call),
    {
        match call {
            RuntimeCall::Balances(c) => self.balances.dispatch(caller, c),
            RuntimeCall::ProofOfExistence(c) => self.proof_of_existence.dispatch(caller, c),
        }
    }

    /// Whether the counters have room for `block`, so that it can be
    /// executed.
    pub fn can_execute(&self, block: &Block) -> (ok: bool)
        requires
            self.wf(),
        ensures
            ok == executable(self@, *block),
    {
        let height = self.system.block_number();
        if height == BlockNumber::MAX {
            return false;
        }
        if block.header.block_number != height + 1 {
            return true;
        }
        let ghost exts = block.extrinsics@;
        let ghost nonces = self@.system.nonces;
        let mut i: usize = 0;
        while i < block.extrinsics.len()
            invariant
                self.wf(),
                exts == block.extrinsics@,
                nonces == self@.system.nonces,
                accepts(self@, *block),
                self@.system.block_number < BlockNumber::MAX,
                i <= exts.len(),
                forall|j: int|
                    0 <= j < i ==> system::nonce_in(nonces, (#[trigger] exts[j]).caller@)
                        + submitted(exts, exts[j].caller@) <= Nonce::MAX,
            decreases exts.len() - i,
        {
            let who = &block.extrinsics[i].caller;
            let count = count_submitted(&block.extrinsics, who);
            let nonce = self.system.nonce(who);
            if nonce as u128 + count as u128 > Nonce::MAX as u128 {
                assert(system::nonce_in(nonces, who@) + submitted(exts, who@) > Nonce::MAX);
                return false;
            }
            i = i + 1;
        }
        proof {
            self.system.lemma_bounded();
            assert forall|who: Seq<char>|
                system::nonce_in(nonces, who) + #[trigger] submitted(exts, who)
                    <= Nonce::MAX by {
                if submitted(exts, who) > 0 {
                    let j = lemma_submitted_witness(exts, who);
                    assert(exts[j].caller@ == who);
                }
            }
        }
        true
    }

    /// Executes a block. The height grows by one in any case. A block whose
    /// header does not carry the new height is refused and none of its
    /// extrinsics is executed. Otherwise each extrinsic, in order, has its
    /// caller's nonce counted and its call routed; a refused call is
    /// reported and the execution goes on.
    pub fn execute_block(&mut self, block: Block) -> (r: Result<Vec<Failure>, DispatchError>)
        requires
            old(self).wf(),
            executable(old(self)@, block),
        ensures
            final(self).wf(),
            final(self)@ == block_state(old(self)@, block),
            final(self)@.system.block_number == old(self)@.system.block_number + 1,
            forall|who: Seq<char>| #[trigger]
                system::nonce_in(final(self)@.system.nonces, who) == system::nonce_in(
                    old(self)@.system.nonces,
                    who,
                ) + if accepts(old(self)@, block) {
                    submitted(block.extrinsics@, who)
                } else {
                    0
                },
            balances::total(final(self)@.balances) == balances::total(old(self)@.balances),
            r is Ok <==> accepts(old(self)@, block),
            match r {
                Ok(report) => block_result(old(self)@, block) == Ok::<Seq<Failure>, DispatchError>(
                    report@,
                ),
                Err(error) => block_result(old(self)@, block) == Err::<Seq<Failure>, DispatchError>(
                    error,
                ),
            },
    {
        proof {
            self.balances.lemma_bounded();
            assert forall|who: Seq<char>| #[trigger]
                system::nonce_in(block_state(self@, block).system.nonces, who) == system::nonce_in(
                    self@.system.nonces,
                    who,
                ) + if accepts(self@, block) {
                    submitted(block.extrinsics@, who)
                } else {
                    0
                } by {
                lemma_block(self@, block, who);
            }
            lemma_block(self@, block, Seq::empty());
        }
        self.system.inc_block_number();
        let block_number = block.header.block_number;
        if block_number != self.system.block_number() {
            return Err(DispatchError::BlockNumberMismatch);
        }
        let ghost start = self@;
        let ghost all = block.extrinsics@;
        let count = block.extrinsics.len();
        let mut report: Vec<Failure> = Vec::new();
        let mut index: usize = 0;
        for ext in it: block.extrinsics.into_iter()
            invariant
                it.seq() == all,
                all.len() == count,
                index == it.index(),
                self.wf(),
                self@ == applied_all(start, all.take(index as int)),
                report@ == failures(start, all.take(index as int), block_number),
                forall|who: Seq<char>|
                    system::nonce_in(start.system.nonces, who) + #[trigger] submitted(all, who)
                        <= Nonce::MAX,
        {
            let Extrinsic { caller, call } = ext;
            proof {
                assert(all.take(index + 1).drop_last() =~= all.take(index as int));
                lemma_nonce_counts(start, all.take(index as int), caller@);
                lemma_submitted_prefix(all, index + 1, caller@);
            }
            self.system.inc_nonce(&caller);
            match self.dispatch(caller, call) {
                Ok(_) => {},
                Err(error) => {
                    report.push(Failure { block_number, index, error });
                },
            }
            index = index + 1;
        }
        proof {
            assert(all.take(index as int) =~= all);
        }
        Ok(report)
    }
}

} // verus!
