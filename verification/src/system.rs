//! Bookkeeping: the height of the chain and, for each account, how many
//! extrinsics it has submitted.

use vstd::prelude::*;
use crate::table::Table;
use crate::types::{AccountId, BlockNumber, Nonce};

verus! {

/// The bookkeeping state as mathematics.
pub struct State {
    /// The number of the block last begun.
    pub block_number: nat,
    /// The accounts that have submitted an extrinsic, each with its count.
    pub nonces: Map<Seq<char>, nat>,
}

/// The state before the first block.
pub open spec fn initial() -> State {
    State { block_number: 0, nonces: Map::empty() }
}

/// The nonce of `who`: zero for an account never seen.
pub open spec fn nonce_in(nonces: Map<Seq<char>, nat>, who: Seq<char>) -> nat {
    if nonces.contains_key(who) {
        nonces[who]
    } else {
        0
    }
}

/// The state after one more block has begun.
pub open spec fn next_block(s: State) -> State {
    State { block_number: s.block_number + 1, nonces: s.nonces }
}

/// The state after `who` has submitted one more extrinsic.
pub open spec fn bump_nonce(s: State, who: Seq<char>) -> State {
    State { block_number: s.block_number, nonces: s.nonces.insert(who, nonce_in(s.nonces, who) + 1) }
}

/// The system module.
#[derive(Debug)]
pub struct Pallet {
    block_number: BlockNumber,
    nonce: Table<Nonce>,
}

impl View for Pallet {
    type V = State;

    closed spec fn view(&self) -> State {
        State {
            block_number: self.block_number as nat,
            nonces: Map::new(
                |k: Seq<char>| self.nonce@.contains_key(k),
                |k: Seq<char>| self.nonce@[k] as nat,
            ),
        }
    }
}

impl Pallet {
    /// The stored counters are consistent.
    pub closed spec fn wf(&self) -> bool {
        self.nonce.wf()
    }

    /// What the counters can hold: the block number and every nonce fit their
    /// integer types.
    pub proof fn lemma_bounded(&self)
        ensures
            self@.block_number <= BlockNumber::MAX,
            self@.nonces.dom().finite(),
            forall|who: Seq<char>| #[trigger] nonce_in(self@.nonces, who) <= Nonce::MAX,
    {
        self.nonce.lemma_finite();
        assert(self@.nonces.dom() =~= self.nonce@.dom());
    }

    /// A module at height zero that has seen no account.
    pub fn new() -> (p: Self)
        ensures
            p.wf(),
            p@ == initial(),
    {
        let p = Pallet { block_number: 0, nonce: Table::new() };
        proof {
            assert(p@.nonces =~= Map::<Seq<char>, nat>::empty());
        }
        p
    }

    /// The number of the block last begun.
    pub fn block_number(&self) -> (n: BlockNumber)
        ensures
            n == self@.block_number,
    {
        self.block_number
    }

    /// The nonce of `who`.
    pub fn nonce(&self, who: &AccountId) -> (n: Nonce)
        requires
            self.wf(),
        ensures
            n == nonce_in(self@.nonces, who@),
    {
        match self.nonce.get(who) {
            Some(n) => *n,
            None => 0,
        }
    }

    /// Begins the next block.
    pub fn inc_block_number(&mut self)
        requires
            old(self).wf(),
            old(self)@.block_number < BlockNumber::MAX,
        ensures
            final(self).wf(),
            final(self)@ == next_block(old(self)@),
    {
        self.block_number = self.block_number + 1;
    }

    /// Counts one more extrinsic of `who`.
    pub fn inc_nonce(&mut self, who: &AccountId)
        requires
            old(self).wf(),
            nonce_in(old(self)@.nonces, who@) < Nonce::MAX,
        ensures
            final(self).wf(),
            final(self)@ == bump_nonce(old(self)@, who@),
    {
        let n = self.nonce(who);
        self.nonce.insert(who.clone(), n + 1);
        proof {
            assert(self@.nonces =~= bump_nonce(old(self)@, who@).nonces);
        }
    }
}

} // verus!
