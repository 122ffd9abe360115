//! The sequencing state: the current block height and a counter per account.

use crate::numeric::{one_u32, zero_u32};
use crate::store::KeyedStore;
use crate::types::{AccountId, BlockNumber, Nonce};
use vstd::prelude::*;

verus! {

/// The sequencing state as a mathematical value.
pub struct SystemState {
    pub block_number: BlockNumber,
    pub nonces: Map<Seq<char>, Nonce>,
}

/// The nonce that `nonces` gives to `who`: zero for an account never seen.
pub open spec fn nonce_in(nonces: Map<Seq<char>, Nonce>, who: Seq<char>) -> Nonce {
    if nonces.contains_key(who) {
        nonces[who]
    } else {
        0
    }
}

/// The state before anything happened: height zero and no account seen.
pub open spec fn initial_system() -> SystemState {
    SystemState { block_number: 0, nonces: Map::empty() }
}

/// `s` with the height advanced by one.
pub open spec fn with_next_block(s: SystemState) -> SystemState {
    SystemState { block_number: (s.block_number + 1) as u32, ..s }
}

/// `s` with the nonce of `who` advanced by one.
pub open spec fn with_next_nonce(s: SystemState, who: Seq<char>) -> SystemState {
    SystemState { nonces: s.nonces.insert(who, (nonce_in(s.nonces, who) + 1) as u32), ..s }
}

/// `s` after the nonces of `callers` were advanced by one each, first to last;
/// an account is advanced once for each time it occurs.
pub open spec fn with_nonces_advanced(s: SystemState, callers: Seq<Seq<char>>) -> SystemState
    decreases callers.len(),
{
    if callers.len() == 0 {
        s
    } else {
        with_next_nonce(with_nonces_advanced(s, callers.drop_last()), callers.last())
    }
}

/// How often `who` occurs in `callers`.
pub open spec fn occurrences(callers: Seq<Seq<char>>, who: Seq<char>) -> nat
    decreases callers.len(),
{
    if callers.len() == 0 {
        0
    } else {
        occurrences(callers.drop_last(), who) + if callers.last() == who {
            1nat
        } else {
            0nat
        }
    }
}

/// Any number of increments, of any accounts in any order, raise the nonce
/// of an account by exactly the number of increments made for it: none is
/// skipped, doubled or taken back. The block height stays as it was.
pub proof fn lemma_nonce_counts_increments(
    s: SystemState,
    callers: Seq<Seq<char>>,
    who: Seq<char>,
)
    requires
        nonce_in(s.nonces, who) + occurrences(callers, who) <= u32::MAX,
    ensures
        nonce_in(with_nonces_advanced(s, callers).nonces, who) == nonce_in(s.nonces, who)
            + occurrences(callers, who),
        with_nonces_advanced(s, callers).block_number == s.block_number,
    decreases callers.len(),
{
    if callers.len() > 0 {
        lemma_nonce_counts_increments(s, callers.drop_last(), who);
    }
}

/// The system pallet: block height and nonces.
#[derive(Debug)]
pub struct Pallet {
    block_number: BlockNumber,
    nonce: KeyedStore<Nonce>,
}

impl View for Pallet {
    type V = SystemState;

    closed spec fn view(&self) -> SystemState {
        SystemState { block_number: self.block_number, nonces: self.nonce@ }
    }
}

impl Pallet {
    /// A pallet at height zero in which every account has nonce zero.
    pub fn new() -> (p: Self)
        ensures
            p@ == initial_system(),
            p@.block_number == 0,
            forall|who: Seq<char>| nonce_in(p@.nonces, who) == 0,
    {
        Pallet { block_number: zero_u32(), nonce: KeyedStore::new() }
    }

    /// The current block height.
    pub fn block_number(&self) -> (n: BlockNumber)
        ensures
            n == self@.block_number,
    {
        self.block_number
    }

    /// Advances the block height by one.
    pub fn inc_block_number(&mut self)
        requires
            old(self)@.block_number < u32::MAX,
        ensures
            final(self)@ == with_next_block(old(self)@),
            final(self)@.block_number == old(self)@.block_number + 1,
    {
        self.block_number += one_u32();
    }

    /// The nonce of `who`.
    pub fn nonce(&self, who: &AccountId) -> (n: Nonce)
        ensures
            n == nonce_in(self@.nonces, who@),
    {
        let zero = zero_u32();
        match self.nonce.get(who) {
            Some(n) => *n,
            None => zero,
        }
    }

    /// Advances the nonce of `who` by one.
    pub fn inc_nonce(&mut self, who: &AccountId)
        requires
            nonce_in(old(self)@.nonces, who@) < u32::MAX,
        ensures
            final(self)@ == with_next_nonce(old(self)@, who@),
            nonce_in(final(self)@.nonces, who@) == nonce_in(old(self)@.nonces, who@) + 1,
            forall|other: Seq<char>|
                other != who@ ==> nonce_in(final(self)@.nonces, other) == nonce_in(
                    old(self)@.nonces,
                    other,
                ),
    {
        let current = self.nonce(who);
        self.nonce.insert(who.clone(), current + one_u32());
    }
}

} // verus!
