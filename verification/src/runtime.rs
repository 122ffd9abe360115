//! The runtime: one instance of every pallet behind a single call interface,
//! and the executor that applies a block of extrinsics to it.

use crate::balances;
use crate::proof_of_existence;
use crate::support::{reported, Dispatch, DispatchResult};
use crate::system;
use crate::system::{
    nonce_in, occurrences, with_next_block, with_next_nonce, with_nonces_advanced, SystemState,
};
use crate::types::{AccountId, Balance, Block, Extrinsic};
use vstd::prelude::*;

verus! {

/// The reason reported when a block's header does not name the next height.
pub open spec fn wrong_block_number() -> Seq<char> {
    "wrong block number"@
}

/// The whole state of the runtime as a mathematical value.
pub struct RuntimeState {
    pub system: SystemState,
    pub balances: Map<Seq<char>, Balance>,
    pub claims: Map<Seq<char>, Seq<char>>,
}

/// The calls that the runtime accepts: for each pallet, the calls of that pallet.
#[allow(non_camel_case_types)]
#[derive(Debug)]
pub enum RuntimeCall {
    balances(balances::Call),
    proof_of_existence(proof_of_existence::Call),
}

impl RuntimeCall {
    /// A copy of this call.
    pub fn duplicate(&self) -> (c: Self)
        ensures
            c == *self,
    {
        match self {
            RuntimeCall::balances(call) => RuntimeCall::balances(call.duplicate()),
            RuntimeCall::proof_of_existence(call) => RuntimeCall::proof_of_existence(
                call.duplicate(),
            ),
        }
    }
}

/// Why `call` by `caller` fails in state `s`, if it does.
pub open spec fn dispatch_error(s: RuntimeState, caller: Seq<char>, call: RuntimeCall) -> Option<
    Seq<char>,
> {
    match call {
        RuntimeCall::balances(c) => balances::call_error(s.balances, caller, c),
        RuntimeCall::proof_of_existence(c) => proof_of_existence::call_error(s.claims, caller, c),
    }
}

/// The state after `call` by `caller` was routed to its pallet in state `s`:
/// only the state of that pallet can differ.
pub open spec fn dispatch_effect(s: RuntimeState, caller: Seq<char>, call: RuntimeCall) -> RuntimeState {
    match call {
        RuntimeCall::balances(c) => RuntimeState {
            balances: balances::call_effect(s.balances, caller, c),
            ..s
        },
        RuntimeCall::proof_of_existence(c) => RuntimeState {
            claims: proof_of_existence::call_effect(s.claims, caller, c),
            ..s
        },
    }
}

/// `s` with the nonce of `who` advanced by one.
pub open spec fn with_nonce_bumped(s: RuntimeState, who: Seq<char>) -> RuntimeState {
    RuntimeState { system: with_next_nonce(s.system, who), ..s }
}

/// `s` with the block height advanced by one.
pub open spec fn with_height_bumped(s: RuntimeState) -> RuntimeState {
    RuntimeState { system: with_next_block(s.system), ..s }
}

/// Why the extrinsic `e` fails when applied to state `s`, if it does.
pub open spec fn extrinsic_error(s: RuntimeState, e: Extrinsic) -> Option<Seq<char>> {
    dispatch_error(with_nonce_bumped(s, e.caller@), e.caller@, e.call)
}

/// The state after the extrinsic `e` was applied to `s`: the caller's nonce
/// advances first, then the call is dispatched.
pub open spec fn apply_extrinsic(s: RuntimeState, e: Extrinsic) -> RuntimeState {
    dispatch_effect(with_nonce_bumped(s, e.caller@), e.caller@, e.call)
}

/// The state after the extrinsics `es` were applied to `s`, first to last.
pub open spec fn apply_extrinsics(s: RuntimeState, es: Seq<Extrinsic>) -> RuntimeState
    decreases es.len(),
{
    if es.len() == 0 {
        s
    } else {
        apply_extrinsic(apply_extrinsics(s, es.drop_last()), es.last())
    }
}

/// How many of the extrinsics `es` are attributed to `who`.
pub open spec fn calls_by(es: Seq<Extrinsic>, who: Seq<char>) -> nat
    decreases es.len(),
{
    if es.len() == 0 {
        0
    } else {
        calls_by(es.drop_last(), who) + if es.last().caller@ == who {
            1nat
        } else {
            0nat
        }
    }
}

/// The record of one extrinsic that failed, as a mathematical value.
pub struct FailureRecord {
    pub index: int,
    pub caller: Seq<char>,
    pub reason: Seq<char>,
}

/// The record of one extrinsic that failed: its position in the block, the
/// account it was attributed to and the reason its pallet gave.
#[derive(Debug)]
pub struct ExtrinsicFailure {
    pub index: usize,
    pub caller: AccountId,
    pub reason: &'static str,
}

impl View for ExtrinsicFailure {
    type V = FailureRecord;

    open spec fn view(&self) -> FailureRecord {
        FailureRecord { index: self.index as int, caller: self.caller@, reason: self.reason@ }
    }
}

/// The records in `log`, as mathematical values.
pub open spec fn records(log: Seq<ExtrinsicFailure>) -> Seq<FailureRecord> {
    log.map_values(|f: ExtrinsicFailure| f@)
}

/// The failures that applying the extrinsics `es` to `s` gives, in order.
pub open spec fn failures(s: RuntimeState, es: Seq<Extrinsic>) -> Seq<FailureRecord>
    decreases es.len(),
{
    if es.len() == 0 {
        Seq::empty()
    } else {
        let earlier = failures(s, es.drop_last());
        match extrinsic_error(apply_extrinsics(s, es.drop_last()), es.last()) {
            Some(reason) => earlier.push(
                FailureRecord { index: es.len() - 1, caller: es.last().caller@, reason },
            ),
            None => earlier,
        }
    }
}

/// The header of `block` names the height that follows the height of `s`.
pub open spec fn header_follows(s: RuntimeState, block: Block) -> bool {
    block.header.block_number == s.system.block_number + 1
}

/// No nonce leaves its type when the extrinsics `es` are applied to `s`.
pub open spec fn nonces_have_room(s: RuntimeState, es: Seq<Extrinsic>) -> bool {
    forall|who: Seq<char>| nonce_in(s.system.nonces, who) + #[trigger] calls_by(es, who) <= u32::MAX
}

/// The state after `block` was submitted in state `s`: unchanged where the
/// header does not name the next height; else the height advances and every
/// extrinsic is applied in order.
pub open spec fn block_effect(s: RuntimeState, block: Block) -> RuntimeState {
    if header_follows(s, block) {
        apply_extrinsics(with_height_bumped(s), block.extrinsics@)
    } else {
        s
    }
}

/// How many of `extrinsics` are attributed to `who`.
pub fn count_calls(extrinsics: &Vec<Extrinsic>, who: &AccountId) -> (count: usize)
    ensures
        count == calls_by(extrinsics@, who@),
{
    let ghost es = extrinsics@;
    let n: usize = extrinsics.len();
    let mut count: usize = 0;
    let mut i: usize = 0;
    assert(es.take(0) =~= Seq::<Extrinsic>::empty());
    while i < n
        invariant
            i <= n,
            n == es.len(),
            es == extrinsics@,
            count <= i,
            count == calls_by(es.take(i as int), who@),
        decreases n - i,
    {
        proof {
            assert(es.take(i + 1).drop_last() =~= es.take(i as int));
            assert(es.take(i + 1).last() == es[i as int]);
        }
        if extrinsics[i].caller == *who {
            count += 1;
        }
        i += 1;
    }
    assert(es.take(n as int) =~= es);
    count
}

/// The runtime: the sequencing state and one instance of each pallet.
#[derive(Debug)]
pub struct Runtime {
    pub system: system::Pallet,
    pub balances: balances::Pallet,
    pub proof_of_existence: proof_of_existence::Pallet,
}

impl View for Runtime {
    type V = RuntimeState;

    open spec fn view(&self) -> RuntimeState {
        RuntimeState {
            system: self.system@,
            balances: self.balances@,
            claims: self.proof_of_existence@,
        }
    }
}

/// The state of a runtime before anything happened.
pub open spec fn initial_state() -> RuntimeState {
    RuntimeState { system: system::initial_system(), balances: Map::empty(), claims: Map::empty() }
}

impl Runtime {
    /// A runtime at height zero with empty pallets.
    pub fn new() -> (r: Self)
        ensures
            r@ == initial_state(),
    {
        Runtime {
            system: system::Pallet::new(),
            balances: balances::Pallet::new(),
            proof_of_existence: proof_of_existence::Pallet::new(),
        }
    }

    /// Whether every nonce can take the increments that `extrinsics` ask for,
    /// which is what executing a block of them requires.
    pub fn has_room_for(&self, extrinsics: &Vec<Extrinsic>) -> (ok: bool)
        ensures
            ok == nonces_have_room(self@, extrinsics@),
    {
        let ghost es = extrinsics@;
        let ghost nonces = self@.system.nonces;
        let n: usize = extrinsics.len();
        let mut i: usize = 0;
        while i < n
            invariant
                i <= n,
                n == es.len(),
                es == extrinsics@,
                nonces == self@.system.nonces,
                forall|j: int|
                    0 <= j < i ==> nonce_in(nonces, (#[trigger] es[j]).caller@) + calls_by(
                        es,
                        es[j].caller@,
                    ) <= u32::MAX,
            decreases n - i,
        {
            let who = &extrinsics[i].caller;
            let count = count_calls(extrinsics, who);
            let nonce = self.system.nonce(who);
            if count > (u32::MAX - nonce) as usize {
                return false;
            }
            i += 1;
        }
        proof {
            assert forall|who: Seq<char>|
                nonce_in(nonces, who) + #[trigger] calls_by(es, who) <= u32::MAX by {
                if calls_by(es, who) > 0 {
                    let j = lemma_caller_occurs(es, who);
                    assert(es[j].caller@ == who);
                }
            }
        }
        true
    }

    /// Applies `block` and reports the extrinsics that failed. The block as a
    /// whole fails, and nothing changes, only where its header does not name
    /// the next height; a failing extrinsic keeps its nonce increment and
    /// leaves the others' effects in place.
    pub fn execute_block_with_report(&mut self, block: Block) -> (r: Result<
        Vec<ExtrinsicFailure>,
        &'static str,
    >)
        requires
            header_follows(old(self)@, block) ==> nonces_have_room(old(self)@, block.extrinsics@),
        ensures
            r is Ok <==> header_follows(old(self)@, block),
            final(self)@ == block_effect(old(self)@, block),
            match r {
                Ok(log) => records(log@) == failures(
                    with_height_bumped(old(self)@),
                    block.extrinsics@,
                ),
                Err(reason) => reason@ == wrong_block_number(),
            },
    {
        let height = self.system.block_number();
        if height == u32::MAX || block.header.block_number != height + 1 {
            return Err("wrong block number");
        }
        self.system.inc_block_number();
        let ghost start = self@;
        let ghost es = block.extrinsics@;
        let mut log: Vec<ExtrinsicFailure> = Vec::new();
        let n: usize = block.extrinsics.len();
        let mut i: usize = 0;
        assert(es.take(0) =~= Seq::<Extrinsic>::empty());
        assert(records(log@) =~= Seq::<FailureRecord>::empty());
        while i < n
            invariant
                i <= n,
                n == es.len(),
                es == block.extrinsics@,
                nonces_have_room(start, es),
                self@ == apply_extrinsics(start, es.take(i as int)),
                records(log@) == failures(start, es.take(i as int)),
            decreases n - i,
        {
            let extrinsic = &block.extrinsics[i];
            let caller = extrinsic.caller.clone();
            let call = extrinsic.call.duplicate();
            proof {
                let done = es.take(i as int);
                let next = es.take(i + 1);
                assert(next.drop_last() =~= done);
                assert(next.last() == es[i as int]);
                lemma_calls_by_prefix(es, i + 1, caller@);
                assert(calls_by(next, caller@) == calls_by(done, caller@) + 1);
                lemma_nonce_counts_calls(start, done, caller@);
            }
            self.system.inc_nonce(&caller);
            let ghost logged = log@;
            match self.dispatch(extrinsic.caller.clone(), call) {
                Ok(_) => {},
                Err(reason) => {
                    log.push(ExtrinsicFailure { index: i, caller, reason });
                    assert(records(log@) =~= records(logged).push(log@[logged.len() as int]@));
                },
            }
            i += 1;
        }
        assert(es.take(n as int) =~= es);
        Ok(log)
    }

    /// Applies `block`. The result says only whether the header named the next
    /// height: where it did not, nothing changes; where it did, the height
    /// advances and every extrinsic is applied in order, whether or not
    /// earlier ones failed.
    pub fn execute_block(&mut self, block: Block) -> (r: DispatchResult)
        requires
            header_follows(old(self)@, block) ==> nonces_have_room(old(self)@, block.extrinsics@),
        ensures
            r is Ok <==> header_follows(old(self)@, block),
            reported(r) == (if header_follows(old(self)@, block) {
                None
            } else {
                Some(wrong_block_number())
            }),
            final(self)@ == block_effect(old(self)@, block),
            !header_follows(old(self)@, block) ==> final(self)@ == old(self)@,
            header_follows(old(self)@, block) ==> final(self)@.system.block_number
                == old(self)@.system.block_number + 1,
            header_follows(old(self)@, block) ==> forall|who: Seq<char>|
                nonce_in(final(self)@.system.nonces, who) == nonce_in(
                    old(self)@.system.nonces,
                    who,
                ) + #[trigger] calls_by(block.extrinsics@, who),
    {
        proof {
            if header_follows(old(self)@, block) {
                lemma_block_advances_sequencing(old(self)@, block);
            }
        }
        match self.execute_block_with_report(block) {
            Ok(_) => Ok(()),
            Err(reason) => Err(reason),
        }
    }
}

impl Dispatch for Runtime {
    type Caller = AccountId;

    type Call = RuntimeCall;

    type State = RuntimeState;

    open spec fn state(&self) -> RuntimeState {
        self@
    }

    open spec fn failure_of(s: RuntimeState, caller: AccountId, call: RuntimeCall) -> Option<
        Seq<char>,
    > {
        dispatch_error(s, caller@, call)
    }

    open spec fn state_after(s: RuntimeState, caller: AccountId, call: RuntimeCall) -> RuntimeState {
        dispatch_effect(s, caller@, call)
    }

    /// Routes `call` to the pallet that owns it; nothing else changes.
    fn dispatch(&mut self, caller: AccountId, call: RuntimeCall) -> (r: DispatchResult)
        ensures
            reported(r) == dispatch_error(old(self)@, caller@, call),
            final(self)@ == dispatch_effect(old(self)@, caller@, call),
    {
        match call {
            RuntimeCall::balances(call) => self.balances.dispatch(caller, call),
            RuntimeCall::proof_of_existence(call) => self.proof_of_existence.dispatch(caller, call),
        }
    }
}

/// Applying extrinsics changes the nonce of an account by the number of
/// extrinsics attributed to it, whatever their outcomes, and leaves the block
/// height alone.
pub proof fn lemma_nonce_counts_calls(s: RuntimeState, es: Seq<Extrinsic>, who: Seq<char>)
    requires
        nonce_in(s.system.nonces, who) + calls_by(es, who) <= u32::MAX,
    ensures
        nonce_in(apply_extrinsics(s, es).system.nonces, who) == nonce_in(s.system.nonces, who)
            + calls_by(es, who),
        apply_extrinsics(s, es).system.block_number == s.system.block_number,
    decreases es.len(),
{
    if es.len() > 0 {
        lemma_nonce_counts_calls(s, es.drop_last(), who);
    }
}

/// The callers of the extrinsics `es`, in order.
pub open spec fn callers_of(es: Seq<Extrinsic>) -> Seq<Seq<char>> {
    es.map_values(|e: Extrinsic| e.caller@)
}

/// Applying extrinsics does to the sequencing state what one nonce increment
/// for each extrinsic's caller does, in order: the calls between the
/// increments never touch it, whether they succeed or fail.
pub proof fn lemma_extrinsics_advance_callers(s: RuntimeState, es: Seq<Extrinsic>, who: Seq<char>)
    ensures
        apply_extrinsics(s, es).system == with_nonces_advanced(s.system, callers_of(es)),
        calls_by(es, who) == occurrences(callers_of(es), who),
    decreases es.len(),
{
    if es.len() > 0 {
        lemma_extrinsics_advance_callers(s, es.drop_last(), who);
        assert(callers_of(es).drop_last() =~= callers_of(es.drop_last()));
        assert(callers_of(es).last() == es.last().caller@);
    }
}

/// A block whose header names the next height advances the height by exactly
/// one, and the nonce of every account by the number of the block's
/// extrinsics attributed to it, whether those extrinsics succeed or fail.
pub proof fn lemma_block_advances_sequencing(s: RuntimeState, block: Block)
    requires
        header_follows(s, block),
        nonces_have_room(s, block.extrinsics@),
    ensures
        block_effect(s, block).system.block_number == s.system.block_number + 1,
        forall|who: Seq<char>|
            nonce_in(block_effect(s, block).system.nonces, who) == nonce_in(s.system.nonces, who)
                + #[trigger] calls_by(block.extrinsics@, who),
{
    assert forall|who: Seq<char>|
        nonce_in(block_effect(s, block).system.nonces, who) == nonce_in(s.system.nonces, who)
            + #[trigger] calls_by(block.extrinsics@, who) by {
        lemma_nonce_counts_calls(with_height_bumped(s), block.extrinsics@, who);
    }
    lemma_nonce_counts_calls(with_height_bumped(s), block.extrinsics@, Seq::empty());
}

/// A block whose header does not name the next height changes nothing: no
/// height, no nonce, no pallet state.
pub proof fn lemma_rejected_block_changes_nothing(s: RuntimeState, block: Block)
    requires
        !header_follows(s, block),
    ensures
        block_effect(s, block) == s,
{
}

/// Routing a call changes at most the state of the pallet that owns the
/// call: the sequencing state and the other pallet stay as they were.
pub proof fn lemma_dispatch_touches_one_pallet(s: RuntimeState, caller: Seq<char>, call: RuntimeCall)
    ensures
        dispatch_effect(s, caller, call).system == s.system,
        call is balances ==> dispatch_effect(s, caller, call).claims == s.claims,
        call is proof_of_existence ==> dispatch_effect(s, caller, call).balances == s.balances,
{
}

/// A call that fails changes nothing at all.
pub proof fn lemma_failed_dispatch_changes_nothing(
    s: RuntimeState,
    caller: Seq<char>,
    call: RuntimeCall,
)
    requires
        dispatch_error(s, caller, call) is Some,
    ensures
        dispatch_effect(s, caller, call) == s,
{
}

/// An extrinsic that fails leaves every pallet as it was and still advances
/// its caller's nonce.
pub proof fn lemma_failed_extrinsic_keeps_state(s: RuntimeState, e: Extrinsic)
    requires
        extrinsic_error(s, e) is Some,
    ensures
        apply_extrinsic(s, e) == with_nonce_bumped(s, e.caller@),
        apply_extrinsic(s, e).balances == s.balances,
        apply_extrinsic(s, e).claims == s.claims,
{
}

/// Each extrinsic of a block is applied to the state that the extrinsics
/// before it left, and the extrinsics after it are applied to what it leaves,
/// whether it succeeds or fails.
pub proof fn lemma_every_extrinsic_is_applied(
    s: RuntimeState,
    before: Seq<Extrinsic>,
    e: Extrinsic,
    after: Seq<Extrinsic>,
)
    ensures
        apply_extrinsics(s, before.push(e) + after) == apply_extrinsics(
            apply_extrinsic(apply_extrinsics(s, before), e),
            after,
        ),
    decreases after.len(),
{
    let all = before.push(e) + after;
    if after.len() == 0 {
        assert(all =~= before.push(e));
        assert(before.push(e).drop_last() =~= before);
    } else {
        lemma_every_extrinsic_is_applied(s, before, e, after.drop_last());
        assert(all.drop_last() =~= before.push(e) + after.drop_last());
        assert(all.last() == after.last());
    }
}

/// Where an extrinsic in the middle of a block fails, the block ends in the
/// state that the other extrinsics give, with the failed one's nonce
/// increment among them.
pub proof fn lemma_failure_is_isolated(
    s: RuntimeState,
    before: Seq<Extrinsic>,
    e: Extrinsic,
    after: Seq<Extrinsic>,
)
    requires
        extrinsic_error(apply_extrinsics(s, before), e) is Some,
    ensures
        apply_extrinsics(s, before.push(e) + after) == apply_extrinsics(
            with_nonce_bumped(apply_extrinsics(s, before), e.caller@),
            after,
        ),
{
    lemma_every_extrinsic_is_applied(s, before, e, after);
    lemma_failed_extrinsic_keeps_state(apply_extrinsics(s, before), e);
}

/// An account to which some extrinsic of a block is attributed is the caller
/// of the extrinsic at some position of the block.
pub proof fn lemma_caller_occurs(es: Seq<Extrinsic>, who: Seq<char>) -> (j: int)
    requires
        calls_by(es, who) > 0,
    ensures
        0 <= j < es.len(),
        es[j].caller@ == who,
    decreases es.len(),
{
    if es.last().caller@ == who {
        es.len() - 1
    } else {
        lemma_caller_occurs(es.drop_last(), who)
    }
}

/// A prefix of a block holds no more extrinsics of an account than the block.
pub proof fn lemma_calls_by_prefix(es: Seq<Extrinsic>, k: int, who: Seq<char>)
    requires
        0 <= k <= es.len(),
    ensures
        calls_by(es.take(k), who) <= calls_by(es, who),
    decreases es.len(),
{
    if k == es.len() {
        assert(es.take(k) =~= es);
    } else {
        lemma_calls_by_prefix(es.drop_last(), k, who);
        assert(es.drop_last().take(k) =~= es.take(k));
    }
}

} // verus!
