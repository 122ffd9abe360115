//! The shapes of a block and the uniform interface through which calls are
//! routed to the state machine that owns them.

use vstd::prelude::*;

verus! {

/// The header of a block: the height at which the block is to be applied.
pub struct Header<BlockNumber> {
    pub block_number: BlockNumber,
}

/// One call submitted from outside, with the account it is attributed to.
pub struct Extrinsic<Caller, Call> {
    pub call: Call,
    pub caller: Caller,
}

/// A header and the extrinsics to apply, in order.
pub struct Block<Header, Extrinsic> {
    pub header: Header,
    pub extrinsics: Vec<Extrinsic>,
}

/// The outcome of a call: success, or the reason for its failure.
pub type DispatchResult = Result<(), &'static str>;

/// What a dispatch result reports: nothing on success, the text of the reason on failure.
pub open spec fn reported(r: DispatchResult) -> Option<Seq<char>> {
    match r {
        Ok(_) => None,
        Err(e) => Some(e@),
    }
}

/// A state machine that routes a call to the function it names. What a call
/// does is a function of the machine's state, the caller and the call alone.
pub trait Dispatch {
    /// Who makes the call.
    type Caller;

    /// The calls that this state machine accepts.
    type Call;

    /// The state of the machine as a mathematical value.
    type State;

    /// The state that the machine is in.
    spec fn state(&self) -> Self::State;

    /// Why `call` by `caller` fails in state `s`, if it does.
    spec fn failure_of(s: Self::State, caller: Self::Caller, call: Self::Call) -> Option<
        Seq<char>,
    >;

    /// The state that `call` by `caller` leaves when made in state `s`.
    spec fn state_after(s: Self::State, caller: Self::Caller, call: Self::Call) -> Self::State;

    /// Performs `call` on behalf of `caller`.
    fn dispatch(&mut self, caller: Self::Caller, call: Self::Call) -> (r: DispatchResult)
        ensures
            reported(r) == Self::failure_of(old(self).state(), caller, call),
            final(self).state() == Self::state_after(old(self).state(), caller, call),
    ;
}

} // verus!
