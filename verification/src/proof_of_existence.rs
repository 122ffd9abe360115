//! The claim registry: which account owns which piece of content.

use crate::store::KeyedStore;
use crate::support::{reported, Dispatch, DispatchResult};
use crate::types::{AccountId, Content};
use vstd::prelude::*;

verus! {

/// The reason reported when the content already has an owner.
pub open spec fn already_claimed() -> Seq<char> {
    "This content is already claimed"@
}

/// The reason reported when the content has no owner.
pub open spec fn claim_missing() -> Seq<char> {
    "Claim does not exist"@
}

/// The reason reported when someone other than the owner revokes a claim.
pub open spec fn not_the_owner() -> Seq<char> {
    "The caller is not the owner of the claim"@
}

/// Why `caller` cannot claim `claim` in `claims`, if they cannot.
pub open spec fn create_error(
    claims: Map<Seq<char>, Seq<char>>,
    caller: Seq<char>,
    claim: Seq<char>,
) -> Option<Seq<char>> {
    if claims.contains_key(claim) {
        Some(already_claimed())
    } else {
        None
    }
}

/// The registry after `caller` asked to claim `claim`.
pub open spec fn create_effect(
    claims: Map<Seq<char>, Seq<char>>,
    caller: Seq<char>,
    claim: Seq<char>,
) -> Map<Seq<char>, Seq<char>> {
    if claims.contains_key(claim) {
        claims
    } else {
        claims.insert(claim, caller)
    }
}

/// Why `caller` cannot revoke `claim` in `claims`, if they cannot.
pub open spec fn revoke_error(
    claims: Map<Seq<char>, Seq<char>>,
    caller: Seq<char>,
    claim: Seq<char>,
) -> Option<Seq<char>> {
    if !claims.contains_key(claim) {
        Some(claim_missing())
    } else if claims[claim] != caller {
        Some(not_the_owner())
    } else {
        None
    }
}

/// The registry after `caller` asked to revoke `claim`.
pub open spec fn revoke_effect(
    claims: Map<Seq<char>, Seq<char>>,
    caller: Seq<char>,
    claim: Seq<char>,
) -> Map<Seq<char>, Seq<char>> {
    if claims.contains_key(claim) && claims[claim] == caller {
        claims.remove(claim)
    } else {
        claims
    }
}

/// The calls that the claim registry accepts.
#[allow(non_camel_case_types)]
#[derive(Debug)]
pub enum Call {
    create_claim { claim: Content },
    revoke_claim { claim: Content },
}

/// Why `call` by `caller` fails on `claims`, if it does.
pub open spec fn call_error(claims: Map<Seq<char>, Seq<char>>, caller: Seq<char>, call: Call) -> Option<
    Seq<char>,
> {
    match call {
        Call::create_claim { claim } => create_error(claims, caller, claim@),
        Call::revoke_claim { claim } => revoke_error(claims, caller, claim@),
    }
}

/// The registry after `call` by `caller`.
pub open spec fn call_effect(claims: Map<Seq<char>, Seq<char>>, caller: Seq<char>, call: Call) -> Map<
    Seq<char>,
    Seq<char>,
> {
    match call {
        Call::create_claim { claim } => create_effect(claims, caller, claim@),
        Call::revoke_claim { claim } => revoke_effect(claims, caller, claim@),
    }
}

impl Call {
    /// A copy of this call.
    pub fn duplicate(&self) -> (c: Self)
        ensures
            c == *self,
    {
        match self {
            Call::create_claim { claim } => Call::create_claim { claim: claim.clone() },
            Call::revoke_claim { claim } => Call::revoke_claim { claim: claim.clone() },
        }
    }
}

/// The claim registry pallet.
#[derive(Debug)]
pub struct Pallet {
    claims: KeyedStore<AccountId>,
}

impl View for Pallet {
    type V = Map<Seq<char>, Seq<char>>;

    closed spec fn view(&self) -> Map<Seq<char>, Seq<char>> {
        self.claims@.map_values(|owner: AccountId| owner@)
    }
}

impl Pallet {
    /// A registry in which nothing is claimed.
    pub fn new() -> (p: Self)
        ensures
            p@ == Map::<Seq<char>, Seq<char>>::empty(),
    {
        let p = Pallet { claims: KeyedStore::new() };
        assert(p@ =~= Map::<Seq<char>, Seq<char>>::empty());
        p
    }

    /// The owner of `claim`, if it has one.
    pub fn get_claim(&self, claim: &Content) -> (r: Option<&AccountId>)
        ensures
            match r {
                Some(owner) => self@.contains_key(claim@) && owner@ == self@[claim@],
                None => !self@.contains_key(claim@),
            },
    {
        self.claims.get(claim)
    }

    /// Makes `caller` the owner of `claim`. Fails, and changes nothing, where
    /// `claim` already has an owner.
    pub fn create_claim(&mut self, caller: AccountId, claim: Content) -> (r: DispatchResult)
        ensures
            reported(r) == create_error(old(self)@, caller@, claim@),
            final(self)@ == create_effect(old(self)@, caller@, claim@),
    {
        if self.claims.contains_key(&claim) {
            return Err("This content is already claimed");
        }
        self.claims.insert(claim, caller);
        assert(self@ =~= old(self)@.insert(claim@, caller@));
        Ok(())
    }

    /// Removes `claim`. Fails, and changes nothing, where `claim` has no owner
    /// or its owner is not `caller`.
    pub fn revoke_claim(&mut self, caller: AccountId, claim: Content) -> (r: DispatchResult)
        ensures
            reported(r) == revoke_error(old(self)@, caller@, claim@),
            final(self)@ == revoke_effect(old(self)@, caller@, claim@),
    {
        let is_owner = match self.get_claim(&claim) {
            Some(owner) => *owner == caller,
            None => {
                return Err("Claim does not exist");
            },
        };
        if !is_owner {
            return Err("The caller is not the owner of the claim");
        }
        self.claims.remove(&claim);
        assert(self@ =~= old(self)@.remove(claim@));
        Ok(())
    }
}

impl Dispatch for Pallet {
    type Caller = AccountId;

    type Call = Call;

    type State = Map<Seq<char>, Seq<char>>;

    open spec fn state(&self) -> Map<Seq<char>, Seq<char>> {
        self@
    }

    open spec fn failure_of(s: Map<Seq<char>, Seq<char>>, caller: AccountId, call: Call) -> Option<Seq<char>> {
        call_error(s, caller@, call)
    }

    open spec fn state_after(s: Map<Seq<char>, Seq<char>>, caller: AccountId, call: Call) -> Map<Seq<char>, Seq<char>> {
        call_effect(s, caller@, call)
    }

    /// Routes `call` to the function of the registry that it names.
    fn dispatch(&mut self, caller: AccountId, call: Call) -> (r: DispatchResult)
        ensures
            reported(r) == call_error(old(self)@, caller@, call),
            final(self)@ == call_effect(old(self)@, caller@, call),
    {
        match call {
            Call::create_claim { claim } => self.create_claim(caller, claim),
            Call::revoke_claim { claim } => self.revoke_claim(caller, claim),
        }
    }
}

/// Claiming content that nobody owns succeeds and makes the caller its
/// owner; every other claim stays as it was.
pub proof fn lemma_create_on_unclaimed(
    claims: Map<Seq<char>, Seq<char>>,
    caller: Seq<char>,
    claim: Seq<char>,
)
    requires
        !claims.contains_key(claim),
    ensures
        create_error(claims, caller, claim) is None,
        create_effect(claims, caller, claim).contains_key(claim),
        create_effect(claims, caller, claim)[claim] == caller,
        create_effect(claims, caller, claim).remove(claim) == claims,
{
    assert(create_effect(claims, caller, claim).remove(claim) =~= claims);
}

/// Claiming content that already has an owner fails and changes no ownership.
pub proof fn lemma_create_on_claimed(
    claims: Map<Seq<char>, Seq<char>>,
    caller: Seq<char>,
    claim: Seq<char>,
)
    requires
        claims.contains_key(claim),
    ensures
        create_error(claims, caller, claim) == Some(already_claimed()),
        create_effect(claims, caller, claim) == claims,
{
}

/// Revoking a claim by its owner succeeds and removes exactly that claim.
pub proof fn lemma_revoke_by_owner(
    claims: Map<Seq<char>, Seq<char>>,
    caller: Seq<char>,
    claim: Seq<char>,
)
    requires
        claims.contains_key(claim),
        claims[claim] == caller,
    ensures
        revoke_error(claims, caller, claim) is None,
        !revoke_effect(claims, caller, claim).contains_key(claim),
        revoke_effect(claims, caller, claim) == claims.remove(claim),
{
}

/// Revoking a claim by anyone but its owner fails and changes no ownership.
pub proof fn lemma_revoke_by_stranger(
    claims: Map<Seq<char>, Seq<char>>,
    caller: Seq<char>,
    claim: Seq<char>,
)
    requires
        claims.contains_key(claim),
        claims[claim] != caller,
    ensures
        revoke_error(claims, caller, claim) == Some(not_the_owner()),
        revoke_effect(claims, caller, claim) == claims,
{
}

/// Revoking content that nobody owns fails, saying that the claim does not
/// exist, and changes nothing.
pub proof fn lemma_revoke_missing(
    claims: Map<Seq<char>, Seq<char>>,
    caller: Seq<char>,
    claim: Seq<char>,
)
    requires
        !claims.contains_key(claim),
    ensures
        revoke_error(claims, caller, claim) == Some(claim_missing()),
        revoke_effect(claims, caller, claim) == claims,
{
}

} // verus!
