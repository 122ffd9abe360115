//! The balance ledger: how much each account holds, and transfers between accounts.

use crate::numeric::{checked_add_u128, checked_sub_u128, zero_u128};
use crate::store::KeyedStore;
use crate::support::{reported, Dispatch, DispatchResult};
use crate::types::{AccountId, Balance};
use vstd::prelude::*;

verus! {

/// The reason reported when the sender holds less than the amount.
pub open spec fn not_enough_funds() -> Seq<char> {
    "Not enough funds."@
}

/// The reason reported when the receiver's balance would exceed the balance type.
pub open spec fn balance_overflow() -> Seq<char> {
    "Overflow when adding to balance"@
}

/// The balance that `ledger` gives to `who`: zero for an account never seen.
pub open spec fn balance_in(ledger: Map<Seq<char>, Balance>, who: Seq<char>) -> Balance {
    if ledger.contains_key(who) {
        ledger[who]
    } else {
        0
    }
}

/// Why a transfer of `amount` from `caller` to `to` fails on `ledger`, if it does.
pub open spec fn transfer_error(
    ledger: Map<Seq<char>, Balance>,
    caller: Seq<char>,
    to: Seq<char>,
    amount: Balance,
) -> Option<Seq<char>> {
    if balance_in(ledger, caller) < amount {
        Some(not_enough_funds())
    } else if balance_in(ledger, to) + amount > u128::MAX {
        Some(balance_overflow())
    } else {
        None
    }
}

/// The ledger after a transfer of `amount` from `caller` to `to` was asked for:
/// unchanged where the transfer fails; else the sender is debited, and the
/// receiver is then credited on top of what the debited ledger gives it, so
/// that a transfer to oneself leaves the balance as it was.
pub open spec fn transfer_effect(
    ledger: Map<Seq<char>, Balance>,
    caller: Seq<char>,
    to: Seq<char>,
    amount: Balance,
) -> Map<Seq<char>, Balance> {
    if transfer_error(ledger, caller, to, amount) is Some {
        ledger
    } else {
        let debited = ledger.insert(caller, (balance_in(ledger, caller) - amount) as u128);
        debited.insert(to, (balance_in(debited, to) + amount) as u128)
    }
}

/// The sum of all balances of a ledger that holds finitely many accounts.
pub open spec fn total_supply(ledger: Map<Seq<char>, Balance>) -> nat
    decreases ledger.dom().len(),
    when ledger.dom().finite()
{
    if ledger.dom().len() == 0 {
        0
    } else {
        let who = ledger.dom().choose();
        ledger[who] as nat + total_supply(ledger.remove(who))
    }
}

/// The calls that the balance ledger accepts.
#[allow(non_camel_case_types)]
#[derive(Debug)]
pub enum Call {
    transfer { to: AccountId, amount: Balance },
}

/// Why `call` by `caller` fails on `ledger`, if it does.
pub open spec fn call_error(ledger: Map<Seq<char>, Balance>, caller: Seq<char>, call: Call) -> Option<
    Seq<char>,
> {
    match call {
        Call::transfer { to, amount } => transfer_error(ledger, caller, to@, amount),
    }
}

/// The ledger after `call` by `caller`.
pub open spec fn call_effect(ledger: Map<Seq<char>, Balance>, caller: Seq<char>, call: Call) -> Map<
    Seq<char>,
    Balance,
> {
    match call {
        Call::transfer { to, amount } => transfer_effect(ledger, caller, to@, amount),
    }
}

impl Call {
    /// A copy of this call.
    pub fn duplicate(&self) -> (c: Self)
        ensures
            c == *self,
    {
        match self {
            Call::transfer { to, amount } => Call::transfer { to: to.clone(), amount: *amount },
        }
    }
}

/// The balance ledger pallet.
#[derive(Debug)]
pub struct Pallet {
    balances: KeyedStore<Balance>,
}

impl View for Pallet {
    type V = Map<Seq<char>, Balance>;

    closed spec fn view(&self) -> Map<Seq<char>, Balance> {
        self.balances@
    }
}

impl Pallet {
    /// A ledger in which every account holds zero.
    pub fn new() -> (p: Self)
        ensures
            p@ == Map::<Seq<char>, Balance>::empty(),
    {
        Pallet { balances: KeyedStore::new() }
    }

    /// A ledger holds finitely many accounts.
    pub proof fn lemma_finite(&self)
        ensures
            self@.dom().finite(),
    {
        self.balances.lemma_finite();
    }

    /// Sets the balance of `who` to `amount`.
    pub fn set_balance(&mut self, who: &AccountId, amount: Balance)
        ensures
            final(self)@ == old(self)@.insert(who@, amount),
    {
        self.balances.insert(who.clone(), amount);
    }

    /// The balance of `who`.
    pub fn balance(&self, who: &AccountId) -> (b: Balance)
        ensures
            b == balance_in(self@, who@),
    {
        let zero = zero_u128();
        match self.balances.get(who) {
            Some(b) => *b,
            None => zero,
        }
    }

    /// Moves `amount` from `caller` to `to`. Fails, and changes nothing, where
    /// `caller` holds less than `amount` or the balance of `to` would overflow.
    /// The total supply is the same after every transfer.
    pub fn transfer(&mut self, caller: AccountId, to: AccountId, amount: Balance) -> (r:
        DispatchResult)
        ensures
            reported(r) == transfer_error(old(self)@, caller@, to@, amount),
            final(self)@ == transfer_effect(old(self)@, caller@, to@, amount),
            total_supply(final(self)@) == total_supply(old(self)@),
    {
        proof {
            self.lemma_finite();
            lemma_transfer_keeps_total_supply(self@, caller@, to@, amount);
        }
        let caller_balance = self.balance(&caller);
        let to_balance = self.balance(&to);
        let new_caller_balance = match checked_sub_u128(&caller_balance, &amount) {
            Some(b) => b,
            None => {
                return Err("Not enough funds.");
            },
        };
        if checked_add_u128(&to_balance, &amount).is_none() {
            return Err("Overflow when adding to balance");
        }
        self.balances.insert(caller, new_caller_balance);
        let debited_to_balance = self.balance(&to);
        self.balances.insert(to, debited_to_balance + amount);
        Ok(())
    }
}

impl Dispatch for Pallet {
    type Caller = AccountId;

    type Call = Call;

    type State = Map<Seq<char>, Balance>;

    open spec fn state(&self) -> Map<Seq<char>, Balance> {
        self@
    }

    open spec fn failure_of(s: Map<Seq<char>, Balance>, caller: AccountId, call: Call) -> Option<Seq<char>> {
        call_error(s, caller@, call)
    }

    open spec fn state_after(s: Map<Seq<char>, Balance>, caller: AccountId, call: Call) -> Map<Seq<char>, Balance> {
        call_effect(s, caller@, call)
    }

    /// Routes `call` to the function of the ledger that it names.
    fn dispatch(&mut self, caller: AccountId, call: Call) -> (r: DispatchResult)
        ensures
            reported(r) == call_error(old(self)@, caller@, call),
            final(self)@ == call_effect(old(self)@, caller@, call),
    {
        match call {
            Call::transfer { to, amount } => self.transfer(caller, to, amount),
        }
    }
}

/// A transfer between two different accounts that the sender can afford and
/// the receiver can hold succeeds: the sender has `amount` less, the receiver
/// `amount` more, their sum is what it was, and no other balance changes.
pub proof fn lemma_transfer_moves_funds(
    ledger: Map<Seq<char>, Balance>,
    caller: Seq<char>,
    to: Seq<char>,
    amount: Balance,
)
    requires
        caller != to,
        balance_in(ledger, caller) >= amount,
        balance_in(ledger, to) + amount <= u128::MAX,
    ensures
        transfer_error(ledger, caller, to, amount) is None,
        balance_in(transfer_effect(ledger, caller, to, amount), caller) == balance_in(
            ledger,
            caller,
        ) - amount,
        balance_in(transfer_effect(ledger, caller, to, amount), to) == balance_in(ledger, to)
            + amount,
        balance_in(transfer_effect(ledger, caller, to, amount), caller) + balance_in(
            transfer_effect(ledger, caller, to, amount),
            to,
        ) == balance_in(ledger, caller) + balance_in(ledger, to),
        forall|other: Seq<char>|
            other != caller && other != to ==> balance_in(
                transfer_effect(ledger, caller, to, amount),
                other,
            ) == balance_in(ledger, other),
{
}

/// The total supply is the balance of any one account plus the total supply
/// of the ledger without that account.
pub proof fn lemma_total_supply_split(ledger: Map<Seq<char>, Balance>, who: Seq<char>)
    requires
        ledger.dom().finite(),
    ensures
        total_supply(ledger) == balance_in(ledger, who) + total_supply(ledger.remove(who)),
    decreases ledger.dom().len(),
{
    if !ledger.contains_key(who) {
        assert(ledger.remove(who) =~= ledger);
    } else {
        let first = ledger.dom().choose();
        if first != who {
            lemma_total_supply_split(ledger.remove(first), who);
            lemma_total_supply_split(ledger.remove(who), first);
            assert(ledger.remove(first).remove(who) =~= ledger.remove(who).remove(first));
        }
    }
}

/// A transfer leaves the total supply of the ledger as it was, whether it
/// succeeds or fails and whoever receives.
pub proof fn lemma_transfer_keeps_total_supply(
    ledger: Map<Seq<char>, Balance>,
    caller: Seq<char>,
    to: Seq<char>,
    amount: Balance,
)
    requires
        ledger.dom().finite(),
    ensures
        transfer_effect(ledger, caller, to, amount).dom().finite(),
        total_supply(transfer_effect(ledger, caller, to, amount)) == total_supply(ledger),
{
    let after = transfer_effect(ledger, caller, to, amount);
    if transfer_error(ledger, caller, to, amount) is None {
        lemma_total_supply_split(ledger, caller);
        lemma_total_supply_split(after, caller);
        if caller == to {
            assert(after.remove(caller) =~= ledger.remove(caller));
        } else {
            lemma_total_supply_split(ledger.remove(caller), to);
            lemma_total_supply_split(after.remove(caller), to);
            assert(after.remove(caller).remove(to) =~= ledger.remove(caller).remove(to));
        }
    }
}

/// A transfer to oneself that succeeds leaves every balance as it was.
pub proof fn lemma_transfer_to_oneself(
    ledger: Map<Seq<char>, Balance>,
    caller: Seq<char>,
    amount: Balance,
)
    requires
        balance_in(ledger, caller) >= amount,
        balance_in(ledger, caller) + amount <= u128::MAX,
    ensures
        transfer_error(ledger, caller, caller, amount) is None,
        forall|who: Seq<char>|
            balance_in(transfer_effect(ledger, caller, caller, amount), who) == balance_in(
                ledger,
                who,
            ),
{
}

/// A transfer that the sender can afford and the receiver can hold succeeds
/// and changes no balance but the sender's and the receiver's.
pub proof fn lemma_transfer_touches_two_accounts(
    ledger: Map<Seq<char>, Balance>,
    caller: Seq<char>,
    to: Seq<char>,
    amount: Balance,
)
    requires
        balance_in(ledger, caller) >= amount,
        balance_in(ledger, to) + amount <= u128::MAX,
    ensures
        transfer_error(ledger, caller, to, amount) is None,
        forall|other: Seq<char>|
            other != caller && other != to ==> balance_in(
                transfer_effect(ledger, caller, to, amount),
                other,
            ) == balance_in(ledger, other),
{
}

/// A transfer of more than the sender holds fails for want of funds and
/// leaves the ledger as it was.
pub proof fn lemma_transfer_without_funds(
    ledger: Map<Seq<char>, Balance>,
    caller: Seq<char>,
    to: Seq<char>,
    amount: Balance,
)
    requires
        balance_in(ledger, caller) < amount,
    ensures
        transfer_error(ledger, caller, to, amount) == Some(not_enough_funds()),
        transfer_effect(ledger, caller, to, amount) == ledger,
{
}

/// A transfer that the sender can afford but that would take the receiver's
/// balance beyond the balance type fails with an overflow and leaves the
/// ledger as it was.
pub proof fn lemma_transfer_overflow(
    ledger: Map<Seq<char>, Balance>,
    caller: Seq<char>,
    to: Seq<char>,
    amount: Balance,
)
    requires
        balance_in(ledger, caller) >= amount,
        balance_in(ledger, to) + amount > u128::MAX,
    ensures
        transfer_error(ledger, caller, to, amount) == Some(balance_overflow()),
        transfer_effect(ledger, caller, to, amount) == ledger,
{
}

} // verus!
