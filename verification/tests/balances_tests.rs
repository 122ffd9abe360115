use state_machine::balances::{Call, Pallet};
use state_machine::support::Dispatch;

#[test]
fn init_balances() {
    let mut balances = Pallet::new();

    assert_eq!(balances.balance(&"alice".to_string()), 0);
    balances.set_balance(&"alice".to_string(), 100);
    assert_eq!(balances.balance(&"alice".to_string()), 100);
    assert_eq!(balances.balance(&"bob".to_string()), 0);
}

#[test]
fn transfer_balance() {
    let mut balances = Pallet::new();

    let alice = "alice".to_string();
    let bob = "bob".to_string();

    balances.set_balance(&alice, 100);
    assert_eq!(balances.balance(&alice), 100);
    assert_eq!(balances.transfer(alice.clone(), bob.clone(), 10), Ok(()));
    assert_eq!(balances.balance(&alice), 90);
    assert_eq!(balances.balance(&bob), 10);
}

#[test]
fn transfer_balance_insufficient_fund() {
    let mut balances = Pallet::new();

    let alice = "alice".to_string();
    let bob = "bob".to_string();

    balances.set_balance(&alice, 100);
    assert_eq!(balances.balance(&alice), 100);
    assert_eq!(balances.transfer(alice.clone(), bob.clone(), 110), Err("Not enough funds."));
    assert_eq!(balances.balance(&alice), 100);
    assert_eq!(balances.balance(&bob), 0);
}

#[test]
fn transfer_balance_overflow() {
    let mut balances = Pallet::new();

    let alice = "alice".to_string();
    let bob = "bob".to_string();

    balances.set_balance(&alice, 100);
    balances.set_balance(&bob, u128::MAX);
    assert_eq!(balances.balance(&alice), 100);
    assert_eq!(balances.balance(&bob), u128::MAX);
    assert_eq!(
        balances.transfer(alice.clone(), bob.clone(), 10),
        Err("Overflow when adding to balance")
    );
    assert_eq!(balances.balance(&alice), 100);
    assert_eq!(balances.balance(&bob), u128::MAX);
}

#[test]
fn transfer_keeps_the_sum_and_other_accounts() {
    let mut balances = Pallet::new();
    let alice = "alice".to_string();
    let bob = "bob".to_string();
    let charlie = "charlie".to_string();
    balances.set_balance(&alice, 70);
    balances.set_balance(&bob, 5);
    balances.set_balance(&charlie, 9);
    assert_eq!(balances.transfer(alice.clone(), bob.clone(), 30), Ok(()));
    assert_eq!(balances.balance(&alice), 40);
    assert_eq!(balances.balance(&bob), 35);
    assert_eq!(balances.balance(&alice) + balances.balance(&bob), 75);
    assert_eq!(balances.balance(&charlie), 9);
}

#[test]
fn transfer_of_the_whole_balance_and_of_nothing() {
    let mut balances = Pallet::new();
    let alice = "alice".to_string();
    let bob = "bob".to_string();
    balances.set_balance(&alice, 100);
    assert_eq!(balances.transfer(alice.clone(), bob.clone(), 0), Ok(()));
    assert_eq!(balances.balance(&alice), 100);
    assert_eq!(balances.balance(&bob), 0);
    assert_eq!(balances.transfer(alice.clone(), bob.clone(), 100), Ok(()));
    assert_eq!(balances.balance(&alice), 0);
    assert_eq!(balances.balance(&bob), 100);
    assert_eq!(balances.transfer(alice.clone(), bob.clone(), 1), Err("Not enough funds."));
}

#[test]
fn transfer_up_to_the_largest_balance() {
    let mut balances = Pallet::new();
    let alice = "alice".to_string();
    let bob = "bob".to_string();
    balances.set_balance(&alice, 10);
    balances.set_balance(&bob, u128::MAX - 10);
    assert_eq!(balances.transfer(alice.clone(), bob.clone(), 10), Ok(()));
    assert_eq!(balances.balance(&alice), 0);
    assert_eq!(balances.balance(&bob), u128::MAX);
}

#[test]
fn want_of_funds_is_reported_before_overflow() {
    let mut balances = Pallet::new();
    let alice = "alice".to_string();
    let bob = "bob".to_string();
    balances.set_balance(&alice, 5);
    balances.set_balance(&bob, u128::MAX);
    assert_eq!(balances.transfer(alice.clone(), bob.clone(), 6), Err("Not enough funds."));
    assert_eq!(balances.balance(&alice), 5);
    assert_eq!(balances.balance(&bob), u128::MAX);
}

#[test]
fn transfer_to_oneself_keeps_the_balance() {
    let mut balances = Pallet::new();
    let alice = "alice".to_string();
    let bob = "bob".to_string();
    balances.set_balance(&alice, 100);
    balances.set_balance(&bob, 7);
    assert_eq!(balances.transfer(alice.clone(), alice.clone(), 10), Ok(()));
    assert_eq!(balances.balance(&alice), 100);
    assert_eq!(balances.transfer(alice.clone(), alice.clone(), 100), Ok(()));
    assert_eq!(balances.balance(&alice), 100);
    assert_eq!(balances.transfer(alice.clone(), alice.clone(), 101), Err("Not enough funds."));
    assert_eq!(balances.balance(&alice), 100);
    assert_eq!(balances.balance(&bob), 7);
}

#[test]
fn transfer_to_oneself_by_an_unseen_account() {
    let mut balances = Pallet::new();
    let alice = "alice".to_string();
    assert_eq!(balances.transfer(alice.clone(), alice.clone(), 0), Ok(()));
    assert_eq!(balances.balance(&alice), 0);
    assert_eq!(balances.transfer(alice.clone(), alice.clone(), 1), Err("Not enough funds."));
    assert_eq!(balances.balance(&alice), 0);
}

#[test]
fn transfer_to_oneself_is_refused_where_the_credit_would_overflow() {
    let mut balances = Pallet::new();
    let alice = "alice".to_string();
    balances.set_balance(&alice, u128::MAX);
    assert_eq!(
        balances.transfer(alice.clone(), alice.clone(), 1),
        Err("Overflow when adding to balance")
    );
    assert_eq!(balances.balance(&alice), u128::MAX);
}

#[test]
fn set_balance_replaces_the_earlier_value() {
    let mut balances = Pallet::new();
    let alice = "alice".to_string();
    balances.set_balance(&alice, 100);
    balances.set_balance(&alice, 7);
    assert_eq!(balances.balance(&alice), 7);
}

#[test]
fn ledger_dispatch_routes_a_transfer() {
    let mut balances = Pallet::new();
    let alice = "alice".to_string();
    let bob = "bob".to_string();
    balances.set_balance(&alice, 100);
    let call = Call::transfer { to: bob.clone(), amount: 25 };
    let copy = call.duplicate();
    assert_eq!(balances.dispatch(alice.clone(), call), Ok(()));
    assert_eq!(balances.balance(&alice), 75);
    assert_eq!(balances.balance(&bob), 25);
    assert_eq!(balances.dispatch(alice.clone(), copy), Ok(()));
    assert_eq!(balances.balance(&alice), 50);
    assert_eq!(balances.balance(&bob), 50);
    let too_much = Call::transfer { to: alice.clone(), amount: 51 };
    assert_eq!(balances.dispatch(bob, too_much), Err("Not enough funds."));
}

#[test]
fn total_supply_is_kept_by_transfers_between_accounts() {
    let mut balances = Pallet::new();
    let alice = "alice".to_string();
    let bob = "bob".to_string();
    let charlie = "charlie".to_string();
    balances.set_balance(&alice, 60);
    balances.set_balance(&bob, 30);
    balances.set_balance(&charlie, 10);
    assert_eq!(balances.transfer(alice.clone(), bob.clone(), 25), Ok(()));
    assert_eq!(balances.transfer(bob.clone(), charlie.clone(), 55), Ok(()));
    assert_eq!(balances.transfer(charlie.clone(), alice.clone(), 70), Err("Not enough funds."));
    assert_eq!(balances.balance(&alice), 35);
    assert_eq!(balances.balance(&bob), 0);
    assert_eq!(balances.balance(&charlie), 65);
    assert_eq!(
        balances.balance(&alice) + balances.balance(&bob) + balances.balance(&charlie),
        100
    );
}
