use state_machine::balances;
use state_machine::proof_of_existence;
use state_machine::support::{Block, Dispatch, Extrinsic, Header};
use state_machine::runtime::count_calls;
use state_machine::{Runtime, RuntimeCall};

fn transfer(caller: &str, to: &str, amount: u128) -> Extrinsic<String, RuntimeCall> {
    Extrinsic {
        caller: caller.to_string(),
        call: RuntimeCall::balances(balances::Call::transfer { to: to.to_string(), amount }),
    }
}

fn create_claim(caller: &str, claim: &str) -> Extrinsic<String, RuntimeCall> {
    Extrinsic {
        caller: caller.to_string(),
        call: RuntimeCall::proof_of_existence(proof_of_existence::Call::create_claim {
            claim: claim.to_string(),
        }),
    }
}

fn revoke_claim(caller: &str, claim: &str) -> Extrinsic<String, RuntimeCall> {
    Extrinsic {
        caller: caller.to_string(),
        call: RuntimeCall::proof_of_existence(proof_of_existence::Call::revoke_claim {
            claim: claim.to_string(),
        }),
    }
}

fn block(number: u32, extrinsics: Vec<Extrinsic<String, RuntimeCall>>) -> state_machine::types::Block {
    Block { header: Header { block_number: number }, extrinsics }
}

#[test]
fn fresh_runtime_is_empty() {
    let runtime = Runtime::new();
    let alice = "alice".to_string();
    assert_eq!(runtime.system.block_number(), 0);
    assert_eq!(runtime.system.nonce(&alice), 0);
    assert_eq!(runtime.balances.balance(&alice), 0);
    assert_eq!(runtime.proof_of_existence.get_claim(&"document".to_string()), None);
}

#[test]
fn two_blocks_with_a_failing_claim() {
    let mut runtime = Runtime::new();
    let alice = "alice".to_string();
    let bob = "bob".to_string();
    let charlie = "charlie".to_string();
    let document = "document".to_string();
    runtime.balances.set_balance(&alice, 100);

    let block_1 = block(
        1,
        vec![
            transfer("alice", "bob", 20),
            transfer("alice", "charlie", 50),
            create_claim("alice", "document"),
        ],
    );
    assert_eq!(runtime.execute_block(block_1), Ok(()));
    assert_eq!(runtime.balances.balance(&alice), 30);
    assert_eq!(runtime.balances.balance(&bob), 20);
    assert_eq!(runtime.balances.balance(&charlie), 50);
    assert_eq!(runtime.proof_of_existence.get_claim(&document), Some(&alice));
    assert_eq!(runtime.system.nonce(&alice), 3);
    assert_eq!(runtime.system.block_number(), 1);

    let block_2 = block(2, vec![create_claim("bob", "document")]);
    let log = runtime.execute_block_with_report(block_2).expect("the header names the next height");
    assert_eq!(log.len(), 1);
    assert_eq!(log[0].index, 0);
    assert_eq!(log[0].caller, bob);
    assert_eq!(log[0].reason, "This content is already claimed");
    assert_eq!(runtime.proof_of_existence.get_claim(&document), Some(&alice));
    assert_eq!(runtime.system.nonce(&bob), 1);
    assert_eq!(runtime.system.nonce(&alice), 3);
    assert_eq!(runtime.system.block_number(), 2);
}

#[test]
fn a_block_of_failures_still_advances_height_and_nonces() {
    let mut runtime = Runtime::new();
    let alice = "alice".to_string();
    let bob = "bob".to_string();
    let extrinsics = vec![
        transfer("alice", "bob", 1),
        revoke_claim("bob", "nothing"),
        transfer("alice", "bob", 2),
    ];
    let log = runtime.execute_block_with_report(block(1, extrinsics)).expect("valid header");
    assert_eq!(log.len(), 3);
    assert_eq!(log[0].index, 0);
    assert_eq!(log[0].caller, alice);
    assert_eq!(log[0].reason, "Not enough funds.");
    assert_eq!(log[1].index, 1);
    assert_eq!(log[1].caller, bob);
    assert_eq!(log[1].reason, "Claim does not exist");
    assert_eq!(log[2].index, 2);
    assert_eq!(log[2].caller, alice);
    assert_eq!(log[2].reason, "Not enough funds.");
    assert_eq!(runtime.system.block_number(), 1);
    assert_eq!(runtime.system.nonce(&alice), 2);
    assert_eq!(runtime.system.nonce(&bob), 1);
    assert_eq!(runtime.balances.balance(&alice), 0);
    assert_eq!(runtime.balances.balance(&bob), 0);
}

#[test]
fn an_empty_block_advances_only_the_height() {
    let mut runtime = Runtime::new();
    let alice = "alice".to_string();
    runtime.balances.set_balance(&alice, 5);
    let log = runtime.execute_block_with_report(block(1, vec![])).expect("valid header");
    assert_eq!(log.len(), 0);
    assert_eq!(runtime.system.block_number(), 1);
    assert_eq!(runtime.system.nonce(&alice), 0);
    assert_eq!(runtime.balances.balance(&alice), 5);
}

#[test]
fn a_wrong_header_changes_nothing() {
    let mut runtime = Runtime::new();
    let alice = "alice".to_string();
    let bob = "bob".to_string();
    runtime.balances.set_balance(&alice, 100);

    for number in [0u32, 2, 7, u32::MAX] {
        let rejected = block(
            number,
            vec![transfer("alice", "bob", 20), create_claim("alice", "document")],
        );
        assert_eq!(runtime.execute_block(rejected), Err("wrong block number"));
        assert_eq!(runtime.system.block_number(), 0);
        assert_eq!(runtime.system.nonce(&alice), 0);
        assert_eq!(runtime.balances.balance(&alice), 100);
        assert_eq!(runtime.balances.balance(&bob), 0);
        assert_eq!(runtime.proof_of_existence.get_claim(&"document".to_string()), None);
    }

    assert_eq!(runtime.execute_block(block(1, vec![transfer("alice", "bob", 20)])), Ok(()));
    assert_eq!(runtime.execute_block(block(1, vec![transfer("alice", "bob", 20)])),
        Err("wrong block number"));
    assert_eq!(runtime.system.block_number(), 1);
    assert_eq!(runtime.system.nonce(&alice), 1);
    assert_eq!(runtime.balances.balance(&bob), 20);
}

#[test]
fn a_wrong_header_gives_no_report() {
    let mut runtime = Runtime::new();
    let rejected = block(3, vec![create_claim("alice", "document")]);
    match runtime.execute_block_with_report(rejected) {
        Ok(_) => panic!("the header does not name the next height"),
        Err(reason) => assert_eq!(reason, "wrong block number"),
    }
    assert_eq!(runtime.system.block_number(), 0);
    assert_eq!(runtime.system.nonce(&"alice".to_string()), 0);
}

#[test]
fn a_failure_between_two_successes_is_isolated() {
    let mut runtime = Runtime::new();
    let alice = "alice".to_string();
    let bob = "bob".to_string();
    runtime.balances.set_balance(&alice, 100);
    let extrinsics = vec![
        transfer("alice", "bob", 30),
        transfer("alice", "bob", 500),
        create_claim("bob", "deed"),
        transfer("bob", "alice", 10),
    ];
    let log = runtime.execute_block_with_report(block(1, extrinsics)).expect("valid header");
    assert_eq!(log.len(), 1);
    assert_eq!(log[0].index, 1);
    assert_eq!(log[0].caller, alice);
    assert_eq!(log[0].reason, "Not enough funds.");
    assert_eq!(runtime.balances.balance(&alice), 80);
    assert_eq!(runtime.balances.balance(&bob), 20);
    assert_eq!(runtime.proof_of_existence.get_claim(&"deed".to_string()), Some(&bob));
    assert_eq!(runtime.system.nonce(&alice), 2);
    assert_eq!(runtime.system.nonce(&bob), 2);
    assert_eq!(runtime.system.block_number(), 1);
}

#[test]
fn runtime_dispatch_touches_only_the_named_pallet() {
    let mut runtime = Runtime::new();
    let alice = "alice".to_string();
    let bob = "bob".to_string();
    runtime.balances.set_balance(&alice, 10);
    let call = RuntimeCall::balances(balances::Call::transfer { to: bob.clone(), amount: 4 });
    let copy = call.duplicate();
    assert_eq!(runtime.dispatch(alice.clone(), call), Ok(()));
    assert_eq!(runtime.balances.balance(&alice), 6);
    assert_eq!(runtime.balances.balance(&bob), 4);
    assert_eq!(runtime.system.nonce(&alice), 0);
    assert_eq!(runtime.system.block_number(), 0);
    assert_eq!(runtime.dispatch(alice.clone(), copy), Ok(()));
    assert_eq!(runtime.balances.balance(&bob), 8);
    let claim = RuntimeCall::proof_of_existence(proof_of_existence::Call::create_claim {
        claim: "deed".to_string(),
    });
    assert_eq!(runtime.dispatch(bob.clone(), claim), Ok(()));
    assert_eq!(runtime.proof_of_existence.get_claim(&"deed".to_string()), Some(&bob));
    assert_eq!(runtime.balances.balance(&bob), 8);
    let overdraw = RuntimeCall::balances(balances::Call::transfer { to: bob.clone(), amount: 3 });
    assert_eq!(runtime.dispatch(alice.clone(), overdraw), Err("Not enough funds."));
    assert_eq!(runtime.balances.balance(&alice), 2);
}

#[test]
fn calls_are_counted_per_caller() {
    let extrinsics = vec![
        transfer("alice", "bob", 1),
        create_claim("bob", "deed"),
        transfer("alice", "bob", 2),
        revoke_claim("alice", "deed"),
    ];
    assert_eq!(count_calls(&extrinsics, &"alice".to_string()), 3);
    assert_eq!(count_calls(&extrinsics, &"bob".to_string()), 1);
    assert_eq!(count_calls(&extrinsics, &"charlie".to_string()), 0);
    assert_eq!(count_calls(&Vec::new(), &"alice".to_string()), 0);
}

#[test]
fn small_nonces_have_room() {
    let mut runtime = Runtime::new();
    let extrinsics = vec![transfer("alice", "bob", 1), transfer("alice", "bob", 2)];
    assert!(runtime.has_room_for(&extrinsics));
    assert!(runtime.has_room_for(&Vec::new()));
    assert_eq!(runtime.execute_block(block(1, extrinsics)), Ok(()));
    assert_eq!(runtime.system.nonce(&"alice".to_string()), 2);
    assert!(runtime.has_room_for(&vec![transfer("alice", "bob", 1)]));
}

#[test]
fn nonce_grows_by_the_callers_extrinsics_over_blocks() {
    let mut runtime = Runtime::new();
    let alice = "alice".to_string();
    let bob = "bob".to_string();
    runtime.balances.set_balance(&alice, 3);
    let first = vec![
        transfer("alice", "bob", 2),
        transfer("alice", "bob", 2),
        transfer("bob", "alice", 1),
    ];
    let in_first = count_calls(&first, &alice);
    assert_eq!(runtime.execute_block(block(1, first)), Ok(()));
    assert_eq!(runtime.system.nonce(&alice), 2);
    assert_eq!(runtime.system.nonce(&alice) as usize, in_first);
    assert_eq!(runtime.system.nonce(&bob), 1);
    let second = vec![create_claim("alice", "deed"), create_claim("alice", "deed")];
    assert_eq!(runtime.execute_block(block(2, second)), Ok(()));
    assert_eq!(runtime.system.nonce(&alice), 4);
    assert_eq!(runtime.system.nonce(&bob), 1);
    assert_eq!(runtime.system.block_number(), 2);
    assert_eq!(runtime.balances.balance(&alice), 2);
    assert_eq!(runtime.balances.balance(&bob), 1);
}

#[test]
fn a_transfer_to_oneself_in_a_block_keeps_the_supply() {
    let mut runtime = Runtime::new();
    let alice = "alice".to_string();
    let bob = "bob".to_string();
    runtime.balances.set_balance(&alice, 100);
    let extrinsics = vec![transfer("alice", "alice", 10), transfer("alice", "bob", 40)];
    let log = runtime.execute_block_with_report(block(1, extrinsics)).expect("valid header");
    assert_eq!(log.len(), 0);
    assert_eq!(runtime.balances.balance(&alice), 60);
    assert_eq!(runtime.balances.balance(&bob), 40);
    assert_eq!(runtime.system.nonce(&alice), 2);
}
