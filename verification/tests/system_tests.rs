use state_machine::system::Pallet;

#[test]
fn init_system() {
    let system = Pallet::new();
    assert_eq!(system.block_number(), 0);
}

#[test]
fn inc_block_number() {
    let mut system = Pallet::new();
    system.inc_block_number();
    assert_eq!(system.block_number(), 1);
}

#[test]
fn check_nonce() {
    let system = Pallet::new();
    let alice = String::from("Alice");
    assert_eq!(&system.nonce(&alice), &0);
}

#[test]
fn inc_nonce() {
    let mut system = Pallet::new();
    let alice = String::from("Alice");
    system.inc_nonce(&alice);
    assert_eq!(&system.nonce(&alice), &1);
}

#[test]
fn nonce_counts_each_increment_per_account() {
    let mut system = Pallet::new();
    let alice = String::from("alice");
    let bob = String::from("bob");
    system.inc_nonce(&alice);
    system.inc_nonce(&bob);
    system.inc_nonce(&alice);
    system.inc_nonce(&alice);
    assert_eq!(system.nonce(&alice), 3);
    assert_eq!(system.nonce(&bob), 1);
    assert_eq!(system.nonce(&String::from("charlie")), 0);
    assert_eq!(system.block_number(), 0);
}

#[test]
fn block_number_counts_each_increment() {
    let mut system = Pallet::new();
    system.inc_nonce(&String::from("alice"));
    system.inc_block_number();
    system.inc_block_number();
    system.inc_block_number();
    assert_eq!(system.block_number(), 3);
    assert_eq!(system.nonce(&String::from("alice")), 1);
}
