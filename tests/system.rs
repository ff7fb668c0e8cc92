use runtime_kernel::system::Pallet;

#[test]
fn init_system() {
    let mut system_pallet: Pallet = Pallet::new();

    system_pallet.inc_block_number();
    assert_eq!(system_pallet.block_number(), 1);

    let alice: String = String::from("alice");
    system_pallet.inc_nonce(&alice);
    assert_eq!(system_pallet.get_nonce(&alice), 1);

    let bob: String = String::from("bob");
    assert_eq!(system_pallet.get_nonce(&bob), 0);
}

#[test]
fn nonces_are_per_account() {
    let mut system = Pallet::new();
    let alice = "alice".to_string();
    let bob = "bob".to_string();
    system.inc_nonce(&alice);
    system.inc_nonce(&alice);
    system.inc_nonce(&bob);
    assert_eq!(system.get_nonce(&alice), 2);
    assert_eq!(system.get_nonce(&bob), 1);
    assert_eq!(system.block_number(), 0);
}
