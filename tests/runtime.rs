use runtime_kernel::balances;
use runtime_kernel::proof_of_existence;
use runtime_kernel::runtime::{Block, Extrinsic, Header, Runtime, RuntimeCall};
use runtime_kernel::support::{DispatchError, Dispatch};

fn transfer(caller: &str, to: &str, amount: u128) -> Extrinsic {
    Extrinsic {
        caller: caller.to_string(),
        call: RuntimeCall::Balances(balances::Call::Transfer { to: to.to_string(), amount }),
    }
}

fn claim(caller: &str, content: &str) -> Extrinsic {
    Extrinsic {
        caller: caller.to_string(),
        call: RuntimeCall::ProofOfExistence(proof_of_existence::Call::CreateClaim {
            claim: content.to_string(),
        }),
    }
}

fn block(number: u32, extrinsics: Vec<Extrinsic>) -> Block {
    Block { header: Header { block_number: number }, extrinsics }
}

#[test]
fn runtime_starts_empty() {
    let runtime = Runtime::new();
    assert_eq!(runtime.system.block_number(), 0);
    assert_eq!(runtime.system.get_nonce(&"alice".to_string()), 0);
    assert_eq!(runtime.balances.balance(&"alice".to_string()), 0);
    assert_eq!(runtime.proof_of_existence.get_claim(&"x".to_string()), None);
}

#[test]
fn block_runs_transfers_in_order() {
    let mut runtime = Runtime::new();
    let alice = "alice".to_string();
    let bob = "bob".to_string();
    let charlie = "charlie".to_string();
    runtime.balances.set_balance(&alice, 60);
    runtime.balances.set_balance(&bob, 0);
    runtime.balances.set_balance(&charlie, 0);
    let b = block(1, vec![transfer("alice", "bob", 20), transfer("alice", "charlie", 10)]);
    assert_eq!(runtime.execute_block(b), Ok(()));
    assert_eq!(runtime.system.block_number(), 1);
    assert_eq!(runtime.balances.balance(&alice), 30);
    assert_eq!(runtime.balances.balance(&bob), 20);
    assert_eq!(runtime.balances.balance(&charlie), 10);
    assert_eq!(runtime.system.get_nonce(&alice), 2);
}

#[test]
fn failed_extrinsics_do_not_fail_block() {
    let mut runtime = Runtime::new();
    let alice = "alice".to_string();
    let bob = "bob".to_string();
    runtime.balances.set_balance(&bob, 0);
    let b = block(
        1,
        vec![
            transfer("alice", "nobody", 1),
            transfer("alice", "bob", 5),
            claim("alice", "doc"),
            claim("bob", "doc"),
        ],
    );
    let outcomes = runtime.execute_block_outcomes(b).unwrap();
    assert_eq!(
        outcomes,
        vec![
            Err(DispatchError::UnknownDestination),
            Err(DispatchError::InsufficientFunds),
            Ok(()),
            Err(DispatchError::AlreadyClaimed),
        ]
    );
    assert_eq!(runtime.system.get_nonce(&alice), 3);
    assert_eq!(runtime.system.get_nonce(&bob), 1);
    assert_eq!(runtime.proof_of_existence.get_claim(&"doc".to_string()), Some(&alice));
}

#[test]
fn nonces_count_extrinsics_across_blocks() {
    let mut runtime = Runtime::new();
    let alice = "alice".to_string();
    runtime.balances.set_balance(&"bob".to_string(), 0);
    assert_eq!(runtime.execute_block(block(1, vec![transfer("alice", "bob", 1)])), Ok(()));
    assert_eq!(
        runtime.execute_block(block(2, vec![transfer("alice", "bob", 1), claim("alice", "c")])),
        Ok(())
    );
    assert_eq!(runtime.execute_block(block(3, vec![])), Ok(()));
    assert_eq!(runtime.system.get_nonce(&alice), 3);
    assert_eq!(runtime.system.block_number(), 3);
}

#[test]
fn mismatched_block_is_refused_but_number_advances() {
    let mut runtime = Runtime::new();
    let alice = "alice".to_string();
    let bob = "bob".to_string();
    runtime.balances.set_balance(&alice, 10);
    runtime.balances.set_balance(&bob, 0);
    let result = runtime.execute_block(block(5, vec![transfer("alice", "bob", 4), claim("alice", "d")]));
    assert_eq!(result, Err(DispatchError::BlockNumberMismatch));
    assert_eq!(result.unwrap_err().message(), "block number doesn't match");
    assert_eq!(runtime.system.block_number(), 1);
    assert_eq!(runtime.balances.balance(&alice), 10);
    assert_eq!(runtime.balances.balance(&bob), 0);
    assert_eq!(runtime.system.get_nonce(&alice), 0);
    assert_eq!(runtime.proof_of_existence.get_claim(&"d".to_string()), None);
    // The next block must now carry number 2.
    assert_eq!(
        runtime.execute_block(block(1, vec![])),
        Err(DispatchError::BlockNumberMismatch)
    );
    assert_eq!(runtime.execute_block(block(3, vec![transfer("alice", "bob", 4)])), Ok(()));
    assert_eq!(runtime.balances.balance(&bob), 4);
}

#[test]
fn runtime_dispatch_routes_to_modules() {
    let mut runtime = Runtime::new();
    let alice = "alice".to_string();
    let bob = "bob".to_string();
    runtime.balances.set_balance(&alice, 3);
    runtime.balances.set_balance(&bob, 0);
    let call = RuntimeCall::Balances(balances::Call::Transfer { to: bob.clone(), amount: 2 });
    assert_eq!(runtime.dispatch(alice.clone(), call), Ok(()));
    assert_eq!(runtime.balances.balance(&bob), 2);
    let revoke = RuntimeCall::ProofOfExistence(proof_of_existence::Call::RevokeClaim {
        claim: "none".to_string(),
    });
    assert_eq!(runtime.dispatch(alice.clone(), revoke), Err(DispatchError::NoSuchClaim));
    // Dispatch alone does not count nonces.
    assert_eq!(runtime.system.get_nonce(&alice), 0);
}

#[test]
fn counts_authored_extrinsics() {
    let xs = vec![transfer("alice", "bob", 1), claim("bob", "x"), claim("alice", "y")];
    assert_eq!(Runtime::count_authored(&xs, &"alice".to_string()), 2);
    assert_eq!(Runtime::count_authored(&xs, &"bob".to_string()), 1);
    assert_eq!(Runtime::count_authored(&xs, &"carol".to_string()), 0);
}

#[test]
fn counters_fit_for_an_ordinary_block() {
    let runtime = Runtime::new();
    let b = block(1, vec![transfer("alice", "bob", 1), transfer("alice", "bob", 1)]);
    assert!(runtime.fits_counters(&b));
}

