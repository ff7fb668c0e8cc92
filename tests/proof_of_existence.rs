use runtime_kernel::proof_of_existence::{Call, Pallet};
use runtime_kernel::support::{Dispatch, DispatchError};

#[test]
fn basic_proof_of_existence() {
    let mut poe = Pallet::new();
    let content = "Hello, world!".to_string();
    assert_eq!(poe.get_claim(&content), None);
    assert_eq!(poe.create_claim("alice".to_string(), content.clone()), Ok(()));
    assert_eq!(poe.get_claim(&content), Some(&"alice".to_string()));
    let second = poe.create_claim("bob".to_string(), content.clone());
    assert_eq!(second, Err(DispatchError::AlreadyClaimed));
    assert_eq!(second.unwrap_err().message(), "Content already claimed.");
    assert_eq!(poe.revoke_claim("alice".to_string(), content.clone()), Ok(()));
    assert_eq!(poe.create_claim("bob".to_string(), content.clone()), Ok(()));
}

#[test]
fn claim_twice_by_owner_fails() {
    let mut poe = Pallet::new();
    let content = "doc".to_string();
    assert_eq!(poe.create_claim("alice".to_string(), content.clone()), Ok(()));
    assert_eq!(
        poe.create_claim("alice".to_string(), content.clone()),
        Err(DispatchError::AlreadyClaimed)
    );
    assert_eq!(poe.get_claim(&content), Some(&"alice".to_string()));
}

#[test]
fn revoke_unclaimed_fails() {
    let mut poe = Pallet::new();
    let result = poe.revoke_claim("alice".to_string(), "doc".to_string());
    assert_eq!(result, Err(DispatchError::NoSuchClaim));
    assert_eq!(result.unwrap_err().message(), "No owner for that claim.");
}

#[test]
fn revoke_by_other_fails_and_keeps_claim() {
    let mut poe = Pallet::new();
    let content = "doc".to_string();
    assert_eq!(poe.create_claim("alice".to_string(), content.clone()), Ok(()));
    let result = poe.revoke_claim("bob".to_string(), content.clone());
    assert_eq!(result, Err(DispatchError::NotOwner));
    assert_eq!(
        result.unwrap_err().message(),
        "Claim can't be revoked, since doesn't belongs to caller."
    );
    assert_eq!(poe.get_claim(&content), Some(&"alice".to_string()));
}

#[test]
fn revoke_then_new_owner_claims() {
    let mut poe = Pallet::new();
    let content = "doc".to_string();
    assert_eq!(poe.dispatch("alice".to_string(), Call::CreateClaim { claim: content.clone() }), Ok(()));
    assert_eq!(poe.dispatch("alice".to_string(), Call::RevokeClaim { claim: content.clone() }), Ok(()));
    assert_eq!(poe.get_claim(&content), None);
    assert_eq!(poe.dispatch("carol".to_string(), Call::CreateClaim { claim: content.clone() }), Ok(()));
    assert_eq!(poe.get_claim(&content), Some(&"carol".to_string()));
}
