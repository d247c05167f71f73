use dao_governance::escrow::{
    EscrowDeposited, Error, EscrowEvent, EscrowReleased, ServiceStored,
    ServiceVerificationEscrow,
};
use dao_governance::identity::Did;

const OWNER: u64 = 1;

#[test]
fn deposit_and_release_works() {
    let mut contract = ServiceVerificationEscrow::new(OWNER, 1000);
    let service_id = 1u64;
    assert_eq!(contract.store(OWNER, service_id, b"hash".to_vec()), Ok(()));
}

#[test]
fn open_dispute_works() {
    let mut contract = ServiceVerificationEscrow::new(OWNER, 1000);
    let service_id = 1u64;
    assert_eq!(contract.store(OWNER, service_id, b"hash".to_vec()), Ok(()));
    assert_eq!(contract.open_dispute(2, service_id, b"issue".to_vec(), 77), Ok(()));
    if !contract.dispute_is_open(service_id) {
        panic!("Dispute not set");
    }
}

#[test]
fn escrow_store_duplicate_fails() {
    let mut contract = ServiceVerificationEscrow::new(OWNER, 1000);
    assert_eq!(contract.store(OWNER, 1, b"hash".to_vec()), Ok(()));
    assert_eq!(
        contract.store(OWNER, 1, b"other".to_vec()),
        Err(Error::ServiceAlreadyExists)
    );
}

#[test]
fn escrow_store_empty_data_fails() {
    let mut contract = ServiceVerificationEscrow::new(OWNER, 1000);
    assert_eq!(contract.store(OWNER, 1, Vec::new()), Err(Error::InvalidData));
    assert!(!contract.service_exists(1));
}

#[test]
fn escrow_get_and_exists_work() {
    let mut contract = ServiceVerificationEscrow::new(OWNER, 1000);
    assert_eq!(contract.get(1), None);
    assert_eq!(contract.store(2, 1, b"hash".to_vec()), Ok(()));
    assert_eq!(contract.get(1), Some(b"hash".to_vec()));
    assert!(contract.service_exists(1));
    assert!(!contract.service_exists(2));
    assert!(contract.events().contains(&EscrowEvent::Stored(ServiceStored {
        service_id: 1,
        caller: 2,
    })));
}

#[test]
fn escrow_deposit_accumulates() {
    let mut contract = ServiceVerificationEscrow::new(OWNER, 1000);
    assert_eq!(contract.deposit_escrow(3, 7, 500), Ok(500));
    assert_eq!(contract.deposit_escrow(4, 7, 250), Ok(750));
    assert_eq!(contract.escrow_balance(7), 750);
    assert!(contract.events().contains(&EscrowEvent::Deposited(EscrowDeposited {
        service_id: 7,
        amount: 500,
        depositor: 3,
    })));
}

#[test]
fn escrow_deposit_zero_fails() {
    let mut contract = ServiceVerificationEscrow::new(OWNER, 1000);
    assert_eq!(contract.deposit_escrow(3, 7, 0), Err(Error::NoEscrowBalance));
    assert_eq!(contract.escrow_balance(7), 0);
}

#[test]
fn escrow_release_pays_out_once() {
    let mut contract = ServiceVerificationEscrow::new(OWNER, 1000);
    assert_eq!(contract.deposit_escrow(3, 7, 600), Ok(600));

    assert_eq!(contract.release_escrow(2, 7, 9), Err(Error::NotAuthorized));
    assert_eq!(contract.release_escrow(OWNER, 7, 9), Ok(()));
    assert_eq!(contract.escrow_balance(7), 0);
    assert!(contract.events().contains(&EscrowEvent::Released(EscrowReleased {
        service_id: 7,
        amount: 600,
        to: 9,
    })));

    assert_eq!(contract.release_escrow(OWNER, 7, 9), Err(Error::NoEscrowBalance));
}

#[test]
fn escrow_dispute_blocks_release() {
    let mut contract = ServiceVerificationEscrow::new(OWNER, 1000);
    assert_eq!(contract.store(2, 7, b"hash".to_vec()), Ok(()));
    assert_eq!(contract.deposit_escrow(3, 7, 500), Ok(500));
    assert_eq!(contract.open_dispute(4, 7, b"late delivery".to_vec(), 123), Ok(()));

    assert_eq!(contract.release_escrow(OWNER, 7, 9), Err(Error::DisputeOpen));
    assert_eq!(contract.escrow_balance(7), 500);

    assert_eq!(contract.resolve_dispute_release(OWNER, 7, 9, 300), Ok(()));
    assert!(!contract.dispute_is_open(7));
    assert_eq!(contract.escrow_balance(7), 200);
}

#[test]
fn escrow_dispute_on_unknown_service_fails() {
    let mut contract = ServiceVerificationEscrow::new(OWNER, 1000);
    assert_eq!(
        contract.open_dispute(4, 7, b"nothing there".to_vec(), 123),
        Err(Error::ServiceNotFound)
    );
}

#[test]
fn escrow_resolve_with_bad_amount_still_resolves() {
    let mut contract = ServiceVerificationEscrow::new(OWNER, 1000);
    assert_eq!(contract.store(2, 7, b"hash".to_vec()), Ok(()));
    assert_eq!(contract.open_dispute(4, 7, b"issue".to_vec(), 123), Ok(()));

    // The contract resets the dispute before it attempts the payout, so a
    // payout that fails still leaves the dispute resolved.
    assert_eq!(
        contract.resolve_dispute_release(OWNER, 7, 9, 0),
        Err(Error::NoEscrowBalance)
    );
    assert!(!contract.dispute_is_open(7));
}

#[test]
fn did_handle_wraps_client() {
    let did = Did::new(42u32);
    assert_eq!(did.client, 42u32);
}
