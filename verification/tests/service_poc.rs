use dao_governance::service_poc::{Error, ServiceVerificationPoc};

const CALLER: u64 = 1;

#[test]
fn new_works() {
    let contract = ServiceVerificationPoc::new();
    assert_eq!(contract.get(1), None);
}

#[test]
fn store_and_get_works() {
    let mut contract = ServiceVerificationPoc::new();
    let service_id = 1u64;
    let data_hash = b"verification_data_hash".to_vec();

    assert_eq!(contract.store(CALLER, service_id, data_hash.clone()), Ok(()));

    assert_eq!(contract.get(service_id), Some(data_hash));
}

#[test]
fn store_duplicate_fails() {
    let mut contract = ServiceVerificationPoc::new();
    let service_id = 1u64;
    let data_hash = b"verification_data_hash".to_vec();

    assert_eq!(contract.store(CALLER, service_id, data_hash.clone()), Ok(()));

    assert_eq!(
        contract.store(CALLER, service_id, data_hash),
        Err(Error::ServiceAlreadyExists)
    );
}

#[test]
fn store_empty_data_fails() {
    let mut contract = ServiceVerificationPoc::new();
    let service_id = 1u64;
    let empty_data = Vec::new();

    assert_eq!(contract.store(CALLER, service_id, empty_data), Err(Error::InvalidData));
}

#[test]
fn update_works() {
    let mut contract = ServiceVerificationPoc::new();
    let service_id = 1u64;
    let initial_data = b"initial_data".to_vec();
    let updated_data = b"updated_data".to_vec();

    assert_eq!(contract.store(CALLER, service_id, initial_data), Ok(()));

    assert_eq!(contract.update(CALLER, service_id, updated_data.clone()), Ok(()));

    assert_eq!(contract.get(service_id), Some(updated_data));
}

#[test]
fn update_nonexistent_fails() {
    let mut contract = ServiceVerificationPoc::new();
    let service_id = 1u64;
    let data = b"some_data".to_vec();

    assert_eq!(contract.update(CALLER, service_id, data), Err(Error::ServiceNotFound));
}

#[test]
fn exists_works() {
    let mut contract = ServiceVerificationPoc::new();
    let service_id = 1u64;
    let data_hash = b"verification_data_hash".to_vec();

    assert_eq!(contract.service_exists(service_id), false);

    assert_eq!(contract.store(CALLER, service_id, data_hash), Ok(()));

    assert_eq!(contract.service_exists(service_id), true);
}

#[test]
fn event_emitted_on_store() {
    let mut contract = ServiceVerificationPoc::new();
    let service_id = 1u64;
    let data_hash = b"verification_data_hash".to_vec();

    assert_eq!(contract.store(CALLER, service_id, data_hash), Ok(()));

    let emitted_events = contract.events();
    assert_eq!(emitted_events.len(), 1);

    let event = &emitted_events[0];
    assert_eq!(event.service_id, service_id);
}
