use user_directory::commands::{my_custom_command, save_user, DuplicatePolicy};
use user_directory::error::ErrorKind;
use user_directory::store::UserStore;

#[test]
fn greeting_is_fixed() {
    assert_eq!(my_custom_command(), "Hello from Rust!");
    assert_eq!(my_custom_command(), my_custom_command());
}

#[test]
fn save_user_stores_the_record() {
    let mut store = UserStore::new();
    assert_eq!(save_user(&mut store, "Alice".to_string(), "alice@example.com".to_string()), Ok(()));
    assert_eq!(store.len(), 1);
    let found = store.find_by_email("ALICE@example.com").unwrap();
    assert_eq!(found.id, 1);
    assert_eq!(found.name, "Alice");
    assert_eq!(found.email, "alice@example.com");
}

#[test]
fn save_user_passes_failures_on_unchanged() {
    let mut store = UserStore::new();
    assert_eq!(
        save_user(&mut store, "".to_string(), "a@b.com".to_string()),
        Err(ErrorKind::InvalidInput)
    );
    assert_eq!(
        save_user(&mut store, "A".to_string(), "not an address".to_string()),
        Err(ErrorKind::InvalidInput)
    );
    assert!(store.is_empty());
    assert_eq!(save_user(&mut store, "A".to_string(), "a@b.com".to_string()), Ok(()));
    assert_eq!(
        save_user(&mut store, "B".to_string(), "A@B.COM".to_string()),
        Err(ErrorKind::DuplicateUser)
    );
    assert_eq!(store.len(), 1);
    let mut spent = UserStore::starting_at(u64::MAX);
    assert_eq!(
        save_user(&mut spent, "A".to_string(), "a@b.com".to_string()),
        Err(ErrorKind::StorageUnavailable)
    );
    assert!(spent.is_empty());
}

#[test]
fn policy_reject_keeps_every_outcome() {
    let policy = DuplicatePolicy::Reject;
    assert_eq!(policy.settle(Ok(())), Ok(()));
    assert_eq!(policy.settle(Err(ErrorKind::DuplicateUser)), Err(ErrorKind::DuplicateUser));
    assert_eq!(policy.settle(Err(ErrorKind::InvalidInput)), Err(ErrorKind::InvalidInput));
    assert_eq!(
        policy.settle(Err(ErrorKind::StorageUnavailable)),
        Err(ErrorKind::StorageUnavailable)
    );
}

#[test]
fn policy_treat_as_success_forgives_duplicates_only() {
    let policy = DuplicatePolicy::TreatAsSuccess;
    assert_eq!(policy.settle(Ok(())), Ok(()));
    assert_eq!(policy.settle(Err(ErrorKind::DuplicateUser)), Ok(()));
    assert_eq!(policy.settle(Err(ErrorKind::InvalidInput)), Err(ErrorKind::InvalidInput));
    assert_eq!(
        policy.settle(Err(ErrorKind::StorageUnavailable)),
        Err(ErrorKind::StorageUnavailable)
    );
}

#[test]
fn policy_applies_to_save_user() {
    let mut store = UserStore::new();
    let policy = DuplicatePolicy::TreatAsSuccess;
    let first = save_user(&mut store, "A".to_string(), "a@b.com".to_string());
    assert_eq!(policy.settle(first), Ok(()));
    let second = save_user(&mut store, "A".to_string(), "a@b.com".to_string());
    assert_eq!(second, Err(ErrorKind::DuplicateUser));
    assert_eq!(policy.settle(second), Ok(()));
    assert_eq!(store.len(), 1);
}

#[test]
fn messages_name_the_failure() {
    assert_eq!(
        ErrorKind::InvalidInput.message(),
        "invalid input: the name is blank or the address is malformed"
    );
    assert_eq!(
        ErrorKind::DuplicateUser.message(),
        "duplicate user: the address is already registered"
    );
    assert_eq!(
        ErrorKind::StorageUnavailable.message(),
        "storage unavailable: the record could not be written"
    );
}

#[test]
fn only_an_unavailable_store_is_worth_a_retry() {
    assert!(ErrorKind::StorageUnavailable.is_retryable());
    assert!(!ErrorKind::InvalidInput.is_retryable());
    assert!(!ErrorKind::DuplicateUser.is_retryable());
}
