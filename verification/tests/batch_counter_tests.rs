use user_kit::batch::{fetch_user_data, process_user_batch};
use user_kit::counter::{run_counter, Counter};
use user_kit::errors::AppError;
use user_kit::text::u64_to_string;
use user_kit::user::Role;

#[test]
fn test_fetch_even_id_succeeds() {
    let user = fetch_user_data(2).unwrap();
    assert_eq!(user.id, 2);
    assert_eq!(user.name, "User 2");
    assert_eq!(user.email, "user2@example.com");
    assert_eq!(user.role, Role::Viewer);
    assert!(user.active);
}

#[test]
fn test_fetch_odd_id_fails() {
    match fetch_user_data(3) {
        Err(AppError::NotFound(msg)) => assert_eq!(msg, "User 3 not found"),
        _ => panic!("an odd id must fail with NotFound"),
    }
}

#[test]
fn test_batch_partial_success() {
    let users = process_user_batch(vec![1, 2, 3, 4]).unwrap();
    assert_eq!(users.len(), 2);
    assert_eq!(users[0].id, 2);
    assert_eq!(users[1].id, 4);
    assert_eq!(users[0].name, "User 2");
    assert_eq!(users[1].name, "User 4");
}

#[test]
fn test_batch_all_fail() {
    match process_user_batch(vec![1, 3]) {
        Err(AppError::NotFound(msg)) => assert_eq!(msg, "No users found"),
        _ => panic!("a batch with no successes must fail with NotFound"),
    }
}

#[test]
fn test_batch_empty() {
    match process_user_batch(Vec::new()) {
        Err(AppError::InvalidInput(msg)) => assert_eq!(msg, "Empty user id list"),
        _ => panic!("an empty batch must fail with InvalidInput"),
    }
}

#[test]
fn test_counter_increment() {
    let mut counter = Counter::new();
    assert_eq!(counter.get(), 0);
    counter.increment();
    counter.increment();
    assert_eq!(counter.get(), 2);
}

#[test]
fn test_counter_product() {
    assert_eq!(run_counter(4, 100), 400);
}

#[test]
fn test_counter_zero_workers() {
    assert_eq!(run_counter(0, 100), 0);
    assert_eq!(run_counter(4, 0), 0);
}

#[test]
fn test_decimal_rendering() {
    assert_eq!(u64_to_string(0), "0");
    assert_eq!(u64_to_string(7), "7");
    assert_eq!(u64_to_string(40), "40");
    assert_eq!(u64_to_string(1234567890), "1234567890");
    assert_eq!(u64_to_string(u64::MAX), "18446744073709551615");
}
