use user_kit::cache::Cache;
use user_kit::errors::AppError;
use user_kit::repo::UserRepository;
use user_kit::user::{Role, User};

fn sample_user(id: u64) -> User {
    User::new(id, format!("User {}", id), format!("user{}@example.com", id), Role::Viewer)
}

#[test]
fn test_repository_save_and_find() {
    let mut repo = UserRepository::new();
    assert!(repo.find_by_id(1).is_none());
    repo.save(sample_user(1)).unwrap();
    let found = repo.find_by_id(1).unwrap();
    assert_eq!(found.id, 1);
    assert_eq!(found.name, "User 1");
}

#[test]
fn test_repository_save_replaces() {
    let mut repo = UserRepository::new();
    repo.save(sample_user(1)).unwrap();
    let mut replacement = sample_user(1);
    replacement.name = "Renamed".to_string();
    repo.save(replacement).unwrap();
    let found = repo.find_by_id(1).unwrap();
    assert_eq!(found.name, "Renamed");
    assert_eq!(repo.find_all().len(), 1);
}

#[test]
fn test_repository_delete_absent() {
    let mut repo = UserRepository::new();
    match repo.delete(7) {
        Err(AppError::NotFound(msg)) => assert_eq!(msg, "User with id 7 not found"),
        _ => panic!("deleting an absent id must fail with NotFound"),
    }
}

#[test]
fn test_repository_delete_then_find_absent() {
    let mut repo = UserRepository::new();
    repo.save(sample_user(2)).unwrap();
    repo.save(sample_user(4)).unwrap();
    repo.delete(2).unwrap();
    assert!(repo.find_by_id(2).is_none());
    assert!(repo.find_by_id(4).is_some());
}

#[test]
fn test_repository_find_all() {
    let mut repo = UserRepository::new();
    repo.save(sample_user(1)).unwrap();
    repo.save(sample_user(2)).unwrap();
    repo.save(sample_user(3)).unwrap();
    let all = repo.find_all();
    assert_eq!(all.len(), 3);
    let mut ids: Vec<u64> = all.iter().map(|u| u.id).collect();
    ids.sort();
    assert_eq!(ids, vec![1, 2, 3]);
}

#[test]
fn test_cache_set_get() {
    let mut cache: Cache<String> = Cache::new();
    cache.set("key1".to_string(), "value1".to_string());
    cache.set("key2".to_string(), "value2".to_string());
    assert_eq!(cache.get("key1"), Some("value1".to_string()));
    assert_eq!(cache.get("key2"), Some("value2".to_string()));
    assert_eq!(cache.get("key3"), None);
}

#[test]
fn test_cache_set_replaces() {
    let mut cache: Cache<u32> = Cache::new();
    cache.set("n".to_string(), 1);
    cache.set("n".to_string(), 2);
    assert_eq!(cache.get("n"), Some(2));
}

#[test]
fn test_cache_remove_then_get_absent() {
    let mut cache: Cache<String> = Cache::new();
    cache.set("key1".to_string(), "value1".to_string());
    assert_eq!(cache.remove("key1"), Some("value1".to_string()));
    assert_eq!(cache.get("key1"), None);
    assert_eq!(cache.remove("key1"), None);
}
