use user_kit::errors::AppError;
use user_kit::process::process_users;
use user_kit::user::{describe_role, Role, User};

#[test]
fn test_user_creation() {
    let user = User::new(1, "Test".to_string(), "test@example.com".to_string(), Role::Admin);
    assert_eq!(user.id, 1);
    assert_eq!(user.name, "Test");
    assert_eq!(user.email, "test@example.com");
    assert_eq!(user.role, Role::Admin);
    assert!(user.active);
}

#[test]
fn test_user_deactivation() {
    let mut user = User::new(1, "Test".to_string(), "test@example.com".to_string(), Role::Admin);
    assert!(user.active);
    user.deactivate();
    assert!(!user.active);
}

#[test]
fn test_process_users() {
    let users = vec![
        User::new(1, "A".to_string(), "a@example.com".to_string(), Role::Admin),
        User::new(2, "B".to_string(), "b@example.com".to_string(), Role::Editor),
        User::new(3, "C".to_string(), "c@example.com".to_string(), Role::Viewer),
    ];

    let result = process_users(&users, false).unwrap();
    assert_eq!(result.len(), 3);
    assert_eq!(result.get(Role::Admin).len(), 1);
    assert_eq!(result.get(Role::Editor).len(), 1);
    assert_eq!(result.get(Role::Viewer).len(), 1);
}

#[test]
fn test_deactivate_idempotent() {
    let mut user = User::new(9, "Idle".to_string(), "idle@example.com".to_string(), Role::Viewer);
    user.deactivate();
    assert!(!user.active);
    user.deactivate();
    assert!(!user.active);
}

#[test]
fn test_is_admin() {
    let admin = User::new(1, "A".to_string(), "a@example.com".to_string(), Role::Admin);
    let viewer = User::new(2, "V".to_string(), "v@example.com".to_string(), Role::Viewer);
    assert!(admin.is_admin());
    assert!(!viewer.is_admin());
}

#[test]
fn test_user_clone_equal() {
    let user = User::new(5, "Orig".to_string(), "orig@example.com".to_string(), Role::Editor);
    let copy = user.clone();
    assert_eq!(copy.id, user.id);
    assert_eq!(copy.name, user.name);
    assert_eq!(copy.email, user.email);
    assert_eq!(copy.role, user.role);
    assert_eq!(copy.active, user.active);
}

#[test]
fn test_describe_role() {
    assert_eq!(describe_role(&Role::Admin), "Administrator with full access");
    assert_eq!(describe_role(&Role::Editor), "Editor with content management access");
    assert_eq!(describe_role(&Role::Viewer), "Viewer with read-only access");
}

#[test]
fn test_process_users_empty() {
    let users: Vec<User> = Vec::new();
    for flag in [false, true] {
        match process_users(&users, flag) {
            Err(AppError::InvalidInput(msg)) => assert_eq!(msg, "Empty user list"),
            _ => panic!("empty input must fail with InvalidInput"),
        }
    }
}

#[test]
fn test_process_users_filters_inactive() {
    let mut users = vec![
        User::new(1, "A".to_string(), "a@example.com".to_string(), Role::Admin),
        User::new(2, "B".to_string(), "b@example.com".to_string(), Role::Admin),
    ];
    users[1].deactivate();

    let kept = process_users(&users, true).unwrap();
    assert_eq!(kept.get(Role::Admin).len(), 1);
    assert_eq!(kept.get(Role::Admin)[0].id, 1);
    assert_eq!(kept.len(), 1);

    let all = process_users(&users, false).unwrap();
    assert_eq!(all.get(Role::Admin).len(), 2);
    assert_eq!(all.len(), 1);
}

#[test]
fn test_process_users_all_filtered_out() {
    let mut users = vec![User::new(
        1,
        "A".to_string(),
        "a@example.com".to_string(),
        Role::Viewer,
    )];
    users[0].deactivate();
    let groups = process_users(&users, true).unwrap();
    assert_eq!(groups.len(), 0);
    assert_eq!(groups.get(Role::Viewer).len(), 0);
}

#[test]
fn test_process_users_preserves_order() {
    let users = vec![
        User::new(3, "C".to_string(), "c@example.com".to_string(), Role::Editor),
        User::new(1, "A".to_string(), "a@example.com".to_string(), Role::Editor),
        User::new(2, "B".to_string(), "b@example.com".to_string(), Role::Editor),
    ];
    let groups = process_users(&users, false).unwrap();
    let editors = groups.get(Role::Editor);
    assert_eq!(editors.len(), 3);
    assert_eq!(editors[0].id, 3);
    assert_eq!(editors[1].id, 1);
    assert_eq!(editors[2].id, 2);
}

#[test]
fn test_transform_users() {
    let users = vec![
        User::new(1, "Alice".to_string(), "alice@example.com".to_string(), Role::Admin),
        User::new(2, "Bob".to_string(), "bob@example.com".to_string(), Role::Editor),
    ];
    let lines = user_kit::process::transform_users(&users, |user: &User| {
        format!("{}: {}", user.name, user.email)
    });
    assert_eq!(lines.len(), 2);
    assert_eq!(lines[0], "Alice: alice@example.com");
    assert_eq!(lines[1], "Bob: bob@example.com");
}

#[test]
fn test_error_messages() {
    let not_found = AppError::NotFound("missing".to_string());
    assert_eq!(not_found.message(), "Not found: missing");
    let invalid = AppError::InvalidInput("bad".to_string());
    assert_eq!(invalid.message(), "Invalid input: bad");
    let database = AppError::DatabaseError("down".to_string());
    assert_eq!(database.message(), "Database error: down");
}
