use axum_authentik_auth::AuthentikUser;

fn make_user(groups: &[&str]) -> AuthentikUser {
    AuthentikUser::new(
        "testuser".into(),
        "test@example.com".into(),
        "Test User".into(),
        "user-001".into(),
        groups.iter().map(|g| g.to_string()).collect(),
    )
}

#[test]
fn test_has_group() {
    let user = make_user(&["admin", "editor"]);
    assert!(user.has_group("admin"));
    assert!(user.has_group("editor"));
    assert!(!user.has_group("viewer"));
}

#[test]
fn test_has_group_empty() {
    let user = make_user(&[]);
    assert!(!user.has_group("admin"));
}

#[test]
fn test_has_all_groups() {
    let user = make_user(&["admin", "editor", "viewer"]);
    assert!(user.has_all_groups(&["admin", "editor"]));
    assert!(user.has_all_groups(&["admin"]));
    assert!(!user.has_all_groups(&["admin", "superuser"]));
}

#[test]
fn test_has_all_groups_empty_input() {
    let user = make_user(&["admin"]);
    // all() on empty iterator returns true
    assert!(user.has_all_groups(&[]));
}

#[test]
fn test_has_any_group() {
    let user = make_user(&["admin", "editor"]);
    assert!(user.has_any_group(&["admin", "viewer"]));
    assert!(user.has_any_group(&["editor"]));
    assert!(!user.has_any_group(&["viewer", "superuser"]));
}

#[test]
fn test_has_any_group_empty_input() {
    let user = make_user(&["admin"]);
    // any() on empty iterator returns false
    assert!(!user.has_any_group(&[]));
}

#[test]
fn new_user_keeps_fields() {
    let user = make_user(&["a", "b"]);
    assert_eq!(user.username, "testuser");
    assert_eq!(user.email, "test@example.com");
    assert_eq!(user.name, "Test User");
    assert_eq!(user.uid, "user-001");
    assert_eq!(user.groups, vec!["a", "b"]);
}

#[test]
fn has_group_is_exact_and_case_sensitive() {
    let user = make_user(&["admin"]);
    assert!(!user.has_group("Admin"));
    assert!(!user.has_group("admi"));
    assert!(!user.has_group("admin "));
    assert!(!user.has_group(""));
}

#[test]
fn empty_requirement_law_on_no_groups() {
    let user = make_user(&[]);
    assert!(user.has_all_groups(&[]));
    assert!(!user.has_any_group(&[]));
}

#[test]
fn single_group_checks_agree() {
    let user = make_user(&["admin", "users"]);
    for g in ["admin", "users", "editor"] {
        assert_eq!(user.has_group(g), user.has_all_groups(&[g]));
        assert_eq!(user.has_group(g), user.has_any_group(&[g]));
    }
}

#[test]
fn all_implies_any_on_example() {
    let user = make_user(&["admin", "users"]);
    assert!(user.has_all_groups(&["users", "admin"]));
    assert!(user.has_any_group(&["users", "admin"]));
}

#[test]
fn requirement_order_and_repetition_irrelevant() {
    let user = make_user(&["admin", "users"]);
    assert_eq!(
        user.has_all_groups(&["admin", "editor"]),
        user.has_all_groups(&["editor", "admin", "admin"])
    );
    assert_eq!(
        user.has_any_group(&["viewer", "users"]),
        user.has_any_group(&["users", "viewer", "users"])
    );
}
