use axum_authentik_auth::guard::join_strings;
use axum_authentik_auth::{
    require_all_groups, require_any_group, require_group, AuthentikError, AuthentikUser,
    GroupMatchMode, RequireGroup,
};

fn user(groups: &[&str]) -> AuthentikUser {
    AuthentikUser::new(
        "alice".into(),
        "alice@example.com".into(),
        "Alice".into(),
        "abc-123".into(),
        groups.iter().map(|g| g.to_string()).collect(),
    )
}

fn names(groups: &[&str]) -> Option<Vec<String>> {
    Some(groups.iter().map(|g| g.to_string()).collect())
}

fn forbidden_text(r: Result<RequireGroup, AuthentikError>) -> String {
    match r {
        Err(AuthentikError::Forbidden { required_group }) => required_group,
        _ => panic!("expected Forbidden"),
    }
}

#[test]
fn guard_lets_member_through() {
    let r = RequireGroup::authorize(Ok(user(&["admin", "users"])), names(&["admin"]), Some(GroupMatchMode::Any));
    let RequireGroup(u) = r.unwrap();
    assert_eq!(u.username, "alice");
}

#[test]
fn guard_refuses_non_member_naming_group() {
    let r = RequireGroup::authorize(Ok(user(&["users"])), names(&["admin"]), Some(GroupMatchMode::Any));
    assert_eq!(forbidden_text(r), "admin");
}

#[test]
fn guard_all_mode() {
    let admin = user(&["admin", "users"]);
    let plain = user(&["users"]);
    assert!(RequireGroup::authorize(Ok(admin), names(&["admin", "users"]), Some(GroupMatchMode::All)).is_ok());
    let r = RequireGroup::authorize(Ok(plain), names(&["admin", "users"]), Some(GroupMatchMode::All));
    assert_eq!(forbidden_text(r), "admin, users");
}

#[test]
fn guard_any_mode() {
    let admin = user(&["admin", "users"]);
    let plain = user(&["users"]);
    assert!(RequireGroup::authorize(Ok(admin), names(&["admin", "editor"]), Some(GroupMatchMode::Any)).is_ok());
    let r = RequireGroup::authorize(Ok(plain), names(&["admin", "editor"]), Some(GroupMatchMode::Any));
    assert_eq!(forbidden_text(r), "admin or editor");
}

#[test]
fn guard_defaults_to_any_mode() {
    let r = RequireGroup::authorize(Ok(user(&["editor"])), names(&["admin", "editor"]), None);
    assert!(r.is_ok());
    let r = RequireGroup::authorize(Ok(user(&[])), names(&["admin", "editor"]), None);
    assert_eq!(forbidden_text(r), "admin or editor");
}

#[test]
fn guard_without_requirement_passes() {
    assert!(RequireGroup::authorize(Ok(user(&[])), None, Some(GroupMatchMode::All)).is_ok());
    assert!(RequireGroup::authorize(Ok(user(&[])), names(&[]), Some(GroupMatchMode::Any)).is_ok());
}

#[test]
fn guard_passes_extraction_error_through() {
    let r = RequireGroup::authorize(Err(AuthentikError::Unauthenticated), names(&["admin"]), None);
    assert!(matches!(r, Err(AuthentikError::Unauthenticated)));
}

#[test]
fn require_group_builds_any_guard() {
    let guard = require_group("admin", 7u8);
    assert_eq!(guard.groups(), &vec!["admin".to_string()]);
    assert_eq!(guard.mode(), GroupMatchMode::Any);
    assert_eq!(*guard.handler(), 7u8);
}

#[test]
fn require_all_groups_builds_all_guard() {
    let guard = require_all_groups(&["admin", "users"], "h");
    assert_eq!(guard.groups(), &vec!["admin".to_string(), "users".to_string()]);
    assert_eq!(guard.mode(), GroupMatchMode::All);
    let copy = guard.clone();
    assert_eq!(copy.groups(), guard.groups());
    assert_eq!(copy.mode(), GroupMatchMode::All);
    assert_eq!(*copy.handler(), *guard.handler());
}

#[test]
fn require_any_group_builds_any_guard() {
    let guard = require_any_group(&["admin", "editor"], ());
    assert_eq!(guard.groups(), &vec!["admin".to_string(), "editor".to_string()]);
    assert_eq!(guard.mode(), GroupMatchMode::Any);
}

#[test]
fn join_strings_examples() {
    let v: Vec<String> = vec![];
    assert_eq!(join_strings(&v, ", "), "");
    assert_eq!(join_strings(&vec!["a".to_string()], ", "), "a");
    assert_eq!(join_strings(&vec!["a".to_string(), "b".to_string(), "c".to_string()], " or "), "a or b or c");
}

#[test]
fn require_group_deref_reaches_user() {
    let g = RequireGroup(user(&["admin"]));
    assert_eq!(g.username, "alice");
    assert!(g.has_group("admin"));
}
