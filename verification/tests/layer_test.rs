use axum_authentik_auth::groups::split_groups;
use axum_authentik_auth::headers::value_text;
use axum_authentik_auth::layer::{AuthentikConfig, AuthentikLayer};

#[test]
fn config_default() {
    let c = AuthentikConfig::default();
    assert_eq!(c.header_prefix, "x-authentik");
    assert!(c.require_auth);
}

#[test]
fn config_with_prefix() {
    let c = AuthentikConfig::with_prefix("x-myproxy");
    assert_eq!(c.header_prefix, "x-myproxy");
    assert!(c.require_auth);
    assert_eq!(c.prefix_marker().0, "x-myproxy");
    let copy = c.copy();
    assert_eq!(copy.header_prefix, "x-myproxy");
    assert!(copy.require_auth);
}

#[test]
fn layer_new_and_default_use_default_config() {
    let l = AuthentikLayer::new();
    assert_eq!(l.config().header_prefix, "x-authentik");
    assert!(l.config().require_auth);
    let d = AuthentikLayer::default();
    assert_eq!(d.config().header_prefix, "x-authentik");
}

#[test]
fn layer_with_config_wraps_service() {
    let l = AuthentikLayer::with_config(AuthentikConfig {
        header_prefix: "x-myproxy".to_string(),
        require_auth: false,
    });
    let m = l.layer(42u32);
    assert_eq!(m.config().header_prefix, "x-myproxy");
    assert!(!m.config().require_auth);
    let (inner, config) = m.into_parts();
    assert_eq!(inner, 42);
    assert_eq!(config.header_prefix, "x-myproxy");
}

#[test]
fn split_groups_examples() {
    assert_eq!(split_groups("admin|users"), vec!["admin", "users"]);
    assert_eq!(split_groups(""), Vec::<String>::new());
    assert_eq!(split_groups("a||b|"), vec!["a", "b"]);
    assert_eq!(split_groups("solo"), vec!["solo"]);
}

#[test]
fn split_then_join_roundtrip_example() {
    let gs = vec!["admin".to_string(), "users".to_string(), "team-a".to_string()];
    assert_eq!(split_groups(&gs.join("|")), gs);
}

#[test]
fn value_text_examples() {
    assert_eq!(value_text(&b"hello world".to_vec()), Some("hello world".to_string()));
    assert_eq!(value_text(&b"a\tb".to_vec()), Some("a\tb".to_string()));
    assert_eq!(value_text(&vec![0x7f]), None);
    assert_eq!(value_text(&vec![0x1f]), None);
    assert_eq!(value_text(&vec![0xc3, 0xa9]), None);
    assert_eq!(value_text(&vec![]), Some(String::new()));
}
