use axum::http::{HeaderMap, HeaderName, HeaderValue};
use axum_authentik_auth::layer::HeaderPrefix;
use axum_authentik_auth::{read_user_from_headers, resolve_header_prefix, AuthentikError};

fn headers_with(headers: &[(&str, &str)]) -> HeaderMap {
    let mut map = HeaderMap::new();
    for (k, v) in headers {
        map.insert(
            HeaderName::from_bytes(k.as_bytes()).unwrap(),
            HeaderValue::from_str(v).unwrap(),
        );
    }
    map
}

#[test]
fn test_read_user_with_default_prefix() {
    let headers = headers_with(&[
        ("x-authentik-username", "alice"),
        ("x-authentik-email", "alice@example.com"),
        ("x-authentik-name", "Alice Smith"),
        ("x-authentik-uid", "abc-123"),
        ("x-authentik-groups", "admin|users"),
    ]);
    let user = read_user_from_headers(&headers, "x-authentik").unwrap();
    assert_eq!(user.username, "alice");
    assert_eq!(user.email, "alice@example.com");
    assert_eq!(user.name, "Alice Smith");
    assert_eq!(user.uid, "abc-123");
    assert_eq!(user.groups, vec!["admin", "users"]);
}

#[test]
fn test_read_user_with_custom_prefix() {
    let headers = headers_with(&[
        ("x-myproxy-username", "bob"),
        ("x-myproxy-email", "bob@example.com"),
        ("x-myproxy-name", "Bob"),
        ("x-myproxy-uid", "def-456"),
        ("x-myproxy-groups", "viewers"),
    ]);
    let user = read_user_from_headers(&headers, "x-myproxy").unwrap();
    assert_eq!(user.username, "bob");
    assert_eq!(user.email, "bob@example.com");
    assert_eq!(user.name, "Bob");
    assert_eq!(user.uid, "def-456");
    assert_eq!(user.groups, vec!["viewers"]);
}

#[test]
fn test_missing_required_header() {
    let headers = headers_with(&[
        ("x-authentik-username", "alice"),
        ("x-authentik-email", "alice@example.com"),
        ("x-authentik-name", "Alice Smith"),
        // missing uid
    ]);
    let err = read_user_from_headers(&headers, "x-authentik").unwrap_err();
    assert!(matches!(err, AuthentikError::Unauthenticated));
}

#[test]
fn test_no_groups_header() {
    let headers = headers_with(&[
        ("x-authentik-username", "alice"),
        ("x-authentik-email", "alice@example.com"),
        ("x-authentik-name", "Alice Smith"),
        ("x-authentik-uid", "abc-123"),
    ]);
    let user = read_user_from_headers(&headers, "x-authentik").unwrap();
    assert!(user.groups.is_empty());
}

#[test]
fn test_empty_groups_header() {
    let headers = headers_with(&[
        ("x-authentik-username", "alice"),
        ("x-authentik-email", "alice@example.com"),
        ("x-authentik-name", "Alice Smith"),
        ("x-authentik-uid", "abc-123"),
        ("x-authentik-groups", ""),
    ]);
    let user = read_user_from_headers(&headers, "x-authentik").unwrap();
    assert!(user.groups.is_empty());
}

#[test]
fn test_no_headers_at_all() {
    let headers = headers_with(&[]);
    let err = read_user_from_headers(&headers, "x-authentik").unwrap_err();
    assert!(matches!(err, AuthentikError::Unauthenticated));
}

const FULL: &[(&str, &str)] = &[
    ("x-authentik-username", "alice"),
    ("x-authentik-email", "alice@example.com"),
    ("x-authentik-name", "Alice"),
    ("x-authentik-uid", "abc-123"),
];

#[test]
fn each_identity_header_is_required() {
    for missing in 0..FULL.len() {
        let present: Vec<(&str, &str)> = FULL
            .iter()
            .enumerate()
            .filter(|(i, _)| *i != missing)
            .map(|(_, h)| *h)
            .collect();
        let err = read_user_from_headers(&headers_with(&present), "x-authentik").unwrap_err();
        assert!(matches!(err, AuthentikError::Unauthenticated));
    }
}

#[test]
fn groups_drop_empty_segments() {
    let mut all = FULL.to_vec();
    all.push(("x-authentik-groups", "|admin||users|"));
    let user = read_user_from_headers(&headers_with(&all), "x-authentik").unwrap();
    assert_eq!(user.groups, vec!["admin", "users"]);
}

#[test]
fn groups_of_only_separators_are_empty() {
    let mut all = FULL.to_vec();
    all.push(("x-authentik-groups", "|||"));
    let user = read_user_from_headers(&headers_with(&all), "x-authentik").unwrap();
    assert!(user.groups.is_empty());
}

#[test]
fn groups_keep_spaces_and_order() {
    let mut all = FULL.to_vec();
    all.push(("x-authentik-groups", "b| a |c"));
    let user = read_user_from_headers(&headers_with(&all), "x-authentik").unwrap();
    assert_eq!(user.groups, vec!["b", " a ", "c"]);
}

#[test]
fn prefix_is_matched_without_regard_to_case() {
    let user = read_user_from_headers(&headers_with(FULL), "X-Authentik").unwrap();
    assert_eq!(user.username, "alice");
}

#[test]
fn prefix_that_is_no_header_name_finds_nothing() {
    let err = read_user_from_headers(&headers_with(FULL), "x authentik").unwrap_err();
    assert!(matches!(err, AuthentikError::Unauthenticated));
}

#[test]
fn other_prefix_reads_other_headers() {
    let err = read_user_from_headers(&headers_with(FULL), "x-other").unwrap_err();
    assert!(matches!(err, AuthentikError::Unauthenticated));
}

#[test]
fn value_that_is_not_visible_ascii_counts_as_missing() {
    let mut map = headers_with(FULL);
    map.insert(
        HeaderName::from_static("x-authentik-uid"),
        HeaderValue::from_bytes(b"caf\xc3\xa9").unwrap(),
    );
    let err = read_user_from_headers(&map, "x-authentik").unwrap_err();
    assert!(matches!(err, AuthentikError::Unauthenticated));
}

#[test]
fn unreadable_groups_header_gives_no_groups() {
    let mut map = headers_with(FULL);
    map.insert(
        HeaderName::from_static("x-authentik-groups"),
        HeaderValue::from_bytes(b"admin|\xff").unwrap(),
    );
    let user = read_user_from_headers(&map, "x-authentik").unwrap();
    assert!(user.groups.is_empty());
}

#[test]
fn tab_is_kept_in_a_value() {
    let mut map = headers_with(FULL);
    map.insert(
        HeaderName::from_static("x-authentik-name"),
        HeaderValue::from_bytes(b"Alice\tSmith").unwrap(),
    );
    let user = read_user_from_headers(&map, "x-authentik").unwrap();
    assert_eq!(user.name, "Alice\tSmith");
}

#[test]
fn first_of_repeated_values_is_read() {
    let mut map = headers_with(FULL);
    map.append(
        HeaderName::from_static("x-authentik-username"),
        HeaderValue::from_static("mallory"),
    );
    let user = read_user_from_headers(&map, "x-authentik").unwrap();
    assert_eq!(user.username, "alice");
}

#[test]
fn prefix_resolves_to_configured_or_default() {
    assert_eq!(resolve_header_prefix(None), "x-authentik");
    let p = HeaderPrefix("x-myproxy".to_string());
    assert_eq!(resolve_header_prefix(Some(&p)), "x-myproxy");
}
