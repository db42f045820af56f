//! Identity parsing from forward-auth header values, group membership, and
//! display names.

use dnd_scheduler::authelia::{AutheliaConfig, AutheliaUserInfo};

#[test]
fn test_parse_authelia_headers() {
    let info = AutheliaUserInfo::from_values(
        Some("test@example.com".to_string()),
        None,
        Some("Test User".to_string()),
        Some("players,admins".to_string()),
    )
    .unwrap();

    assert_eq!(info.email, "test@example.com");
    assert_eq!(info.name, Some("Test User".to_string()));
    assert_eq!(info.groups, vec!["players", "admins"]);
    assert!(info.is_admin());
    assert!(info.is_in_group("players"));
}

#[test]
fn test_parse_authelia_headers_minimal() {
    let info =
        AutheliaUserInfo::from_values(Some("user@test.it".to_string()), None, None, None).unwrap();

    assert_eq!(info.email, "user@test.it");
    assert_eq!(info.name, None);
    assert!(info.groups.is_empty());
    assert!(!info.is_admin());
    assert_eq!(info.display_name(), "user");
}

#[test]
fn test_parse_authelia_headers_invalid_email() {
    let info = AutheliaUserInfo::from_values(Some("invalid-email".to_string()), None, None, None);
    assert!(info.is_none());
}

#[test]
fn test_parse_authelia_headers_missing() {
    let info = AutheliaUserInfo::from_values(None, None, None, None);
    assert!(info.is_none());
}

#[test]
fn test_admin_detection() {
    let info = AutheliaUserInfo::from_values(
        Some("admin@example.com".to_string()),
        None,
        None,
        Some("users,admins".to_string()),
    )
    .unwrap();
    assert!(info.is_admin());

    // Test alternative admin group names
    let info = AutheliaUserInfo::from_values(
        Some("admin@example.com".to_string()),
        None,
        None,
        Some("administrators".to_string()),
    )
    .unwrap();
    assert!(info.is_admin());

    let info = AutheliaUserInfo::from_values(
        Some("admin@example.com".to_string()),
        None,
        None,
        Some("players".to_string()),
    )
    .unwrap();
    assert!(!info.is_admin());
}

#[test]
fn test_email_fallback_header() {
    let info = AutheliaUserInfo::from_values(
        None,
        Some("fallback@example.com".to_string()),
        None,
        None,
    )
    .unwrap();
    assert_eq!(info.email, "fallback@example.com");
}

#[test]
fn group_matching_ignores_ascii_case() {
    let info = AutheliaUserInfo::from_values(
        Some("x@y.z".to_string()),
        None,
        None,
        Some("Admins, Players".to_string()),
    )
    .unwrap();
    assert_eq!(info.groups, vec!["Admins", "Players"]);
    assert!(info.is_in_group("admins"));
    assert!(info.is_in_group("PLAYERS"));
    assert!(!info.is_in_group("dungeon-masters"));
}

#[test]
fn display_name_falls_back_to_email_prefix() {
    let named = AutheliaUserInfo::from_values(
        Some("x@y.z".to_string()),
        None,
        Some("Named".to_string()),
        None,
    )
    .unwrap();
    assert_eq!(named.display_name(), "Named");

    let unnamed =
        AutheliaUserInfo::from_values(Some("prefix@rest.example".to_string()), None, None, None)
            .unwrap();
    assert_eq!(unnamed.display_name(), "prefix");
}

#[test]
fn config_enablement_reads_the_flag_value() {
    assert!(AutheliaConfig::from_values(Some("true".to_string()), None, None).enabled);
    assert!(AutheliaConfig::from_values(Some("TRUE".to_string()), None, None).enabled);
    assert!(AutheliaConfig::from_values(Some("1".to_string()), None, None).enabled);
    assert!(!AutheliaConfig::from_values(Some("false".to_string()), None, None).enabled);
    assert!(!AutheliaConfig::from_values(Some("yes".to_string()), None, None).enabled);
    assert!(!AutheliaConfig::from_values(None, None, None).enabled);

    let config = AutheliaConfig::from_values(
        Some("1".to_string()),
        Some("https://auth.example/login".to_string()),
        Some("https://auth.example/logout".to_string()),
    );
    assert_eq!(config.login_url.as_deref(), Some("https://auth.example/login"));
    assert_eq!(config.logout_url.as_deref(), Some("https://auth.example/logout"));
}
