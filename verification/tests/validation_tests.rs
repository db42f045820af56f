//! Request validation and sanitization behaviour.

use dnd_scheduler::validate::{
    check_password_rules, sanitize_string, strip_control_chars, validate_email, validate_name,
    validate_password, validate_string_length, validate_uuid,
};

#[test]
fn test_sanitize_string_xss() {
    let input = "<script>alert('XSS')</script>";
    let expected = "&lt;script&gt;alert(&#x27;XSS&#x27;)&lt;/script&gt;";
    assert_eq!(sanitize_string(input), expected);

    let input_quotes = "User \"Name\"";
    let expected_quotes = "User &quot;Name&quot;";
    assert_eq!(sanitize_string(input_quotes), expected_quotes);
}

#[test]
fn sanitize_drops_control_characters_but_keeps_breaks() {
    let input = "a\u{0}b\u{7}c\nd\te\r";
    assert_eq!(sanitize_string(input), "abc\nd\te\r");
}

#[test]
fn email_accepted_when_plain() {
    assert!(validate_email("user@example.com").is_ok());
    assert!(validate_email("x@y.z").is_ok());
}

#[test]
fn email_rejected_by_length_rule() {
    assert_eq!(validate_email("").unwrap_err(), "Invalid email length");
    let long = format!("{}@example.com", "a".repeat(250));
    assert_eq!(validate_email(&long).unwrap_err(), "Invalid email length");
}

#[test]
fn email_rejected_by_format_rule() {
    assert_eq!(
        validate_email("no-at-sign.com").unwrap_err(),
        "Invalid email format"
    );
    assert_eq!(
        validate_email("user@nodot").unwrap_err(),
        "Invalid email format"
    );
}

#[test]
fn email_rejected_by_character_rule() {
    assert_eq!(
        validate_email("user<x>@example.com").unwrap_err(),
        "Invalid characters in email"
    );
    assert_eq!(
        validate_email("user\\x@example.com").unwrap_err(),
        "Invalid characters in email"
    );
}

#[test]
fn string_length_rules_name_the_field() {
    assert_eq!(
        validate_string_length("", 10, "Title").unwrap_err(),
        "Title cannot be empty"
    );
    assert_eq!(
        validate_string_length("abcdefghijk", 10, "Title").unwrap_err(),
        "Title exceeds maximum length of 10"
    );
    assert!(validate_string_length("abc", 10, "Title").is_ok());
}

#[test]
fn uuid_rule_accepts_only_uuids() {
    assert!(validate_uuid("67e55044-10b1-426f-9247-bb680e5fe0c8").is_ok());
    assert_eq!(
        validate_uuid("not-a-uuid").unwrap_err(),
        "Invalid ID format"
    );
}

#[test]
fn name_rules() {
    assert!(validate_name("Tiziano").is_ok());
    assert_eq!(validate_name("").unwrap_err(), "Name cannot be empty");
    let long = "x".repeat(101);
    assert_eq!(
        validate_name(&long).unwrap_err(),
        "Name must be less than 100 characters"
    );
}

#[test]
fn password_rules_in_order() {
    assert_eq!(
        validate_password("Short1!").unwrap_err(),
        "Password must be at least 12 characters long"
    );
    let long = format!("Aa1!{}", "x".repeat(130));
    assert_eq!(
        validate_password(&long).unwrap_err(),
        "Password must be less than 128 characters"
    );
    assert_eq!(
        validate_password("lowercase1!lowercase").unwrap_err(),
        "Password must contain at least one uppercase letter"
    );
    assert_eq!(
        validate_password("UPPERCASE1!UPPERCASE").unwrap_err(),
        "Password must contain at least one lowercase letter"
    );
    assert_eq!(
        validate_password("NoNumbersHere!!").unwrap_err(),
        "Password must contain at least one number"
    );
    assert_eq!(
        validate_password("NoSpecials1234ab").unwrap_err(),
        "Password must contain at least one special character"
    );
}

#[test]
fn password_strength_estimator_refuses_common_patterns() {
    assert_eq!(
        validate_password("Password123!").unwrap_err(),
        "Password is too weak (common pattern or simple). Please choose a stronger password."
    );
}

#[test]
fn password_accepted_when_strong() {
    assert!(validate_password("kV9#mQ2$wL8@zN4r").is_ok());
}

#[test]
fn strip_control_chars_keeps_markup_untouched() {
    assert_eq!(strip_control_chars("a\u{0}b\u{7}c\nd\te\r"), "abc\nd\te\r");
    assert_eq!(strip_control_chars("<b>kept & raw</b>"), "<b>kept & raw</b>");
}

#[test]
fn password_rules_apply_around_a_given_score() {
    assert!(check_password_rules("Good1!Password", 3).is_ok());
    assert!(check_password_rules("Good1!Password", 4).is_ok());
    assert_eq!(
        check_password_rules("Good1!Password", 2).unwrap_err(),
        "Password is too weak (common pattern or simple). Please choose a stronger password."
    );
    // A deterministic failure is reported whatever the score says.
    assert_eq!(
        check_password_rules("short", 4).unwrap_err(),
        "Password must be at least 12 characters long"
    );
}
