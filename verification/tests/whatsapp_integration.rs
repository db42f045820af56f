//! WhatsApp helper behaviour, exercised from outside the crate.

use dnd_scheduler::whatsapp::{
    build_reminder_message, format_whatsapp_number, validate_phone_number, TwilioConfig,
};

#[test]
fn whatsapp_tests_test_valid_phone_e164_format() {
    assert!(validate_phone_number("+393401234567")); // Italian mobile
    assert!(validate_phone_number("+14155238886")); // US number
    assert!(validate_phone_number("+447911123456")); // UK number
}

#[test]
fn whatsapp_tests_test_invalid_phone_no_plus() {
    assert!(!validate_phone_number("393401234567")); // Missing +
    assert!(!validate_phone_number("3401234567")); // Local format
}

#[test]
fn whatsapp_tests_test_invalid_phone_empty() {
    assert!(!validate_phone_number(""));
    assert!(!validate_phone_number("   "));
}

#[test]
fn whatsapp_tests_test_invalid_phone_too_short() {
    assert!(!validate_phone_number("+12345")); // Too short
    assert!(!validate_phone_number("+1")); // Way too short
}

#[test]
fn whatsapp_tests_test_invalid_phone_too_long() {
    assert!(!validate_phone_number("+12345678901234567890")); // Too long
}

#[test]
fn whatsapp_tests_test_invalid_phone_with_letters() {
    assert!(!validate_phone_number("+39abc1234567"));
    assert!(!validate_phone_number("+1-800-TEST"));
}

#[test]
fn whatsapp_tests_test_format_already_prefixed() {
    assert_eq!(
        format_whatsapp_number("whatsapp:+393401234567"),
        "whatsapp:+393401234567"
    );
}

#[test]
fn whatsapp_tests_test_format_with_plus_prefix() {
    assert_eq!(
        format_whatsapp_number("+393401234567"),
        "whatsapp:+393401234567"
    );
}

#[test]
fn whatsapp_tests_test_format_italian_local_number() {
    // Assumes Italian (+39) for numbers without country code
    assert_eq!(
        format_whatsapp_number("3401234567"),
        "whatsapp:+393401234567"
    );
}

#[test]
fn whatsapp_tests_test_format_removes_spaces() {
    assert_eq!(
        format_whatsapp_number("+39 340 123 4567"),
        "whatsapp:+393401234567"
    );
}

#[test]
fn whatsapp_tests_test_format_removes_dashes() {
    assert_eq!(
        format_whatsapp_number("+39-340-123-4567"),
        "whatsapp:+393401234567"
    );
}

#[test]
fn whatsapp_tests_test_format_removes_parentheses() {
    assert_eq!(
        format_whatsapp_number("+39(340)1234567"),
        "whatsapp:+393401234567"
    );
}

#[test]
fn whatsapp_tests_test_reminder_message_contains_session_name() {
    let message = build_reminder_message("Campagna Epica", "Porta i dadi!");

    assert!(message.contains("Campagna Epica"));
    assert!(message.contains("Porta i dadi!"));
}

#[test]
fn whatsapp_tests_test_reminder_message_has_emoji() {
    let message = build_reminder_message("Test", "Test");

    assert!(message.contains('🎲')); // Dice emoji
    assert!(message.contains('📅')); // Calendar emoji
}

#[test]
fn whatsapp_tests_test_reminder_message_has_branding() {
    let message = build_reminder_message("Test", "Test");

    assert!(message.contains("D&D Scheduler"));
    assert!(message.contains("Che i dadi siano sempre a tuo favore"));
}

#[test]
fn whatsapp_tests_test_reminder_message_escapes_special_chars() {
    let session = "Test <session>";
    let msg = "Message & reminder";
    let message = build_reminder_message(session, msg);

    // Message should contain the original text (WhatsApp handles escaping)
    assert!(message.contains("Test <session>"));
    assert!(message.contains("Message & reminder"));
}

#[test]
fn whatsapp_tests_test_twilio_config_struct_creation() {
    let config = TwilioConfig {
        account_sid: "AC1234567890abcdef".to_string(),
        auth_token: "auth_token_123".to_string(),
        whatsapp_number: "whatsapp:+14155238886".to_string(),
    };

    assert_eq!(config.account_sid, "AC1234567890abcdef");
    assert!(config.whatsapp_number.starts_with("whatsapp:"));
}

#[test]
fn whatsapp_tests_test_twilio_api_url_format() {
    let account_sid = "AC1234567890abcdef";
    let url = format!(
        "https://api.twilio.com/2010-04-01/Accounts/{}/Messages.json",
        account_sid
    );

    assert!(url.contains(account_sid));
    assert!(url.ends_with("Messages.json"));
}
