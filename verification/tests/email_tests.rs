//! Email helper behaviour: address validation, templates, SMTP settings,
//! and the send-rate limiter.

use dnd_scheduler::email::{
    build_gdpr_export_notice, build_password_reset_body, build_reminder_email_body,
    build_reminder_subject, build_welcome_email_body, build_welcome_email_body_safe,
    get_default_from_email, get_default_smtp_port, is_valid_smtp_host, is_valid_smtp_port,
    validate_email_address, EmailRateLimiter, SmtpConfig,
};

#[test]
fn test_valid_email_address() {
    assert!(validate_email_address("user@example.com"));
    assert!(validate_email_address("test.user@domain.it"));
    assert!(validate_email_address("admin@cronachednd.it"));
}

#[test]
fn test_invalid_email_address() {
    assert!(!validate_email_address("invalid"));
    assert!(!validate_email_address("@nodomain.com"));
    assert!(!validate_email_address("noat.com"));
    assert!(!validate_email_address(""));
}

#[test]
fn test_email_with_special_chars_valid() {
    assert!(validate_email_address("user+tag@example.com"));
    assert!(validate_email_address("user.name@sub.domain.com"));
}

#[test]
fn test_email_without_tld_invalid() {
    assert!(!validate_email_address("user@localhost"));
}

#[test]
fn test_welcome_email_contains_name() {
    let name = "Tiziano";
    let body = build_welcome_email_body(name);

    assert!(body.contains("Benvenuto, Tiziano!"));
    assert!(body.contains("D&D Scheduler"));
    assert!(body.contains("Che i dadi siano sempre a tuo favore"));
}

#[test]
fn test_welcome_email_escapes_html() {
    let name = "<script>alert('xss')</script>";
    let body = build_welcome_email_body_safe(name);

    // Should not contain raw script tags
    assert!(!body.contains("<script>"));
}

#[test]
fn test_reminder_email_contains_session_info() {
    let session = "Campagna Epica";
    let message = "Ricordati di portare i dadi!";
    let body = build_reminder_email_body(session, message);

    assert!(body.contains("Campagna Epica"));
    assert!(body.contains("Ricordati di portare i dadi!"));
    assert!(body.contains("Promemoria Sessione"));
}

#[test]
fn test_email_subject_not_empty() {
    let subject = build_reminder_subject("Test Session");
    assert!(!subject.is_empty());
    assert!(subject.contains("Test Session"));
}

#[test]
fn test_email_subject_has_prefix() {
    let subject = build_reminder_subject("Test");
    assert!(subject.starts_with("Promemoria Sessione:"));
}

#[test]
fn test_smtp_config_struct_creation() {
    let config = SmtpConfig {
        host: "smtp.test.com".to_string(),
        port: 587,
        username: "user@test.com".to_string(),
        password: "password123".to_string(),
        from_email: "noreply@test.com".to_string(),
    };

    assert_eq!(config.host, "smtp.test.com");
    assert_eq!(config.port, 587);
    assert_eq!(config.username, "user@test.com");
    assert_eq!(config.from_email, "noreply@test.com");
}

#[test]
fn test_smtp_config_default_port() {
    assert_eq!(get_default_smtp_port(), 587);
}

#[test]
fn test_smtp_config_default_from_email() {
    assert_eq!(get_default_from_email(), "admin@cronachednd.it");
}

#[test]
fn test_smtp_port_validation_valid() {
    assert!(is_valid_smtp_port(25));
    assert!(is_valid_smtp_port(465));
    assert!(is_valid_smtp_port(587));
    assert!(is_valid_smtp_port(2525));
}

#[test]
fn test_smtp_port_validation_invalid() {
    assert!(!is_valid_smtp_port(0));
    assert!(!is_valid_smtp_port(70000));
}

#[test]
fn test_smtp_host_validation_valid() {
    assert!(is_valid_smtp_host("smtp.gmail.com"));
    assert!(is_valid_smtp_host("authsmtp.securemail.pro"));
    assert!(is_valid_smtp_host("mail.example.com"));
}

#[test]
fn test_smtp_host_validation_invalid() {
    assert!(!is_valid_smtp_host(""));
    assert!(!is_valid_smtp_host("  "));
}

#[test]
fn test_email_rate_limit_allows_under_limit() {
    let mut rate_limiter = EmailRateLimiter::new(5); // 5 emails per minute

    // Should allow first 5 emails
    for _ in 0..5 {
        assert!(rate_limiter.can_send());
        rate_limiter.record_send();
    }
}

#[test]
fn test_email_rate_limit_blocks_over_limit() {
    let mut rate_limiter = EmailRateLimiter::new(5);

    for _ in 0..5 {
        rate_limiter.record_send();
    }

    // 6th should be rate limited
    assert!(!rate_limiter.can_send());
}

#[test]
fn test_email_rate_limit_reset() {
    let mut rate_limiter = EmailRateLimiter::new(5);

    for _ in 0..5 {
        rate_limiter.record_send();
    }

    assert!(!rate_limiter.can_send());

    rate_limiter.reset();

    assert!(rate_limiter.can_send());
}

#[test]
fn test_email_rate_limit_zero_max_blocks_all() {
    let rate_limiter = EmailRateLimiter::new(0);
    assert!(!rate_limiter.can_send());
}

#[test]
fn test_email_template_gdpr_export_notice() {
    let notice = build_gdpr_export_notice();
    assert!(notice.contains("GDPR"));
    assert!(notice.contains("Art. 20"));
    assert!(notice.contains("cronachednd.it"));
}

#[test]
fn test_email_template_password_reset() {
    let token = "abc123";
    let body = build_password_reset_body(token);

    assert!(body.contains("abc123"));
    assert!(body.contains("reset") || body.contains("password"));
}
