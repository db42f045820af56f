//! Activity feed entries and their generated messages.

use dnd_scheduler::models::{Activity, User, UserPublic};

#[test]
fn generated_messages_by_activity_type() {
    assert_eq!(
        Activity::generate_message("poll_created", "Anna", Some("Campagna Epica")),
        "Anna ha creato la campagna Campagna Epica"
    );
    assert_eq!(
        Activity::generate_message("poll_created", "Anna", None),
        "Anna ha creato la campagna Senza nome"
    );
    assert_eq!(
        Activity::generate_message("response_submitted", "Bruno", Some("Sessione 3")),
        "Bruno ha indicato la disponibilità per Sessione 3"
    );
    assert_eq!(
        Activity::generate_message("poll_finalized", "Bruno", Some("Sessione 3")),
        "La sessione Sessione 3 è stata finalizzata"
    );
    assert_eq!(
        Activity::generate_message("user_joined", "Carla", None),
        "Carla si è unito alla piattaforma"
    );
    assert_eq!(
        Activity::generate_message("reminder_sent", "Carla", None),
        "Promemoria inviato per una sessione"
    );
    assert_eq!(
        Activity::generate_message("poll_edited", "Dario", Some("Uno")),
        "Dario ha modificato la campagna Uno"
    );
    assert_eq!(
        Activity::generate_message("something_else", "Elena", None),
        "Elena - attività"
    );
}

#[test]
fn new_activity_carries_its_fields() {
    let activity = Activity::new(
        "poll_created",
        "user-1".to_string(),
        "Anna".to_string(),
        Some("poll-9".to_string()),
        Some("Campagna".to_string()),
    );
    assert_eq!(activity.activity_type, "poll_created");
    assert_eq!(activity.user_id, "user-1");
    assert_eq!(activity.user_name, "Anna");
    assert_eq!(activity.poll_id, Some("poll-9".to_string()));
    assert_eq!(activity.poll_name, Some("Campagna".to_string()));
    assert_eq!(activity.message, "Anna ha creato la campagna Campagna");
    assert_eq!(activity.id.len(), 36);
}

#[test]
fn new_activities_get_distinct_identifiers() {
    let a = Activity::new("user_joined", "u".to_string(), "N".to_string(), None, None);
    let b = Activity::new("user_joined", "u".to_string(), "N".to_string(), None, None);
    assert_ne!(a.id, b.id);
    assert!(a.timestamp > 0);
}

#[test]
fn public_projection_drops_credentials() {
    let user = User {
        id: "u-1".to_string(),
        email: "a@b.c".to_string(),
        password_hash: "hash".to_string(),
        name: "Anna".to_string(),
        role: "player".to_string(),
        created_at: 123,
        last_login: None,
    };
    let public = UserPublic::from(user);
    assert_eq!(public.id, "u-1");
    assert_eq!(public.email, "a@b.c");
    assert_eq!(public.name, "Anna");
    assert_eq!(public.role, "player");
    assert_eq!(public.created_at, 123);
}

#[test]
fn activity_identifiers_are_hyphenated_lowercase_hex() {
    let activity = Activity::new("user_joined", "u".to_string(), "N".to_string(), None, None);
    let id: Vec<char> = activity.id.chars().collect();
    assert_eq!(id.len(), 36);
    for (i, c) in id.iter().enumerate() {
        if i == 8 || i == 13 || i == 18 || i == 23 {
            assert_eq!(*c, '-');
        } else {
            assert!(c.is_ascii_hexdigit() && !c.is_ascii_uppercase());
        }
    }
}
