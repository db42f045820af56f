//! The domain types of the scheduling service: polls, participants,
//! availability, users and their sessions, administrators, reminders,
//! consent bookkeeping, and the activity feed. Serialization to and from the
//! wire lives with the caller; these are the plain values.

use vstd::prelude::*;

use vstd::string::StringExecFns;

use crate::strutil::str_eq;

verus! {

/// A scheduling poll (a campaign's planned session).
#[derive(Debug, Clone)]
pub struct Poll {
    pub id: String,
    pub title: String,
    pub description: String,
    pub location: String,
    /// Unix timestamp.
    pub created_at: i64,
    /// JSON-encoded list of candidate dates.
    pub dates: String,
    /// JSON-encoded time range, or a plain label.
    pub time_range: String,
}

/// One participant of a poll.
#[derive(Debug, Clone)]
pub struct Participant {
    pub id: String,
    pub poll_id: String,
    pub name: String,
    pub email: Option<String>,
    pub access_token: Option<String>,
}

/// One availability entry of a participant for one date and slot.
#[derive(Debug, Clone)]
pub struct Availability {
    pub id: Option<i64>,
    pub poll_id: String,
    pub participant_id: String,
    pub date: String,
    pub time_slot: String,
    /// "available", "tentative" or "busy".
    pub status: String,
}

/// A request to join a poll.
#[derive(Debug)]
pub struct JoinPollRequest {
    pub name: String,
    pub email: Option<String>,
}

/// An administrator account.
#[derive(Debug)]
pub struct Admin {
    pub id: String,
    pub username: String,
    pub password_hash: String,
    pub email: Option<String>,
    pub role: String,
    pub created_at: i64,
}

/// Admin login credentials.
#[derive(Debug)]
pub struct LoginRequest {
    pub email: String,
    pub password: String,
}

/// A login asserted by a Google identity token.
#[derive(Debug)]
pub struct GoogleLoginRequest {
    pub token: String,
    pub email: String,
    pub name: String,
    pub picture: String,
}

/// A successful admin login: the session token and the account.
#[derive(Debug)]
pub struct AuthResponse {
    pub token: String,
    pub user: Admin,
}

/// A request replacing a participant's availability entries.
#[derive(Debug)]
pub struct UpdateAvailabilityRequest {
    pub availability: Vec<AvailabilityEntry>,
    pub access_token: Option<String>,
}

/// One availability entry as submitted.
#[derive(Debug)]
pub struct AvailabilityEntry {
    pub date: String,
    pub time_slot: String,
    pub status: String,
}

/// A user account.
#[derive(Debug, Clone)]
pub struct User {
    pub id: String,
    pub email: String,
    pub password_hash: String,
    pub name: String,
    /// "player" or "dm".
    pub role: String,
    pub created_at: i64,
    pub last_login: Option<i64>,
}

/// A user's login session.
#[derive(Debug, Clone)]
pub struct UserSession {
    pub id: String,
    pub user_id: String,
    pub token: String,
    pub expires_at: i64,
    pub created_at: i64,
}

/// A registration request.
#[derive(Debug)]
pub struct UserRegisterRequest {
    pub email: String,
    pub password: String,
    pub name: String,
}

/// A user login request.
#[derive(Debug)]
pub struct UserLoginRequest {
    pub email: String,
    pub password: String,
}

/// A successful user login: the session token and the public account.
#[derive(Debug)]
pub struct UserAuthResponse {
    pub token: String,
    pub user: UserPublic,
}

/// A user account as shown to others: no credential material.
#[derive(Debug, Clone)]
pub struct UserPublic {
    pub id: String,
    pub email: String,
    pub name: String,
    pub role: String,
    pub created_at: i64,
}

impl From<User> for UserPublic {
    /// The public projection of an account: the same identity fields, the
    /// password hash left behind.
    fn from(user: User) -> (r: UserPublic) {
        UserPublic {
            id: user.id,
            email: user.email,
            name: user.name,
            role: user.role,
            created_at: user.created_at,
        }
    }
}

impl vstd::std_specs::convert::FromSpecImpl<User> for UserPublic {
    open spec fn obeys_from_spec() -> bool {
        true
    }

    open spec fn from_spec(user: User) -> UserPublic {
        UserPublic {
            id: user.id,
            email: user.email,
            name: user.name,
            role: user.role,
            created_at: user.created_at,
        }
    }
}

/// An authenticated user, as request handlers receive it.
pub struct AuthUser(pub User);

/// An authenticated administrator, as request handlers receive it.
pub struct AdminUser(pub Admin);

/// A JSON-shaped error payload.
#[derive(Debug)]
pub struct ErrorResponse {
    pub error: String,
}

/// Paging parameters of the activity feed.
#[derive(Debug)]
pub struct ActivityQuery {
    pub limit: Option<i64>,
    pub offset: Option<i64>,
}

/// Aggregate numbers for the admin dashboard.
#[derive(Debug)]
pub struct AdminStatsResponse {
    pub total_users: i64,
    pub online_users: i64,
    pub active_campaigns: i64,
    pub scheduled_sessions: i64,
}

/// An admin token-exchange request.
#[derive(Debug)]
pub struct AdminLoginRequest {
    pub token: String,
}

/// A request changing a user's role.
#[derive(Debug)]
pub struct UpdateUserRoleRequest {
    pub role: String,
}

/// The outcome of an admin password reset, carrying the temporary password.
#[derive(Debug)]
pub struct AdminResetPasswordResponse {
    pub success: bool,
    pub temporary_password: String,
    pub message: String,
}

/// A request updating the caller's own profile.
#[derive(Debug)]
pub struct UpdateProfileRequest {
    pub name: Option<String>,
    pub email: Option<String>,
    pub role: Option<String>,
}

/// A request changing the caller's password.
#[derive(Debug)]
pub struct ChangePasswordRequest {
    pub current_password: String,
    pub new_password: String,
}

/// A WhatsApp reminder request.
#[derive(Debug)]
pub struct WhatsAppReminderRequest {
    pub phone: String,
    pub message: String,
    pub session_id: String,
}

/// A Telegram reminder request.
#[derive(Debug)]
pub struct TelegramReminderRequest {
    pub chat_id: String,
    pub message: String,
    pub session_id: String,
}

/// An email reminder request.
#[derive(Debug)]
pub struct EmailReminderRequest {
    pub user_id: String,
    pub session_id: String,
    pub message: String,
}

/// The outcome of a reminder delivery.
#[derive(Debug)]
pub struct ReminderResponse {
    pub success: bool,
    pub message: String,
}

/// Which reminder channels are configured.
#[derive(Debug)]
pub struct ReminderConfig {
    pub whatsapp_enabled: bool,
    pub telegram_enabled: bool,
    pub email_enabled: bool,
}

/// One recorded consent decision.
#[derive(Debug, Clone)]
pub struct ConsentRecord {
    pub id: Option<i64>,
    pub user_id: String,
    pub consent_type: String,
    pub consented: bool,
    pub ip_address: Option<String>,
    pub user_agent: Option<String>,
    pub timestamp: i64,
}

/// A user's current consent choices.
#[derive(Debug)]
pub struct ConsentPreferences {
    pub consent_marketing: bool,
    pub consent_analytics: bool,
    pub privacy_policy_accepted: bool,
}

/// A request changing consent choices.
#[derive(Debug)]
pub struct UpdateConsentRequest {
    pub consent_marketing: Option<bool>,
    pub consent_analytics: Option<bool>,
    pub accept_privacy_policy: Option<bool>,
}

/// A full personal-data export.
#[derive(Debug)]
pub struct UserDataExport {
    pub user: UserPublicExport,
    pub consent_history: Vec<ConsentRecord>,
    pub activities: Vec<Activity>,
    pub poll_participation: Vec<PollParticipation>,
    pub availability_records: Vec<Availability>,
    pub export_date: String,
    pub gdpr_notice: String,
}

/// The account part of a personal-data export.
#[derive(Debug)]
pub struct UserPublicExport {
    pub id: String,
    pub email: String,
    pub name: String,
    pub role: String,
    pub created_at: i64,
    pub consent_marketing: bool,
    pub consent_analytics: bool,
}

/// One poll a user took part in, for the export.
#[derive(Debug)]
pub struct PollParticipation {
    pub poll_id: String,
    pub poll_title: String,
    pub participant_name: String,
    pub joined_at: Option<i64>,
}

/// A request deleting the caller's account; the confirmation must be typed.
#[derive(Debug)]
pub struct DeleteAccountRequest {
    pub password: String,
    pub confirmation: String,
}

/// One entry of the activity feed.
#[derive(Debug, Clone)]
pub struct Activity {
    pub id: String,
    /// "poll_created", "response_submitted", and the like.
    pub activity_type: String,
    pub user_id: String,
    pub user_name: String,
    pub poll_id: Option<String>,
    pub poll_name: Option<String>,
    pub message: String,
    /// Unix timestamp.
    pub timestamp: i64,
}

/// `poll_name` if given, else the fallback label.
pub open spec fn poll_name_or(poll_name: Option<Seq<char>>, fallback: Seq<char>) -> Seq<char> {
    match poll_name {
        Some(p) => p,
        None => fallback,
    }
}

/// The Italian feed line announcing one activity, by its type.
pub open spec fn spec_activity_message(
    activity_type: Seq<char>,
    user_name: Seq<char>,
    poll_name: Option<Seq<char>>,
) -> Seq<char> {
    if activity_type == "poll_created"@ {
        user_name + " ha creato la campagna "@ + poll_name_or(poll_name, "Senza nome"@)
    } else if activity_type == "response_submitted"@ {
        user_name + " ha indicato la disponibilità per "@ + poll_name_or(
            poll_name,
            "una sessione"@,
        )
    } else if activity_type == "poll_finalized"@ {
        "La sessione "@ + poll_name_or(poll_name, "Senza nome"@) + " è stata finalizzata"@
    } else if activity_type == "user_joined"@ {
        user_name + " si è unito alla piattaforma"@
    } else if activity_type == "reminder_sent"@ {
        "Promemoria inviato per "@ + poll_name_or(poll_name, "una sessione"@)
    } else if activity_type == "poll_edited"@ {
        user_name + " ha modificato la campagna "@ + poll_name_or(poll_name, "Senza nome"@)
    } else {
        user_name + " - "@ + poll_name_or(poll_name, "attività"@)
    }
}

/// Whether `c` is a lowercase hexadecimal digit.
pub open spec fn is_lower_hex_digit(c: char) -> bool {
    48 <= c as int <= 57 || 97 <= c as int <= 102
}

/// Relies on `uuid::Uuid::new_v4` and its `Display`: a fresh random
/// (version 4) identifier in the hyphenated textual form — 36 characters,
/// hyphens at positions 8, 13, 18 and 23, lowercase hexadecimal digits
/// everywhere else. The value is random, so nothing more is stated.
#[verifier::external_body]
fn new_uuid_string() -> (r: String)
    ensures
        r@.len() == 36,
        r@[8] == '-' && r@[13] == '-' && r@[18] == '-' && r@[23] == '-',
        forall|i: int|
            0 <= i < 36 && i != 8 && i != 13 && i != 18 && i != 23 ==> is_lower_hex_digit(
                #[trigger] r@[i],
            ),
{
    uuid::Uuid::new_v4().to_string()
}

/// Relies on `chrono::Utc::now`: the current civil time; the
/// seconds-since-epoch value depends on the clock, so nothing is stated.
#[verifier::external_body]
fn unix_timestamp_now() -> (r: i64) {
    chrono::Utc::now().timestamp()
}

impl Activity {
    /// The feed line for one activity, around the user and poll names.
    pub fn generate_message(activity_type: &str, user_name: &str, poll_name: Option<&str>) -> (r:
        String)
        ensures
            r@ == spec_activity_message(
                activity_type@,
                user_name@,
                match poll_name {
                    Some(p) => Some(p@),
                    None => None,
                },
            ),
    {
        let mut out = String::new();
        if str_eq(activity_type, "poll_created") {
            out.append(user_name);
            out.append(" ha creato la campagna ");
            match poll_name {
                Some(p) => out.append(p),
                None => out.append("Senza nome"),
            }
        } else if str_eq(activity_type, "response_submitted") {
            out.append(user_name);
            out.append(" ha indicato la disponibilità per ");
            match poll_name {
                Some(p) => out.append(p),
                None => out.append("una sessione"),
            }
        } else if str_eq(activity_type, "poll_finalized") {
            out.append("La sessione ");
            match poll_name {
                Some(p) => out.append(p),
                None => out.append("Senza nome"),
            }
            out.append(" è stata finalizzata");
        } else if str_eq(activity_type, "user_joined") {
            out.append(user_name);
            out.append(" si è unito alla piattaforma");
        } else if str_eq(activity_type, "reminder_sent") {
            out.append("Promemoria inviato per ");
            match poll_name {
                Some(p) => out.append(p),
                None => out.append("una sessione"),
            }
        } else if str_eq(activity_type, "poll_edited") {
            out.append(user_name);
            out.append(" ha modificato la campagna ");
            match poll_name {
                Some(p) => out.append(p),
                None => out.append("Senza nome"),
            }
        } else {
            out.append(user_name);
            out.append(" - ");
            match poll_name {
                Some(p) => out.append(p),
                None => out.append("attività"),
            }
        }
        out
    }

    /// A feed entry for one activity: a fresh identifier, the current time,
    /// and the generated message around the given names.
    pub fn new(
        activity_type: &str,
        user_id: String,
        user_name: String,
        poll_id: Option<String>,
        poll_name: Option<String>,
    ) -> (r: Activity)
        ensures
            r.activity_type@ == activity_type@,
            r.user_id == user_id,
            r.user_name == user_name,
            r.poll_id == poll_id,
            r.poll_name == poll_name,
            r.message@ == spec_activity_message(
                activity_type@,
                user_name@,
                poll_name.deep_view(),
            ),
            r.id@.len() == 36,
    {
        let message = match &poll_name {
            Some(p) => Self::generate_message(activity_type, user_name.as_str(), Some(p.as_str())),
            None => Self::generate_message(activity_type, user_name.as_str(), None),
        };
        Activity {
            id: new_uuid_string(),
            activity_type: activity_type.to_owned(),
            user_id,
            user_name,
            poll_id,
            poll_name,
            message,
            timestamp: unix_timestamp_now(),
        }
    }
}

} // verus!
