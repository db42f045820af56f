//! WhatsApp reminder delivery: phone-number validation, number formatting,
//! and message building. Sending itself is transport work and lives with the
//! caller; everything here is a pure function of its inputs.

use vstd::prelude::*;

use vstd::string::{StrSliceExecFns, StringExecFns};

use crate::keys::is_digit;
use crate::strutil::{push_char, spec_trim, str_starts_with, trim};

verus! {

/// Twilio WhatsApp configuration.
#[derive(Debug, Clone)]
pub struct TwilioConfig {
    pub account_sid: String,
    pub auth_token: String,
    pub whatsapp_number: String,
}

impl TwilioConfig {
    /// Builds the configuration from the three environment values the caller
    /// read: the account identifier and the token are required, a missing
    /// one named exactly; the WhatsApp sender number defaults when absent.
    pub fn from_values(
        account_sid: Option<String>,
        auth_token: Option<String>,
        whatsapp_number: Option<String>,
    ) -> (r: Result<TwilioConfig, String>)
        ensures
            match r {
                Ok(config) => {
                    &&& account_sid == Some(config.account_sid)
                    &&& auth_token == Some(config.auth_token)
                    &&& match whatsapp_number {
                        Some(n) => config.whatsapp_number == n,
                        None => config.whatsapp_number@ == "whatsapp:+14155238886"@,
                    }
                },
                Err(e) => {
                    ||| (account_sid is None && e@ == "TWILIO_ACCOUNT_SID not set"@)
                    ||| (account_sid is Some && auth_token is None && e@
                        == "TWILIO_AUTH_TOKEN not set"@)
                },
            },
            r is Ok <==> account_sid is Some && auth_token is Some,
    {
        let sid = match account_sid {
            Some(s) => s,
            None => {
                return Err("TWILIO_ACCOUNT_SID not set".to_owned());
            },
        };
        let token = match auth_token {
            Some(t) => t,
            None => {
                return Err("TWILIO_AUTH_TOKEN not set".to_owned());
            },
        };
        let number = match whatsapp_number {
            Some(n) => n,
            None => "whatsapp:+14155238886".to_owned(),
        };
        Ok(TwilioConfig { account_sid: sid, auth_token: token, whatsapp_number: number })
    }
}

/// Whether a phone number is acceptable: after trimming, a `+` followed by
/// 7 to 15 ASCII digits and nothing else (E.164).
pub open spec fn phone_number_valid(s: Seq<char>) -> bool {
    let t = spec_trim(s);
    &&& s.len() > 0
    &&& t.len() > 0
    &&& t[0] == '+'
    &&& forall|i: int| 1 <= i < t.len() ==> is_digit(#[trigger] t[i])
    &&& 7 <= t.len() - 1 <= 15
}

/// Validates a phone number: in E.164 format or not.
pub fn validate_phone_number(phone: &str) -> (r: bool)
    ensures
        r == phone_number_valid(phone@),
{
    if phone.unicode_len() == 0 {
        return false;
    }
    let cleaned = trim(phone);
    let n = cleaned.unicode_len();
    if n == 0 {
        return false;
    }
    if cleaned.get_char(0) != '+' {
        return false;
    }
    let mut i: usize = 1;
    while i < n
        invariant
            1 <= i <= n,
            n == cleaned@.len(),
            cleaned@ == spec_trim(phone@),
            phone@.len() > 0,
            cleaned@[0] == '+',
            forall|j: int| 1 <= j < i ==> is_digit(#[trigger] cleaned@[j]),
        decreases n - i,
    {
        let c = cleaned.get_char(i) as u32;
        if c < 48 || c > 57 {
            proof {
                assert(!is_digit(spec_trim(phone@)[i as int]));
                assert(!phone_number_valid(phone@));
            }
            return false;
        }
        proof {
            assert(is_digit(cleaned@[i as int]));
        }
        i += 1;
    }
    7 <= n - 1 && n - 1 <= 15
}

/// Whether the formatter removes this character: spaces, dashes and
/// parentheses are punctuation, not number.
pub open spec fn is_phone_punctuation(c: char) -> bool {
    c == ' ' || c == '-' || c == '(' || c == ')'
}

/// `s` with phone punctuation removed.
pub open spec fn strip_phone_punctuation(s: Seq<char>) -> Seq<char>
    decreases s.len(),
{
    if s.len() == 0 {
        s
    } else if is_phone_punctuation(s.last()) {
        strip_phone_punctuation(s.drop_last())
    } else {
        strip_phone_punctuation(s.drop_last()).push(s.last())
    }
}

/// The `whatsapp:` scheme prefix.
pub open spec fn whatsapp_prefix() -> Seq<char> {
    seq!['w', 'h', 'a', 't', 's', 'a', 'p', 'p', ':']
}

/// Italian country prefix assumed for local numbers: `whatsapp:+39`.
pub open spec fn whatsapp_it_prefix() -> Seq<char> {
    whatsapp_prefix() + seq!['+', '3', '9']
}

/// What formatting a phone number for WhatsApp yields: trimmed, punctuation
/// removed, and given the `whatsapp:` scheme, assuming an Italian number
/// when no country code is present.
pub open spec fn formatted_whatsapp_number(s: Seq<char>) -> Seq<char> {
    let c = strip_phone_punctuation(spec_trim(s));
    if c.len() >= whatsapp_prefix().len() && c.subrange(0, whatsapp_prefix().len() as int)
        == whatsapp_prefix() {
        c
    } else if c.len() >= 1 && c[0] == '+' {
        whatsapp_prefix() + c
    } else {
        whatsapp_it_prefix() + c
    }
}

/// Formats a phone number for WhatsApp: adds the `whatsapp:` prefix, and a
/// `+39` country code to numbers that have none.
pub fn format_whatsapp_number(phone: &str) -> (r: String)
    ensures
        r@ == formatted_whatsapp_number(phone@),
{
    proof {
        reveal_strlit("whatsapp:");
        reveal_strlit("whatsapp:+39");
    }
    let trimmed = trim(phone);
    let n = trimmed.unicode_len();
    let mut cleaned = String::new();
    let mut i: usize = 0;
    proof {
        assert(trimmed@.take(0) =~= Seq::<char>::empty());
    }
    while i < n
        invariant
            0 <= i <= n,
            n == trimmed@.len(),
            trimmed@ == spec_trim(phone@),
            cleaned@ == strip_phone_punctuation(trimmed@.take(i as int)),
        decreases n - i,
    {
        let c = trimmed.get_char(i);
        proof {
            assert(trimmed@.take(i as int + 1).drop_last() =~= trimmed@.take(i as int));
            assert(trimmed@.take(i as int + 1).last() == trimmed@[i as int]);
        }
        if !(c == ' ' || c == '-' || c == '(' || c == ')') {
            push_char(&mut cleaned, c);
        }
        i += 1;
    }
    proof {
        assert(trimmed@.take(n as int) =~= trimmed@);
    }
    if str_starts_with(cleaned.as_str(), "whatsapp:") {
        proof {
            assert("whatsapp:"@ =~= whatsapp_prefix());
        }
        cleaned
    } else if cleaned.unicode_len() >= 1 && cleaned.as_str().get_char(0) == '+' {
        proof {
            assert("whatsapp:"@ =~= whatsapp_prefix());
        }
        let mut out = String::new();
        out.append("whatsapp:");
        out.append(cleaned.as_str());
        proof {
            assert(out@ =~= formatted_whatsapp_number(phone@));
        }
        out
    } else {
        proof {
            assert("whatsapp:"@ =~= whatsapp_prefix());
            assert("whatsapp:+39"@ =~= whatsapp_it_prefix());
        }
        let mut out = String::new();
        out.append("whatsapp:+39");
        out.append(cleaned.as_str());
        proof {
            assert(out@ =~= formatted_whatsapp_number(phone@));
        }
        out
    }
}

/// Builds a session reminder message: branding, the session name, and the
/// caller's note.
pub fn build_reminder_message(session_name: &str, message: &str) -> (r: String)
    ensures
        r@ == "🎲 Promemoria D&D Scheduler\n\n📅 Sessione: "@ + session_name@ + "\n\n📝 "@
            + message@ + "\n\nChe i dadi siano sempre a tuo favore!"@,
{
    let mut out = String::new();
    out.append("🎲 Promemoria D&D Scheduler\n\n📅 Sessione: ");
    out.append(session_name);
    out.append("\n\n📝 ");
    out.append(message);
    out.append("\n\nChe i dadi siano sempre a tuo favore!");
    out
}

/// Builds the welcome message for a newly registered user.
pub fn build_welcome_message(name: &str) -> (r: String)
    ensures
        r@ == "🎲 Benvenuto in D&D Scheduler, "@ + name@
            + "!\n\nGrazie per esserti registrato. Ora puoi partecipare alle sessioni di gioco.\n\nChe i dadi siano sempre a tuo favore!"@,
{
    let mut out = String::new();
    out.append("🎲 Benvenuto in D&D Scheduler, ");
    out.append(name);
    out.append(
        "!\n\nGrazie per esserti registrato. Ora puoi partecipare alle sessioni di gioco.\n\nChe i dadi siano sempre a tuo favore!",
    );
    out
}

} // verus!
