//! Email delivery support: address validation, message and template
//! building, SMTP configuration checks, and a send-rate limiter. SMTP
//! transport itself lives with the caller; everything here is a pure
//! function of its inputs.

use vstd::prelude::*;

use vstd::string::{StrSliceExecFns, StringExecFns};

use crate::strutil::{find_char, push_char, spec_trim, trim};

verus! {

/// SMTP connection settings.
#[derive(Debug)]
pub struct SmtpConfig {
    pub host: String,
    pub port: u16,
    pub username: String,
    pub password: String,
    pub from_email: String,
}

/// The index of the first occurrence of `c` in `s`, or `s.len()` if absent.
pub open spec fn first_index(s: Seq<char>, c: char) -> nat
    decreases s.len(),
{
    if s.len() == 0 {
        0
    } else if s[0] == c {
        0
    } else {
        1 + first_index(s.drop_first(), c)
    }
}

/// Whether `s` is an acceptable address: one `@`, a non-empty local part, and
/// a non-empty domain containing a dot.
pub open spec fn email_address_valid(s: Seq<char>) -> bool {
    let i = first_index(s, '@') as int;
    let domain = s.subrange(i + 1, s.len() as int);
    &&& s.contains('@')
    &&& i > 0
    &&& i + 1 < s.len()
    &&& !domain.contains('@')
    &&& domain.contains('.')
}

/// `first_index` finds exactly the first occurrence.
pub proof fn lemma_first_index(s: Seq<char>, c: char, i: int)
    requires
        0 <= i < s.len(),
        s[i] == c,
        forall|j: int| 0 <= j < i ==> s[j] != c,
    ensures
        first_index(s, c) == i,
    decreases s.len(),
{
    if s[0] != c {
        assert(s.drop_first()[i - 1] == c);
        assert forall|j: int| 0 <= j < i - 1 implies s.drop_first()[j] != c by {
            assert(s.drop_first()[j] == s[j + 1]);
        }
        lemma_first_index(s.drop_first(), c, i - 1);
    }
}

/// Validates an email address: one `@` with a non-empty name before it and a
/// dotted, non-empty domain after it, or not acceptable.
pub fn validate_email_address(email: &str) -> (r: bool)
    ensures
        r == email_address_valid(email@),
{
    let n = email.unicode_len();
    let at = match find_char(email, '@') {
        Some(i) => i,
        None => {
            return false;
        },
    };
    proof {
        lemma_first_index(email@, '@', at as int);
        assert(email@.contains('@'));
    }
    if at == 0 {
        return false;
    }
    if at + 1 >= n {
        proof {
            assert(email@.subrange(at as int + 1, n as int).len() == 0);
        }
        return false;
    }
    let domain = email.substring_char(at + 1, n);
    proof {
        assert(domain@ =~= email@.subrange(at as int + 1, n as int));
    }
    if crate::strutil::contains_char(domain, '@') {
        return false;
    }
    crate::strutil::contains_char(domain, '.')
}

/// Builds the welcome email body, with the name embedded as it is.
pub fn build_welcome_email_body(name: &str) -> (r: String)
    ensures
        r@ == "\n        <h1>Benvenuto, "@ + name@
            + "!</h1>\n        <p>Grazie per esserti registrato a D&D Scheduler.</p>\n        <p>Ora puoi creare e partecipare alle campagne per organizzare le tue sessioni.</p>\n        <br>\n        <p>Che i dadi siano sempre a tuo favore!</p>\n        "@,
{
    let mut out = String::new();
    out.append("\n        <h1>Benvenuto, ");
    out.append(name);
    out.append(
        "!</h1>\n        <p>Grazie per esserti registrato a D&D Scheduler.</p>\n        <p>Ora puoi creare e partecipare alle campagne per organizzare le tue sessioni.</p>\n        <br>\n        <p>Che i dadi siano sempre a tuo favore!</p>\n        ",
    );
    out
}

/// The HTML escape of one character, unchanged if it needs none.
pub open spec fn html_escape_char(c: char) -> Seq<char> {
    if c == '&' {
        seq!['&', 'a', 'm', 'p', ';']
    } else if c == '<' {
        seq!['&', 'l', 't', ';']
    } else if c == '>' {
        seq!['&', 'g', 't', ';']
    } else if c == '"' {
        seq!['&', 'q', 'u', 'o', 't', ';']
    } else if c == '\'' {
        seq!['&', '#', 'x', '2', '7', ';']
    } else {
        seq![c]
    }
}

/// `s` with every HTML-significant character escaped.
pub open spec fn html_escaped(s: Seq<char>) -> Seq<char>
    decreases s.len(),
{
    if s.len() == 0 {
        s
    } else {
        html_escaped(s.drop_last()) + html_escape_char(s.last())
    }
}

/// Escapes the HTML-significant characters of `s`.
pub fn html_escape(s: &str) -> (r: String)
    ensures
        r@ == html_escaped(s@),
{
    proof {
        reveal_strlit("&amp;");
        reveal_strlit("&lt;");
        reveal_strlit("&gt;");
        reveal_strlit("&quot;");
        reveal_strlit("&#x27;");
    }
    let n = s.unicode_len();
    let mut out = String::new();
    let mut i: usize = 0;
    proof {
        assert(s@.take(0) =~= Seq::<char>::empty());
    }
    while i < n
        invariant
            0 <= i <= n,
            n == s@.len(),
            out@ == html_escaped(s@.take(i as int)),
        decreases n - i,
    {
        let c = s.get_char(i);
        proof {
            reveal_strlit("&amp;");
            reveal_strlit("&lt;");
            reveal_strlit("&gt;");
            reveal_strlit("&quot;");
            reveal_strlit("&#x27;");
            assert(s@.take(i as int + 1).drop_last() =~= s@.take(i as int));
            assert(s@.take(i as int + 1).last() == s@[i as int]);
        }
        if c == '&' {
            out.append("&amp;");
        } else if c == '<' {
            out.append("&lt;");
        } else if c == '>' {
            out.append("&gt;");
        } else if c == '"' {
            out.append("&quot;");
        } else if c == '\'' {
            out.append("&#x27;");
        } else {
            push_char(&mut out, c);
        }
        proof {
            assert(out@ =~= html_escaped(s@.take(i as int + 1)));
        }
        i += 1;
    }
    proof {
        assert(s@.take(n as int) =~= s@);
    }
    out
}

/// Builds the welcome email body with the name HTML-escaped, so a hostile
/// display name cannot inject markup.
pub fn build_welcome_email_body_safe(name: &str) -> (r: String)
    ensures
        r@ == "\n        <h1>Benvenuto, "@ + html_escaped(name@)
            + "!</h1>\n        <p>Grazie per esserti registrato a D&D Scheduler.</p>\n        "@,
{
    let escaped = html_escape(name);
    let mut out = String::new();
    out.append("\n        <h1>Benvenuto, ");
    out.append(escaped.as_str());
    out.append(
        "!</h1>\n        <p>Grazie per esserti registrato a D&D Scheduler.</p>\n        ",
    );
    out
}

/// Builds the session reminder email body.
pub fn build_reminder_email_body(session_name: &str, message: &str) -> (r: String)
    ensures
        r@ == "\n        <h2>Promemoria Sessione: "@ + session_name@
            + "</h2>\n        <p>Ciao,</p>\n        <p>Questo è un promemoria per la tua prossima sessione.</p>\n        <p><strong>Messaggio:</strong> "@
            + message@ + "</p>\n        <br>\n        <p>A presto!</p>\n        "@,
{
    let mut out = String::new();
    out.append("\n        <h2>Promemoria Sessione: ");
    out.append(session_name);
    out.append(
        "</h2>\n        <p>Ciao,</p>\n        <p>Questo è un promemoria per la tua prossima sessione.</p>\n        <p><strong>Messaggio:</strong> ",
    );
    out.append(message);
    out.append("</p>\n        <br>\n        <p>A presto!</p>\n        ");
    out
}

/// Builds the reminder email subject.
pub fn build_reminder_subject(session_name: &str) -> (r: String)
    ensures
        r@ == "Promemoria Sessione: "@ + session_name@,
{
    let mut out = String::new();
    out.append("Promemoria Sessione: ");
    out.append(session_name);
    out
}

/// The SMTP port assumed when none is configured.
pub fn get_default_smtp_port() -> (r: u16)
    ensures
        r == 587,
{
    587
}

/// The sender address assumed when none is configured.
pub fn get_default_from_email() -> (r: &'static str)
    ensures
        r@ == "admin@cronachednd.it"@,
{
    "admin@cronachednd.it"
}

/// Whether `port` can be an SMTP port: non-zero and within 16 bits.
pub fn is_valid_smtp_port(port: u32) -> (r: bool)
    ensures
        r == (0 < port <= 65535),
{
    port > 0 && port <= 65535
}

/// Whether `host` names an SMTP host at all: not blank.
pub fn is_valid_smtp_host(host: &str) -> (r: bool)
    ensures
        r == (spec_trim(host@).len() > 0),
{
    let t = trim(host);
    t.unicode_len() > 0
}

/// Builds the notice attached to a personal-data export.
pub fn build_gdpr_export_notice() -> (r: String)
    ensures
        r@ == "Questo export contiene tutti i dati personali memorizzati in conformità con il GDPR Art. 20 (Diritto alla portabilità dei dati). Per domande, contatta privacy@cronachednd.it"@,
{
    let mut out = String::new();
    out.append(
        "Questo export contiene tutti i dati personali memorizzati in conformità con il GDPR Art. 20 (Diritto alla portabilità dei dati). Per domande, contatta privacy@cronachednd.it",
    );
    out
}

/// Builds the password-reset email body around the reset code.
pub fn build_password_reset_body(token: &str) -> (r: String)
    ensures
        r@ == "\n        <h2>Reset Password</h2>\n        <p>Hai richiesto il reset della password.</p>\n        <p>Il tuo codice di reset è: <strong>"@
            + token@ + "</strong></p>\n        <p>Questo codice scadrà tra 1 ora.</p>\n        "@,
{
    let mut out = String::new();
    out.append(
        "\n        <h2>Reset Password</h2>\n        <p>Hai richiesto il reset della password.</p>\n        <p>Il tuo codice di reset è: <strong>",
    );
    out.append(token);
    out.append("</strong></p>\n        <p>Questo codice scadrà tra 1 ora.</p>\n        ");
    out
}

/// A per-minute send counter: sending is allowed while the count of sends
/// recorded this minute is below the configured maximum.
pub struct EmailRateLimiter {
    max_per_minute: u32,
    sent_count: u32,
}

impl EmailRateLimiter {
    /// The configured maximum of sends per minute.
    pub closed spec fn max(self) -> u32 {
        self.max_per_minute
    }

    /// How many sends this minute has recorded.
    pub closed spec fn sent(self) -> u32 {
        self.sent_count
    }

    /// A fresh limiter allowing `max_per_minute` sends per minute.
    pub fn new(max_per_minute: u32) -> (r: EmailRateLimiter)
        ensures
            r.max() == max_per_minute,
            r.sent() == 0,
    {
        EmailRateLimiter { max_per_minute, sent_count: 0 }
    }

    /// Whether one more send is within the limit.
    pub fn can_send(&self) -> (r: bool)
        ensures
            r == (self.sent() < self.max()),
    {
        self.sent_count < self.max_per_minute
    }

    /// Records one send.
    pub fn record_send(&mut self)
        requires
            old(self).sent() < u32::MAX,
        ensures
            final(self).sent() == old(self).sent() + 1,
            final(self).max() == old(self).max(),
    {
        self.sent_count = self.sent_count + 1;
    }

    /// Starts a new minute: the recorded count returns to zero.
    pub fn reset(&mut self)
        ensures
            final(self).sent() == 0,
            final(self).max() == old(self).max(),
    {
        self.sent_count = 0;
    }
}

} // verus!
