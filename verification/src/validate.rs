//! Input validation and sanitization: the checks run on every request
//! payload before anything touches storage, each returning exactly one
//! diagnostic for the first rule an input breaks.

use vstd::prelude::*;

use vstd::string::{StrSliceExecFns, StringExecFns};
use vstd::utf8::encode_utf8;

use crate::email::html_escape_char;
use crate::strutil::{
    char_is_alphanumeric, char_is_control, char_is_lowercase, char_is_numeric, char_is_uppercase,
    contains_char, push_char, u64_to_string, dec_str,
};

verus! {

/// Longest accepted email address, in bytes (RFC 5321).
pub const MAX_EMAIL_LENGTH: usize = 254;

/// Longest accepted display name, in bytes.
pub const MAX_NAME_LENGTH: usize = 100;

/// Longest accepted password, in bytes.
pub const MAX_PASSWORD_LENGTH: usize = 128;

/// Whether `s` holds a character email addresses must not contain.
pub open spec fn has_dangerous_email_char(s: Seq<char>) -> bool {
    s.contains('<') || s.contains('>') || s.contains('"') || s.contains('\'') || s.contains('\\')
        || s.contains('\u{0}')
}

/// The diagnostic `validate_email` owes for `s`, if any: the first rule the
/// address breaks, of length, shape, and character set.
pub open spec fn email_problem(s: Seq<char>) -> Option<Seq<char>> {
    if s.len() == 0 || encode_utf8(s).len() > MAX_EMAIL_LENGTH {
        Some("Invalid email length"@)
    } else if !(s.contains('@') && s.contains('.')) {
        Some("Invalid email format"@)
    } else if has_dangerous_email_char(s) {
        Some("Invalid characters in email"@)
    } else {
        None
    }
}

/// Validates an email address, reporting the first broken rule.
pub fn validate_email(email: &str) -> (r: Result<(), String>)
    ensures
        match r {
            Ok(_) => email_problem(email@) is None,
            Err(e) => email_problem(email@) == Some(e@),
        },
{
    if email.is_empty() || email.as_bytes().len() > MAX_EMAIL_LENGTH {
        return Err("Invalid email length".to_owned());
    }
    if !contains_char(email, '@') || !contains_char(email, '.') {
        return Err("Invalid email format".to_owned());
    }
    if contains_char(email, '<') || contains_char(email, '>') || contains_char(email, '"')
        || contains_char(email, '\'') || contains_char(email, '\\') || contains_char(
        email,
        '\u{0}',
    ) {
        return Err("Invalid characters in email".to_owned());
    }
    Ok(())
}

/// The diagnostic `validate_string_length` owes for field `field` holding
/// `s` under the byte limit `max_len`, if any.
pub open spec fn length_problem(s: Seq<char>, max_len: nat, field: Seq<char>) -> Option<Seq<char>> {
    if s.len() == 0 {
        Some(field + " cannot be empty"@)
    } else if encode_utf8(s).len() > max_len {
        Some(field + " exceeds maximum length of "@ + dec_str(max_len))
    } else {
        None
    }
}

/// Validates that a field is present and within its byte limit, naming the
/// field in the diagnostic.
pub fn validate_string_length(s: &str, max_len: usize, field_name: &str) -> (r: Result<(), String>)
    ensures
        match r {
            Ok(_) => length_problem(s@, max_len as nat, field_name@) is None,
            Err(e) => length_problem(s@, max_len as nat, field_name@) == Some(e@),
        },
{
    if s.is_empty() {
        let mut msg = field_name.to_owned();
        msg.append(" cannot be empty");
        return Err(msg);
    }
    if s.as_bytes().len() > max_len {
        let mut msg = field_name.to_owned();
        msg.append(" exceeds maximum length of ");
        let rendered = u64_to_string(max_len as u64);
        msg.append(rendered.as_str());
        return Err(msg);
    }
    Ok(())
}

/// Whether std's `uuid::Uuid::parse_str` accepts `s`: a property of the
/// characters alone.
pub uninterp spec fn uuid_parse_ok(s: Seq<char>) -> bool;

/// Relies on `uuid::Uuid::parse_str`: whether a string parses as a UUID (in
/// any of the crate's accepted textual forms) depends on the string alone.
#[verifier::external_body]
fn uuid_is_valid(s: &str) -> (r: bool)
    ensures
        r == uuid_parse_ok(s@),
{
    uuid::Uuid::parse_str(s).is_ok()
}

/// Validates an identifier: accepted exactly when it parses as a UUID.
pub fn validate_uuid(id: &str) -> (r: Result<(), String>)
    ensures
        r is Ok <==> uuid_parse_ok(id@),
        r matches Err(e) ==> e@ == "Invalid ID format"@,
{
    if uuid_is_valid(id) {
        Ok(())
    } else {
        Err("Invalid ID format".to_owned())
    }
}

/// The diagnostic `validate_name` owes for `s`, if any.
pub open spec fn name_problem(s: Seq<char>) -> Option<Seq<char>> {
    if s.len() == 0 {
        Some("Name cannot be empty"@)
    } else if encode_utf8(s).len() > MAX_NAME_LENGTH {
        Some("Name must be less than 100 characters"@)
    } else {
        None
    }
}

/// Validates a display name: present and within its byte limit.
pub fn validate_name(name: &str) -> (r: Result<(), String>)
    ensures
        match r {
            Ok(_) => name_problem(name@) is None,
            Err(e) => name_problem(name@) == Some(e@),
        },
{
    if name.is_empty() {
        return Err("Name cannot be empty".to_owned());
    }
    if name.as_bytes().len() > MAX_NAME_LENGTH {
        return Err("Name must be less than 100 characters".to_owned());
    }
    Ok(())
}

/// Whether some character of `s` is uppercase.
pub open spec fn has_uppercase(s: Seq<char>) -> bool {
    exists|i: int| 0 <= i < s.len() && char_is_uppercase(#[trigger] s[i])
}

/// Whether some character of `s` is lowercase.
pub open spec fn has_lowercase(s: Seq<char>) -> bool {
    exists|i: int| 0 <= i < s.len() && char_is_lowercase(#[trigger] s[i])
}

/// Whether some character of `s` is numeric.
pub open spec fn has_numeric(s: Seq<char>) -> bool {
    exists|i: int| 0 <= i < s.len() && char_is_numeric(#[trigger] s[i])
}

/// Whether some character of `s` is neither alphabetic nor numeric.
pub open spec fn has_special(s: Seq<char>) -> bool {
    exists|i: int| 0 <= i < s.len() && !char_is_alphanumeric(#[trigger] s[i])
}

/// Relies on `zxcvbn::zxcvbn` only for the range of its result: the `Score`
/// enumeration runs from 0 to 4. The score itself is not a function of the
/// password alone — the estimator's reference year is read from the clock at
/// first use and year-bearing passwords are scored by their distance from it
/// — so nothing more is stated of which score comes back.
#[verifier::external_body]
fn password_score(password: &str) -> (r: u8)
    ensures
        r <= 4,
{
    u8::from(zxcvbn::zxcvbn(password, &[]).score())
}

/// The diagnostic the deterministic password rules owe for `s`, if any: the
/// first broken rule of length and character-class complexity. The strength
/// estimate is not part of this; see `password_problem_given`.
pub open spec fn password_rule_problem(s: Seq<char>) -> Option<Seq<char>> {
    if encode_utf8(s).len() < 12 {
        Some("Password must be at least 12 characters long"@)
    } else if encode_utf8(s).len() > MAX_PASSWORD_LENGTH {
        Some("Password must be less than 128 characters"@)
    } else if !has_uppercase(s) {
        Some("Password must contain at least one uppercase letter"@)
    } else if !has_lowercase(s) {
        Some("Password must contain at least one lowercase letter"@)
    } else if !has_numeric(s) {
        Some("Password must contain at least one number"@)
    } else if !has_special(s) {
        Some("Password must contain at least one special character"@)
    } else {
        None
    }
}

/// The diagnostic `validate_password` owes for `s` once the strength
/// estimator has rated it `score`: the first broken deterministic rule, or
/// the weakness notice when every rule holds but the score is below 3.
pub open spec fn password_problem_given(s: Seq<char>, score: u8) -> Option<Seq<char>> {
    if password_rule_problem(s) is Some {
        password_rule_problem(s)
    } else if score < 3 {
        Some(
            "Password is too weak (common pattern or simple). Please choose a stronger password."@,
        )
    } else {
        None
    }
}

fn scan_password(password: &str) -> (r: (bool, bool, bool, bool))
    ensures
        r.0 == has_uppercase(password@),
        r.1 == has_lowercase(password@),
        r.2 == has_numeric(password@),
        r.3 == has_special(password@),
{
    let n = password.unicode_len();
    let mut upper = false;
    let mut lower = false;
    let mut numeric = false;
    let mut special = false;
    let mut i: usize = 0;
    while i < n
        invariant
            0 <= i <= n,
            n == password@.len(),
            upper == exists|j: int| 0 <= j < i && char_is_uppercase(#[trigger] password@[j]),
            lower == exists|j: int| 0 <= j < i && char_is_lowercase(#[trigger] password@[j]),
            numeric == exists|j: int| 0 <= j < i && char_is_numeric(#[trigger] password@[j]),
            special == exists|j: int| 0 <= j < i && !char_is_alphanumeric(#[trigger] password@[j]),
        decreases n - i,
    {
        let c = password.get_char(i);
        if c.is_uppercase() {
            upper = true;
        }
        if c.is_lowercase() {
            lower = true;
        }
        if c.is_numeric() {
            numeric = true;
        }
        if !c.is_alphanumeric() {
            special = true;
        }
        i += 1;
    }
    (upper, lower, numeric, special)
}

/// Applies the password rules around an already-computed strength score:
/// length and character classes first, each with its exact diagnostic, then
/// the score gate (at least 3 of 4).
pub fn check_password_rules(password: &str, score: u8) -> (r: Result<(), String>)
    ensures
        match r {
            Ok(_) => password_problem_given(password@, score) is None,
            Err(e) => password_problem_given(password@, score) == Some(e@),
        },
{
    if password.as_bytes().len() < 12 {
        return Err("Password must be at least 12 characters long".to_owned());
    }
    if password.as_bytes().len() > MAX_PASSWORD_LENGTH {
        return Err("Password must be less than 128 characters".to_owned());
    }
    let (upper, lower, numeric, special) = scan_password(password);
    if !upper {
        return Err("Password must contain at least one uppercase letter".to_owned());
    }
    if !lower {
        return Err("Password must contain at least one lowercase letter".to_owned());
    }
    if !numeric {
        return Err("Password must contain at least one number".to_owned());
    }
    if !special {
        return Err("Password must contain at least one special character".to_owned());
    }
    if score < 3 {
        return Err(
            "Password is too weak (common pattern or simple). Please choose a stronger password.".to_owned(),
        );
    }
    Ok(())
}

/// Validates a password: the deterministic rules of length and
/// character-class complexity are reported exactly; when they all hold, the
/// strength estimator has the last word, so acceptance states what holds for
/// every score it can return: a rejection beyond the deterministic rules
/// carries exactly the weakness notice.
pub fn validate_password(password: &str) -> (r: Result<(), String>)
    ensures
        match r {
            Ok(_) => password_rule_problem(password@) is None,
            Err(e) => password_rule_problem(password@) == Some(e@) || (password_rule_problem(
                password@,
            ) is None && e@
                == "Password is too weak (common pattern or simple). Please choose a stronger password."@),
        },
{
    let bytes = password.as_bytes().len();
    let (upper, lower, numeric, special) = scan_password(password);
    let score: u8 = if 12 <= bytes && bytes <= MAX_PASSWORD_LENGTH && upper && lower && numeric
        && special {
        password_score(password)
    } else {
        0
    };
    check_password_rules(password, score)
}

/// What sanitizing one character yields: HTML-significant characters are
/// escaped, control codes other than line breaks and tabs are dropped, and
/// everything else passes through.
pub open spec fn sanitize_char(c: char) -> Seq<char> {
    if c == '<' || c == '>' || c == '&' || c == '"' || c == '\'' {
        html_escape_char(c)
    } else if char_is_control(c) && c != '\n' && c != '\r' && c != '\t' {
        Seq::empty()
    } else {
        seq![c]
    }
}

/// `s` sanitized character by character.
pub open spec fn sanitized(s: Seq<char>) -> Seq<char>
    decreases s.len(),
{
    if s.len() == 0 {
        s
    } else {
        sanitized(s.drop_last()) + sanitize_char(s.last())
    }
}

/// Sanitizes text for embedding in markup: escapes HTML-significant
/// characters and drops control codes other than line breaks and tabs.
pub fn sanitize_string(s: &str) -> (r: String)
    ensures
        r@ == sanitized(s@),
{
    let n = s.unicode_len();
    let mut out = String::new();
    let mut i: usize = 0;
    proof {
        assert(s@.take(0) =~= Seq::<char>::empty());
    }
    while i < n
        invariant
            0 <= i <= n,
            n == s@.len(),
            out@ == sanitized(s@.take(i as int)),
        decreases n - i,
    {
        let c = s.get_char(i);
        proof {
            reveal_strlit("&amp;");
            reveal_strlit("&lt;");
            reveal_strlit("&gt;");
            reveal_strlit("&quot;");
            reveal_strlit("&#x27;");
            assert(s@.take(i as int + 1).drop_last() =~= s@.take(i as int));
            assert(s@.take(i as int + 1).last() == s@[i as int]);
        }
        if c == '<' {
            out.append("&lt;");
        } else if c == '>' {
            out.append("&gt;");
        } else if c == '&' {
            out.append("&amp;");
        } else if c == '"' {
            out.append("&quot;");
        } else if c == '\'' {
            out.append("&#x27;");
        } else if !c.is_control() || c == '\n' || c == '\r' || c == '\t' {
            push_char(&mut out, c);
        }
        proof {
            assert(out@ =~= sanitized(s@.take(i as int + 1)));
        }
        i += 1;
    }
    proof {
        assert(s@.take(n as int) =~= s@);
    }
    out
}

/// What stripping control codes keeps of one character: line breaks and
/// tabs stay, other control codes are dropped, everything else passes
/// through unchanged.
pub open spec fn strip_char(c: char) -> Seq<char> {
    if char_is_control(c) && c != '\n' && c != '\r' && c != '\t' {
        Seq::empty()
    } else {
        seq![c]
    }
}

/// `s` with control codes other than line breaks and tabs removed.
pub open spec fn control_stripped(s: Seq<char>) -> Seq<char>
    decreases s.len(),
{
    if s.len() == 0 {
        s
    } else {
        control_stripped(s.drop_last()) + strip_char(s.last())
    }
}

/// Removes control codes other than line breaks and tabs, leaving all other
/// text as it is: the sanitizer for fields that are stored rather than
/// embedded in markup.
pub fn strip_control_chars(s: &str) -> (r: String)
    ensures
        r@ == control_stripped(s@),
{
    let n = s.unicode_len();
    let mut out = String::new();
    let mut i: usize = 0;
    proof {
        assert(s@.take(0) =~= Seq::<char>::empty());
    }
    while i < n
        invariant
            0 <= i <= n,
            n == s@.len(),
            out@ == control_stripped(s@.take(i as int)),
        decreases n - i,
    {
        let c = s.get_char(i);
        proof {
            assert(s@.take(i as int + 1).drop_last() =~= s@.take(i as int));
            assert(s@.take(i as int + 1).last() == s@[i as int]);
        }
        if !c.is_control() || c == '\n' || c == '\r' || c == '\t' {
            push_char(&mut out, c);
        }
        proof {
            assert(out@ =~= control_stripped(s@.take(i as int + 1)));
        }
        i += 1;
    }
    proof {
        assert(s@.take(n as int) =~= s@);
    }
    out
}

} // verus!
