//! Small executable string helpers, and the character classes of std that
//! the validation rules depend on.

use vstd::prelude::*;

use vstd::string::{StrSliceExecFns, StringExecFns};

verus! {

/// Whether std's `char::is_whitespace` holds for a character outside ASCII.
pub uninterp spec fn char_is_whitespace_nonascii(c: char) -> bool;

/// Whether std's `char::is_whitespace` holds: the Unicode `White_Space`
/// property. On ASCII that property is exactly tab, line feed, vertical tab,
/// form feed, carriage return and space, written out here so that trimming
/// of concrete ASCII text is decided; outside ASCII the class is only named.
pub open spec fn char_is_whitespace(c: char) -> bool {
    if (c as int) < 128 {
        c == ' ' || c == '\t' || c == '\n' || c == '\u{b}' || c == '\u{c}' || c == '\r'
    } else {
        char_is_whitespace_nonascii(c)
    }
}

/// Relies on std's `char::is_whitespace`: the Unicode `White_Space`
/// property, a fixed class of the character alone, agreeing on ASCII with
/// the table written into `char_is_whitespace`.
pub assume_specification[ char::is_whitespace ](c: char) -> (r: bool)
    ensures
        r == char_is_whitespace(c),
        c as int >= 128 ==> r == char_is_whitespace_nonascii(c),
;

/// Whether std's `char::is_control` holds for a character outside ASCII.
pub uninterp spec fn char_is_control_nonascii(c: char) -> bool;

/// Whether std's `char::is_control` holds: the Unicode control-code class.
/// On ASCII that class is exactly the code points below 32 together with
/// delete (127); outside ASCII the class is only named.
pub open spec fn char_is_control(c: char) -> bool {
    if (c as int) < 128 {
        (c as int) < 32 || c as int == 127
    } else {
        char_is_control_nonascii(c)
    }
}

/// Relies on std's `char::is_control`: the Unicode control-code class, a
/// fixed class of the character alone, agreeing on ASCII with the table
/// written into `char_is_control`.
pub assume_specification[ char::is_control ](c: char) -> (r: bool)
    ensures
        r == char_is_control(c),
        c as int >= 128 ==> r == char_is_control_nonascii(c),
;

/// Whether std's `char::is_uppercase` holds for a character outside ASCII.
pub uninterp spec fn char_is_uppercase_nonascii(c: char) -> bool;

/// Whether std's `char::is_uppercase` holds: the Unicode `Uppercase`
/// property. On ASCII that property is exactly the letters `A` through `Z`;
/// outside ASCII the class is only named.
pub open spec fn char_is_uppercase(c: char) -> bool {
    if (c as int) < 128 {
        65 <= c as int <= 90
    } else {
        char_is_uppercase_nonascii(c)
    }
}

/// Relies on std's `char::is_uppercase`: the Unicode `Uppercase` property, a
/// fixed class of the character alone, agreeing on ASCII with the range
/// written into `char_is_uppercase`.
pub assume_specification[ char::is_uppercase ](c: char) -> (r: bool)
    ensures
        r == char_is_uppercase(c),
        c as int >= 128 ==> r == char_is_uppercase_nonascii(c),
;

/// Whether std's `char::is_lowercase` holds for a character outside ASCII.
pub uninterp spec fn char_is_lowercase_nonascii(c: char) -> bool;

/// Whether std's `char::is_lowercase` holds: the Unicode `Lowercase`
/// property. On ASCII that property is exactly the letters `a` through `z`;
/// outside ASCII the class is only named.
pub open spec fn char_is_lowercase(c: char) -> bool {
    if (c as int) < 128 {
        97 <= c as int <= 122
    } else {
        char_is_lowercase_nonascii(c)
    }
}

/// Relies on std's `char::is_lowercase`: the Unicode `Lowercase` property, a
/// fixed class of the character alone, agreeing on ASCII with the range
/// written into `char_is_lowercase`.
pub assume_specification[ char::is_lowercase ](c: char) -> (r: bool)
    ensures
        r == char_is_lowercase(c),
        c as int >= 128 ==> r == char_is_lowercase_nonascii(c),
;

/// Whether std's `char::is_numeric` holds for a character outside ASCII.
pub uninterp spec fn char_is_numeric_nonascii(c: char) -> bool;

/// Whether std's `char::is_numeric` holds: the Unicode numeric categories.
/// On ASCII those are exactly the digits `0` through `9`; outside ASCII the
/// class is only named.
pub open spec fn char_is_numeric(c: char) -> bool {
    if (c as int) < 128 {
        48 <= c as int <= 57
    } else {
        char_is_numeric_nonascii(c)
    }
}

/// Relies on std's `char::is_numeric`: the Unicode numeric categories, a
/// fixed class of the character alone, agreeing on ASCII with the range
/// written into `char_is_numeric`.
pub assume_specification[ char::is_numeric ](c: char) -> (r: bool)
    ensures
        r == char_is_numeric(c),
        c as int >= 128 ==> r == char_is_numeric_nonascii(c),
;

/// Whether std's `char::is_alphanumeric` holds for a character outside
/// ASCII.
pub uninterp spec fn char_is_alphanumeric_nonascii(c: char) -> bool;

/// Whether std's `char::is_alphanumeric` holds: the Unicode alphabetic and
/// numeric classes together. On ASCII those are exactly the letters and the
/// digits; outside ASCII the class is only named.
pub open spec fn char_is_alphanumeric(c: char) -> bool {
    if (c as int) < 128 {
        48 <= c as int <= 57 || 65 <= c as int <= 90 || 97 <= c as int <= 122
    } else {
        char_is_alphanumeric_nonascii(c)
    }
}

/// Relies on std's `char::is_alphanumeric`: the Unicode alphabetic and
/// numeric classes, a fixed class of the character alone, agreeing on ASCII
/// with the ranges written into `char_is_alphanumeric`.
pub assume_specification[ char::is_alphanumeric ](c: char) -> (r: bool)
    ensures
        r == char_is_alphanumeric(c),
        c as int >= 128 ==> r == char_is_alphanumeric_nonascii(c),
;

/// The lowercase form `str::to_lowercase` gives a string: a function of its
/// characters alone.
pub uninterp spec fn lower_of(s: Seq<char>) -> Seq<char>;

/// Relies on std's `str::to_lowercase`: the Unicode lowercase mapping of the
/// string, a function of its characters alone. On ASCII text the mapping is
/// exactly the ASCII one — each letter `A` through `Z` moved down by 32,
/// every other character kept — stated here over code points.
#[verifier::external_body]
pub(crate) fn to_lowercase(s: &str) -> (r: String)
    ensures
        r@ == lower_of(s@),
        (forall|i: int| 0 <= i < s@.len() ==> (#[trigger] s@[i] as int) < 128) ==> {
            &&& r@.len() == s@.len()
            &&& forall|i: int| 0 <= i < s@.len() ==> (#[trigger] r@[i] as int) == ascii_lower(s@[i])
        },
{
    s.to_lowercase()
}

/// Relies on std's `String::push`: appends exactly the one character.
#[verifier::external_body]
pub(crate) fn push_char(s: &mut String, c: char)
    ensures
        final(s)@ == old(s)@.push(c),
{
    s.push(c);
}

/// Whether two strings hold the same characters.
pub fn str_eq(a: &str, b: &str) -> (r: bool)
    ensures
        r == (a@ == b@),
{
    let sa = a.to_owned();
    let sb = b.to_owned();
    sa == sb
}

/// Whether `s` contains the character `c`.
pub fn contains_char(s: &str, c: char) -> (r: bool)
    ensures
        r == s@.contains(c),
{
    let n = s.unicode_len();
    let mut i: usize = 0;
    while i < n
        invariant
            0 <= i <= n,
            n == s@.len(),
            forall|j: int| 0 <= j < i ==> s@[j] != c,
        decreases n - i,
    {
        if s.get_char(i) == c {
            return true;
        }
        i += 1;
    }
    false
}

/// The index of the first occurrence of `c` in `s`, if any.
pub fn find_char(s: &str, c: char) -> (r: Option<usize>)
    ensures
        match r {
            Some(i) => i < s@.len() && s@[i as int] == c && forall|j: int| 0 <= j < i ==> s@[j] != c,
            None => !s@.contains(c),
        },
{
    let n = s.unicode_len();
    let mut i: usize = 0;
    while i < n
        invariant
            0 <= i <= n,
            n == s@.len(),
            forall|j: int| 0 <= j < i ==> s@[j] != c,
        decreases n - i,
    {
        if s.get_char(i) == c {
            return Some(i);
        }
        i += 1;
    }
    None
}

/// Whether `s` starts with the prefix `p`.
pub fn str_starts_with(s: &str, p: &str) -> (r: bool)
    ensures
        r == (s@.len() >= p@.len() && s@.subrange(0, p@.len() as int) == p@),
{
    let n = s.unicode_len();
    let m = p.unicode_len();
    if n < m {
        return false;
    }
    let mut i: usize = 0;
    while i < m
        invariant
            0 <= i <= m,
            m <= n,
            n == s@.len(),
            m == p@.len(),
            forall|j: int| 0 <= j < i ==> s@[j] == p@[j],
        decreases m - i,
    {
        if s.get_char(i) != p.get_char(i) {
            proof {
                assert(s@.subrange(0, p@.len() as int)[i as int] != p@[i as int]);
            }
            return false;
        }
        i += 1;
    }
    proof {
        assert(s@.subrange(0, p@.len() as int) =~= p@);
    }
    true
}

/// `s` without leading white space.
pub open spec fn spec_trim_start(s: Seq<char>) -> Seq<char>
    decreases s.len(),
{
    if s.len() == 0 {
        s
    } else if char_is_whitespace(s[0]) {
        spec_trim_start(s.drop_first())
    } else {
        s
    }
}

/// `s` without trailing white space.
pub open spec fn spec_trim_end(s: Seq<char>) -> Seq<char>
    decreases s.len(),
{
    if s.len() == 0 {
        s
    } else if char_is_whitespace(s.last()) {
        spec_trim_end(s.drop_last())
    } else {
        s
    }
}

/// `s` without leading and trailing white space, as std's `str::trim` cuts
/// it.
pub open spec fn spec_trim(s: Seq<char>) -> Seq<char> {
    spec_trim_end(spec_trim_start(s))
}

fn trim_start(s: &str) -> (r: &str)
    ensures
        r@ == spec_trim_start(s@),
    decreases s@.len(),
{
    let n = s.unicode_len();
    if n == 0 {
        return s;
    }
    let c = s.get_char(0);
    if c.is_whitespace() {
        let rest = s.substring_char(1, n);
        proof {
            assert(rest@ =~= s@.drop_first());
        }
        trim_start(rest)
    } else {
        s
    }
}

fn trim_end(s: &str) -> (r: &str)
    ensures
        r@ == spec_trim_end(s@),
    decreases s@.len(),
{
    let n = s.unicode_len();
    if n == 0 {
        return s;
    }
    let c = s.get_char(n - 1);
    if c.is_whitespace() {
        let rest = s.substring_char(0, n - 1);
        proof {
            assert(rest@ =~= s@.drop_last());
        }
        trim_end(rest)
    } else {
        s
    }
}

/// `s` without leading and trailing white space.
pub fn trim(s: &str) -> (r: &str)
    ensures
        r@ == spec_trim(s@),
{
    trim_end(trim_start(s))
}

/// The decimal rendering of `v`, without padding.
pub open spec fn dec_str(v: nat) -> Seq<char>
    decreases v,
{
    if v < 10 {
        seq![crate::keys::digit_char(v)]
    } else {
        dec_str(v / 10).push(crate::keys::digit_char(v % 10))
    }
}

/// Renders `v` in decimal.
pub fn u64_to_string(v: u64) -> (r: String)
    ensures
        r@ == dec_str(v as nat),
    decreases v,
{
    if v < 10 {
        let mut s = String::new();
        push_char(&mut s, digit_char_exec(v));
        proof {
            assert(s@ =~= dec_str(v as nat));
        }
        s
    } else {
        proof {
            assert(v / 10 < v) by (nonlinear_arith)
                requires
                    v >= 10,
            ;
        }
        let mut s = u64_to_string(v / 10);
        push_char(&mut s, digit_char_exec(v % 10));
        proof {
            assert((v % 10) as nat == (v as nat) % 10 && (v / 10) as nat == (v as nat) / 10);
            assert(s@ =~= dec_str(v as nat));
        }
        s
    }
}

/// The character of one decimal digit.
fn digit_char_exec(d: u64) -> (r: char)
    requires
        d < 10,
    ensures
        r == crate::keys::digit_char(d as nat),
{
    if d == 0 {
        '0'
    } else if d == 1 {
        '1'
    } else if d == 2 {
        '2'
    } else if d == 3 {
        '3'
    } else if d == 4 {
        '4'
    } else if d == 5 {
        '5'
    } else if d == 6 {
        '6'
    } else if d == 7 {
        '7'
    } else if d == 8 {
        '8'
    } else {
        '9'
    }
}

/// Lowercasing of one character within ASCII, everything else unchanged.
pub open spec fn ascii_lower(c: char) -> int {
    if 65 <= c as int <= 90 {
        c as int + 32
    } else {
        c as int
    }
}

/// Whether two strings are equal up to ASCII case.
pub open spec fn spec_eq_ignore_ascii_case(a: Seq<char>, b: Seq<char>) -> bool {
    a.len() == b.len() && forall|i: int| 0 <= i < a.len() ==> ascii_lower(a[i]) == ascii_lower(b[i])
}

/// Whether two strings are equal up to ASCII case.
pub fn eq_ignore_ascii_case(a: &str, b: &str) -> (r: bool)
    ensures
        r == spec_eq_ignore_ascii_case(a@, b@),
{
    let n = a.unicode_len();
    let m = b.unicode_len();
    if n != m {
        return false;
    }
    let mut i: usize = 0;
    while i < n
        invariant
            0 <= i <= n,
            n == a@.len(),
            n == b@.len(),
            forall|j: int| 0 <= j < i ==> ascii_lower(a@[j]) == ascii_lower(b@[j]),
        decreases n - i,
    {
        let ca = a.get_char(i) as u32;
        let cb = b.get_char(i) as u32;
        let la = if 65 <= ca && ca <= 90 {
            ca + 32
        } else {
            ca
        };
        let lb = if 65 <= cb && cb <= 90 {
            cb + 32
        } else {
            cb
        };
        if la != lb {
            return false;
        }
        i += 1;
    }
    true
}

} // verus!
