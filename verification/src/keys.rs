//! Composite record keys.
//!
//! A record of stream `s` at version `v` is stored under the string key
//! `s + "/" + p` where `p` is the decimal rendering of `v`, zero-padded to a
//! fixed width of 20 digits (wide enough for every `u64`). The separator `/`
//! sorts before every digit, so within one stream the lexicographic order of
//! keys equals the numeric order of versions, and all keys of stream `s` fall
//! in the half-open key interval `[s + "/", s + "0")` (the code points of
//! `/` and `0` are consecutive).

use vstd::prelude::*;

use vstd::string::{StrSliceExecFns, StringExecFns};

use crate::order::{lex_le, lex_lt, lemma_lex_extends, lemma_lex_prefix};

verus! {

/// Width of the zero-padded version rendering.
pub const VERSION_DIGITS: usize = 20;

/// The character for a single decimal digit.
pub open spec fn digit_char(d: nat) -> char {
    if d == 0 {
        '0'
    } else if d == 1 {
        '1'
    } else if d == 2 {
        '2'
    } else if d == 3 {
        '3'
    } else if d == 4 {
        '4'
    } else if d == 5 {
        '5'
    } else if d == 6 {
        '6'
    } else if d == 7 {
        '7'
    } else if d == 8 {
        '8'
    } else {
        '9'
    }
}

/// The decimal rendering of `v`, zero-padded to exactly `w` digits
/// (truncating high digits if `v` does not fit, which the width rules out).
pub open spec fn dec_digits(v: nat, w: nat) -> Seq<char>
    decreases w,
{
    if w == 0 {
        Seq::empty()
    } else {
        dec_digits(v / 10, (w - 1) as nat).push(digit_char(v % 10))
    }
}

/// The key under which stream `sid` stores its record of version `v`.
pub open spec fn key_of(sid: Seq<char>, v: u64) -> Seq<char> {
    sid + seq!['/'] + dec_digits(v as nat, VERSION_DIGITS as nat)
}

/// Inclusive lower bound of the key interval holding stream `sid`.
pub open spec fn range_start(sid: Seq<char>) -> Seq<char> {
    sid + seq!['/']
}

/// Exclusive upper bound of the key interval holding stream `sid`.
pub open spec fn range_end(sid: Seq<char>) -> Seq<char> {
    sid + seq!['0']
}

/// Whether key `k` falls in the key interval of stream `sid`.
pub open spec fn in_stream_range(k: Seq<char>, sid: Seq<char>) -> bool {
    lex_le(range_start(sid), k) && lex_lt(k, range_end(sid))
}

/// A stream identifier that keeps key intervals of distinct streams disjoint:
/// non-empty and free of the separator character.
pub open spec fn valid_stream_id(sid: Seq<char>) -> bool {
    sid.len() > 0 && !sid.contains('/')
}

/// Whether `c` is a decimal digit.
pub open spec fn is_digit(c: char) -> bool {
    48 <= c as int <= 57
}

/// The numeric value of a digit character.
pub open spec fn digit_val(c: char) -> nat {
    (c as int - 48) as nat
}

/// Whether every character of `s` is a decimal digit.
pub open spec fn is_digit_seq(s: Seq<char>) -> bool {
    forall|i: int| 0 <= i < s.len() ==> is_digit(#[trigger] s[i])
}

/// The numeric value of a digit sequence, most significant digit first.
pub open spec fn digits_value(s: Seq<char>) -> nat
    decreases s.len(),
{
    if s.len() == 0 {
        0
    } else {
        digits_value(s.drop_last()) * 10 + digit_val(s.last())
    }
}

/// What parsing a string as a decimal `u64` yields, with 0 for anything that
/// is not a number or does not fit — the value the store assigns to a key
/// whose version part is malformed.
pub open spec fn parse_decimal(s: Seq<char>) -> u64 {
    if s.len() > 0 && is_digit_seq(s) && digits_value(s) <= u64::MAX {
        digits_value(s) as u64
    } else {
        0
    }
}

/// The position just after the last `/` in `k`, or 0 if there is none.
pub open spec fn after_last_slash(k: Seq<char>) -> int
    decreases k.len(),
{
    if k.len() == 0 {
        0
    } else if k.last() == '/' {
        k.len() as int
    } else {
        after_last_slash(k.drop_last())
    }
}

/// The version the store reads off a key: the decimal value of everything
/// after the last `/` (of the whole key if it has no `/`).
pub open spec fn version_of_key(k: Seq<char>) -> u64 {
    parse_decimal(k.subrange(after_last_slash(k), k.len() as int))
}

/// 10 to the power `w`.
pub open spec fn pow10(w: nat) -> nat
    decreases w,
{
    if w == 0 {
        1
    } else {
        10 * pow10((w - 1) as nat)
    }
}

/// The padded rendering has exactly the requested width.
pub proof fn lemma_dec_digits_len(v: nat, w: nat)
    ensures
        dec_digits(v, w).len() == w,
    decreases w,
{
    if w > 0 {
        lemma_dec_digits_len(v / 10, (w - 1) as nat);
    }
}

/// The padded rendering consists of digits only.
pub proof fn lemma_dec_digits_digits(v: nat, w: nat)
    ensures
        is_digit_seq(dec_digits(v, w)),
    decreases w,
{
    if w > 0 {
        lemma_dec_digits_digits(v / 10, (w - 1) as nat);
        let prefix = dec_digits(v / 10, (w - 1) as nat);
        let s = dec_digits(v, w);
        assert(s == prefix.push(digit_char(v % 10)));
        assert(is_digit(digit_char(v % 10)));
        assert forall|i: int| 0 <= i < s.len() implies is_digit(#[trigger] s[i]) by {
            if i < prefix.len() {
                assert(s[i] == prefix[i]);
            }
        }
    }
}

/// Every `u64` fits in 20 digits.
pub proof fn lemma_u64_fits()
    ensures
        u64::MAX < pow10(VERSION_DIGITS as nat),
{
    reveal_with_fuel(pow10, 21);
    assert(pow10(20) == 0x56bc75e2d63100000);
}

/// Parsing the padded rendering of `v` gives back `v`.
pub proof fn lemma_digits_value_roundtrip(v: nat, w: nat)
    requires
        v < pow10(w),
    ensures
        digits_value(dec_digits(v, w)) == v,
    decreases w,
{
    if w == 0 {
        assert(pow10(0) == 1);
    } else {
        let prefix = dec_digits(v / 10, (w - 1) as nat);
        let s = dec_digits(v, w);
        lemma_dec_digits_len(v / 10, (w - 1) as nat);
        assert(s == prefix.push(digit_char(v % 10)));
        assert(s.drop_last() =~= prefix);
        assert(s.last() == digit_char(v % 10));
        assert(v % 10 < 10) by (nonlinear_arith);
        assert(digit_val(digit_char(v % 10)) == v % 10);
        assert(v / 10 < pow10((w - 1) as nat)) by {
            assert(v < 10 * pow10((w - 1) as nat));
            assert(v / 10 < pow10((w - 1) as nat)) by (nonlinear_arith)
                requires
                    v < 10 * pow10((w - 1) as nat),
            ;
        }
        lemma_digits_value_roundtrip(v / 10, (w - 1) as nat);
        assert(digits_value(s) == (v / 10) * 10 + v % 10);
        assert((v / 10) * 10 + v % 10 == v) by (nonlinear_arith);
    }
}

/// Equal-width renderings are ordered as their values.
pub proof fn lemma_dec_digits_order(v1: nat, v2: nat, w: nat)
    requires
        v1 < v2,
        v2 < pow10(w),
    ensures
        lex_lt(dec_digits(v1, w), dec_digits(v2, w)),
    decreases w,
{
    if w == 0 {
        assert(pow10(0) == 1);
    } else {
        let a = dec_digits(v1 / 10, (w - 1) as nat);
        let b = dec_digits(v2 / 10, (w - 1) as nat);
        let x = digit_char(v1 % 10);
        let y = digit_char(v2 % 10);
        lemma_dec_digits_len(v1 / 10, (w - 1) as nat);
        lemma_dec_digits_len(v2 / 10, (w - 1) as nat);
        assert(v1 / 10 <= v2 / 10 && v1 % 10 < 10 && v2 % 10 < 10) by (nonlinear_arith)
            requires
                v1 < v2,
        ;
        assert(v2 / 10 < pow10((w - 1) as nat)) by (nonlinear_arith)
            requires
                v2 < 10 * pow10((w - 1) as nat),
        ;
        if v1 / 10 == v2 / 10 {
            assert(v1 % 10 < v2 % 10) by (nonlinear_arith)
                requires
                    v1 < v2,
                    v1 / 10 == v2 / 10,
            ;
            assert((x as int) < (y as int));
            assert(a.push(x) =~= a + seq![x]);
            assert(b.push(y) =~= a + seq![y]);
            lemma_lex_prefix(a, seq![x], seq![y]);
            assert(lex_lt(seq![x], seq![y]));
        } else {
            lemma_dec_digits_order(v1 / 10, v2 / 10, (w - 1) as nat);
            lemma_lex_push_pairs(a, b, x, y);
        }
    }
}

/// Pushing one element on each of two equal-length ordered sequences
/// preserves the order.
proof fn lemma_lex_push_pairs(a: Seq<char>, b: Seq<char>, x: char, y: char)
    requires
        a.len() == b.len(),
        lex_lt(a, b),
    ensures
        lex_lt(a.push(x), b.push(y)),
    decreases a.len(),
{
    if a.len() == 0 {
        assert(false);
    } else {
        let pa = a.push(x);
        let pb = b.push(y);
        assert(pa[0] == a[0] && pb[0] == b[0]);
        if a[0] == b[0] {
            assert(pa.drop_first() =~= a.drop_first().push(x));
            assert(pb.drop_first() =~= b.drop_first().push(y));
            lemma_lex_push_pairs(a.drop_first(), b.drop_first(), x, y);
        }
    }
}

/// Keys of one stream are ordered as their versions.
pub proof fn lemma_key_order(sid: Seq<char>, v1: u64, v2: u64)
    requires
        v1 < v2,
    ensures
        lex_lt(key_of(sid, v1), key_of(sid, v2)),
{
    let p = sid + seq!['/'];
    let d1 = dec_digits(v1 as nat, VERSION_DIGITS as nat);
    let d2 = dec_digits(v2 as nat, VERSION_DIGITS as nat);
    lemma_u64_fits();
    lemma_dec_digits_order(v1 as nat, v2 as nat, VERSION_DIGITS as nat);
    lemma_lex_prefix(p, d1, d2);
    assert(key_of(sid, v1) =~= p + d1);
    assert(key_of(sid, v2) =~= p + d2);
}

/// Every key of a stream lies in that stream's key interval.
pub proof fn lemma_key_in_range(sid: Seq<char>, v: u64)
    ensures
        in_stream_range(key_of(sid, v), sid),
{
    let d = dec_digits(v as nat, VERSION_DIGITS as nat);
    lemma_dec_digits_len(v as nat, VERSION_DIGITS as nat);
    assert(key_of(sid, v) =~= range_start(sid) + d);
    lemma_lex_extends(range_start(sid), d);
    assert(range_end(sid) =~= sid + seq!['0']);
    assert(key_of(sid, v) =~= sid + (seq!['/'] + d));
    lemma_lex_prefix(sid, seq!['/'] + d, seq!['0']);
    assert((seq!['/'] + d)[0] == '/');
    assert(lex_lt(seq!['/'] + d, seq!['0']));
}

/// Appending digits does not move the last `/` of a key.
proof fn lemma_after_last_slash_append(s: Seq<char>, t: Seq<char>)
    requires
        is_digit_seq(t),
    ensures
        after_last_slash(s + t) == after_last_slash(s),
    decreases t.len(),
{
    if t.len() == 0 {
        assert(s + t =~= s);
    } else {
        assert((s + t).last() == t.last());
        assert(is_digit(t.last()));
        assert((s + t).last() != '/');
        assert((s + t).drop_last() =~= s + t.drop_last());
        assert(is_digit_seq(t.drop_last())) by {
            assert(forall|i: int|
                0 <= i < t.drop_last().len() ==> #[trigger] t.drop_last()[i] == t[i]);
        }
        lemma_after_last_slash_append(s, t.drop_last());
    }
}

/// Parsing the version back out of a well-formed key gives the version the
/// key was built from, provided the stream identifier itself is free of `/`.
pub proof fn lemma_version_of_key(sid: Seq<char>, v: u64)
    requires
        !sid.contains('/'),
    ensures
        version_of_key(key_of(sid, v)) == v,
{
    let d = dec_digits(v as nat, VERSION_DIGITS as nat);
    let k = key_of(sid, v);
    lemma_dec_digits_len(v as nat, VERSION_DIGITS as nat);
    lemma_dec_digits_digits(v as nat, VERSION_DIGITS as nat);
    lemma_after_last_slash_append(sid + seq!['/'], d);
    assert(k =~= (sid + seq!['/']) + d);
    assert((sid + seq!['/']).last() == '/');
    assert(after_last_slash(sid + seq!['/']) == sid.len() + 1);
    assert(after_last_slash(k) == sid.len() + 1);
    assert(k.subrange(sid.len() + 1 as int, k.len() as int) =~= d);
    lemma_u64_fits();
    lemma_digits_value_roundtrip(v as nat, VERSION_DIGITS as nat);
    assert(parse_decimal(d) == v);
}

/// Keys built from distinct versions are distinct, for any identifier.
pub proof fn lemma_key_injective(sid: Seq<char>, v1: u64, v2: u64)
    requires
        key_of(sid, v1) == key_of(sid, v2),
    ensures
        v1 == v2,
{
    if v1 < v2 {
        lemma_key_order(sid, v1, v2);
        crate::order::lemma_lex_irrefl(key_of(sid, v1));
    } else if v2 < v1 {
        lemma_key_order(sid, v2, v1);
        crate::order::lemma_lex_irrefl(key_of(sid, v1));
    }
}

/// The string of one decimal digit.
fn digit_str(d: u64) -> (r: &'static str)
    requires
        d < 10,
    ensures
        r@ == seq![digit_char(d as nat)],
{
    proof {
        reveal_strlit("0");
        reveal_strlit("1");
        reveal_strlit("2");
        reveal_strlit("3");
        reveal_strlit("4");
        reveal_strlit("5");
        reveal_strlit("6");
        reveal_strlit("7");
        reveal_strlit("8");
        reveal_strlit("9");
    }
    let r = if d == 0 {
        "0"
    } else if d == 1 {
        "1"
    } else if d == 2 {
        "2"
    } else if d == 3 {
        "3"
    } else if d == 4 {
        "4"
    } else if d == 5 {
        "5"
    } else if d == 6 {
        "6"
    } else if d == 7 {
        "7"
    } else if d == 8 {
        "8"
    } else {
        "9"
    };
    proof {
        assert(r@ =~= seq![digit_char(d as nat)]);
    }
    r
}

/// The decimal rendering of `v`, zero-padded to `w` digits.
fn pad_version(v: u64, w: usize) -> (r: String)
    ensures
        r@ == dec_digits(v as nat, w as nat),
    decreases w,
{
    if w == 0 {
        let r = String::new();
        proof {
            assert(r@ =~= dec_digits(v as nat, 0));
        }
        r
    } else {
        let mut s = pad_version(v / 10, w - 1);
        s.append(digit_str(v % 10));
        proof {
            assert((v % 10) as nat == (v as nat) % 10 && (v / 10) as nat == (v as nat) / 10);
            assert(s@ =~= dec_digits(v as nat, w as nat));
        }
        s
    }
}

/// The composite key of stream `stream_id` at `version`.
pub fn make_key(stream_id: &str, version: u64) -> (r: String)
    ensures
        r@ == key_of(stream_id@, version),
{
    proof {
        reveal_strlit("/");
    }
    let mut s = stream_id.to_owned();
    s.append("/");
    let pad = pad_version(version, VERSION_DIGITS);
    s.append(pad.as_str());
    proof {
        assert(s@ =~= key_of(stream_id@, version));
    }
    s
}

/// The inclusive lower bound of `stream_id`'s key interval.
pub fn make_range_start(stream_id: &str) -> (r: String)
    ensures
        r@ == range_start(stream_id@),
{
    proof {
        reveal_strlit("/");
    }
    let mut s = stream_id.to_owned();
    s.append("/");
    proof {
        assert(s@ =~= range_start(stream_id@));
    }
    s
}

/// The exclusive upper bound of `stream_id`'s key interval.
pub fn make_range_end(stream_id: &str) -> (r: String)
    ensures
        r@ == range_end(stream_id@),
{
    proof {
        reveal_strlit("0");
    }
    let mut s = stream_id.to_owned();
    s.append("0");
    proof {
        assert(s@ =~= range_end(stream_id@));
    }
    s
}

/// Parses a decimal `u64`, yielding 0 for anything malformed or too large.
fn parse_decimal_exec(d: &str) -> (r: u64)
    ensures
        r == parse_decimal(d@),
{
    let n = d.unicode_len();
    if n == 0 {
        return 0;
    }
    let mut acc: u64 = 0;
    let mut over: bool = false;
    let mut i: usize = 0;
    while i < n
        invariant
            0 <= i <= n,
            n == d@.len(),
            is_digit_seq(d@.take(i as int)),
            !over ==> acc == digits_value(d@.take(i as int)),
            over ==> digits_value(d@.take(i as int)) > u64::MAX,
        decreases n - i,
    {
        let c = d.get_char(i);
        let cv = c as u32;
        if cv < 48 || cv > 57 {
            proof {
                assert(!is_digit(d@[i as int]));
                assert(!is_digit_seq(d@));
            }
            return 0;
        }
        let dv = ((cv - 48) as u64);
        proof {
            assert(d@.take(i as int + 1).drop_last() =~= d@.take(i as int));
            assert(d@.take(i as int + 1).last() == d@[i as int]);
            assert(is_digit(d@[i as int]));
            assert(digit_val(d@[i as int]) == dv);
            assert(digits_value(d@.take(i as int + 1)) == digits_value(d@.take(i as int)) * 10
                + dv);
        }
        if over || acc > (u64::MAX - dv) / 10 {
            proof {
                let prev = digits_value(d@.take(i as int));
                if !over {
                    assert(prev * 10 + dv > u64::MAX) by (nonlinear_arith)
                        requires
                            prev > (u64::MAX - dv) / 10,
                            dv <= 9,
                            prev <= u64::MAX,
                    ;
                } else {
                    assert(prev * 10 + dv > u64::MAX) by (nonlinear_arith)
                        requires
                            prev > u64::MAX,
                    ;
                }
            }
            over = true;
        } else {
            proof {
                let prev = digits_value(d@.take(i as int));
                assert(prev * 10 + dv <= u64::MAX) by (nonlinear_arith)
                    requires
                        prev <= (u64::MAX - dv) / 10,
                        dv <= 9,
                ;
            }
            acc = acc * 10 + dv;
        }
        i += 1;
    }
    proof {
        assert(d@.take(n as int) =~= d@);
    }
    if over {
        0
    } else {
        acc
    }
}

/// The position just after the last `/` of `k`, or 0 if it has none.
fn last_slash_end(k: &str) -> (j: usize)
    ensures
        j == after_last_slash(k@),
        j <= k@.len(),
{
    let n = k.unicode_len();
    let mut j: usize = n;
    proof {
        assert(k@.take(n as int) =~= k@);
    }
    while j > 0
        invariant
            0 <= j <= n,
            n == k@.len(),
            after_last_slash(k@) == after_last_slash(k@.take(j as int)),
        decreases j,
    {
        let c = k.get_char(j - 1);
        if c == '/' {
            proof {
                assert(k@.take(j as int).last() == '/');
                assert(after_last_slash(k@.take(j as int)) == j);
            }
            return j;
        }
        proof {
            assert(k@.take(j as int).last() != '/');
            assert(k@.take(j as int).drop_last() =~= k@.take(j as int - 1));
        }
        j -= 1;
    }
    proof {
        assert(k@.take(0) =~= Seq::<char>::empty());
        assert(after_last_slash(k@) == 0);
    }
    0
}

/// The version the store reads off a key: the decimal value of everything
/// after the last `/`.
pub fn version_from_key(k: &str) -> (r: u64)
    ensures
        r == version_of_key(k@),
{
    let n = k.unicode_len();
    let j = last_slash_end(k);
    let d = k.substring_char(j, n);
    proof {
        assert(d@ =~= k@.subrange(after_last_slash(k@), k@.len() as int));
    }
    parse_decimal_exec(d)
}

} // verus!
