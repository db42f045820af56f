//! The mathematical model of the store.
//!
//! The backing table is modelled as a map from string keys to byte payloads.
//! These definitions say what a stream's tip is under that model, what a
//! well-formed stream looks like (versions 1..=t, each under its composite
//! key), and which facts the store's operations preserve: appends extend a
//! stream by exactly one version, reads list it in version order, and
//! distinct streams never disturb one another.

use vstd::prelude::*;

use crate::keys::{
    in_stream_range, key_of, lemma_key_in_range, lemma_key_injective, lemma_key_order,
    lemma_version_of_key, valid_stream_id, version_of_key,
};
use crate::order::{lex_le, lex_lt, lemma_lex_asym, lemma_lex_irrefl};

verus! {

/// The model of the backing table: every stored key, with its payload.
pub type StoreModel = Map<Seq<char>, Seq<u8>>;

/// Whether `k` is a stored key lying in stream `sid`'s key interval.
pub open spec fn is_stream_key(m: StoreModel, sid: Seq<char>, k: Seq<char>) -> bool {
    m.dom().contains(k) && in_stream_range(k, sid)
}

/// Whether `k` is the lexicographically last stored key of stream `sid`.
pub open spec fn is_last_stream_key(m: StoreModel, sid: Seq<char>, k: Seq<char>) -> bool {
    is_stream_key(m, sid, k) && forall|k2: Seq<char>|
        #[trigger] is_stream_key(m, sid, k2) ==> lex_le(k2, k)
}

/// The tip of stream `sid`: the version read off its last stored key, and 0
/// for a stream with no keys at all.
pub open spec fn stream_tip(m: StoreModel, sid: Seq<char>) -> u64 {
    if exists|k: Seq<char>| is_last_stream_key(m, sid, k) {
        version_of_key(choose|k: Seq<char>| is_last_stream_key(m, sid, k))
    } else {
        0
    }
}

/// Whether `ks` lists exactly the stored keys of stream `sid`, in ascending
/// key order, and `h` their payloads.
pub open spec fn stream_listing(
    m: StoreModel,
    sid: Seq<char>,
    ks: Seq<Seq<char>>,
    h: Seq<Seq<u8>>,
) -> bool {
    &&& ks.len() == h.len()
    &&& forall|i: int|
        0 <= i < ks.len() ==> is_stream_key(m, sid, #[trigger] ks[i]) && h[i] == m[ks[i]]
    &&& forall|i: int, j: int| 0 <= i < j < ks.len() ==> lex_lt(#[trigger] ks[i], #[trigger] ks[j])
    &&& forall|k: Seq<char>| #[trigger] is_stream_key(m, sid, k) ==> ks.contains(k)
}

/// Whether `h` is the full history of stream `sid`: its payloads, in
/// ascending key order.
pub open spec fn is_stream_history(m: StoreModel, sid: Seq<char>, h: Seq<Seq<u8>>) -> bool {
    exists|ks: Seq<Seq<char>>| stream_listing(m, sid, ks, h)
}

/// Whether stream `sid` holds a record at version `v`.
pub open spec fn stream_has(m: StoreModel, sid: Seq<char>, v: u64) -> bool {
    m.dom().contains(key_of(sid, v))
}

/// A well-formed stream at tip `t`: its identifier is valid, and its stored
/// keys are exactly the composite keys of versions 1 through `t`.
pub open spec fn stream_complete_to(m: StoreModel, sid: Seq<char>, t: u64) -> bool {
    &&& valid_stream_id(sid)
    &&& forall|k: Seq<char>|
        #[trigger] is_stream_key(m, sid, k) ==> exists|v: u64|
            1 <= v <= t && k == key_of(sid, v)
    &&& forall|v: u64| 1 <= v <= t ==> #[trigger] stream_has(m, sid, v)
}

/// The history a well-formed stream is expected to produce: the payloads of
/// versions 1 through the tip, in version order.
pub open spec fn stream_seq(m: StoreModel, sid: Seq<char>) -> Seq<Seq<u8>> {
    Seq::new(stream_tip(m, sid) as nat, |i: int| m[key_of(sid, (i + 1) as u64)])
}

/// Two keys that are each last are the same key.
pub proof fn lemma_last_key_unique(m: StoreModel, sid: Seq<char>, k1: Seq<char>, k2: Seq<char>)
    requires
        is_last_stream_key(m, sid, k1),
        is_last_stream_key(m, sid, k2),
    ensures
        k1 == k2,
{
    assert(lex_le(k1, k2));
    assert(lex_le(k2, k1));
    if k1 != k2 {
        lemma_lex_asym(k1, k2);
    }
}

/// On a well-formed stream at tip `t`, the tip the store computes is `t`.
pub proof fn lemma_tip_of_complete(m: StoreModel, sid: Seq<char>, t: u64)
    requires
        stream_complete_to(m, sid, t),
    ensures
        stream_tip(m, sid) == t,
{
    if t == 0 {
        assert forall|k: Seq<char>| !is_last_stream_key(m, sid, k) by {
            if is_stream_key(m, sid, k) {
                let v = choose|v: u64| 1 <= v <= t && k == key_of(sid, v);
                assert(false);
            }
        }
        assert(!exists|k: Seq<char>| is_last_stream_key(m, sid, k));
    } else {
        let kt = key_of(sid, t);
        assert(stream_has(m, sid, t));
        lemma_key_in_range(sid, t);
        assert(is_stream_key(m, sid, kt));
        assert forall|k2: Seq<char>| #[trigger] is_stream_key(m, sid, k2) implies lex_le(
            k2,
            kt,
        ) by {
            let v = choose|v: u64| 1 <= v <= t && k2 == key_of(sid, v);
            if v < t {
                lemma_key_order(sid, v, t);
            }
        }
        assert(is_last_stream_key(m, sid, kt));
        let kc = choose|k: Seq<char>| is_last_stream_key(m, sid, k);
        lemma_last_key_unique(m, sid, kc, kt);
        lemma_version_of_key(sid, t);
    }
}

/// Inserting the next version's record extends a well-formed stream: the
/// stream is again well-formed, its tip moves from `t` to `t + 1`, and its
/// history is the old history with the new payload appended. This is the
/// one-step form of the monotonic-version guarantee: the record written by
/// the append that produced version `i` stays the `i`-th element of the
/// history, for any number of successful appends.
pub proof fn lemma_append_extends(m: StoreModel, sid: Seq<char>, t: u64, p: Seq<u8>)
    requires
        stream_complete_to(m, sid, t),
        t < u64::MAX,
    ensures
        stream_complete_to(m.insert(key_of(sid, (t + 1) as u64), p), sid, (t + 1) as u64),
        stream_tip(m, sid) == t,
        stream_tip(m.insert(key_of(sid, (t + 1) as u64), p), sid) == t + 1,
        stream_seq(m.insert(key_of(sid, (t + 1) as u64), p), sid) == stream_seq(m, sid).push(p),
{
    let nv = (t + 1) as u64;
    let nk = key_of(sid, nv);
    let m2 = m.insert(nk, p);
    lemma_tip_of_complete(m, sid, t);
    assert forall|k: Seq<char>| #[trigger] is_stream_key(m2, sid, k) implies exists|v: u64|
        1 <= v <= nv && k == key_of(sid, v) by {
        if k == nk {
            assert(1 <= nv <= nv && k == key_of(sid, nv));
        } else {
            assert(is_stream_key(m, sid, k));
            let v = choose|v: u64| 1 <= v <= t && k == key_of(sid, v);
            assert(1 <= v <= nv && k == key_of(sid, v));
        }
    }
    assert forall|v: u64| 1 <= v <= nv implies #[trigger] stream_has(m2, sid, v) by {
        if v <= t {
            assert(stream_has(m, sid, v));
        }
    }
    assert(stream_complete_to(m2, sid, nv));
    lemma_tip_of_complete(m2, sid, nv);
    assert(stream_seq(m2, sid) =~= stream_seq(m, sid).push(p)) by {
        assert(stream_seq(m2, sid).len() == nv as nat);
        assert(stream_seq(m, sid).len() == t as nat);
        assert forall|i: int| 0 <= i < nv as nat implies stream_seq(m2, sid)[i] == stream_seq(
            m,
            sid,
        ).push(p)[i] by {
            let vi = (i + 1) as u64;
            if i < t as nat {
                assert(key_of(sid, vi) != nk) by {
                    if key_of(sid, vi) == nk {
                        lemma_key_injective(sid, vi, nv);
                    }
                }
                assert(m2[key_of(sid, vi)] == m[key_of(sid, vi)]);
            } else {
                assert(vi == nv);
                assert(m2[nk] == p);
            }
        }
    }
}

/// Losing the race: after another append has moved the tip from `t` to
/// `t + 1`, a compare-and-append still expecting `t` no longer matches, so of
/// two appends that both expect `t`, exactly the first succeeds and the
/// second is refused with the conflict pair `(t, t + 1)`.
pub proof fn lemma_race_resolution(m: StoreModel, sid: Seq<char>, t: u64, p: Seq<u8>)
    requires
        stream_complete_to(m, sid, t),
        t < u64::MAX,
    ensures
        stream_tip(m, sid) == t,
        stream_tip(m.insert(key_of(sid, (t + 1) as u64), p), sid) == t + 1,
        stream_tip(m.insert(key_of(sid, (t + 1) as u64), p), sid) != t,
{
    lemma_append_extends(m, sid, t, p);
}

/// A stream with no stored keys has the empty history: reading an id that
/// was never written yields no elements, not an error.
pub proof fn lemma_empty_stream(m: StoreModel, sid: Seq<char>, h: Seq<Seq<u8>>)
    requires
        forall|k: Seq<char>| !is_stream_key(m, sid, k),
        is_stream_history(m, sid, h),
    ensures
        h == Seq::<Seq<u8>>::empty(),
{
    let ks = choose|ks: Seq<Seq<char>>| stream_listing(m, sid, ks, h);
    if ks.len() > 0 {
        assert(is_stream_key(m, sid, ks[0]));
    }
    assert(h.len() == 0);
    assert(h =~= Seq::<Seq<u8>>::empty());
}

/// Writes to one stream are invisible to every other: a key of stream
/// `sid1` lies outside stream `sid2`'s key interval, so inserting it moves
/// neither `sid2`'s tip nor its history — also when one identifier is a
/// textual prefix of the other.
pub proof fn lemma_cross_stream_isolation(
    m: StoreModel,
    sid1: Seq<char>,
    sid2: Seq<char>,
    v: u64,
    p: Seq<u8>,
)
    requires
        valid_stream_id(sid1),
        valid_stream_id(sid2),
        sid1 != sid2,
    ensures
        !in_stream_range(key_of(sid1, v), sid2),
        stream_tip(m.insert(key_of(sid1, v), p), sid2) == stream_tip(m, sid2),
        forall|h: Seq<Seq<u8>>|
            #[trigger] is_stream_history(m.insert(key_of(sid1, v), p), sid2, h)
                <==> is_stream_history(m, sid2, h),
        stream_seq(m.insert(key_of(sid1, v), p), sid2) == stream_seq(m, sid2),
{
    let nk = key_of(sid1, v);
    let m2 = m.insert(nk, p);
    lemma_range_disjoint(sid1, sid2, v);
    assert forall|k: Seq<char>| #[trigger] is_stream_key(m2, sid2, k) implies is_stream_key(
        m,
        sid2,
        k,
    ) && m[k] == m2[k] by {
        assert(k != nk);
    }
    assert forall|k: Seq<char>| #[trigger] is_stream_key(m, sid2, k) implies is_stream_key(
        m2,
        sid2,
        k,
    ) && m[k] == m2[k] by {
        assert(k != nk);
    }
    lemma_same_keys_same_tip(m, m2, sid2);
    assert forall|h: Seq<Seq<u8>>| #[trigger] is_stream_history(m2, sid2, h) implies is_stream_history(
        m,
        sid2,
        h,
    ) by {
        lemma_same_keys_same_history(m2, m, sid2, h);
    }
    assert forall|h: Seq<Seq<u8>>| #[trigger] is_stream_history(m, sid2, h) implies is_stream_history(
        m2,
        sid2,
        h,
    ) by {
        lemma_same_keys_same_history(m, m2, sid2, h);
    }
    assert(stream_seq(m2, sid2) =~= stream_seq(m, sid2)) by {
        assert forall|i: int| 0 <= i < stream_tip(m, sid2) as nat implies #[trigger] stream_seq(
            m2,
            sid2,
        )[i] == stream_seq(m, sid2)[i] by {
            lemma_key_in_range(sid2, (i + 1) as u64);
            assert(key_of(sid2, (i + 1) as u64) != nk);
            assert(m2[key_of(sid2, (i + 1) as u64)] == m[key_of(sid2, (i + 1) as u64)]);
        }
    }
}

/// On a well-formed stream at tip `t`, any history the store can return is
/// exactly the payloads of versions 1 through `t`, in version order: the
/// record appended at version `i` is the `i`-th element read back.
pub proof fn lemma_history_exact(m: StoreModel, sid: Seq<char>, t: u64, h: Seq<Seq<u8>>)
    requires
        stream_complete_to(m, sid, t),
        is_stream_history(m, sid, h),
    ensures
        h == stream_seq(m, sid),
        h.len() == t,
{
    let ks = choose|ks: Seq<Seq<char>>| stream_listing(m, sid, ks, h);
    let cs = Seq::new(t as nat, |i: int| key_of(sid, (i + 1) as u64));
    lemma_tip_of_complete(m, sid, t);
    assert forall|i: int, j: int| 0 <= i < j < cs.len() implies lex_lt(
        #[trigger] cs[i],
        #[trigger] cs[j],
    ) by {
        lemma_key_order(sid, (i + 1) as u64, (j + 1) as u64);
    }
    assert forall|k: Seq<char>| ks.contains(k) implies cs.contains(k) by {
        let i = choose|i: int| 0 <= i < ks.len() && ks[i] == k;
        assert(is_stream_key(m, sid, ks[i]));
        let v = choose|v: u64| 1 <= v <= t && k == key_of(sid, v);
        assert(cs[v - 1] == k);
    }
    assert forall|k: Seq<char>| cs.contains(k) implies ks.contains(k) by {
        let i = choose|i: int| 0 <= i < cs.len() && cs[i] == k;
        assert(stream_has(m, sid, (i + 1) as u64));
        lemma_key_in_range(sid, (i + 1) as u64);
        assert(is_stream_key(m, sid, k));
    }
    lemma_sorted_unique(ks, cs);
    assert(h.len() == t);
    assert forall|i: int| 0 <= i < h.len() implies h[i] == #[trigger] stream_seq(m, sid)[i] by {
        assert(ks[i] == cs[i]);
        assert(h[i] == m[ks[i]]);
    }
    assert(h =~= stream_seq(m, sid));
}

/// Two strictly ascending sequences with the same members are the same
/// sequence.
proof fn lemma_sorted_unique(a: Seq<Seq<char>>, b: Seq<Seq<char>>)
    requires
        forall|i: int, j: int| 0 <= i < j < a.len() ==> lex_lt(#[trigger] a[i], #[trigger] a[j]),
        forall|i: int, j: int| 0 <= i < j < b.len() ==> lex_lt(#[trigger] b[i], #[trigger] b[j]),
        forall|k: Seq<char>| #[trigger] a.contains(k) <==> b.contains(k),
    ensures
        a == b,
    decreases a.len(),
{
    if a.len() == 0 {
        if b.len() > 0 {
            assert(b.contains(b[0]));
            assert(a.contains(b[0]));
        }
        assert(a =~= b);
    } else if b.len() == 0 {
        assert(a.contains(a[0]));
        assert(b.contains(a[0]));
    } else {
        assert(a.contains(a[0]) && b.contains(b[0]));
        assert(a[0] == b[0]) by {
            if a[0] != b[0] {
                assert(b.contains(a[0]));
                let j = choose|j: int| 0 <= j < b.len() && b[j] == a[0];
                assert(j >= 1);
                assert(a.contains(b[0]));
                let i = choose|i: int| 0 <= i < a.len() && a[i] == b[0];
                assert(i >= 1);
                assert(lex_lt(a[0], a[i]));
                assert(lex_lt(b[0], b[j]));
                lemma_lex_asym(a[0], b[0]);
            }
        }
        let at = a.drop_first();
        let bt = b.drop_first();
        assert forall|k: Seq<char>| #[trigger] at.contains(k) implies bt.contains(k) by {
            lemma_tail_member(a, b, k);
        }
        assert forall|k: Seq<char>| #[trigger] bt.contains(k) implies at.contains(k) by {
            lemma_tail_member(b, a, k);
        }
        lemma_sorted_unique(at, bt);
        assert forall|i: int| 0 <= i < a.len() implies a[i] == b[i] by {
            if i > 0 {
                assert(at[i - 1] == bt[i - 1]);
            }
        }
        assert(a =~= b);
    }
}

/// A member of the tail of one of two head-equal strictly ascending
/// sequences with the same members is a member of the other's tail.
proof fn lemma_tail_member(a: Seq<Seq<char>>, b: Seq<Seq<char>>, k: Seq<char>)
    requires
        a.len() > 0,
        b.len() > 0,
        a[0] == b[0],
        forall|i: int, j: int| 0 <= i < j < a.len() ==> lex_lt(#[trigger] a[i], #[trigger] a[j]),
        forall|i: int, j: int| 0 <= i < j < b.len() ==> lex_lt(#[trigger] b[i], #[trigger] b[j]),
        forall|k2: Seq<char>| #[trigger] a.contains(k2) <==> b.contains(k2),
        a.drop_first().contains(k),
    ensures
        b.drop_first().contains(k),
{
    let i = choose|i: int| 0 <= i < a.drop_first().len() && a.drop_first()[i] == k;
    assert(a[i + 1] == k);
    assert(a.contains(k));
    assert(b.contains(k));
    let j = choose|j: int| 0 <= j < b.len() && b[j] == k;
    assert(lex_lt(a[0], a[i + 1]));
    if j == 0 {
        assert(k == a[0]);
        lemma_lex_irrefl(k);
    }
    assert(b.drop_first()[j - 1] == k);
    assert(b.drop_first().contains(k));
}

/// Two models with the same stream keys and payloads on a stream have the
/// same tip there.
proof fn lemma_same_keys_same_tip(m1: StoreModel, m2: StoreModel, sid: Seq<char>)
    requires
        forall|k: Seq<char>|
            #[trigger] is_stream_key(m1, sid, k) <==> is_stream_key(m2, sid, k),
    ensures
        stream_tip(m1, sid) == stream_tip(m2, sid),
{
    assert forall|k: Seq<char>| #[trigger] is_last_stream_key(m1, sid, k) implies is_last_stream_key(
        m2,
        sid,
        k,
    ) by {
        assert(is_stream_key(m2, sid, k));
        assert forall|k2: Seq<char>| #[trigger] is_stream_key(m2, sid, k2) implies lex_le(
            k2,
            k,
        ) by {
            assert(is_stream_key(m1, sid, k2));
        }
    }
    assert forall|k: Seq<char>| #[trigger] is_last_stream_key(m2, sid, k) implies is_last_stream_key(
        m1,
        sid,
        k,
    ) by {
        assert(is_stream_key(m1, sid, k));
        assert forall|k2: Seq<char>| #[trigger] is_stream_key(m1, sid, k2) implies lex_le(
            k2,
            k,
        ) by {
            assert(is_stream_key(m2, sid, k2));
        }
    }
    if exists|k: Seq<char>| is_last_stream_key(m1, sid, k) {
        let k1 = choose|k: Seq<char>| is_last_stream_key(m1, sid, k);
        let k2 = choose|k: Seq<char>| is_last_stream_key(m2, sid, k);
        assert(is_last_stream_key(m2, sid, k1));
        lemma_last_key_unique(m2, sid, k1, k2);
    } else {
        assert(!exists|k: Seq<char>| is_last_stream_key(m2, sid, k));
    }
}

/// A listing of a stream is also a listing under a model that agrees with it
/// on that stream.
proof fn lemma_same_keys_same_history(
    m1: StoreModel,
    m2: StoreModel,
    sid: Seq<char>,
    h: Seq<Seq<u8>>,
)
    requires
        forall|k: Seq<char>|
            #[trigger] is_stream_key(m1, sid, k) <==> is_stream_key(m2, sid, k),
        forall|k: Seq<char>| #[trigger] is_stream_key(m1, sid, k) ==> m1[k] == m2[k],
        is_stream_history(m1, sid, h),
    ensures
        is_stream_history(m2, sid, h),
{
    let ks = choose|ks: Seq<Seq<char>>| stream_listing(m1, sid, ks, h);
    assert forall|i: int| 0 <= i < ks.len() implies is_stream_key(m2, sid, #[trigger] ks[i])
        && h[i] == m2[ks[i]] by {
        assert(is_stream_key(m1, sid, ks[i]));
    }
    assert forall|k: Seq<char>| #[trigger] is_stream_key(m2, sid, k) implies ks.contains(k) by {
        assert(is_stream_key(m1, sid, k));
    }
    assert(stream_listing(m2, sid, ks, h));
}

/// Keys of one stream lie outside the key interval of every other stream,
/// for valid identifiers.
pub proof fn lemma_range_disjoint(sid1: Seq<char>, sid2: Seq<char>, v: u64)
    requires
        valid_stream_id(sid1),
        valid_stream_id(sid2),
        sid1 != sid2,
    ensures
        !in_stream_range(key_of(sid1, v), sid2),
{
    let k = key_of(sid1, v);
    if in_stream_range(k, sid2) {
        lemma_range_shape(sid2, k);
        crate::keys::lemma_dec_digits_len(v as nat, crate::keys::VERSION_DIGITS as nat);
        if sid2.len() < sid1.len() {
            assert(k[sid2.len() as int] == sid1[sid2.len() as int]);
            assert(sid1.contains('/'));
        } else if sid2.len() == sid1.len() {
            assert forall|i: int| 0 <= i < sid1.len() implies sid1[i] == sid2[i] by {
                assert(k.take(sid2.len() as int)[i] == k[i]);
                assert(k[i] == sid1[i]);
            }
            assert(sid1 =~= sid2);
        } else {
            if sid1.len() < sid2.len() && sid2.len() <= k.len() {
                assert(k[sid1.len() as int] == '/');
                if (sid1.len() as int) < sid2.len() {
                    assert(sid2[sid1.len() as int] == k.take(sid2.len() as int)[sid1.len() as int]);
                    assert(sid2.contains('/'));
                }
            }
        }
    }
}

/// Anything inside a stream's key interval starts with the stream identifier
/// followed by the separator.
proof fn lemma_range_shape(sid: Seq<char>, k: Seq<char>)
    requires
        lex_le(crate::keys::range_start(sid), k),
        lex_lt(k, crate::keys::range_end(sid)),
    ensures
        k.len() > sid.len(),
        k.take(sid.len() as int) == sid,
        k[sid.len() as int] == '/',
    decreases sid.len(),
{
    let start = crate::keys::range_start(sid);
    let end = crate::keys::range_end(sid);
    if sid.len() == 0 {
        assert(start =~= seq!['/']);
        assert(end =~= seq!['0']);
        if k.len() == 0 {
            assert(!lex_lt(start, k));
            assert(start != k);
            assert(false);
        }
        if k[0] != '0' && k[0] != '/' {
            if lex_lt(start, k) {
                assert(('/' as int) < (k[0] as int));
            } else {
                assert(start == k);
                assert(false);
            }
            assert((k[0] as int) < ('0' as int));
            assert(false);
        }
        if k[0] == '0' {
            assert(!lex_lt(k, end)) by {
                assert(end.drop_first() =~= Seq::<char>::empty());
                assert(!lex_lt(k.drop_first(), end.drop_first()));
                assert(k[0] == end[0]);
            }
            assert(false);
        }
        assert(k[0] == '/');
        assert(k.take(0) =~= sid);
    } else {
        assert(start[0] == sid[0] && end[0] == sid[0]) by {
            assert(start[0] == (sid + seq!['/'])[0]);
            assert(end[0] == (sid + seq!['0'])[0]);
        }
        if k.len() == 0 {
            assert(!lex_lt(start, k) && start != k);
            assert(false);
        }
        if k[0] != sid[0] {
            if lex_lt(start, k) {
                assert((start[0] as int) < (k[0] as int));
                assert(lex_lt(k, end) ==> (k[0] as int) < (end[0] as int));
                assert(false);
            } else {
                assert(start == k);
                assert(start[0] == k[0]);
                assert(false);
            }
        }
        assert(k[0] == sid[0]);
        let sid_t = sid.drop_first();
        let k_t = k.drop_first();
        assert(start.drop_first() =~= crate::keys::range_start(sid_t)) by {
            assert(start.drop_first() =~= sid.drop_first() + seq!['/']);
        }
        assert(end.drop_first() =~= crate::keys::range_end(sid_t)) by {
            assert(end.drop_first() =~= sid.drop_first() + seq!['0']);
        }
        assert(lex_le(crate::keys::range_start(sid_t), k_t)) by {
            if start == k {
                assert(start.drop_first() =~= k_t);
            } else {
                assert(lex_lt(start, k));
                assert(lex_lt(start.drop_first(), k_t));
            }
        }
        assert(lex_lt(k_t, crate::keys::range_end(sid_t))) by {
            assert(lex_lt(k, end));
        }
        lemma_range_shape(sid_t, k_t);
        assert(k.len() > sid.len());
        assert(k.take(sid.len() as int) =~= sid) by {
            assert forall|i: int| 0 <= i < sid.len() implies k.take(sid.len() as int)[i]
                == sid[i] by {
                if i > 0 {
                    assert(k_t.take(sid_t.len() as int)[i - 1] == sid_t[i - 1]);
                    assert(k_t[i - 1] == k[i]);
                    assert(sid_t[i - 1] == sid[i]);
                }
            }
        }
        assert(k[sid.len() as int] == k_t[sid_t.len() as int]);
    }
}

} // verus!
