//! Counter snapshots: at most one entry for a key, entries ordered by key.

use vstd::prelude::*;
use vstd::utf8::{encode_utf8, encode_utf8_decode_utf8};

verus! {

/// Byte strings in dictionary order: `a` comes strictly before `b`.
pub open spec fn bytes_lt(a: Seq<u8>, b: Seq<u8>) -> bool
    decreases a.len(),
{
    if b.len() == 0 {
        false
    } else if a.len() == 0 {
        true
    } else if a[0] != b[0] {
        a[0] < b[0]
    } else {
        bytes_lt(a.skip(1), b.skip(1))
    }
}

/// Keys are ordered as their UTF-8 forms are.
pub open spec fn key_lt(a: Seq<char>, b: Seq<char>) -> bool {
    bytes_lt(encode_utf8(a), encode_utf8(b))
}

/// A snapshot with `k` set to `v`: the entry replaces the one under `k` if
/// there is one, else it goes before the first entry whose key is not below
/// `k`.
pub open spec fn put(s: Seq<(Seq<char>, i64)>, k: Seq<char>, v: i64) -> Seq<(Seq<char>, i64)>
    decreases s.len(),
{
    if s.len() == 0 {
        seq![(k, v)]
    } else if key_lt(s[0].0, k) {
        seq![s[0]] + put(s.skip(1), k, v)
    } else if s[0].0 == k {
        seq![(k, v)] + s.skip(1)
    } else {
        seq![(k, v)] + s
    }
}

/// The value under `k`, if there is one.
pub open spec fn lookup(s: Seq<(Seq<char>, i64)>, k: Seq<char>) -> Option<i64>
    decreases s.len(),
{
    if s.len() == 0 {
        None
    } else if s[0].0 == k {
        Some(s[0].1)
    } else {
        lookup(s.skip(1), k)
    }
}

/// True where each key comes strictly before the next.
pub open spec fn ordered(s: Seq<(Seq<char>, i64)>) -> bool {
    forall|i: int| 0 <= i && i + 1 < s.len() ==> key_lt((#[trigger] s[i]).0, s[i + 1].0)
}

/// The views of counter entries, in order.
pub open spec fn counters_view(v: Seq<(String, i64)>) -> Seq<(Seq<char>, i64)> {
    Seq::new(v.len(), |i: int| (v[i].0@, v[i].1))
}

/// Tells whether `a` comes strictly before `b`.
pub fn key_less(a: &str, b: &str) -> (r: bool)
    ensures
        r == key_lt(a@, b@),
{
    let x = a.as_bytes();
    let y = b.as_bytes();
    let mut i: usize = 0;
    assert(x@.skip(0) =~= x@ && y@.skip(0) =~= y@);
    while i < x.len() && i < y.len()
        invariant
            i <= x.len(),
            i <= y.len(),
            x@ == encode_utf8(a@),
            y@ == encode_utf8(b@),
            bytes_lt(x@, y@) == bytes_lt(x@.skip(i as int), y@.skip(i as int)),
        decreases x.len() - i,
    {
        proof {
            assert(x@.skip(i as int)[0] == x@[i as int]);
            assert(y@.skip(i as int)[0] == y@[i as int]);
            assert(x@.skip(i as int).skip(1) =~= x@.skip(i as int + 1));
            assert(y@.skip(i as int).skip(1) =~= y@.skip(i as int + 1));
        }
        if x[i] != y[i] {
            return x[i] < y[i];
        }
        i += 1;
    }
    i < y.len()
}

/// Sets `k` to `v` in a snapshot, in time linear in the snapshot's length.
pub fn put_counter(acc: &mut Vec<(String, i64)>, k: String, v: i64)
    ensures
        counters_view(final(acc)@) == put(counters_view(old(acc)@), k@, v),
{
    let ghost s = counters_view(acc@);
    let n: usize = acc.len();
    let mut i: usize = 0;
    let mut found: bool = false;
    assert(s.take(0) + put(s.skip(0), k@, v) =~= put(s, k@, v)) by {
        assert(s.skip(0) =~= s);
    }
    while i < n && !found
        invariant
            i <= n,
            n == acc.len(),
            s == counters_view(acc@),
            put(s, k@, v) == s.take(i as int) + put(s.skip(i as int), k@, v),
            found ==> i < n && !key_lt(s[i as int].0, k@),
        decreases n - i + if found { 0int } else { 1int },
    {
        if key_less(acc[i].0.as_str(), k.as_str()) {
            proof {
                let t = s.skip(i as int);
                assert(t[0] == s[i as int]);
                assert(t.skip(1) =~= s.skip(i as int + 1));
                assert(s.take(i as int) + (seq![t[0]] + put(t.skip(1), k@, v)) =~= s.take(
                    i as int + 1,
                ) + put(s.skip(i as int + 1), k@, v));
            }
            i += 1;
        } else {
            found = true;
        }
    }
    let ghost t = s.skip(i as int);
    let ghost kv = (k@, v);
    if found && acc[i].0 == k {
        acc.set(i, (k, v));
        proof {
            assert(t[0] == s[i as int]);
            assert(counters_view(acc@) =~= s.take(i as int) + (seq![kv] + t.skip(1)));
        }
    } else {
        acc.insert(i, (k, v));
        proof {
            if found {
                assert(t[0] == s[i as int]);
            }
            assert(counters_view(acc@) =~= s.take(i as int) + (seq![kv] + t));
        }
    }
}

/// No byte string comes before itself.
pub proof fn lemma_bytes_lt_irreflexive(a: Seq<u8>)
    ensures
        !bytes_lt(a, a),
    decreases a.len(),
{
    if a.len() > 0 {
        lemma_bytes_lt_irreflexive(a.skip(1));
    }
}

/// After `put`, the value under `k` is `v`, and every other key has the value
/// it had: of several values sent for one key, the last one stays.
pub proof fn lemma_put_lookup(s: Seq<(Seq<char>, i64)>, k: Seq<char>, v: i64, other: Seq<char>)
    ensures
        lookup(put(s, k, v), other) == if other == k {
            Some(v)
        } else {
            lookup(s, other)
        },
    decreases s.len(),
{
    let kv = (k, v);
    if s.len() == 0 {
        assert(put(s, k, v).skip(1) =~= s);
    } else if key_lt(s[0].0, k) {
        lemma_bytes_lt_irreflexive(encode_utf8(k));
        lemma_put_lookup(s.skip(1), k, v, other);
        let r = seq![s[0]] + put(s.skip(1), k, v);
        assert(r[0] == s[0]);
        assert(r.skip(1) =~= put(s.skip(1), k, v));
    } else if s[0].0 == k {
        let r = seq![kv] + s.skip(1);
        assert(r[0] == kv);
        assert(r.skip(1) =~= s.skip(1));
    } else {
        let r = seq![kv] + s;
        assert(r[0] == kv);
        assert(r.skip(1) =~= s);
    }
}

/// Of two different byte strings one comes before the other.
pub proof fn lemma_bytes_lt_total(a: Seq<u8>, b: Seq<u8>)
    requires
        a != b,
    ensures
        bytes_lt(a, b) || bytes_lt(b, a),
    decreases a.len(),
{
    if a.len() > 0 && b.len() > 0 && a[0] == b[0] {
        if a.skip(1) == b.skip(1) {
            assert(a =~= seq![a[0]] + a.skip(1));
            assert(b =~= seq![b[0]] + b.skip(1));
        }
        lemma_bytes_lt_total(a.skip(1), b.skip(1));
    } else if a.len() == 0 && b.len() == 0 {
        assert(a =~= b);
    }
}

/// Of two different keys one comes before the other.
pub proof fn lemma_key_lt_total(a: Seq<char>, b: Seq<char>)
    requires
        a != b,
    ensures
        key_lt(a, b) || key_lt(b, a),
{
    encode_utf8_decode_utf8(a);
    encode_utf8_decode_utf8(b);
    lemma_bytes_lt_total(encode_utf8(a), encode_utf8(b));
}

/// An entry in front of an ordered snapshot, with a key before its first,
/// gives an ordered snapshot.
proof fn lemma_ordered_cons(x: (Seq<char>, i64), t: Seq<(Seq<char>, i64)>)
    requires
        ordered(t),
        t.len() > 0 ==> key_lt(x.0, t[0].0),
    ensures
        ordered(seq![x] + t),
{
    let r = seq![x] + t;
    assert forall|i: int| 0 <= i && i + 1 < r.len() implies key_lt((#[trigger] r[i]).0, r[i + 1].0) by {
        if i > 0 {
            assert(r[i] == t[i - 1]);
            assert(r[i + 1] == t[i - 1 + 1]);
        }
    }
}

/// What follows the first entry of an ordered snapshot is ordered.
proof fn lemma_ordered_tail(s: Seq<(Seq<char>, i64)>)
    requires
        ordered(s),
        s.len() > 0,
    ensures
        ordered(s.skip(1)),
{
    let t = s.skip(1);
    assert forall|i: int| 0 <= i && i + 1 < t.len() implies key_lt((#[trigger] t[i]).0, t[i + 1].0) by {
        assert(t[i] == s[i + 1]);
        assert(t[i + 1] == s[i + 1 + 1]);
    }
}

/// `put` keeps a snapshot ordered.
pub proof fn lemma_put_ordered(s: Seq<(Seq<char>, i64)>, k: Seq<char>, v: i64)
    requires
        ordered(s),
    ensures
        ordered(put(s, k, v)),
    decreases s.len(),
{
    let kv = (k, v);
    if s.len() == 0 {
        lemma_ordered_cons(kv, s);
        assert(seq![kv] + s =~= seq![kv]);
    } else if key_lt(s[0].0, k) {
        let rest = s.skip(1);
        lemma_ordered_tail(s);
        lemma_put_ordered(rest, k, v);
        if rest.len() > 0 {
            assert(rest[0] == s[0int + 1]);
        }
        lemma_ordered_cons(s[0], put(rest, k, v));
    } else if s[0].0 == k {
        let rest = s.skip(1);
        lemma_ordered_tail(s);
        if rest.len() > 0 {
            assert(rest[0] == s[0int + 1]);
        }
        lemma_ordered_cons(kv, rest);
    } else {
        lemma_key_lt_total(s[0].0, k);
        lemma_ordered_cons(kv, s);
    }
}

/// The order of byte strings is transitive.
pub proof fn lemma_bytes_lt_transitive(a: Seq<u8>, b: Seq<u8>, c: Seq<u8>)
    requires
        bytes_lt(a, b),
        bytes_lt(b, c),
    ensures
        bytes_lt(a, c),
    decreases a.len(),
{
    if a.len() > 0 && b.len() > 0 && c.len() > 0 && a[0] == b[0] && b[0] == c[0] {
        lemma_bytes_lt_transitive(a.skip(1), b.skip(1), c.skip(1));
    }
}

/// In an ordered snapshot an earlier key comes strictly before a later one, so
/// no key occurs twice.
pub proof fn lemma_ordered_pairwise(s: Seq<(Seq<char>, i64)>, i: int, j: int)
    requires
        ordered(s),
        0 <= i < j < s.len(),
    ensures
        key_lt(s[i].0, s[j].0),
        s[i].0 != s[j].0,
    decreases j - i,
{
    lemma_bytes_lt_irreflexive(encode_utf8(s[i].0));
    if i + 1 < j {
        lemma_ordered_pairwise(s, i, j - 1);
        assert(key_lt(s[j - 1].0, s[j - 1 + 1].0));
        lemma_bytes_lt_transitive(
            encode_utf8(s[i].0),
            encode_utf8(s[j - 1].0),
            encode_utf8(s[j].0),
        );
    } else {
        assert(key_lt(s[i].0, s[i + 1].0));
    }
}

} // verus!
