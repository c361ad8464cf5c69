//! Ordering of string keys the way `String`'s `Ord` orders them: bytewise on the UTF-8 text.
use vstd::prelude::*;
use vstd::utf8::{encode_utf8, encode_utf8_decode_utf8};

verus! {

/// Lexicographic order on byte sequences; a proper prefix comes first.
pub open spec fn bytes_lt(a: Seq<u8>, b: Seq<u8>) -> bool
    decreases a.len(),
{
    if a.len() == 0 {
        b.len() > 0
    } else if b.len() == 0 {
        false
    } else if a[0] != b[0] {
        a[0] < b[0]
    } else {
        bytes_lt(a.drop_first(), b.drop_first())
    }
}

/// `a` sorts before `b` as `String`s do.
pub open spec fn key_lt(a: Seq<char>, b: Seq<char>) -> bool {
    bytes_lt(encode_utf8(a), encode_utf8(b))
}

/// The views of a sequence of strings.
pub open spec fn string_views(v: Seq<String>) -> Seq<Seq<char>> {
    v.map_values(|s: String| s@)
}

/// Each key sorts strictly before every later one.
pub open spec fn strictly_sorted(s: Seq<Seq<char>>) -> bool {
    forall|i: int, j: int| 0 <= i < j < s.len() ==> key_lt(#[trigger] s[i], #[trigger] s[j])
}

pub proof fn lemma_bytes_lt_irreflexive(a: Seq<u8>)
    ensures
        !bytes_lt(a, a),
    decreases a.len(),
{
    if a.len() > 0 {
        lemma_bytes_lt_irreflexive(a.drop_first());
    }
}

pub proof fn lemma_bytes_lt_transitive(a: Seq<u8>, b: Seq<u8>, c: Seq<u8>)
    requires
        bytes_lt(a, b),
        bytes_lt(b, c),
    ensures
        bytes_lt(a, c),
    decreases a.len(),
{
    if a.len() > 0 && b.len() > 0 && c.len() > 0 && a[0] == b[0] && b[0] == c[0] {
        lemma_bytes_lt_transitive(a.drop_first(), b.drop_first(), c.drop_first());
    }
}

pub proof fn lemma_bytes_lt_asymmetric(a: Seq<u8>, b: Seq<u8>)
    requires
        bytes_lt(a, b),
    ensures
        !bytes_lt(b, a),
    decreases a.len(),
{
    if a.len() > 0 && b.len() > 0 && a[0] == b[0] {
        lemma_bytes_lt_asymmetric(a.drop_first(), b.drop_first());
    }
}

pub proof fn lemma_bytes_lt_total(a: Seq<u8>, b: Seq<u8>)
    requires
        a != b,
    ensures
        bytes_lt(a, b) || bytes_lt(b, a),
    decreases a.len(),
{
    if a.len() > 0 && b.len() > 0 && a[0] == b[0] {
        if a.drop_first() == b.drop_first() {
            assert(a =~= seq![a[0]] + a.drop_first());
            assert(b =~= seq![b[0]] + b.drop_first());
        }
        lemma_bytes_lt_total(a.drop_first(), b.drop_first());
    } else if a.len() == 0 && b.len() == 0 {
        assert(a =~= b);
    }
}

/// `key_lt` is a strict total order.
pub proof fn lemma_key_order(a: Seq<char>, b: Seq<char>, c: Seq<char>)
    ensures
        !key_lt(a, a),
        key_lt(a, b) ==> !key_lt(b, a),
        key_lt(a, b) && key_lt(b, c) ==> key_lt(a, c),
        a != b ==> key_lt(a, b) || key_lt(b, a),
{
    lemma_bytes_lt_irreflexive(encode_utf8(a));
    if key_lt(a, b) {
        lemma_bytes_lt_asymmetric(encode_utf8(a), encode_utf8(b));
    }
    if key_lt(a, b) && key_lt(b, c) {
        lemma_bytes_lt_transitive(encode_utf8(a), encode_utf8(b), encode_utf8(c));
    }
    if a != b {
        encode_utf8_decode_utf8(a);
        encode_utf8_decode_utf8(b);
        lemma_bytes_lt_total(encode_utf8(a), encode_utf8(b));
    }
}

proof fn lemma_bytes_lt_step(a: Seq<u8>, b: Seq<u8>, i: int)
    requires
        0 <= i < a.len(),
        i < b.len(),
    ensures
        a[i] != b[i] ==> bytes_lt(a.skip(i), b.skip(i)) == (a[i] < b[i]),
        a[i] == b[i] ==> bytes_lt(a.skip(i), b.skip(i)) == bytes_lt(a.skip(i + 1), b.skip(i + 1)),
{
    assert(a.skip(i).drop_first() =~= a.skip(i + 1));
    assert(b.skip(i).drop_first() =~= b.skip(i + 1));
}

/// How many keys of `keys` sort before `k`.
pub open spec fn key_rank(keys: Set<Seq<char>>, k: Seq<char>) -> nat {
    keys.filter(|x: Seq<char>| key_lt(x, k)).len()
}

/// The position of a key in a strictly sorted listing of a set is its rank in that set.
pub proof fn lemma_sorted_position_is_rank(s: Seq<Seq<char>>, i: int)
    requires
        strictly_sorted(s),
        0 <= i < s.len(),
    ensures
        key_rank(s.to_set(), s[i]) == i,
{
    let smaller = s.to_set().filter(|x: Seq<char>| key_lt(x, s[i]));
    assert(smaller =~= s.subrange(0, i).to_set()) by {
        assert forall|x: Seq<char>| smaller.contains(x) <==> s.subrange(0, i).to_set().contains(x) by {
            if smaller.contains(x) {
                let t = choose|t: int| 0 <= t < s.len() && s[t] == x;
                if t >= i {
                    if t > i {
                        lemma_key_order(s[i], s[t], s[t]);
                    }
                    lemma_key_order(s[i], s[i], s[i]);
                }
                assert(s.subrange(0, i)[t] == x);
            }
            if s.subrange(0, i).to_set().contains(x) {
                let t = choose|t: int| 0 <= t < i && s.subrange(0, i)[t] == x;
                assert(s[t] == x);
            }
        }
    }
    assert(s.subrange(0, i).no_duplicates()) by {
        assert forall|a: int, b: int| 0 <= a < b < i implies s.subrange(0, i)[a] != s.subrange(0, i)[b] by {
            lemma_key_order(s[a], s[b], s[b]);
        }
    }
    s.subrange(0, i).unique_seq_to_set();
}

/// A set has one strictly sorted listing: two strictly sorted sequences with the same
/// elements are equal.
pub proof fn lemma_sorted_listing_unique(a: Seq<Seq<char>>, b: Seq<Seq<char>>)
    requires
        strictly_sorted(a),
        strictly_sorted(b),
        a.to_set() == b.to_set(),
    ensures
        a == b,
{
    lemma_sorted_no_duplicates(a);
    lemma_sorted_no_duplicates(b);
    a.unique_seq_to_set();
    b.unique_seq_to_set();
    assert forall|i: int| 0 <= i < a.len() implies a[i] == b[i] by {
        assert(b.to_set().contains(a[i]));
        let j = choose|j: int| 0 <= j < b.len() && b[j] == a[i];
        lemma_sorted_position_is_rank(a, i);
        lemma_sorted_position_is_rank(b, j);
    }
    assert(a =~= b);
}

/// A strictly sorted sequence has no element twice.
pub proof fn lemma_sorted_no_duplicates(s: Seq<Seq<char>>)
    requires
        strictly_sorted(s),
    ensures
        s.no_duplicates(),
{
    assert forall|i: int, j: int| 0 <= i < s.len() && 0 <= j < s.len() && i != j implies s[i] != s[j] by {
        lemma_key_order(s[i], s[j], s[j]);
        lemma_key_order(s[j], s[i], s[i]);
    }
}

/// The strictly sorted listing of a set of keys.
pub open spec fn sorted_listing(keys: Set<Seq<char>>) -> Seq<Seq<char>> {
    choose|s: Seq<Seq<char>>| strictly_sorted(s) && s.to_set() == keys
}

/// A strictly sorted sequence is the sorted listing of its elements.
pub proof fn lemma_is_sorted_listing(s: Seq<Seq<char>>)
    requires
        strictly_sorted(s),
    ensures
        sorted_listing(s.to_set()) == s,
{
    let t = sorted_listing(s.to_set());
    assert(strictly_sorted(t) && t.to_set() == s.to_set());
    lemma_sorted_listing_unique(t, s);
}

/// Returns whether `a` sorts strictly before `b`.
pub fn key_less(a: &String, b: &String) -> (r: bool)
    ensures
        r == key_lt(a@, b@),
{
    let x = a.as_str().as_bytes();
    let y = b.as_str().as_bytes();
    let mut i: usize = 0;
    assert(x@.skip(0) =~= x@);
    assert(y@.skip(0) =~= y@);
    while i < x.len() && i < y.len()
        invariant
            i <= x@.len(),
            i <= y@.len(),
            x@ == encode_utf8(a@),
            y@ == encode_utf8(b@),
            bytes_lt(x@, y@) == bytes_lt(x@.skip(i as int), y@.skip(i as int)),
        decreases x@.len() - i,
    {
        proof {
            lemma_bytes_lt_step(x@, y@, i as int);
        }
        if x[i] != y[i] {
            return x[i] < y[i];
        }
        i = i + 1;
    }
    assert(x@.skip(i as int).len() == x@.len() - i);
    assert(y@.skip(i as int).len() == y@.len() - i);
    i < y.len()
}

/// Inserts `k` into a strictly sorted vector at its place.
pub fn insert_sorted(v: &mut Vec<String>, k: String)
    requires
        strictly_sorted(string_views(old(v)@)),
        !string_views(old(v)@).contains(k@),
    ensures
        strictly_sorted(string_views(final(v)@)),
        string_views(final(v)@).to_set() == string_views(old(v)@).to_set().insert(k@),
        final(v)@.len() == old(v)@.len() + 1,
{
    let ghost old_views = string_views(v@);
    let mut p: usize = 0;
    while p < v.len()
        invariant
            p <= v@.len(),
            v@ == old(v)@,
            old_views == string_views(v@),
            strictly_sorted(old_views),
            !old_views.contains(k@),
            forall|j: int| 0 <= j < p ==> key_lt(#[trigger] old_views[j], k@),
        ensures
            p <= v@.len(),
            v@ == old(v)@,
            forall|j: int| 0 <= j < p ==> key_lt(#[trigger] old_views[j], k@),
            p < v@.len() ==> key_lt(k@, old_views[p as int]),
        decreases v@.len() - p,
    {
        if key_less(&k, &v[p]) {
            assert(old_views[p as int] == v@[p as int]@);
            break;
        }
        proof {
            assert(old_views[p as int] == v@[p as int]@);
            if old_views[p as int] == k@ {
                assert(old_views.contains(k@));
            }
            lemma_key_order(old_views[p as int], k@, k@);
        }
        p = p + 1;
    }
    let ghost kv = k@;
    v.insert(p, k);
    let ghost new_views = string_views(v@);
    proof {
        assert(new_views =~= old_views.insert(p as int, kv));
        assert forall|i: int, j: int| 0 <= i < j < new_views.len() implies key_lt(
            #[trigger] new_views[i],
            #[trigger] new_views[j],
        ) by {
            if p < old_views.len() {
                assert(key_lt(kv, old_views[p as int]));
            }
            if i < p && j == p {
            } else if i < p && j > p {
                lemma_key_order(old_views[i], kv, old_views[j - 1]);
                if j - 1 > p {
                    lemma_key_order(kv, old_views[p as int], old_views[j - 1]);
                }
            } else if i == p && j > p {
                if j - 1 > p {
                    lemma_key_order(kv, old_views[p as int], old_views[j - 1]);
                }
            } else if i > p {
            }
        }
        assert forall|x: Seq<char>| new_views.to_set().contains(x) <==> old_views.to_set().insert(kv).contains(x) by {
            if new_views.to_set().contains(x) {
                let idx = choose|idx: int| 0 <= idx < new_views.len() && new_views[idx] == x;
                if idx < p {
                    assert(old_views[idx] == x);
                } else if idx > p {
                    assert(old_views[idx - 1] == x);
                }
            }
            if old_views.to_set().contains(x) {
                let idx = choose|idx: int| 0 <= idx < old_views.len() && old_views[idx] == x;
                if idx < p {
                    assert(new_views[idx] == x);
                } else {
                    assert(new_views[idx + 1] == x);
                }
            }
            if x == kv {
                assert(new_views[p as int] == x);
            }
        }
        assert(new_views.to_set() =~= old_views.to_set().insert(kv));
    }
}

} // verus!
