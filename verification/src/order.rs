//! Stable ordering by an integer key. A list is in order when no item comes
//! before one with a lower key, and a reordering is stable when the items
//! sharing any one key keep their relative order; together those pin a
//! stable sort's result down exactly.

use vstd::prelude::*;

verus! {

/// Whether an item's key is `k`.
pub open spec fn key_is<T>(key: spec_fn(T) -> u32, k: u32) -> spec_fn(T) -> bool {
    |x: T| key(x) == k
}

/// The items of `s` whose key is `k`, in order.
pub open spec fn keyed<T>(s: Seq<T>, key: spec_fn(T) -> u32, k: u32) -> Seq<T> {
    s.filter(key_is(key, k))
}

/// Whether no item of `s` comes before one with a lower key.
pub open spec fn ascending_by<T>(s: Seq<T>, key: spec_fn(T) -> u32) -> bool {
    forall|a: int, b: int| 0 <= a < b < s.len() ==> key(s[a]) <= key(s[b])
}

/// The items keyed `k` of `x` followed by `s`.
pub proof fn lemma_keyed_cons<T>(x: T, s: Seq<T>, key: spec_fn(T) -> u32, k: u32)
    ensures
        keyed(seq![x] + s, key, k) == if key(x) == k { seq![x] + keyed(s, key, k) } else { keyed(s, key, k) },
{
    let p = key_is(key, k);
    Seq::filter_distributes_over_add(seq![x], s, p);
    Seq::<T>::empty().lemma_filter_push(x, p);
    assert(seq![x] =~= Seq::<T>::empty().push(x));
    reveal(Seq::filter);
    assert(Seq::<T>::empty().filter(p) =~= Seq::<T>::empty());
    if key(x) == k {
        assert(Seq::<T>::empty().push(x) =~= seq![x]);
    } else {
        assert(Seq::<T>::empty() + keyed(s, key, k) =~= keyed(s, key, k));
    }
}

/// No item of `s` is keyed `k` when every item has another key.
pub proof fn lemma_keyed_none<T>(s: Seq<T>, key: spec_fn(T) -> u32, k: u32)
    requires
        forall|m: int| 0 <= m < s.len() ==> key(s[m]) != k,
    ensures
        keyed(s, key, k) == Seq::<T>::empty(),
{
    let p = key_is(key, k);
    let f = s.filter(p);
    if f.len() > 0 {
        let e = f[0];
        s.filter_lemma(p);
        assert(p(e));
        assert(f.contains(e));
        s.lemma_filter_contains_rev(p, e);
    }
    assert(f =~= Seq::<T>::empty());
}

/// Nothing is keyed anything in an empty list.
pub proof fn lemma_keyed_empty<T>(key: spec_fn(T) -> u32)
    ensures
        forall|k: u32| #[trigger] keyed(Seq::<T>::empty(), key, k) == Seq::<T>::empty(),
{
    assert forall|k: u32| #[trigger] keyed(Seq::<T>::empty(), key, k) == Seq::<T>::empty() by {
        reveal(Seq::filter);
    }
}

/// Inserting `x` where every item before it has a lower key and every item
/// after it at least its key keeps `s` in order, and puts `x` first among
/// the items sharing its key.
pub proof fn lemma_insert_keyed<T>(s: Seq<T>, j: int, x: T, key: spec_fn(T) -> u32)
    requires
        0 <= j <= s.len(),
        ascending_by(s, key),
        forall|m: int| 0 <= m < j ==> key(s[m]) < key(x),
        forall|m: int| j <= m < s.len() ==> key(s[m]) >= key(x),
    ensures
        ascending_by(s.insert(j, x), key),
        forall|k: u32| #[trigger] keyed(s.insert(j, x), key, k) == if k == key(x) { seq![x] + keyed(s, key, k) } else { keyed(s, key, k) },
{
    let t = s.insert(j, x);
    let head = s.take(j);
    let tail = s.skip(j);
    assert(t =~= head + (seq![x] + tail));
    assert(s =~= head + tail);
    assert forall|a: int, b: int| 0 <= a < b < t.len() implies key(t[a]) <= key(t[b]) by {
        if b < j {
            assert(t[a] == s[a] && t[b] == s[b]);
        } else if b == j {
            assert(t[a] == s[a]);
        } else if a == j {
            assert(t[b] == s[b - 1]);
        } else if a < j {
            assert(t[a] == s[a] && t[b] == s[b - 1]);
        } else {
            assert(t[a] == s[a - 1] && t[b] == s[b - 1]);
        }
    }
    assert forall|k: u32| #[trigger] keyed(t, key, k) == if k == key(x) { seq![x] + keyed(s, key, k) } else { keyed(s, key, k) } by {
        let p = key_is(key, k);
        Seq::filter_distributes_over_add(head, seq![x] + tail, p);
        Seq::filter_distributes_over_add(head, tail, p);
        lemma_keyed_cons(x, tail, key, k);
        if k == key(x) {
            assert forall|m: int| 0 <= m < head.len() implies key(head[m]) != k by {
                assert(head[m] == s[m]);
            }
            lemma_keyed_none(head, key, k);
            assert(keyed(t, key, k) =~= seq![x] + keyed(s, key, k));
        } else {
            assert(keyed(t, key, k) =~= keyed(s, key, k));
        }
    }
}

} // verus!
