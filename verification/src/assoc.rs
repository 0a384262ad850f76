//! Association lists as a model of keyed stores: a sequence of key and value
//! pairs in which no key occurs twice.

use vstd::prelude::*;

verus! {

/// No key occurs twice in `s`.
pub open spec fn distinct_keys<K, V>(s: Seq<(K, V)>) -> bool {
    forall|i: int, j: int| 0 <= i < j < s.len() ==> s[i].0 != s[j].0
}

/// Some pair of `s` has the key `k`.
pub open spec fn has_key<K, V>(s: Seq<(K, V)>, k: K) -> bool {
    exists|i: int| 0 <= i < s.len() && s[i].0 == k
}

/// An index at which `k` stands in `s`, if there is one.
pub open spec fn position<K, V>(s: Seq<(K, V)>, k: K) -> int {
    choose|i: int| 0 <= i < s.len() && s[i].0 == k
}

/// The value stored under `k`, if any.
pub open spec fn lookup<K, V>(s: Seq<(K, V)>, k: K) -> Option<V> {
    if has_key(s, k) {
        Some(s[position(s, k)].1)
    } else {
        None
    }
}

/// Where keys are distinct, the pair at index `i` is what its key looks up.
pub proof fn lemma_lookup_at<K, V>(s: Seq<(K, V)>, i: int)
    requires
        distinct_keys(s),
        0 <= i < s.len(),
    ensures
        has_key(s, s[i].0),
        lookup(s, s[i].0) == Some(s[i].1),
{
    let k = s[i].0;
    assert(has_key(s, k));
    let p = position(s, k);
    assert(0 <= p < s.len() && s[p].0 == k);
    if p < i {
        assert(s[p].0 != s[i].0);
    } else if i < p {
        assert(s[i].0 != s[p].0);
    }
}

/// Appending a pair under a new key adds that key and changes no other.
pub proof fn lemma_lookup_push<K, V>(s: Seq<(K, V)>, k: K, v: V, q: K)
    requires
        distinct_keys(s),
        !has_key(s, k),
    ensures
        distinct_keys(s.push((k, v))),
        lookup(s.push((k, v)), q) == if q == k {
            Some(v)
        } else {
            lookup(s, q)
        },
{
    let t = s.push((k, v));
    assert forall|i: int, j: int| 0 <= i < j < t.len() implies t[i].0 != t[j].0 by {
        if j < s.len() {
            assert(s[i].0 != s[j].0);
        } else {
            assert(t[i] == s[i]);
            if s[i].0 == k {
                assert(has_key(s, k));
            }
        }
    }
    if q == k {
        assert(t[s.len() as int].0 == k);
        lemma_lookup_at(t, s.len() as int);
    } else if has_key(s, q) {
        let p = position(s, q);
        assert(t[p] == s[p]);
        lemma_lookup_at(t, p);
        lemma_lookup_at(s, p);
    } else {
        if has_key(t, q) {
            let p = position(t, q);
            assert(p < s.len());
            assert(t[p] == s[p]);
            assert(has_key(s, q));
        }
    }
}

/// Replacing the value at index `i` changes what that key looks up and
/// nothing else.
pub proof fn lemma_lookup_update<K, V>(s: Seq<(K, V)>, i: int, v: V, q: K)
    requires
        distinct_keys(s),
        0 <= i < s.len(),
    ensures
        distinct_keys(s.update(i, (s[i].0, v))),
        lookup(s.update(i, (s[i].0, v)), q) == if q == s[i].0 {
            Some(v)
        } else {
            lookup(s, q)
        },
{
    let t = s.update(i, (s[i].0, v));
    assert forall|a: int, b: int| 0 <= a < b < t.len() implies t[a].0 != t[b].0 by {
        assert(t[a].0 == s[a].0);
        assert(t[b].0 == s[b].0);
        assert(s[a].0 != s[b].0);
    }
    if q == s[i].0 {
        assert(t[i].0 == q);
        lemma_lookup_at(t, i);
    } else if has_key(s, q) {
        let p = position(s, q);
        assert(p != i);
        assert(t[p] == s[p]);
        lemma_lookup_at(t, p);
        lemma_lookup_at(s, p);
    } else {
        if has_key(t, q) {
            let p = position(t, q);
            assert(t[p].0 == s[p].0);
            assert(has_key(s, q));
        }
    }
}

} // verus!
