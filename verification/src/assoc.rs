//! Association lists: ordered sequences of key/value pairs in which a lookup
//! finds the first pair with the key. Every map-like document node of the
//! library (JSON objects, YAML mappings, TOML tables) is viewed as one.
use vstd::prelude::*;

verus! {

/// The value of the first pair whose key is `k`.
pub open spec fn assoc_get<K, V>(s: Seq<(K, V)>, k: K) -> Option<V>
    decreases s.len(),
{
    if s.len() == 0 {
        None
    } else if s[0].0 == k {
        Some(s[0].1)
    } else {
        assoc_get(s.drop_first(), k)
    }
}

/// Replace the value of the first pair whose key is `k`, in place; append the
/// pair when no key matches.
pub open spec fn assoc_set<K, V>(s: Seq<(K, V)>, k: K, v: V) -> Seq<(K, V)>
    decreases s.len(),
{
    if s.len() == 0 {
        seq![(k, v)]
    } else if s[0].0 == k {
        s.update(0, (k, v))
    } else {
        seq![s[0]] + assoc_set(s.drop_first(), k, v)
    }
}

/// Drop every pair whose key is `k`, keeping the order of the others.
pub open spec fn assoc_remove<K, V>(s: Seq<(K, V)>, k: K) -> Seq<(K, V)>
    decreases s.len(),
{
    if s.len() == 0 {
        s
    } else if s[0].0 == k {
        assoc_remove(s.drop_first(), k)
    } else {
        seq![s[0]] + assoc_remove(s.drop_first(), k)
    }
}

/// The keys of the pairs are distinct.
pub open spec fn keys_distinct<K, V>(s: Seq<(K, V)>) -> bool {
    forall|i: int, j: int| 0 <= i < j < s.len() ==> s[i].0 != s[j].0
}

/// No pair before index `i` has the key `k`.
pub open spec fn no_key_before<K, V>(s: Seq<(K, V)>, k: K, i: int) -> bool {
    forall|j: int| 0 <= j < i ==> #[trigger] s[j].0 != k
}

pub proof fn lemma_assoc_get_at<K, V>(s: Seq<(K, V)>, k: K, i: int)
    requires
        0 <= i < s.len(),
        s[i].0 == k,
        no_key_before(s, k, i),
    ensures
        assoc_get(s, k) == Some(s[i].1),
    decreases i,
{
    if i > 0 {
        assert(s[0].0 != k);
        let t = s.drop_first();
        assert forall|j: int| 0 <= j < i - 1 implies #[trigger] t[j].0 != k by {
            assert(t[j] == s[j + 1]);
        }
        lemma_assoc_get_at(t, k, i - 1);
    }
}

pub proof fn lemma_assoc_get_none<K, V>(s: Seq<(K, V)>, k: K)
    requires
        no_key_before(s, k, s.len() as int),
    ensures
        assoc_get(s, k) is None,
    decreases s.len(),
{
    if s.len() > 0 {
        assert(s[0].0 != k);
        let t = s.drop_first();
        assert forall|j: int| 0 <= j < t.len() implies #[trigger] t[j].0 != k by {
            assert(t[j] == s[j + 1]);
        }
        lemma_assoc_get_none(t, k);
    }
}

pub proof fn lemma_assoc_set_at<K, V>(s: Seq<(K, V)>, k: K, v: V, i: int)
    requires
        0 <= i < s.len(),
        s[i].0 == k,
        no_key_before(s, k, i),
    ensures
        assoc_set(s, k, v) == s.update(i, (k, v)),
    decreases i,
{
    if i > 0 {
        assert(s[0].0 != k);
        let t = s.drop_first();
        assert forall|j: int| 0 <= j < i - 1 implies #[trigger] t[j].0 != k by {
            assert(t[j] == s[j + 1]);
        }
        lemma_assoc_set_at(t, k, v, i - 1);
        assert(seq![s[0]] + t.update(i - 1, (k, v)) =~= s.update(i, (k, v)));
    }
}

pub proof fn lemma_assoc_set_absent<K, V>(s: Seq<(K, V)>, k: K, v: V)
    requires
        no_key_before(s, k, s.len() as int),
    ensures
        assoc_set(s, k, v) == s.push((k, v)),
    decreases s.len(),
{
    if s.len() > 0 {
        assert(s[0].0 != k);
        let t = s.drop_first();
        assert forall|j: int| 0 <= j < t.len() implies #[trigger] t[j].0 != k by {
            assert(t[j] == s[j + 1]);
        }
        lemma_assoc_set_absent(t, k, v);
        assert(seq![s[0]] + t.push((k, v)) =~= s.push((k, v)));
    } else {
        assert(seq![(k, v)] =~= s.push((k, v)));
    }
}

/// Reading a key right after setting it gives the value that was set.
pub proof fn lemma_assoc_get_set_same<K, V>(s: Seq<(K, V)>, k: K, v: V)
    ensures
        assoc_get(assoc_set(s, k, v), k) == Some(v),
    decreases s.len(),
{
    if s.len() > 0 && s[0].0 != k {
        lemma_assoc_get_set_same(s.drop_first(), k, v);
        let r = assoc_set(s, k, v);
        assert(r.drop_first() =~= assoc_set(s.drop_first(), k, v));
    }
}

/// Setting one key leaves the value of every other key as it was.
pub proof fn lemma_assoc_get_set_other<K, V>(s: Seq<(K, V)>, k: K, v: V, other: K)
    requires
        other != k,
    ensures
        assoc_get(assoc_set(s, k, v), other) == assoc_get(s, other),
    decreases s.len(),
{
    if s.len() > 0 {
        let r = assoc_set(s, k, v);
        if s[0].0 == k {
            assert(r.drop_first() =~= s.drop_first());
        } else {
            lemma_assoc_get_set_other(s.drop_first(), k, v, other);
            assert(r.drop_first() =~= assoc_set(s.drop_first(), k, v));
        }
    } else {
        let r = assoc_set(s, k, v);
        assert(r.drop_first() =~= s);
    }
}

/// After removing a key it is absent.
pub proof fn lemma_assoc_get_remove_same<K, V>(s: Seq<(K, V)>, k: K)
    ensures
        assoc_get(assoc_remove(s, k), k) is None,
    decreases s.len(),
{
    if s.len() > 0 {
        lemma_assoc_get_remove_same(s.drop_first(), k);
        if s[0].0 != k {
            let r = assoc_remove(s, k);
            assert(r.drop_first() =~= assoc_remove(s.drop_first(), k));
        }
    }
}

/// Removing one key leaves the value of every other key as it was.
pub proof fn lemma_assoc_get_remove_other<K, V>(s: Seq<(K, V)>, k: K, other: K)
    requires
        other != k,
    ensures
        assoc_get(assoc_remove(s, k), other) == assoc_get(s, other),
    decreases s.len(),
{
    if s.len() > 0 {
        lemma_assoc_get_remove_other(s.drop_first(), k, other);
        if s[0].0 != k {
            let r = assoc_remove(s, k);
            assert(r.drop_first() =~= assoc_remove(s.drop_first(), k));
        }
    }
}

pub proof fn lemma_assoc_remove_concat<K, V>(a: Seq<(K, V)>, b: Seq<(K, V)>, k: K)
    ensures
        assoc_remove(a + b, k) == assoc_remove(a, k) + assoc_remove(b, k),
    decreases a.len(),
{
    if a.len() == 0 {
        assert(a + b =~= b);
        assert(assoc_remove(a, k) + assoc_remove(b, k) =~= assoc_remove(b, k));
    } else {
        lemma_assoc_remove_concat(a.drop_first(), b, k);
        assert((a + b).drop_first() =~= a.drop_first() + b);
        assert((a + b)[0] == a[0]);
        if a[0].0 != k {
            assert(seq![a[0]] + (assoc_remove(a.drop_first(), k) + assoc_remove(b, k)) =~= (seq![a[0]]
                + assoc_remove(a.drop_first(), k)) + assoc_remove(b, k));
        }
    }
}

pub proof fn lemma_assoc_remove_step<K, V>(s: Seq<(K, V)>, k: K, i: int)
    requires
        0 <= i < s.len(),
    ensures
        assoc_remove(s.take(i + 1), k) == if s[i].0 == k {
            assoc_remove(s.take(i), k)
        } else {
            assoc_remove(s.take(i), k).push(s[i])
        },
{
    assert(s.take(i + 1) =~= s.take(i) + seq![s[i]]);
    lemma_assoc_remove_concat(s.take(i), seq![s[i]], k);
    let one = seq![s[i]];
    assert(one.drop_first().len() == 0);
    assert(assoc_remove(one.drop_first(), k) =~= Seq::<(K, V)>::empty());
    if s[i].0 != k {
        assert(assoc_remove(one, k) =~= seq![s[i]]);
        assert(assoc_remove(s.take(i), k) + seq![s[i]] =~= assoc_remove(s.take(i), k).push(s[i]));
    } else {
        assert(assoc_remove(one, k) =~= Seq::<(K, V)>::empty());
        assert(assoc_remove(s.take(i), k) + Seq::<(K, V)>::empty() =~= assoc_remove(s.take(i), k));
    }
}

} // verus!
