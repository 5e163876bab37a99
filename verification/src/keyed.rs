//! Sequences whose items are keyed, with no key occurring twice.
use vstd::prelude::*;

verus! {

/// No two items of `s` share a key.
pub open spec fn unique_by<T, K>(s: Seq<T>, key: spec_fn(T) -> K) -> bool {
    forall|i: int, j: int| 0 <= i < j < s.len() ==> key(s[i]) != key(s[j])
}

/// Replacing an item by one with the same key keeps keys unique.
pub proof fn lemma_unique_update<T, K>(s: Seq<T>, key: spec_fn(T) -> K, i: int, x: T)
    requires
        unique_by(s, key),
        0 <= i < s.len(),
        key(x) == key(s[i]),
    ensures
        unique_by(s.update(i, x), key),
{
    assert forall|a: int, b: int| 0 <= a < b < s.len() implies key(s.update(i, x)[a]) != key(
        s.update(i, x)[b],
    ) by {
        if a == i {
        } else if b == i {
        } else {
        }
    }
}

/// Removing an item keeps keys unique.
pub proof fn lemma_unique_remove<T, K>(s: Seq<T>, key: spec_fn(T) -> K, i: int)
    requires
        unique_by(s, key),
        0 <= i < s.len(),
    ensures
        unique_by(s.remove(i), key),
{
    let r = s.remove(i);
    assert forall|a: int, b: int| 0 <= a < b < r.len() implies key(r[a]) != key(r[b]) by {
        let sa = if a < i { a } else { a + 1 };
        let sb = if b < i { b } else { b + 1 };
        assert(r[a] == s[sa]);
        assert(r[b] == s[sb]);
    }
}

/// Appending an item whose key is new keeps keys unique.
pub proof fn lemma_unique_push<T, K>(s: Seq<T>, key: spec_fn(T) -> K, x: T)
    requires
        unique_by(s, key),
        forall|i: int| 0 <= i < s.len() ==> key(s[i]) != key(x),
    ensures
        unique_by(s.push(x), key),
{
    assert forall|a: int, b: int| 0 <= a < b < s.push(x).len() implies key(s.push(x)[a]) != key(
        s.push(x)[b],
    ) by {
        if b == s.len() {
            assert(s.push(x)[a] == s[a]);
        } else {
            assert(s.push(x)[a] == s[a]);
            assert(s.push(x)[b] == s[b]);
        }
    }
}

/// Keeping the items that satisfy `p` keeps keys unique; every kept item is an item of `s`.
pub proof fn lemma_unique_filter<T, K>(s: Seq<T>, key: spec_fn(T) -> K, p: spec_fn(T) -> bool)
    requires
        unique_by(s, key),
    ensures
        unique_by(s.filter(p), key),
        forall|j: int| 0 <= j < s.filter(p).len() ==> s.contains(#[trigger] s.filter(p)[j]),
    decreases s.len(),
{
    reveal_with_fuel(Seq::filter, 1);
    if s.len() > 0 {
        let d = s.drop_last();
        assert forall|a: int, b: int| 0 <= a < b < d.len() implies key(d[a]) != key(d[b]) by {
            assert(d[a] == s[a] && d[b] == s[b]);
        }
        lemma_unique_filter(d, key, p);
        let f = d.filter(p);
        if p(s.last()) {
            assert forall|j: int| 0 <= j < f.len() implies key(f[j]) != key(s.last()) by {
                assert(d.contains(f[j]));
                let i = choose|i: int| 0 <= i < d.len() && d[i] == f[j];
                assert(s[i] == d[i]);
            }
            lemma_unique_push(f, key, s.last());
            assert forall|j: int| 0 <= j < s.filter(p).len() implies s.contains(#[trigger] s.filter(p)[j]) by {
                if j < f.len() {
                    assert(d.contains(f[j]));
                    let i = choose|i: int| 0 <= i < d.len() && d[i] == f[j];
                    assert(s[i] == d[i]);
                } else {
                    assert(s[s.len() - 1] == s.filter(p)[j]);
                }
            }
        } else {
            assert forall|j: int| 0 <= j < s.filter(p).len() implies s.contains(#[trigger] s.filter(p)[j]) by {
                assert(d.contains(f[j]));
                let i = choose|i: int| 0 <= i < d.len() && d[i] == f[j];
                assert(s[i] == d[i]);
            }
        }
    }
}

} // verus!
