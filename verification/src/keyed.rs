//! Lists of entries keyed by text, read as maps: each key occurs once.

use vstd::prelude::*;
use crate::text::str_eq;

verus! {

/// No key occurs twice.
pub open spec fn unique_keys<X>(v: Seq<(String, X)>) -> bool {
    forall|i: int, j: int| 0 <= i < j < v.len() ==> (#[trigger] v[i]).0@ != (#[trigger] v[j]).0@
}

/// Some entry has key `k`.
pub open spec fn has_key<X>(v: Seq<(String, X)>, k: Seq<char>) -> bool {
    exists|i: int| 0 <= i < v.len() && (#[trigger] v[i]).0@ == k
}

/// The value stored under `k`, if any.
pub open spec fn value_at<X>(v: Seq<(String, X)>, k: Seq<char>) -> Option<X> {
    if has_key(v, k) {
        Some(v[choose|i: int| 0 <= i < v.len() && (#[trigger] v[i]).0@ == k].1)
    } else {
        None
    }
}

/// With unique keys, the entry with key `k` holds the value stored under `k`.
pub proof fn lemma_value_at_index<X>(v: Seq<(String, X)>, i: int)
    requires
        unique_keys(v),
        0 <= i < v.len(),
    ensures
        value_at(v, v[i].0@) == Some(v[i].1),
{
    let k = v[i].0@;
    assert(has_key(v, k));
    let j = choose|j: int| 0 <= j < v.len() && (#[trigger] v[j]).0@ == k;
    if j != i {
        if j < i {
            assert(v[j].0@ != v[i].0@);
        } else {
            assert(v[i].0@ != v[j].0@);
        }
    }
}

/// Replacing the value of entry `i` changes only the value under its key.
pub proof fn lemma_value_at_update<X>(v: Seq<(String, X)>, i: int, e: (String, X))
    requires
        unique_keys(v),
        0 <= i < v.len(),
        e.0@ == v[i].0@,
    ensures
        unique_keys(v.update(i, e)),
        forall|k: Seq<char>|
            #[trigger] value_at(v.update(i, e), k) == if k == e.0@ {
                Some(e.1)
            } else {
                value_at(v, k)
            },
{
    let w = v.update(i, e);
    assert forall|a: int, b: int| 0 <= a < b < w.len() implies (#[trigger] w[a]).0@ != (
    #[trigger] w[b]).0@ by {
        assert(v[a].0@ != v[b].0@);
    }
    assert forall|k: Seq<char>|
        #[trigger] value_at(w, k) == if k == e.0@ {
            Some(e.1)
        } else {
            value_at(v, k)
        } by {
        if k == e.0@ {
            lemma_value_at_index(w, i);
        } else if has_key(v, k) {
            let j = choose|j: int| 0 <= j < v.len() && (#[trigger] v[j]).0@ == k;
            lemma_value_at_index(v, j);
            lemma_value_at_index(w, j);
        } else {
            if has_key(w, k) {
                let j = choose|j: int| 0 <= j < w.len() && (#[trigger] w[j]).0@ == k;
                assert(v[j].0@ == k);
            }
        }
    }
}

/// Adding an entry with a new key stores its value under that key.
pub proof fn lemma_value_at_push<X>(v: Seq<(String, X)>, e: (String, X))
    requires
        unique_keys(v),
        !has_key(v, e.0@),
    ensures
        unique_keys(v.push(e)),
        forall|k: Seq<char>|
            #[trigger] value_at(v.push(e), k) == if k == e.0@ {
                Some(e.1)
            } else {
                value_at(v, k)
            },
{
    let w = v.push(e);
    assert forall|a: int, b: int| 0 <= a < b < w.len() implies (#[trigger] w[a]).0@ != (
    #[trigger] w[b]).0@ by {
        if b == v.len() {
            assert(w[a] == v[a]);
        } else {
            assert(v[a].0@ != v[b].0@);
        }
    }
    assert forall|k: Seq<char>|
        #[trigger] value_at(w, k) == if k == e.0@ {
            Some(e.1)
        } else {
            value_at(v, k)
        } by {
        if k == e.0@ {
            lemma_value_at_index(w, v.len() as int);
        } else if has_key(v, k) {
            let j = choose|j: int| 0 <= j < v.len() && (#[trigger] v[j]).0@ == k;
            lemma_value_at_index(v, j);
            lemma_value_at_index(w, j);
        } else {
            if has_key(w, k) {
                let j = choose|j: int| 0 <= j < w.len() && (#[trigger] w[j]).0@ == k;
                assert(j < v.len());
                assert(v[j].0@ == k);
            }
        }
    }
}

/// Removing entry `i` removes its key and keeps the others.
pub proof fn lemma_value_at_remove<X>(v: Seq<(String, X)>, i: int)
    requires
        unique_keys(v),
        0 <= i < v.len(),
    ensures
        unique_keys(v.remove(i)),
        forall|k: Seq<char>|
            #[trigger] value_at(v.remove(i), k) == if k == v[i].0@ {
                None
            } else {
                value_at(v, k)
            },
{
    let w = v.remove(i);
    assert forall|a: int, b: int| 0 <= a < b < w.len() implies (#[trigger] w[a]).0@ != (
    #[trigger] w[b]).0@ by {
        let a2 = if a < i { a } else { a + 1 };
        let b2 = if b < i { b } else { b + 1 };
        assert(w[a] == v[a2]);
        assert(w[b] == v[b2]);
        assert(v[a2].0@ != v[b2].0@);
    }
    assert forall|k: Seq<char>|
        #[trigger] value_at(w, k) == if k == v[i].0@ {
            None
        } else {
            value_at(v, k)
        } by {
        if has_key(w, k) {
            let j = choose|j: int| 0 <= j < w.len() && (#[trigger] w[j]).0@ == k;
            let j2 = if j < i { j } else { j + 1 };
            assert(w[j] == v[j2]);
            lemma_value_at_index(w, j);
            lemma_value_at_index(v, j2);
            if k == v[i].0@ {
                assert(j2 != i);
                if j2 < i {
                    assert(v[j2].0@ != v[i].0@);
                } else {
                    assert(v[i].0@ != v[j2].0@);
                }
            }
        } else {
            if k != v[i].0@ && has_key(v, k) {
                let j = choose|j: int| 0 <= j < v.len() && (#[trigger] v[j]).0@ == k;
                let j2 = if j < i { j } else { j - 1 };
                assert(w[j2] == v[j]);
            }
        }
    }
}

/// The position of the entry with key `k`, if any.
pub fn find_key<X>(v: &Vec<(String, X)>, k: &str) -> (r: Option<usize>)
    ensures
        match r {
            Some(i) => i < v@.len() && v@[i as int].0@ == k@,
            None => !has_key(v@, k@),
        },
{
    let mut i: usize = 0;
    while i < v.len()
        invariant
            i <= v@.len(),
            forall|j: int| 0 <= j < i ==> (#[trigger] v@[j]).0@ != k@,
        decreases v.len() - i,
    {
        if str_eq(v[i].0.as_str(), k) {
            return Some(i);
        }
        i = i + 1;
    }
    None
}

} // verus!
