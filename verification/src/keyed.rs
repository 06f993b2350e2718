//! Small string-keyed tables held as vectors of `(key, value)` pairs in which
//! no key occurs twice, specified as lookups by key.
use vstd::prelude::*;
use crate::text::str_eq;

verus! {

/// No key occurs twice.
pub open spec fn keys_distinct<V>(s: Seq<(String, V)>) -> bool {
    forall|i: int, j: int| 0 <= i < s.len() && 0 <= j < s.len() && i != j ==> #[trigger] s[i].0@ != #[trigger] s[j].0@
}

/// Whether some entry has the key `k`.
pub open spec fn has_key<V>(s: Seq<(String, V)>, k: Seq<char>) -> bool {
    exists|i: int| 0 <= i < s.len() && #[trigger] s[i].0@ == k
}

/// The value stored under `k`, if any.
pub open spec fn lookup<V>(s: Seq<(String, V)>, k: Seq<char>) -> Option<V> {
    if has_key(s, k) {
        Some(s[choose|i: int| 0 <= i < s.len() && #[trigger] s[i].0@ == k].1)
    } else {
        None
    }
}

/// The value at a given index is what a lookup of its key finds.
pub proof fn lemma_lookup_index<V>(s: Seq<(String, V)>, i: int)
    requires
        keys_distinct(s),
        0 <= i < s.len(),
    ensures
        lookup(s, s[i].0@) == Some(s[i].1),
{
    assert(has_key(s, s[i].0@));
    let j = choose|j: int| 0 <= j < s.len() && #[trigger] s[j].0@ == s[i].0@;
    assert(j == i);
}

/// Replacing the value at index `i` (keeping its key) changes only the lookup of that key.
pub proof fn lemma_lookup_update<V>(s: Seq<(String, V)>, i: int, e: (String, V))
    requires
        keys_distinct(s),
        0 <= i < s.len(),
        e.0@ == s[i].0@,
    ensures
        keys_distinct(s.update(i, e)),
        forall|k: Seq<char>| #[trigger] lookup(s.update(i, e), k) == if k == e.0@ { Some(e.1) } else { lookup(s, k) },
{
    let t = s.update(i, e);
    assert forall|k: Seq<char>| #[trigger] lookup(t, k) == if k == e.0@ { Some(e.1) } else { lookup(s, k) } by {
        if k == e.0@ {
            lemma_lookup_index(t, i);
        } else {
            if has_key(s, k) {
                let j = choose|j: int| 0 <= j < s.len() && #[trigger] s[j].0@ == k;
                assert(t[j].0@ == k);
                lemma_lookup_index(s, j);
                lemma_lookup_index(t, j);
            } else {
                assert(!has_key(t, k)) by {
                    if has_key(t, k) {
                        let j = choose|j: int| 0 <= j < t.len() && #[trigger] t[j].0@ == k;
                        assert(s[j].0@ == k);
                    }
                }
            }
        }
    }
}

/// Appending an entry with a new key adds only that key.
pub proof fn lemma_lookup_push<V>(s: Seq<(String, V)>, e: (String, V))
    requires
        keys_distinct(s),
        !has_key(s, e.0@),
    ensures
        keys_distinct(s.push(e)),
        forall|k: Seq<char>| #[trigger] lookup(s.push(e), k) == if k == e.0@ { Some(e.1) } else { lookup(s, k) },
{
    let t = s.push(e);
    assert forall|i: int, j: int| 0 <= i < t.len() && 0 <= j < t.len() && i != j implies #[trigger] t[i].0@ != #[trigger] t[j].0@ by {
        if i < s.len() && j < s.len() {
            assert(s[i].0@ != s[j].0@);
        } else if i < s.len() {
            assert(s[i].0@ != e.0@);
        } else {
            assert(s[j].0@ != e.0@);
        }
    }
    assert forall|k: Seq<char>| #[trigger] lookup(t, k) == if k == e.0@ { Some(e.1) } else { lookup(s, k) } by {
        if k == e.0@ {
            lemma_lookup_index(t, s.len() as int);
        } else {
            if has_key(s, k) {
                let j = choose|j: int| 0 <= j < s.len() && #[trigger] s[j].0@ == k;
                assert(t[j].0@ == k);
                lemma_lookup_index(s, j);
                lemma_lookup_index(t, j);
            } else {
                assert(!has_key(t, k)) by {
                    if has_key(t, k) {
                        let j = choose|j: int| 0 <= j < t.len() && #[trigger] t[j].0@ == k;
                        assert(s[j].0@ == k);
                    }
                }
            }
        }
    }
}

/// Removing the entry at index `i` removes only its key.
pub proof fn lemma_lookup_remove<V>(s: Seq<(String, V)>, i: int)
    requires
        keys_distinct(s),
        0 <= i < s.len(),
    ensures
        keys_distinct(s.remove(i)),
        forall|k: Seq<char>| #[trigger] lookup(s.remove(i), k) == if k == s[i].0@ { None } else { lookup(s, k) },
{
    let t = s.remove(i);
    assert forall|a: int, b: int| 0 <= a < t.len() && 0 <= b < t.len() && a != b implies #[trigger] t[a].0@ != #[trigger] t[b].0@ by {
        let a2 = if a < i { a } else { a + 1 };
        let b2 = if b < i { b } else { b + 1 };
        assert(t[a] == s[a2]);
        assert(t[b] == s[b2]);
        assert(s[a2].0@ != s[b2].0@);
    }
    assert forall|k: Seq<char>| #[trigger] lookup(t, k) == if k == s[i].0@ { None } else { lookup(s, k) } by {
        if has_key(t, k) {
            let j = choose|j: int| 0 <= j < t.len() && #[trigger] t[j].0@ == k;
            let j2 = if j < i { j } else { j + 1 };
            assert(t[j] == s[j2]);
            assert(s[j2].0@ != s[i].0@);
            lemma_lookup_index(t, j);
            lemma_lookup_index(s, j2);
        } else {
            if k != s[i].0@ && has_key(s, k) {
                let j = choose|j: int| 0 <= j < s.len() && #[trigger] s[j].0@ == k;
                let j2 = if j < i { j } else { j - 1 };
                assert(t[j2] == s[j]);
                assert(false);
            }
        }
    }
}

/// The index of the entry with key `key`, if there is one.
pub fn find_key<V>(entries: &Vec<(String, V)>, key: &str) -> (r: Option<usize>)
    ensures
        match r {
            Some(i) => i < entries@.len() && entries@[i as int].0@ == key@,
            None => !has_key(entries@, key@),
        },
{
    let n = entries.len();
    let mut i: usize = 0;
    while i < n
        invariant
            i <= n,
            n == entries@.len(),
            forall|j: int| 0 <= j < i ==> #[trigger] entries@[j].0@ != key@,
        decreases n - i,
    {
        if str_eq(entries[i].0.as_str(), key) {
            return Some(i);
        }
        i = i + 1;
    }
    None
}

} // verus!
