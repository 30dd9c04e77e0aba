//! Keyed collections held in a `Vec` whose keys are pairwise distinct, read
//! as a map from key to item.

use vstd::prelude::*;
use crate::text::str_eq;

verus! {

/// An item that is filed under a text key.
pub trait Keyed: Sized {
    /// The key of the item.
    spec fn key(&self) -> Seq<char>;

    /// The key of the item, as text.
    fn key_str(&self) -> (r: &str)
        ensures
            r@ == self.key(),
    ;
}

/// No two items share a key.
pub open spec fn unique_keys<T: Keyed>(s: Seq<T>) -> bool {
    forall|i: int, j: int| 0 <= i < s.len() && 0 <= j < s.len() && i != j ==> #[trigger] s[i].key() != #[trigger] s[j].key()
}

/// Some item has key `k`.
pub open spec fn has_key<T: Keyed>(s: Seq<T>, k: Seq<char>) -> bool {
    exists|i: int| 0 <= i < s.len() && #[trigger] s[i].key() == k
}

/// The position of an item with key `k`.
pub open spec fn key_index<T: Keyed>(s: Seq<T>, k: Seq<char>) -> int {
    choose|i: int| 0 <= i < s.len() && #[trigger] s[i].key() == k
}

/// The items read as a map from key to item.
pub open spec fn keyed_map<T: Keyed>(s: Seq<T>) -> Map<Seq<char>, T> {
    Map::new(|k: Seq<char>| has_key(s, k), |k: Seq<char>| s[key_index(s, k)])
}

/// Each item is what the map gives for its key.
pub proof fn lemma_keyed_map_at<T: Keyed>(s: Seq<T>, i: int)
    requires
        unique_keys(s),
        0 <= i < s.len(),
    ensures
        keyed_map(s).contains_key(s[i].key()),
        keyed_map(s)[s[i].key()] == s[i],
        key_index(s, s[i].key()) == i,
{
    assert(has_key(s, s[i].key()));
    let j = key_index(s, s[i].key());
    assert(s[j].key() == s[i].key());
}

/// Every item of the map stands in the list.
pub proof fn lemma_keyed_map_has<T: Keyed>(s: Seq<T>, k: Seq<char>)
    requires
        keyed_map(s).contains_key(k),
    ensures
        0 <= key_index(s, k) < s.len(),
        s[key_index(s, k)].key() == k,
        keyed_map(s)[k] == s[key_index(s, k)],
{
}

/// Appending an item with a new key adds it to the map.
pub proof fn lemma_keyed_map_push<T: Keyed>(s: Seq<T>, x: T)
    requires
        unique_keys(s),
        !has_key(s, x.key()),
    ensures
        unique_keys(s.push(x)),
        keyed_map(s.push(x)) == keyed_map(s).insert(x.key(), x),
{
    let t = s.push(x);
    assert forall|i: int, j: int| 0 <= i < t.len() && 0 <= j < t.len() && i != j implies #[trigger] t[i].key() != #[trigger] t[j].key() by {
        if i < s.len() && j < s.len() {
            assert(t[i] == s[i] && t[j] == s[j]);
        } else if i < s.len() {
            assert(t[i] == s[i]);
        } else {
            assert(t[j] == s[j]);
        }
    }
    assert forall|k: Seq<char>| #[trigger] has_key(t, k) == (has_key(s, k) || k == x.key()) by {
        if has_key(s, k) {
            let i = key_index(s, k);
            assert(t[i] == s[i]);
        }
        if k == x.key() {
            assert(t[s.len() as int] == x);
        }
        if has_key(t, k) && k != x.key() {
            let i = key_index(t, k);
            if i == s.len() {
            } else {
                assert(t[i] == s[i]);
            }
        }
    }
    assert forall|k: Seq<char>| #[trigger] keyed_map(t).contains_key(k) implies keyed_map(t)[k] == keyed_map(s).insert(x.key(), x)[k] by {
        if k == x.key() {
            lemma_keyed_map_at(t, s.len() as int);
        } else {
            let i = key_index(s, k);
            assert(t[i] == s[i]);
            lemma_keyed_map_at(t, i);
        }
    }
    assert(keyed_map(t) =~= keyed_map(s).insert(x.key(), x));
}

/// Replacing the item at `i` by one with the same key updates the map.
pub proof fn lemma_keyed_map_update<T: Keyed>(s: Seq<T>, i: int, x: T)
    requires
        unique_keys(s),
        0 <= i < s.len(),
        s[i].key() == x.key(),
    ensures
        unique_keys(s.update(i, x)),
        keyed_map(s.update(i, x)) == keyed_map(s).insert(x.key(), x),
{
    let t = s.update(i, x);
    assert forall|a: int, b: int| 0 <= a < t.len() && 0 <= b < t.len() && a != b implies #[trigger] t[a].key() != #[trigger] t[b].key() by {
        assert(t[a].key() == s[a].key());
        assert(t[b].key() == s[b].key());
    }
    assert forall|k: Seq<char>| #[trigger] has_key(t, k) == has_key(s, k) by {
        if has_key(s, k) {
            let j = key_index(s, k);
            assert(t[j].key() == s[j].key());
        }
        if has_key(t, k) {
            let j = key_index(t, k);
            assert(t[j].key() == s[j].key());
        }
    }
    assert forall|k: Seq<char>| #[trigger] keyed_map(t).contains_key(k) implies keyed_map(t)[k] == keyed_map(s).insert(x.key(), x)[k] by {
        let j = key_index(s, k);
        assert(t[j].key() == s[j].key());
        lemma_keyed_map_at(t, j);
        if j != i {
            assert(t[j] == s[j]);
            lemma_keyed_map_at(s, j);
        }
    }
    assert(keyed_map(t) =~= keyed_map(s).insert(x.key(), x));
}

/// Removing the item at `i` removes its key from the map.
pub proof fn lemma_keyed_map_remove<T: Keyed>(s: Seq<T>, i: int)
    requires
        unique_keys(s),
        0 <= i < s.len(),
    ensures
        unique_keys(s.remove(i)),
        keyed_map(s.remove(i)) == keyed_map(s).remove(s[i].key()),
{
    let t = s.remove(i);
    let k0 = s[i].key();
    assert forall|a: int, b: int| 0 <= a < t.len() && 0 <= b < t.len() && a != b implies #[trigger] t[a].key() != #[trigger] t[b].key() by {
        let a2 = if a < i { a } else { a + 1 };
        let b2 = if b < i { b } else { b + 1 };
        assert(t[a] == s[a2]);
        assert(t[b] == s[b2]);
    }
    assert forall|k: Seq<char>| #[trigger] has_key(t, k) == (has_key(s, k) && k != k0) by {
        if has_key(s, k) && k != k0 {
            let j = key_index(s, k);
            if j < i {
                assert(t[j] == s[j]);
            } else {
                assert(j != i);
                assert(t[j - 1] == s[j]);
            }
        }
        if has_key(t, k) {
            let j = key_index(t, k);
            let j2 = if j < i { j } else { j + 1 };
            assert(t[j] == s[j2]);
            assert(j2 != i);
        }
    }
    assert forall|k: Seq<char>| #[trigger] keyed_map(t).contains_key(k) implies keyed_map(t)[k] == keyed_map(s).remove(k0)[k] by {
        let j = key_index(t, k);
        let j2 = if j < i { j } else { j + 1 };
        assert(t[j] == s[j2]);
        lemma_keyed_map_at(t, j);
        lemma_keyed_map_at(s, j2);
    }
    assert(keyed_map(t) =~= keyed_map(s).remove(k0));
}

/// The empty list is the empty map.
pub proof fn lemma_keyed_map_empty<T: Keyed>(s: Seq<T>)
    requires
        s.len() == 0,
    ensures
        unique_keys(s),
        keyed_map(s) == Map::<Seq<char>, T>::empty(),
{
    assert(keyed_map(s) =~= Map::<Seq<char>, T>::empty());
}

/// The position of the item with key `k`, if any.
pub fn find_key<T: Keyed>(v: &Vec<T>, k: &str) -> (r: Option<usize>)
    ensures
        match r {
            Some(i) => i < v@.len() && v@[i as int].key() == k@,
            None => !has_key(v@, k@),
        },
{
    let mut i: usize = 0;
    while i < v.len()
        invariant
            i <= v.len(),
            forall|j: int| 0 <= j < i ==> #[trigger] v@[j].key() != k@,
        decreases v.len() - i,
    {
        if str_eq(v[i].key_str(), k) {
            return Some(i);
        }
        i += 1;
    }
    None
}

/// Files `x` under its key, replacing an item with the same key.
pub fn upsert<T: Keyed>(v: &mut Vec<T>, x: T)
    requires
        unique_keys(old(v)@),
    ensures
        unique_keys(final(v)@),
        keyed_map(final(v)@) == keyed_map(old(v)@).insert(x.key(), x),
{
    match find_key(v, x.key_str()) {
        Some(i) => {
            proof {
                lemma_keyed_map_update(v@, i as int, x);
            }
            v.set(i, x);
        },
        None => {
            proof {
                lemma_keyed_map_push(v@, x);
            }
            v.push(x);
        },
    }
}

/// Removes the item filed under `k`, if any, and returns it.
pub fn remove_key<T: Keyed>(v: &mut Vec<T>, k: &str) -> (r: Option<T>)
    requires
        unique_keys(old(v)@),
    ensures
        unique_keys(final(v)@),
        keyed_map(final(v)@) == keyed_map(old(v)@).remove(k@),
        match r {
            Some(x) => keyed_map(old(v)@).contains_key(k@) && x == keyed_map(old(v)@)[k@],
            None => !keyed_map(old(v)@).contains_key(k@) && final(v)@ == old(v)@,
        },
{
    match find_key(v, k) {
        Some(i) => {
            proof {
                lemma_keyed_map_remove(v@, i as int);
                lemma_keyed_map_at(v@, i as int);
            }
            Some(v.remove(i))
        },
        None => {
            assert(keyed_map(v@).remove(k@) =~= keyed_map(v@));
            None
        },
    }
}

} // verus!
