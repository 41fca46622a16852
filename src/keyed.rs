//! Tables of named entries kept in order, one entry per name: lookup,
//! insert-or-replace and removal, stated over the entry a name finds.
use vstd::prelude::*;
use crate::json::same_text;

verus! {

/// The value of the first entry of `s` named `key`.
pub open spec fn lookup<V>(s: Seq<(String, V)>, key: Seq<char>) -> Option<V>
    decreases s.len(),
{
    if s.len() == 0 {
        None
    } else if s[0].0@ == key {
        Some(s[0].1)
    } else {
        lookup(s.drop_first(), key)
    }
}

/// The names of the entries of `s`, in order.
pub open spec fn keys<V>(s: Seq<(String, V)>) -> Seq<Seq<char>> {
    s.map_values(|e: (String, V)| e.0@)
}

/// Whether no two entries of `s` share a name.
pub open spec fn unique_keys<V>(s: Seq<(String, V)>) -> bool {
    forall|i: int, j: int| 0 <= i < j < s.len() ==> (#[trigger] s[i]).0@ != (#[trigger] s[j]).0@
}

/// Whether `key` names some entry of `s`.
pub open spec fn has_key<V>(s: Seq<(String, V)>, key: Seq<char>) -> bool {
    exists|i: int| 0 <= i < s.len() && (#[trigger] s[i]).0@ == key
}

/// The entry at the first index named `key` is what `key` finds.
pub proof fn lemma_lookup_first<V>(s: Seq<(String, V)>, i: int, key: Seq<char>)
    requires
        0 <= i < s.len(),
        s[i].0@ == key,
        forall|j: int| 0 <= j < i ==> (#[trigger] s[j]).0@ != key,
    ensures
        lookup(s, key) == Some(s[i].1),
    decreases i,
{
    if i > 0 {
        assert(s[0].0@ != key);
        let t = s.drop_first();
        assert forall|j: int| 0 <= j < i - 1 implies (#[trigger] t[j]).0@ != key by {
            assert(t[j] == s[j + 1]);
        }
        lemma_lookup_first(t, i - 1, key);
    }
}

/// A name that no entry carries finds nothing, and one that an entry carries
/// finds something.
pub proof fn lemma_lookup_some<V>(s: Seq<(String, V)>, key: Seq<char>)
    ensures
        lookup(s, key) is Some <==> has_key(s, key),
    decreases s.len(),
{
    if s.len() > 0 {
        let t = s.drop_first();
        lemma_lookup_some(t, key);
        if has_key(t, key) {
            let j = choose|j: int| 0 <= j < t.len() && (#[trigger] t[j]).0@ == key;
            assert(s[j + 1] == t[j]);
        }
        if has_key(s, key) && s[0].0@ != key {
            let j = choose|j: int| 0 <= j < s.len() && (#[trigger] s[j]).0@ == key;
            assert(t[j - 1] == s[j]);
        }
    }
}

/// Replacing an entry whose name is not `key` by another whose name is not
/// `key` leaves what `key` finds unchanged.
pub proof fn lemma_lookup_update<V>(s: Seq<(String, V)>, i: int, e: (String, V), key: Seq<char>)
    requires
        0 <= i < s.len(),
        s[i].0@ != key,
        e.0@ != key,
    ensures
        lookup(s.update(i, e), key) == lookup(s, key),
    decreases s.len(),
{
    let u = s.update(i, e);
    if i == 0 {
        assert(u.drop_first() =~= s.drop_first());
    } else {
        assert(u[0] == s[0]);
        assert(u.drop_first() =~= s.drop_first().update(i - 1, e));
        lemma_lookup_update(s.drop_first(), i - 1, e, key);
    }
}

/// Appending an entry changes only what its own name finds, and only where
/// that name found nothing.
pub proof fn lemma_lookup_push<V>(s: Seq<(String, V)>, e: (String, V), key: Seq<char>)
    ensures
        lookup(s.push(e), key) == if lookup(s, key) is Some {
            lookup(s, key)
        } else if e.0@ == key {
            Some(e.1)
        } else {
            None
        },
    decreases s.len(),
{
    let p = s.push(e);
    if s.len() > 0 {
        assert(p[0] == s[0]);
        assert(p.drop_first() =~= s.drop_first().push(e));
        lemma_lookup_push(s.drop_first(), e, key);
    } else {
        assert(p[0] == e);
        assert(p.drop_first() =~= Seq::<(String, V)>::empty());
        assert(lookup(p.drop_first(), key) is None);
    }
}

/// Removing an entry whose name is not `key` leaves what `key` finds
/// unchanged.
pub proof fn lemma_lookup_remove<V>(s: Seq<(String, V)>, i: int, key: Seq<char>)
    requires
        0 <= i < s.len(),
        s[i].0@ != key,
    ensures
        lookup(s.remove(i), key) == lookup(s, key),
    decreases s.len(),
{
    let r = s.remove(i);
    if i == 0 {
        assert(r =~= s.drop_first());
    } else {
        assert(r[0] == s[0]);
        assert(r.drop_first() =~= s.drop_first().remove(i - 1));
        lemma_lookup_remove(s.drop_first(), i - 1, key);
    }
}

/// The index of the first entry of `s` named `key`.
pub fn position<V>(s: &Vec<(String, V)>, key: &str) -> (r: Option<usize>)
    ensures
        match r {
            Some(i) => i < s@.len() && s@[i as int].0@ == key@
                && forall|j: int| 0 <= j < i ==> (#[trigger] s@[j]).0@ != key@,
            None => forall|j: int| 0 <= j < s@.len() ==> (#[trigger] s@[j]).0@ != key@,
        },
{
    let mut i: usize = 0;
    while i < s.len()
        invariant
            i <= s@.len(),
            forall|j: int| 0 <= j < i ==> (#[trigger] s@[j]).0@ != key@,
        decreases s@.len() - i,
    {
        if same_text(s[i].0.as_str(), key) {
            return Some(i);
        }
        i += 1;
    }
    None
}

/// Sets the entry named `key` to `v`: in the place of the first entry of
/// that name, or appended where there is none.
pub fn upsert<V>(s: &mut Vec<(String, V)>, key: String, v: V)
    ensures
        lookup(final(s)@, key@) == Some(v),
        forall|k: Seq<char>| k != key@ ==> #[trigger] lookup(final(s)@, k) == lookup(old(s)@, k),
        unique_keys(old(s)@) ==> unique_keys(final(s)@),
        has_key(old(s)@, key@) ==> keys(final(s)@) == keys(old(s)@),
        !has_key(old(s)@, key@) ==> keys(final(s)@) == keys(old(s)@).push(key@),
{
    let ghost before = s@;
    let ghost name = key@;
    match position(s, key.as_str()) {
        Some(i) => {
            let ghost e = (key, v);
            s.remove(i);
            s.insert(i, (key, v));
            assert(s@ =~= before.update(i as int, e));
            proof {
                lemma_lookup_first(s@, i as int, name);
                assert forall|k: Seq<char>| k != name implies #[trigger] lookup(s@, k) == lookup(before, k) by {
                    lemma_lookup_update(before, i as int, e, k);
                }
                assert(keys(s@) =~= keys(before));
                assert(has_key(before, name));
            }
        },
        None => {
            let ghost e = (key, v);
            s.push((key, v));
            proof {
                lemma_lookup_some(before, name);
                lemma_lookup_push(before, e, name);
                assert forall|k: Seq<char>| k != name implies #[trigger] lookup(s@, k) == lookup(before, k) by {
                    lemma_lookup_push(before, e, k);
                }
                assert(keys(s@) =~= keys(before).push(name));
                assert(!has_key(before, name));
            }
        },
    }
}

/// Removes the first entry named `key`, giving its value.
pub fn remove_key<V>(s: &mut Vec<(String, V)>, key: &str) -> (r: Option<V>)
    ensures
        r == lookup(old(s)@, key@),
        forall|k: Seq<char>| k != key@ ==> #[trigger] lookup(final(s)@, k) == lookup(old(s)@, k),
        unique_keys(old(s)@) ==> unique_keys(final(s)@) && lookup(final(s)@, key@) is None,
{
    let ghost before = s@;
    match position(s, key) {
        Some(i) => {
            let e = s.remove(i);
            proof {
                lemma_lookup_first(before, i as int, key@);
                assert forall|k: Seq<char>| k != key@ implies #[trigger] lookup(s@, k) == lookup(before, k) by {
                    lemma_lookup_remove(before, i as int, k);
                }
                if unique_keys(before) {
                    assert forall|a: int, b: int| 0 <= a < b < s@.len() implies (#[trigger] s@[a]).0@ != (#[trigger] s@[b]).0@ by {
                        let a2 = if a < i { a } else { a + 1 };
                        let b2 = if b < i { b } else { b + 1 };
                        assert(s@[a] == before[a2]);
                        assert(s@[b] == before[b2]);
                    }
                    assert forall|j: int| 0 <= j < s@.len() implies (#[trigger] s@[j]).0@ != key@ by {
                        let j2 = if j < i { j } else { j + 1 };
                        assert(s@[j] == before[j2]);
                    }
                    lemma_lookup_some(s@, key@);
                }
            }
            Some(e.1)
        },
        None => {
            proof {
                lemma_lookup_some(before, key@);
            }
            None
        },
    }
}

} // verus!
