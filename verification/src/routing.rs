//! Keyed tables of routes and the choice of a route for a request path.

use vstd::prelude::*;
use crate::paths::chars_eq;
use crate::text::{chars_of, trim_end, trim_end_chars};

verus! {

/// The value stored under the first entry whose key is `key`.
pub open spec fn lookup_key<V>(entries: Seq<(Seq<char>, V)>, key: Seq<char>) -> Option<V>
    decreases entries.len(),
{
    if entries.len() == 0 {
        None
    } else if entries[0].0 == key {
        Some(entries[0].1)
    } else {
        lookup_key(entries.drop_first(), key)
    }
}

/// No two entries share a key.
pub open spec fn keys_distinct<V>(entries: Seq<(Seq<char>, V)>) -> bool {
    forall|i: int, j: int|
        0 <= i < entries.len() && 0 <= j < entries.len() && i != j ==> #[trigger] entries[i].0 != #[trigger] entries[j].0
}

/// `i` is the position of the first entry whose key is `key`.
pub open spec fn first_with_key<V>(entries: Seq<(Seq<char>, V)>, key: Seq<char>, i: int) -> bool {
    &&& 0 <= i < entries.len()
    &&& entries[i].0 == key
    &&& forall|j: int| 0 <= j < i ==> entries[j].0 != key
}

/// The table with `key` now mapped to `value`: the first entry for `key` is
/// replaced in place, or a new entry is appended (as `HashMap::insert`).
pub open spec fn upsert<V>(entries: Seq<(Seq<char>, V)>, key: Seq<char>, value: V) -> Seq<
    (Seq<char>, V),
> {
    if exists|i: int| first_with_key(entries, key, i) {
        let i = choose|i: int| first_with_key(entries, key, i);
        entries.update(i, (key, value))
    } else {
        entries.push((key, value))
    }
}

/// The target a request path is served by: the route registered for the
/// path, else the route for the path without trailing `/`, else the default.
pub open spec fn select_target<V>(entries: Seq<(Seq<char>, V)>, default: Option<V>, path: Seq<char>) -> Option<V> {
    match lookup_key(entries, path) {
        Some(v) => Some(v),
        None => match lookup_key(entries, trim_end(path, '/')) {
            Some(v) => Some(v),
            None => default,
        },
    }
}

/// The view of a table of string keys.
pub open spec fn table_view<V>(entries: Seq<(String, V)>) -> Seq<(Seq<char>, V)> {
    entries.map_values(|e: (String, V)| (e.0@, e.1))
}

/// Looking a key up gives the value of its first entry.
pub proof fn lemma_lookup_index<V>(entries: Seq<(Seq<char>, V)>, key: Seq<char>, i: int)
    requires
        0 <= i < entries.len(),
        entries[i].0 == key,
        forall|j: int| 0 <= j < i ==> entries[j].0 != key,
    ensures
        lookup_key(entries, key) == Some(entries[i].1),
    decreases i,
{
    if i > 0 {
        lemma_lookup_index(entries.drop_first(), key, i - 1);
    }
}

/// A key without an entry is not found.
pub proof fn lemma_lookup_absent<V>(entries: Seq<(Seq<char>, V)>, key: Seq<char>)
    requires
        forall|j: int| 0 <= j < entries.len() ==> entries[j].0 != key,
    ensures
        lookup_key(entries, key) is None,
    decreases entries.len(),
{
    if entries.len() > 0 {
        lemma_lookup_absent(entries.drop_first(), key);
    }
}

/// A key with an entry is found.
pub proof fn lemma_lookup_some<V>(entries: Seq<(Seq<char>, V)>, key: Seq<char>)
    requires
        exists|j: int| 0 <= j < entries.len() && entries[j].0 == key,
    ensures
        lookup_key(entries, key) is Some,
    decreases entries.len(),
{
    if entries[0].0 != key {
        let j = choose|j: int| 0 <= j < entries.len() && entries[j].0 == key;
        assert(entries.drop_first()[j - 1].0 == key);
        lemma_lookup_some(entries.drop_first(), key);
    }
}

/// The position of the first entry whose key is `key`.
pub fn position_of<V>(entries: &Vec<(String, V)>, key: &str) -> (r: Option<usize>)
    ensures
        match r {
            Some(i) => i < entries@.len() && entries@[i as int].0@ == key@ && forall|j: int|
                0 <= j < i ==> entries@[j].0@ != key@,
            None => forall|j: int| 0 <= j < entries@.len() ==> entries@[j].0@ != key@,
        },
{
    let k = chars_of(key);
    let n = entries.len();
    for i in 0..n
        invariant
            n == entries@.len(),
            k@ == key@,
            forall|j: int| 0 <= j < i ==> entries@[j].0@ != key@,
    {
        let e = chars_of(entries[i].0.as_str());
        if chars_eq(e.as_slice(), k.as_slice()) {
            return Some(i);
        }
    }
    None
}

/// Looks `key` up in a table.
pub fn find<'a, V>(entries: &'a Vec<(String, V)>, key: &str) -> (r: Option<&'a V>)
    ensures
        match r {
            Some(v) => lookup_key(table_view(entries@), key@) == Some(*v),
            None => lookup_key(table_view(entries@), key@) is None,
        },
{
    let ghost t = table_view(entries@);
    match position_of(entries, key) {
        Some(i) => {
            proof {
                assert(t[i as int].0 == key@);
                assert forall|j: int| 0 <= j < i implies t[j].0 != key@ by {
                    assert(t[j].0 == entries@[j].0@);
                }
                lemma_lookup_index(t, key@, i as int);
            }
            Some(&entries[i].1)
        },
        None => {
            proof {
                assert forall|j: int| 0 <= j < t.len() implies t[j].0 != key@ by {
                    assert(t[j].0 == entries@[j].0@);
                }
                lemma_lookup_absent(t, key@);
            }
            None
        },
    }
}

/// Maps `key` to `value`, replacing its entry or appending one.
pub fn upsert_entry<V>(entries: &mut Vec<(String, V)>, key: &str, value: V)
    ensures
        table_view(final(entries)@) == upsert(table_view(old(entries)@), key@, value),
{
    let ghost t = table_view(entries@);
    match position_of(entries, key) {
        Some(i) => {
            proof {
                assert(t[i as int].0 == key@);
                assert forall|j: int| 0 <= j < i implies t[j].0 != key@ by {
                    assert(t[j].0 == entries@[j].0@);
                }
                assert(first_with_key(t, key@, i as int));
                let c = choose|c: int| first_with_key(t, key@, c);
                assert(c == i) by {
                    if c < i {
                        assert(t[c].0 == entries@[c].0@);
                    } else if c > i {
                    }
                }
            }
            entries.set(i, (key.to_owned(), value));
            assert(table_view(entries@) =~= t.update(i as int, (key@, value)));
        },
        None => {
            proof {
                assert(!exists|c: int| first_with_key(t, key@, c)) by {
                    assert forall|c: int| 0 <= c < t.len() implies t[c].0 != key@ by {
                        assert(t[c].0 == entries@[c].0@);
                    }
                }
            }
            entries.push((key.to_owned(), value));
            assert(table_view(entries@) =~= t.push((key@, value)));
        },
    }
}

/// After mapping `key` to `value`, looking `key` up gives `value`, and every
/// other key gives what it gave before.
pub proof fn lemma_upsert_lookup<V>(entries: Seq<(Seq<char>, V)>, key: Seq<char>, value: V, other: Seq<char>)
    ensures
        lookup_key(upsert(entries, key, value), key) == Some(value),
        other != key ==> lookup_key(upsert(entries, key, value), other) == lookup_key(entries, other),
{
    let u = upsert(entries, key, value);
    if exists|i: int| first_with_key(entries, key, i) {
        let i = choose|i: int| first_with_key(entries, key, i);
        assert forall|j: int| 0 <= j < i implies u[j].0 != key by {}
        lemma_lookup_index(u, key, i);
        if other != key {
            lemma_lookup_update(entries, i, key, value, other);
        }
    } else {
        assert forall|j: int| 0 <= j < entries.len() implies u[j].0 != key by {
            if entries[j].0 == key {
                lemma_first_exists(entries, key, j);
            }
        }
        lemma_lookup_index(u, key, entries.len() as int);
        if other != key {
            lemma_lookup_push(entries, key, value, other);
        }
    }
}

proof fn lemma_first_exists<V>(entries: Seq<(Seq<char>, V)>, key: Seq<char>, j: int)
    requires
        0 <= j < entries.len(),
        entries[j].0 == key,
    ensures
        exists|i: int| first_with_key(entries, key, i),
    decreases j,
{
    if exists|k: int| 0 <= k < j && entries[k].0 == key {
        let k = choose|k: int| 0 <= k < j && entries[k].0 == key;
        lemma_first_exists(entries, key, k);
    } else {
        assert(first_with_key(entries, key, j));
    }
}

proof fn lemma_lookup_update<V>(entries: Seq<(Seq<char>, V)>, i: int, key: Seq<char>, value: V, other: Seq<char>)
    requires
        0 <= i < entries.len(),
        entries[i].0 == key,
        other != key,
    ensures
        lookup_key(entries.update(i, (key, value)), other) == lookup_key(entries, other),
    decreases entries.len(),
{
    let u = entries.update(i, (key, value));
    if entries.len() > 0 && i > 0 && entries[0].0 != other {
        assert(u.drop_first() =~= entries.drop_first().update(i - 1, (key, value)));
        lemma_lookup_update(entries.drop_first(), i - 1, key, value, other);
    } else if i == 0 {
        assert(u.drop_first() =~= entries.drop_first());
    }
}

proof fn lemma_lookup_push<V>(entries: Seq<(Seq<char>, V)>, key: Seq<char>, value: V, other: Seq<char>)
    requires
        other != key,
    ensures
        lookup_key(entries.push((key, value)), other) == lookup_key(entries, other),
    decreases entries.len(),
{
    let u = entries.push((key, value));
    if entries.len() > 0 && entries[0].0 != other {
        assert(u.drop_first() =~= entries.drop_first().push((key, value)));
        lemma_lookup_push(entries.drop_first(), key, value, other);
    } else if entries.len() == 0 {
        assert(u.drop_first() =~= entries);
    }
}

/// With distinct keys, looking up an entry's key gives that entry's value:
/// the first-match lookup is the lookup of a map.
pub proof fn lemma_distinct_lookup<V>(entries: Seq<(Seq<char>, V)>, i: int)
    requires
        keys_distinct(entries),
        0 <= i < entries.len(),
    ensures
        lookup_key(entries, entries[i].0) == Some(entries[i].1),
{
    assert forall|j: int| 0 <= j < i implies entries[j].0 != entries[i].0 by {
        assert(entries[j].0 != entries[i].0);
    }
    lemma_lookup_index(entries, entries[i].0, i);
}

/// Mapping a key keeps the keys distinct.
pub proof fn lemma_upsert_distinct<V>(entries: Seq<(Seq<char>, V)>, key: Seq<char>, value: V)
    requires
        keys_distinct(entries),
    ensures
        keys_distinct(upsert(entries, key, value)),
{
    let u = upsert(entries, key, value);
    if exists|i: int| first_with_key(entries, key, i) {
        let i = choose|i: int| first_with_key(entries, key, i);
        assert forall|a: int, b: int| 0 <= a < u.len() && 0 <= b < u.len() && a != b implies #[trigger] u[a].0
            != #[trigger] u[b].0 by {
            assert(u[a].0 == entries[a].0);
            assert(u[b].0 == entries[b].0);
        }
    } else {
        assert forall|a: int, b: int| 0 <= a < u.len() && 0 <= b < u.len() && a != b implies #[trigger] u[a].0
            != #[trigger] u[b].0 by {
            if a == entries.len() {
                if u[b].0 == key {
                    lemma_first_exists(entries, key, b);
                }
            } else if b == entries.len() {
                if u[a].0 == key {
                    lemma_first_exists(entries, key, a);
                }
            }
        }
    }
}

/// Which target serves a request.
#[derive(Clone, Copy, Debug, PartialEq, Eq)]
pub enum RouteChoice {
    /// The route at this position of the table.
    Route(usize),
    /// The default target.
    Default,
    /// No target.
    NoRoute,
}

/// Chooses the target for a request path: the route for the path, else the
/// route for the path without trailing `/`, else the default target if there
/// is one.
pub fn choose_route<V>(entries: &Vec<(String, V)>, has_default: bool, path: &str) -> (r: RouteChoice)
    ensures
        match r {
            RouteChoice::Route(i) => i < entries@.len() && (match select_target(
                table_view(entries@),
                None::<V>,
                path@,
            ) {
                Some(v) => v == entries@[i as int].1,
                None => false,
            }),
            RouteChoice::Default => has_default && select_target(table_view(entries@), None::<V>, path@) is None,
            RouteChoice::NoRoute => !has_default && select_target(table_view(entries@), None::<V>, path@) is None,
        },
{
    let ghost t = table_view(entries@);
    match position_of(entries, path) {
        Some(i) => {
            proof {
                assert forall|j: int| 0 <= j < i implies t[j].0 != path@ by {
                    assert(t[j].0 == entries@[j].0@);
                }
                lemma_lookup_index(t, path@, i as int);
            }
            RouteChoice::Route(i)
        },
        None => {
            proof {
                assert forall|j: int| 0 <= j < t.len() implies t[j].0 != path@ by {
                    assert(t[j].0 == entries@[j].0@);
                }
                lemma_lookup_absent(t, path@);
            }
            let p = chars_of(path);
            let trimmed_chars = trim_end_chars(p.as_slice(), '/');
            let trimmed = crate::text::string_of(trimmed_chars.as_slice());
            match position_of(entries, trimmed.as_str()) {
                Some(i) => {
                    proof {
                        assert forall|j: int| 0 <= j < i implies t[j].0 != trimmed@ by {
                            assert(t[j].0 == entries@[j].0@);
                        }
                        lemma_lookup_index(t, trimmed@, i as int);
                    }
                    RouteChoice::Route(i)
                },
                None => {
                    proof {
                        assert forall|j: int| 0 <= j < t.len() implies t[j].0 != trimmed@ by {
                            assert(t[j].0 == entries@[j].0@);
                        }
                        lemma_lookup_absent(t, trimmed@);
                    }
                    if has_default {
                        RouteChoice::Default
                    } else {
                        RouteChoice::NoRoute
                    }
                },
            }
        },
    }
}

} // verus!
