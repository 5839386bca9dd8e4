//! Insertion-ordered maps and sets of the `indexmap` crate, and what the library relies on of them.
//!
//! The contents of a map are the sequence of its entries, in order; those of a set are the
//! sequence of its values. A map or a set is keyed by a plain value: a text, an integer, or the
//! two halves of an identity's key.
use vstd::prelude::*;
use indexmap::{IndexMap, IndexSet};
use crate::conversation::GroupPermission;
use crate::ids::Did;

verus! {

#[verifier::external_type_specification]
#[verifier::external_body]
#[verifier::reject_recursive_types(K)]
#[verifier::reject_recursive_types(V)]
#[verifier::reject_recursive_types(S)]
pub struct ExIndexMap<K, V, S>(indexmap::IndexMap<K, V, S>);

#[verifier::external_type_specification]
#[verifier::external_body]
#[verifier::reject_recursive_types(T)]
#[verifier::reject_recursive_types(S)]
pub struct ExIndexSet<T, S>(indexmap::IndexSet<T, S>);

/// Whether an entry has this key.
pub open spec fn has_key<K, V>(entries: Seq<(K, V)>, key: K) -> bool {
    exists|i: int| 0 <= i < entries.len() && #[trigger] entries[i].0 == key
}

/// The position of the entry with this key, where there is one.
pub open spec fn key_index<K, V>(entries: Seq<(K, V)>, key: K) -> int {
    choose|i: int| 0 <= i < entries.len() && #[trigger] entries[i].0 == key
}

/// The value under a key.
pub open spec fn lookup<K, V>(entries: Seq<(K, V)>, key: K) -> Option<V> {
    if has_key(entries, key) {
        Some(entries[key_index(entries, key)].1)
    } else {
        None
    }
}

/// The entries after an insertion: a key that is there keeps its place, a new one comes last.
pub open spec fn inserted<K, V>(entries: Seq<(K, V)>, key: K, value: V) -> Seq<(K, V)> {
    if has_key(entries, key) {
        entries.update(key_index(entries, key), (key, value))
    } else {
        entries.push((key, value))
    }
}

/// The entries after a removal that puts the last entry into the free place.
pub open spec fn swap_removed<K, V>(entries: Seq<(K, V)>, key: K) -> Seq<(K, V)> {
    if has_key(entries, key) {
        entries.update(key_index(entries, key), entries.last()).drop_last()
    } else {
        entries
    }
}

/// No key occurs twice.
pub open spec fn distinct_keys<K, V>(entries: Seq<(K, V)>) -> bool {
    forall|i: int, j: int|
        0 <= i < j < entries.len() ==> (#[trigger] entries[i]).0 != (#[trigger] entries[j]).0
}

/// The position of a key, where no key occurs twice.
pub proof fn lemma_key_index<K, V>(entries: Seq<(K, V)>, key: K, i: int)
    requires
        distinct_keys(entries),
        0 <= i < entries.len(),
        entries[i].0 == key,
    ensures
        has_key(entries, key),
        key_index(entries, key) == i,
{
    let k = key_index(entries, key);
    assert(entries[i].0 == key);
    assert(entries[k].0 == key);
}

/// An insertion keeps the keys distinct, and the value is found under its key.
pub proof fn insertion_is_found<K, V>(entries: Seq<(K, V)>, key: K, value: V)
    requires
        distinct_keys(entries),
    ensures
        distinct_keys(inserted(entries, key, value)),
        lookup(inserted(entries, key, value), key) == Some(value),
        has_key(entries, key) ==> key_index(
            inserted(entries, key, value),
            key,
        ) == key_index(entries, key),
        !has_key(entries, key) ==> key_index(
            inserted(entries, key, value),
            key,
        ) == entries.len(),
{
    let after = inserted(entries, key, value);
    if has_key(entries, key) {
        let i = key_index(entries, key);
        assert(entries[i].0 == key);
        assert forall|a: int, b: int| 0 <= a < b < after.len() implies (#[trigger] after[a]).0 != (
        #[trigger] after[b]).0 by {
            assert(entries[a].0 != entries[b].0);
        }
        lemma_key_index(after, key, i);
    } else {
        assert forall|a: int, b: int| 0 <= a < b < after.len() implies (#[trigger] after[a]).0 != (
        #[trigger] after[b]).0 by {
            if b < entries.len() {
                assert(entries[a].0 != entries[b].0);
            } else if entries[a].0 == key {
                assert(has_key(entries, key));
            }
        }
        lemma_key_index(after, key, entries.len() as int);
    }
}

/// A removal keeps the keys distinct, and the key is gone.
pub proof fn removed_key_is_gone<K, V>(entries: Seq<(K, V)>, key: K)
    requires
        distinct_keys(entries),
    ensures
        distinct_keys(swap_removed(entries, key)),
        !has_key(swap_removed(entries, key), key),
{
    let after = swap_removed(entries, key);
    if has_key(entries, key) {
        let i = key_index(entries, key);
        assert(entries[i].0 == key);
        assert forall|a: int, b: int| 0 <= a < b < after.len() implies (#[trigger] after[a]).0 != (
        #[trigger] after[b]).0 by {
            let x = if a == i {
                entries.len() - 1
            } else {
                a
            };
            let y = if b == i {
                entries.len() - 1
            } else {
                b
            };
            assert(after[a] == entries[x] && after[b] == entries[y]);
            assert(x != y);
        }
        if has_key(after, key) {
            let k = key_index(after, key);
            let x = if k == i {
                entries.len() - 1
            } else {
                k
            };
            assert(after[k] == entries[x]);
            assert(entries[x].0 == key && x != i);
        }
    }
}

/// An insertion changes nothing under other keys.
pub proof fn insertion_leaves_others<K, V>(entries: Seq<(K, V)>, key: K, value: V, other: K)
    requires
        distinct_keys(entries),
        other != key,
    ensures
        lookup(inserted(entries, key, value), other) == lookup(entries, other),
{
    insertion_is_found(entries, key, value);
    let after = inserted(entries, key, value);
    if has_key(entries, other) {
        let i = key_index(entries, other);
        assert(entries[i].0 == other);
        assert(after[i] == entries[i]);
        lemma_key_index(after, other, i);
    } else if has_key(after, other) {
        let i = key_index(after, other);
        assert(after[i].0 == other);
        assert(i < entries.len() && entries[i].0 == other);
    }
}

/// A removal changes nothing under other keys.
pub proof fn removal_leaves_others<K, V>(entries: Seq<(K, V)>, key: K, other: K)
    requires
        distinct_keys(entries),
        other != key,
    ensures
        lookup(swap_removed(entries, key), other) == lookup(entries, other),
{
    removed_key_is_gone(entries, key);
    let after = swap_removed(entries, key);
    if has_key(entries, key) {
        let i = key_index(entries, key);
        assert(entries[i].0 == key);
        if has_key(entries, other) {
            let k = key_index(entries, other);
            assert(entries[k].0 == other);
            let x = if k == entries.len() - 1 {
                i
            } else {
                k
            };
            assert(after[x] == entries[k]);
            lemma_key_index(after, other, x);
        } else if has_key(after, other) {
            let k = key_index(after, other);
            let x = if k == i {
                entries.len() - 1
            } else {
                k
            };
            assert(after[k] == entries[x]);
            assert(entries[x].0 == other);
        }
    }
}

/// The values after an insertion into a set.
pub open spec fn set_inserted<T>(values: Seq<T>, value: T) -> Seq<T> {
    if values.contains(value) {
        values
    } else {
        values.push(value)
    }
}

/// The values after a removal from a set that puts the last value into the free place.
pub open spec fn set_swap_removed<T>(values: Seq<T>, value: T) -> Seq<T> {
    if values.contains(value) {
        values.update(values.index_of(value), values.last()).drop_last()
    } else {
        values
    }
}

/// What is put into a set is in it, and nothing else comes in or goes.
pub proof fn set_takes_in<T>(values: Seq<T>, value: T, other: T)
    ensures
        set_inserted(values, value).contains(value),
        other != value ==> (set_inserted(values, value).contains(other) <==> values.contains(other)),
        values.contains(value) ==> set_inserted(values, value) == values,
        !values.contains(value) ==> set_inserted(values, value) == values.push(value),
        values.no_duplicates() ==> set_inserted(values, value).no_duplicates(),
{
    let after = set_inserted(values, value);
    if !values.contains(value) {
        assert(after[values.len() as int] == value);
        if values.contains(other) {
            let i = choose|i: int| 0 <= i < values.len() && values[i] == other;
            assert(after[i] == other);
        }
        if after.contains(other) && other != value {
            let i = choose|i: int| 0 <= i < after.len() && after[i] == other;
            assert(values[i] == other);
        }
        if values.no_duplicates() {
            assert forall|i: int, j: int|
                0 <= i < after.len() && 0 <= j < after.len() && i != j implies after[i]
                != after[j] by {
                if i == values.len() && j < values.len() {
                    assert(values[j] != value);
                }
                if j == values.len() && i < values.len() {
                    assert(values[i] != value);
                }
            }
        }
    }
}

/// What is taken out of a set is no longer in it, and all else stays.
pub proof fn set_takes_out<T>(values: Seq<T>, value: T, other: T)
    requires
        values.no_duplicates(),
    ensures
        !set_swap_removed(values, value).contains(value),
        other != value ==> (set_swap_removed(values, value).contains(other) <==> values.contains(
            other,
        )),
        values.contains(value) ==> set_swap_removed(values, value).len() == values.len() - 1,
        !values.contains(value) ==> set_swap_removed(values, value) == values,
        set_swap_removed(values, value).no_duplicates(),
{
    let after = set_swap_removed(values, value);
    if values.contains(value) {
        let at = values.index_of(value);
        assert(0 <= at < values.len() && values[at] == value);
        let last = values.len() - 1;
        assert forall|i: int| 0 <= i < after.len() implies after[i] != value && after[i] == (if i
            == at {
            values[last]
        } else {
            values[i]
        }) by {}
        if values.contains(other) && other != value {
            let i = choose|i: int| 0 <= i < values.len() && values[i] == other;
            if i == last {
                assert(after[at] == other);
            } else {
                assert(after[i] == other);
            }
        }
        if after.contains(other) {
            let i = choose|i: int| 0 <= i < after.len() && after[i] == other;
            assert(values.contains(after[i])) by {
                if i == at {
                    assert(values[last] == other);
                } else {
                    assert(values[i] == other);
                }
            }
        }
    }
}

/// The entries of a map from reactions to those who reacted.
pub uninterp spec fn reaction_entries(m: IndexMap<String, Vec<Did>>) -> Seq<(Seq<char>, Seq<Did>)>;

/// `IndexMap::new`: a map without entries.
#[verifier::external_body]
pub(crate) fn reactions_new() -> (r: IndexMap<String, Vec<Did>>)
    ensures
        reaction_entries(r) == Seq::<(Seq<char>, Seq<Did>)>::empty(),
{
    IndexMap::new()
}

/// `IndexMap::len`: the number of entries.
#[verifier::external_body]
pub(crate) fn reactions_len(m: &IndexMap<String, Vec<Did>>) -> (r: usize)
    ensures
        r == reaction_entries(*m).len(),
{
    m.len()
}

/// `IndexMap::get`: the value under a key. No key occurs twice in a map.
#[verifier::external_body]
pub(crate) fn reactions_get<'a>(m: &'a IndexMap<String, Vec<Did>>, key: &str) -> (r: Option<
    &'a Vec<Did>,
>)
    ensures
        match r {
            Some(v) => lookup(reaction_entries(*m), key@) == Some(v@),
            None => lookup(reaction_entries(*m), key@) is None,
        },
{
    m.get(key)
}

/// `IndexMap::insert`: puts a value under a key, which keeps its place where it is there and comes
/// last where it is not.
#[verifier::external_body]
pub(crate) fn reactions_insert(m: &mut IndexMap<String, Vec<Did>>, key: String, value: Vec<Did>)
    ensures
        reaction_entries(*final(m)) == inserted(reaction_entries(*old(m)), key@, value@),
{
    m.insert(key, value);
}

/// `IndexMap::swap_remove`: takes the entry of a key out and puts the last entry into its place.
#[verifier::external_body]
pub(crate) fn reactions_swap_remove(m: &mut IndexMap<String, Vec<Did>>, key: &str)
    ensures
        reaction_entries(*final(m)) == swap_removed(reaction_entries(*old(m)), key@),
{
    m.swap_remove(key);
}

/// `IndexMap::clone`: a map with the same entries in the same order.
#[verifier::external_body]
pub(crate) fn reactions_clone(m: &IndexMap<String, Vec<Did>>) -> (r: IndexMap<String, Vec<Did>>)
    ensures
        reaction_entries(r) == reaction_entries(*m),
{
    m.clone()
}

/// The entries of a map from members to their permissions. A key holds the two halves of a
/// member's identity.
pub uninterp spec fn permission_entries(
    m: IndexMap<(u128, u128), Vec<GroupPermission>>,
) -> Seq<(Did, Seq<GroupPermission>)>;

/// `IndexMap::new`: a map without entries.
#[verifier::external_body]
pub(crate) fn permissions_new() -> (r: IndexMap<(u128, u128), Vec<GroupPermission>>)
    ensures
        permission_entries(r) == Seq::<(Did, Seq<GroupPermission>)>::empty(),
{
    IndexMap::new()
}

/// `IndexMap::len`: the number of entries.
#[verifier::external_body]
pub(crate) fn permissions_len(m: &IndexMap<(u128, u128), Vec<GroupPermission>>) -> (r: usize)
    ensures
        r == permission_entries(*m).len(),
{
    m.len()
}

/// `IndexMap::get`: the value under a key. No key occurs twice in a map.
#[verifier::external_body]
pub(crate) fn permissions_get(
    m: &IndexMap<(u128, u128), Vec<GroupPermission>>,
    did: Did,
) -> (r: Option<&Vec<GroupPermission>>)
    ensures
        match r {
            Some(v) => lookup(permission_entries(*m), did) == Some(v@),
            None => lookup(permission_entries(*m), did) is None,
        },
{
    m.get(&(did.hi, did.lo))
}

/// `IndexMap::get_index`: the entry at a position.
#[verifier::external_body]
pub(crate) fn permissions_at(
    m: &IndexMap<(u128, u128), Vec<GroupPermission>>,
    index: usize,
) -> (r: Option<(Did, &Vec<GroupPermission>)>)
    ensures
        match r {
            Some((did, v)) => index < permission_entries(*m).len()
                && permission_entries(*m)[index as int] == (did, v@),
            None => index >= permission_entries(*m).len(),
        },
{
    m.get_index(index).map(|(key, value)| (Did { hi: key.0, lo: key.1 }, value))
}

/// `IndexMap::insert`: puts a value under a key, which keeps its place where it is there and comes
/// last where it is not.
#[verifier::external_body]
pub(crate) fn permissions_insert(
    m: &mut IndexMap<(u128, u128), Vec<GroupPermission>>,
    did: Did,
    value: Vec<GroupPermission>,
)
    ensures
        permission_entries(*final(m)) == inserted(permission_entries(*old(m)), did, value@),
{
    m.insert((did.hi, did.lo), value);
}

/// `IndexMap::clone`: a map with the same entries in the same order.
#[verifier::external_body]
pub(crate) fn permissions_clone(
    m: &IndexMap<(u128, u128), Vec<GroupPermission>>,
) -> (r: IndexMap<(u128, u128), Vec<GroupPermission>>)
    ensures
        permission_entries(r) == permission_entries(*m),
{
    m.clone()
}

/// The values of a set of identities. Each is held as its two halves.
pub uninterp spec fn did_values(s: IndexSet<(u128, u128)>) -> Seq<Did>;

/// `IndexSet::new`: a set without values.
#[verifier::external_body]
pub(crate) fn dids_new() -> (r: IndexSet<(u128, u128)>)
    ensures
        did_values(r) == Seq::<Did>::empty(),
{
    IndexSet::new()
}

/// `IndexSet::contains`: whether a value is there.
#[verifier::external_body]
pub(crate) fn dids_contains(s: &IndexSet<(u128, u128)>, did: Did) -> (r: bool)
    ensures
        r == did_values(*s).contains(did),
{
    s.contains(&(did.hi, did.lo))
}

/// `IndexSet::insert`: puts a value last where it is not there yet, and says whether it did.
#[verifier::external_body]
pub(crate) fn dids_insert(s: &mut IndexSet<(u128, u128)>, did: Did) -> (r: bool)
    ensures
        did_values(*final(s)) == set_inserted(did_values(*old(s)), did),
        r == !did_values(*old(s)).contains(did),
{
    s.insert((did.hi, did.lo))
}

/// `IndexSet::swap_remove`: takes a value out, puts the last value into its place, and says
/// whether the value was there.
#[verifier::external_body]
pub(crate) fn dids_swap_remove(s: &mut IndexSet<(u128, u128)>, did: Did) -> (r: bool)
    ensures
        did_values(*final(s)) == set_swap_removed(did_values(*old(s)), did),
        r == did_values(*old(s)).contains(did),
{
    s.swap_remove(&(did.hi, did.lo))
}

/// The entries of a map from members to the payload that waits for their key, and whether the key
/// has come. A key holds the two halves of a member's identity.
pub uninterp spec fn pending_entries(
    m: IndexMap<(u128, u128), (Vec<u8>, bool)>,
) -> Seq<(Did, (Seq<u8>, bool))>;

/// `IndexMap::new`: a map without entries.
#[verifier::external_body]
pub(crate) fn pending_new() -> (r: IndexMap<(u128, u128), (Vec<u8>, bool)>)
    ensures
        pending_entries(r) == Seq::<(Did, (Seq<u8>, bool))>::empty(),
{
    IndexMap::new()
}

/// `IndexMap::len`: the number of entries.
#[verifier::external_body]
pub(crate) fn pending_len(m: &IndexMap<(u128, u128), (Vec<u8>, bool)>) -> (r: usize)
    ensures
        r == pending_entries(*m).len(),
{
    m.len()
}

/// `IndexMap::get`: the value under a key. No key occurs twice in a map.
#[verifier::external_body]
pub(crate) fn pending_get(m: &IndexMap<(u128, u128), (Vec<u8>, bool)>, did: Did) -> (r: Option<
    (&Vec<u8>, bool),
>)
    ensures
        match r {
            Some((data, received)) => lookup(pending_entries(*m), did) == Some((data@, received)),
            None => lookup(pending_entries(*m), did) is None,
        },
{
    m.get(&(did.hi, did.lo)).map(|value| (&value.0, value.1))
}

/// `IndexMap::get_index`: the entry at a position. No other entry has its key.
#[verifier::external_body]
pub(crate) fn pending_at(m: &IndexMap<(u128, u128), (Vec<u8>, bool)>, index: usize) -> (r: Option<
    (Did, &Vec<u8>, bool),
>)
    ensures
        match r {
            Some((did, data, received)) => {
                &&& index < pending_entries(*m).len()
                &&& pending_entries(*m)[index as int] == (did, (data@, received))
                &&& forall|j: int|
                    0 <= j < pending_entries(*m).len() && j != index ==> (
                    #[trigger] pending_entries(*m)[j]).0 != did
            },
            None => index >= pending_entries(*m).len(),
        },
{
    m.get_index(index).map(|(key, value)| (Did { hi: key.0, lo: key.1 }, &value.0, value.1))
}

/// `IndexMap::insert`: puts a value under a key, which keeps its place where it is there and comes
/// last where it is not.
#[verifier::external_body]
pub(crate) fn pending_insert(
    m: &mut IndexMap<(u128, u128), (Vec<u8>, bool)>,
    did: Did,
    data: Vec<u8>,
    received: bool,
)
    ensures
        pending_entries(*final(m)) == inserted(pending_entries(*old(m)), did, (data@, received)),
{
    m.insert((did.hi, did.lo), (data, received));
}

} // verus!
