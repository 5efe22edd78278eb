//! The concurrent maps the bot keeps its per-chat data in, and what each operation on
//! them does to what they hold.
use vstd::prelude::*;
use dashmap::DashMap;

verus! {

#[verifier::external_type_specification]
#[verifier::external_body]
#[verifier::reject_recursive_types(K)]
#[verifier::reject_recursive_types(V)]
#[verifier::reject_recursive_types(S)]
pub struct ExDashMap<K, V, S>(DashMap<K, V, S>);

/// A value together with the tick at which it was last written or read.
#[derive(Clone, Copy, Debug)]
pub struct TrackedEntry<T> {
    pub value: T,
    pub last_touch: u64,
}

/// What a cache map holds: each key's text mapped to its value's text.
pub uninterp spec fn cache_contents(map: DashMap<String, String>) -> Map<Seq<char>, Seq<char>>;

/// What an expiration map holds: each chat's text mapped to its timer and last touch.
pub uninterp spec fn expiration_contents(map: DashMap<String, TrackedEntry<u32>>) -> Map<
    Seq<char>,
    (u32, u64),
>;

/// `DashMap::new`: the new map holds nothing.
#[verifier::external_body]
pub(crate) fn cache_new() -> (fresh: DashMap<String, String>)
    ensures
        cache_contents(fresh) =~= Map::empty(),
{
    DashMap::new()
}

/// `DashMap::insert`: afterwards `key` maps to `value`, all else unchanged.
#[verifier::external_body]
pub(crate) fn cache_insert(map: &mut DashMap<String, String>, key: String, value: String)
    ensures
        cache_contents(*final(map)) == cache_contents(*old(map)).insert(key@, value@),
{
    map.insert(key, value);
}

/// `DashMap::contains_key`: whether the map holds `key`.
#[verifier::external_body]
pub(crate) fn cache_contains(map: &DashMap<String, String>, key: &str) -> (found: bool)
    ensures
        found == cache_contents(*map).contains_key(key@),
{
    map.contains_key(key)
}

/// `DashMap::remove`: afterwards the map does not hold `key`, all else unchanged.
#[verifier::external_body]
pub(crate) fn cache_remove(map: &mut DashMap<String, String>, key: &str)
    ensures
        cache_contents(*final(map)) == cache_contents(*old(map)).remove(key@),
{
    map.remove(key);
}

/// `DashMap::is_empty`: whether the map holds no key.
#[verifier::external_body]
pub(crate) fn cache_is_empty(map: &DashMap<String, String>) -> (empty: bool)
    ensures
        empty == (cache_contents(*map).dom() =~= Set::empty()),
{
    map.is_empty()
}

/// `DashMap::new`: the new map holds nothing.
#[verifier::external_body]
pub(crate) fn expirations_new() -> (fresh: DashMap<String, TrackedEntry<u32>>)
    ensures
        expiration_contents(fresh) =~= Map::empty(),
{
    DashMap::new()
}

/// `DashMap::insert`: afterwards `key` maps to `entry`, all else unchanged.
#[verifier::external_body]
pub(crate) fn expirations_insert(
    map: &mut DashMap<String, TrackedEntry<u32>>,
    key: String,
    entry: TrackedEntry<u32>,
)
    ensures
        expiration_contents(*final(map)) == expiration_contents(*old(map)).insert(
            key@,
            (entry.value, entry.last_touch),
        ),
{
    map.insert(key, entry);
}

/// `DashMap::get`: the entry of `key`, copied out, if the map holds one.
#[verifier::external_body]
pub(crate) fn expirations_get(map: &DashMap<String, TrackedEntry<u32>>, key: &str) -> (found:
    Option<TrackedEntry<u32>>)
    ensures
        match found {
            Some(e) => expiration_contents(*map).contains_key(key@) && expiration_contents(
                *map,
            )[key@] == (e.value, e.last_touch),
            None => !expiration_contents(*map).contains_key(key@),
        },
{
    match map.get(key) {
        Some(entry) => Some(*entry.value()),
        None => None,
    }
}

/// `DashMap::remove`: afterwards the map does not hold `key`, all else unchanged.
#[verifier::external_body]
pub(crate) fn expirations_remove(map: &mut DashMap<String, TrackedEntry<u32>>, key: &str)
    ensures
        expiration_contents(*final(map)) == expiration_contents(*old(map)).remove(key@),
{
    map.remove(key);
}

/// `DashMap::len`: how many keys the map holds.
#[verifier::external_body]
pub(crate) fn expirations_len(map: &DashMap<String, TrackedEntry<u32>>) -> (count: usize)
    ensures
        count == expiration_contents(*map).len(),
{
    map.len()
}

/// `DashMap::iter`, each entry handed out as its key and last touch: every key the map
/// holds comes out once, in an order the map's hashing decides.
#[verifier::external_body]
pub(crate) fn expirations_touches(map: &DashMap<String, TrackedEntry<u32>>) -> (touches: Vec<
    (String, u64),
>)
    ensures
        touches@.len() == expiration_contents(*map).len(),
        forall|i: int|
            0 <= i < touches@.len() ==> expiration_contents(*map).contains_key(
                (#[trigger] touches@[i]).0@,
            ) && expiration_contents(*map)[touches@[i].0@].1 == touches@[i].1,
        forall|i: int, j: int|
            0 <= i < j < touches@.len() ==> (#[trigger] touches@[i]).0@ != (
            #[trigger] touches@[j]).0@,
        forall|k: Seq<char>|
            expiration_contents(*map).contains_key(k) ==> exists|i: int|
                0 <= i < touches@.len() && (#[trigger] touches@[i]).0@ == k,
{
    map.iter().map(|entry| (entry.key().clone(), entry.value().last_touch)).collect()
}

/// `slice::sort_unstable_by_key` on the touch: the same pairs, ordered by touch.
#[verifier::external_body]
pub(crate) fn sort_by_touch(touches: &mut Vec<(String, u64)>)
    ensures
        final(touches)@.to_multiset() == old(touches)@.to_multiset(),
        forall|i: int, j: int|
            0 <= i <= j < final(touches)@.len() ==> (#[trigger] final(touches)@[i]).1 <= (
            #[trigger] final(touches)@[j]).1,
{
    touches.sort_unstable_by_key(|pair| pair.1);
}

} // verus!
