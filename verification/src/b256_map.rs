//! A hash map whose keys are 32-byte hashes.

use vstd::prelude::*;
use std::collections::hash_map::Entry;
use vstd::std_specs::hash::EntrySpecFns;
use crate::bytes::B256;

verus! {

/// A byte string of fixed length: the key of a [`B256Map`].
#[verifier::external_type_specification]
#[verifier::external_body]
pub struct ExFixedBytes<const N: usize>(alloy_primitives::FixedBytes<N>);

/// What the keys of a [`B256Map`] are hashed with.
#[verifier::external_type_specification]
#[verifier::external_body]
pub struct ExFbBuildHasher<const N: usize>(alloy_primitives::map::FbBuildHasher<N>);

/// A map from 32-byte hashes to values.
pub type B256Map<V> = alloy_primitives::map::B256Map<V>;

/// The key that holds these bytes.
pub uninterp spec fn key_of(bytes: Seq<u8>) -> alloy_primitives::FixedBytes<32>;

/// What a map holds, by the bytes of its keys.
pub open spec fn contents<V>(map: B256Map<V>) -> Map<Seq<u8>, V> {
    Map::new(
        |bytes: Seq<u8>| bytes.len() == 32 && map@.contains_key(key_of(bytes)),
        |bytes: Seq<u8>| map@[key_of(bytes)],
    )
}

/// `alloy_primitives::FixedBytes::new`: the key that holds the given bytes. No other bytes make the
/// same key.
#[verifier::external_body]
fn make_key(bytes: &B256) -> (r: alloy_primitives::FixedBytes<32>)
    ensures
        r == key_of(bytes@),
        forall|other: Seq<u8>| other.len() == 32 && #[trigger] key_of(other) == r ==> other == bytes@,
{
    alloy_primitives::FixedBytes::new(*bytes)
}

/// `insert` of `alloy_primitives::map::B256Map`, which is a `std::collections::HashMap`: maps a key
/// to a value, and gives what it mapped to before, if anything.
#[verifier::external_body]
fn map_insert<V>(map: &mut B256Map<V>, key: alloy_primitives::FixedBytes<32>, value: V) -> (r: Option<
    V,
>)
    ensures
        r == old(map)@.get(key),
        final(map)@ == old(map)@.insert(key, value),
{
    map.insert(key, value)
}

/// `entry` of `alloy_primitives::map::B256Map`, which is a `std::collections::HashMap`: the place of
/// a key in the map, with what it maps to, if anything. What is left in that place is what the key
/// maps to afterwards; nothing else in the map changes.
#[verifier::external_body]
fn map_entry<'a, V>(map: &'a mut B256Map<V>, key: alloy_primitives::FixedBytes<32>) -> (r: Entry<
    'a,
    alloy_primitives::FixedBytes<32>,
    V,
>)
    ensures
        r.value() == old(map)@.get(key),
        final(map)@ == (match r.final_value() {
            Some(value) => old(map)@.insert(key, value),
            None => old(map)@.remove(key),
        }),
{
    map.entry(key)
}

/// A map without entries.
pub fn empty<V>() -> (r: B256Map<V>)
    ensures
        contents(r) == Map::<Seq<u8>, V>::empty(),
{
    let r: B256Map<V> = Default::default();
    assert(contents(r) =~= Map::<Seq<u8>, V>::empty());
    r
}

/// Maps a hash to a value, and gives what it mapped to before, if anything.
pub fn insert<V>(map: &mut B256Map<V>, hash: &B256, value: V) -> (r: Option<V>)
    ensures
        r == contents(*old(map)).get(hash@),
        contents(*final(map)) == contents(*old(map)).insert(hash@, value),
{
    let key = make_key(hash);
    let replaced = map_insert(map, key, value);
    assert(contents(*map) =~= contents(*old(map)).insert(hash@, value));
    replaced
}

/// What a hash maps to, to be changed in place. A hash that is not in the map is entered first, with
/// the value given for it.
pub fn entry<'a, V>(map: &'a mut B256Map<V>, hash: &B256, absent: V) -> (r: &'a mut V)
    ensures
        *r == (if contents(*old(map)).contains_key(hash@) {
            contents(*old(map))[hash@]
        } else {
            absent
        }),
        contents(*final(map)) == contents(*old(map)).insert(hash@, *final(r)),
{
    let key = make_key(hash);
    map_entry(map, key).or_insert(absent)
}

/// A map holds something under bytes exactly where they are the 32 bytes of one of its keys, and it is
/// what that key maps to.
pub proof fn a_map_is_read_by_its_keys<V>(map: B256Map<V>, bytes: Seq<u8>)
    ensures
        contents(map).contains_key(bytes) <==> bytes.len() == 32 && map@.contains_key(key_of(bytes)),
        contents(map).contains_key(bytes) ==> contents(map)[bytes] == map@[key_of(bytes)],
{
}

} // verus!
