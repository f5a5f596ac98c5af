//! The concurrent map that holds the exceptions of each signature.
//!
//! The map is a `dashmap::DashMap`. Its methods change it through a shared
//! reference; here a change takes an exclusive one, so that what the map holds
//! before and after a call can be told.

use crate::record::{AggregatedException, AggregatedView};
use crate::time::Timestamp;
use dashmap::DashMap;
use vstd::prelude::*;

verus! {

/// The map of the crate `dashmap`.
#[verifier::external_type_specification]
#[verifier::external_body]
#[verifier::reject_recursive_types(K)]
#[verifier::reject_recursive_types(V)]
#[verifier::reject_recursive_types(S)]
pub struct ExDashMap<K, V, S>(dashmap::DashMap<K, V, S>);

/// What the map holds: for each signature, its exceptions.
pub uninterp spec fn contents(map: DashMap<String, AggregatedException>) -> Map<
    Seq<char>,
    AggregatedView,
>;

/// What an empty map holds.
pub open spec fn nothing() -> Map<Seq<char>, AggregatedView> {
    Map::empty()
}

/// Whether `m` has exactly `n` keys.
pub open spec fn has_size(m: Map<Seq<char>, AggregatedView>, n: nat) -> bool {
    m.dom().finite() && m.len() == n
}

/// Whether `entries` lists what `m` holds: each key once, with its value.
pub open spec fn lists(
    entries: Seq<(String, AggregatedException)>,
    m: Map<Seq<char>, AggregatedView>,
) -> bool {
    &&& forall|i: int|
        0 <= i < entries.len() ==> m.contains_key((#[trigger] entries[i]).0@) && m[entries[i].0@]
            == entries[i].1@
    &&& forall|i: int, j: int|
        0 <= i < j < entries.len() ==> (#[trigger] entries[i]).0@ != (#[trigger] entries[j]).0@
    &&& forall|k: Seq<char>| #[trigger]
        m.contains_key(k) ==> exists|i: int| 0 <= i < entries.len() && (#[trigger] entries[i]).0@ == k
}

/// Calls `DashMap::new`, which makes an empty map.
#[verifier::external_body]
pub(crate) fn empty() -> (res: DashMap<String, AggregatedException>)
    ensures
        contents(res) == nothing(),
{
    DashMap::new()
}

/// Calls `DashMap::entry`, then `and_modify` and `or_insert` on the entry: where
/// the key is there, its value counts one more exception; where it is not,
/// `first` becomes its value. No other key is touched.
#[verifier::external_body]
pub(crate) fn count_or_insert(
    map: &mut DashMap<String, AggregatedException>,
    key: String,
    now: Timestamp,
    first: AggregatedException,
)
    requires
        contents(*old(map)).contains_key(key@) ==> contents(*old(map))[key@].count < u32::MAX,
    ensures
        contents(*final(map)) == contents(*old(map)).insert(
            key@,
            if contents(*old(map)).contains_key(key@) {
                contents(*old(map))[key@].again(now)
            } else {
                first@
            },
        ),
{
    map.entry(key).and_modify(|found| found.seen_again(now)).or_insert(first);
}

/// Calls `DashMap::insert`, which sets the value of a key.
#[verifier::external_body]
pub(crate) fn put(
    map: &mut DashMap<String, AggregatedException>,
    key: String,
    value: AggregatedException,
)
    ensures
        contents(*final(map)) == contents(*old(map)).insert(key@, value@),
{
    map.insert(key, value);
}

/// Calls `DashMap::alter`, which puts what a function makes of the value in its
/// place: here, the value marked as reported. Where the key is not there, and
/// for any other key, nothing changes.
#[verifier::external_body]
pub(crate) fn mark(map: &mut DashMap<String, AggregatedException>, key: &str)
    ensures
        contents(*final(map)) == if contents(*old(map)).contains_key(key@) {
            contents(*old(map)).insert(key@, contents(*old(map))[key@].marked())
        } else {
            contents(*old(map))
        },
{
    map.alter(key, |_, found| found.into_marked());
}

/// Calls `DashMap::get` and copies the value that it finds.
#[verifier::external_body]
pub(crate) fn find(map: &DashMap<String, AggregatedException>, key: &str) -> (res: Option<
    AggregatedException,
>)
    ensures
        match res {
            Some(found) => contents(*map).contains_key(key@) && found@ == contents(*map)[key@],
            None => !contents(*map).contains_key(key@),
        },
{
    map.get(key).map(|found| found.value().clone())
}

/// Calls `DashMap::contains_key`.
#[verifier::external_body]
pub(crate) fn has(map: &DashMap<String, AggregatedException>, key: &str) -> (res: bool)
    ensures
        res == contents(*map).contains_key(key@),
{
    map.contains_key(key)
}

/// Calls `DashMap::len`, which counts the keys.
#[verifier::external_body]
pub(crate) fn size(map: &DashMap<String, AggregatedException>) -> (res: usize)
    ensures
        has_size(contents(*map), res as nat),
{
    map.len()
}

/// Calls `DashMap::is_empty`.
#[verifier::external_body]
pub(crate) fn holds_nothing(map: &DashMap<String, AggregatedException>) -> (res: bool)
    ensures
        res == (contents(*map) == nothing()),
{
    map.is_empty()
}

/// Calls `DashMap::iter` and copies what it hands out: each key once, with its
/// value, in an order of which nothing is claimed.
#[verifier::external_body]
pub(crate) fn entries(map: &DashMap<String, AggregatedException>) -> (res: Vec<
    (String, AggregatedException),
>)
    ensures
        lists(res@, contents(*map)),
{
    map.iter().map(|entry| (entry.key().clone(), entry.value().clone())).collect()
}

} // verus!
