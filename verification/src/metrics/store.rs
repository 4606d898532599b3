//! The concurrent maps of the `dashmap` crate that hold the metrics, and
//! what the library relies on of them: a map binds each key to one value,
//! `insert` binds a key anew, `get` reads a binding, and walking the map
//! meets each binding once, in no particular order.

use crate::collections::{map_of, unique_keys};
use vstd::prelude::*;

verus! {

/// `dashmap::DashMap`.
#[verifier::external_type_specification]
#[verifier::external_body]
#[verifier::reject_recursive_types(K)]
#[verifier::reject_recursive_types(V)]
#[verifier::reject_recursive_types(S)]
pub struct ExDashMap<K, V, S>(dashmap::DashMap<K, V, S>);

/// What a metric is.
#[derive(Debug, Clone, Copy, PartialEq, Eq, Structural)]
pub enum MetricType {
    Counter,
    Gauge,
    Histogram,
}

/// What is registered about a metric.
#[derive(Debug, Clone)]
pub struct MetricMetadata {
    pub metric_type: MetricType,
    pub description: String,
    pub is_error_metric: bool,
}

/// One sample: the time it was taken, in milliseconds since the epoch,
/// and its value.
pub type Sample = (i64, u64);

/// A map from key to number.
pub type NumberMap = dashmap::DashMap<String, u64>;

/// A map from key to the samples taken under it, oldest first.
pub type SampleMap = dashmap::DashMap<String, Vec<Sample>>;

/// A map from metric name to what is registered about it.
pub type MetadataMap = dashmap::DashMap<String, MetricMetadata>;

/// The bindings of a map from key to number.
pub uninterp spec fn numbers_in(map: NumberMap) -> Map<Seq<char>, u64>;

/// The bindings of a map from key to samples.
pub uninterp spec fn samples_in(map: SampleMap) -> Map<Seq<char>, Seq<Sample>>;

/// The bindings of a map from name to metadata.
pub uninterp spec fn metadata_in(map: MetadataMap) -> Map<Seq<char>, MetricMetadata>;

/// Calls `DashMap::new`: a map without bindings.
#[verifier::external_body]
pub(crate) fn new_numbers() -> (r: NumberMap)
    ensures
        numbers_in(r) =~= Map::empty(),
{
    dashmap::DashMap::new()
}

/// Calls `DashMap::get` and copies the value out: the number bound to the
/// key, if any.
#[verifier::external_body]
pub(crate) fn get_number(map: &NumberMap, key: &str) -> (r: Option<u64>)
    ensures
        r == (if numbers_in(*map).dom().contains(key@) {
            Some(numbers_in(*map)[key@])
        } else {
            None
        }),
{
    map.get(key).map(|entry| *entry.value())
}

/// Calls `DashMap::insert`: the key is bound to the value, other bindings
/// stay.
#[verifier::external_body]
pub(crate) fn put_number(map: &mut NumberMap, key: String, value: u64)
    ensures
        numbers_in(*final(map)) == numbers_in(*old(map)).insert(key@, value),
{
    map.insert(key, value);
}

/// Walks the map with `DashMap::iter` and copies each binding out: every
/// binding once, in no particular order.
#[verifier::external_body]
pub(crate) fn number_entries(map: &NumberMap) -> (r: Vec<(String, u64)>)
    ensures
        unique_keys(r@),
        map_of(r@) == numbers_in(*map),
{
    map.iter().map(|entry| (entry.key().clone(), *entry.value())).collect()
}

/// Calls `DashMap::new`: a map without bindings.
#[verifier::external_body]
pub(crate) fn new_samples() -> (r: SampleMap)
    ensures
        samples_in(r) =~= Map::empty(),
{
    dashmap::DashMap::new()
}

/// Calls `DashMap::get` and copies the value out: the samples bound to
/// the key, if any.
#[verifier::external_body]
pub(crate) fn get_samples(map: &SampleMap, key: &str) -> (r: Option<Vec<Sample>>)
    ensures
        r is Some <==> samples_in(*map).dom().contains(key@),
        r matches Some(list) ==> list@ == samples_in(*map)[key@],
{
    map.get(key).map(|entry| entry.value().clone())
}

/// Calls `DashMap::insert`: the key is bound to the samples, other
/// bindings stay.
#[verifier::external_body]
pub(crate) fn put_samples(map: &mut SampleMap, key: String, samples: Vec<Sample>)
    ensures
        samples_in(*final(map)) == samples_in(*old(map)).insert(key@, samples@),
{
    map.insert(key, samples);
}

/// Walks the map with `DashMap::iter` and copies each binding out: every
/// binding once, in no particular order.
#[verifier::external_body]
pub(crate) fn sample_entries(map: &SampleMap) -> (r: Vec<(String, Vec<Sample>)>)
    ensures
        unique_keys(r@),
        map_of(r@).dom() == samples_in(*map).dom(),
        forall|i: int| 0 <= i < r@.len() ==> (#[trigger] r@[i]).1@ == samples_in(*map)[r@[i].0@],
{
    map.iter().map(|entry| (entry.key().clone(), entry.value().clone())).collect()
}

/// Calls `DashMap::new`: a map without bindings.
#[verifier::external_body]
pub(crate) fn new_metadata() -> (r: MetadataMap)
    ensures
        metadata_in(r) =~= Map::empty(),
{
    dashmap::DashMap::new()
}

/// Calls `DashMap::get` and copies the value out: the metadata bound to
/// the name, if any.
#[verifier::external_body]
pub(crate) fn get_metadata(map: &MetadataMap, name: &str) -> (r: Option<MetricMetadata>)
    ensures
        r is Some <==> metadata_in(*map).dom().contains(name@),
        r matches Some(m) ==> m == metadata_in(*map)[name@],
{
    map.get(name).map(|entry| entry.value().clone())
}

/// Calls `DashMap::insert`: the name is bound to the metadata, other
/// bindings stay.
#[verifier::external_body]
pub(crate) fn put_metadata(map: &mut MetadataMap, name: String, metadata: MetricMetadata)
    ensures
        metadata_in(*final(map)) == metadata_in(*old(map)).insert(name@, metadata),
{
    map.insert(name, metadata);
}

} // verus!
