use crate::error::MetricsError;
use crate::metrics::counters_text;
use crate::metrics::entries_string;
use crate::metrics::entry_views;
use crate::metrics::lists;
use vstd::prelude::*;

verus! {

/// `dashmap::DashMap`: a hash map in shards, each behind its own lock.
#[verifier::external_type_specification]
#[verifier::external_body]
#[verifier::reject_recursive_types(K)]
#[verifier::reject_recursive_types(V)]
#[verifier::reject_recursive_types(S)]
pub struct ExDashMap<K, V, S>(dashmap::DashMap<K, V, S>);

/// The counters that a `DashMap` from names to counts holds. A store of this
/// library keeps its map to itself, so the map changes only in the calls
/// below that take it by `&mut`.
pub uninterp spec fn dash_counters(m: dashmap::DashMap<String, i64>) -> Map<Seq<char>, i64>;

/// The map of a store that never counted.
pub open spec fn no_counters() -> Map<Seq<char>, i64> {
    Map::empty()
}

/// `DashMap::new`: a map that holds nothing.
#[verifier::external_body]
fn dash_new() -> (map: dashmap::DashMap<String, i64>)
    ensures
        dash_counters(map) == no_counters(),
{
    dashmap::DashMap::new()
}

/// `DashMap::get`: what stands under `key`, if anything does.
#[verifier::external_body]
fn dash_get(m: &dashmap::DashMap<String, i64>, key: &str) -> (found: Option<i64>)
    ensures
        found == if dash_counters(*m).contains_key(key@) {
            Some(dash_counters(*m)[key@])
        } else {
            None
        },
{
    m.get(key).map(|counter| *counter)
}

/// `DashMap::entry` and `Entry::or_insert`: puts `v` under `key` if the map
/// has nothing there, leaves the map as it is otherwise, and hands back what
/// stands under `key` then.
#[verifier::external_body]
fn dash_or_insert(m: &mut dashmap::DashMap<String, i64>, key: String, v: i64) -> (current: i64)
    ensures
        dash_counters(*final(m)) == if dash_counters(*old(m)).contains_key(key@) {
            dash_counters(*old(m))
        } else {
            dash_counters(*old(m)).insert(key@, v)
        },
        current == dash_counters(*final(m))[key@],
{
    *m.entry(key).or_insert(v)
}

/// `DashMap::insert`: puts `v` under `key`, in place of what stood there.
#[verifier::external_body]
fn dash_insert(m: &mut dashmap::DashMap<String, i64>, key: String, v: i64)
    ensures
        dash_counters(*final(m)) == dash_counters(*old(m)).insert(key@, v),
{
    m.insert(key, v);
}

/// `DashMap::iter`: walks the map, each name once with its count, in an
/// order that nothing is claimed of.
#[verifier::external_body]
fn dash_entries(m: &dashmap::DashMap<String, i64>) -> (list: Vec<(String, i64)>)
    ensures
        lists(entry_views(list@), dash_counters(*m)),
{
    m.iter().map(|e| (e.key().clone(), *e.value())).collect()
}

/// A counter store that counts any name, on a sharded map.
pub struct CmapMetrics {
    data: dashmap::DashMap<String, i64>,
}

impl View for CmapMetrics {
    type V = Map<Seq<char>, i64>;

    /// The count of each name that was counted.
    closed spec fn view(&self) -> Map<Seq<char>, i64> {
        dash_counters(self.data)
    }
}

impl CmapMetrics {
    /// The count of `name`: 0 for a name that was never counted.
    pub open spec fn count(&self, name: Seq<char>) -> i64 {
        if self@.contains_key(name) {
            self@[name]
        } else {
            0
        }
    }

    /// An empty store.
    pub fn new() -> (m: Self)
        ensures
            m@ == Map::<Seq<char>, i64>::empty(),
    {
        CmapMetrics { data: dash_new() }
    }

    /// The count under `key`, if `key` was ever counted.
    pub fn get(&self, key: &str) -> (v: Option<i64>)
        ensures
            v == if self@.contains_key(key@) {
                Some(self@[key@])
            } else {
                None::<i64>
            },
    {
        dash_get(&self.data, key)
    }

    /// Counts `key` up by one.
    pub fn inc(&mut self, key: &str) -> (r: Result<(), MetricsError>)
        requires
            old(self).count(key@) < i64::MAX,
        ensures
            r is Ok,
            final(self)@ == old(self)@.insert(key@, (old(self).count(key@) + 1) as i64),
    {
        let current = dash_or_insert(&mut self.data, key.to_owned(), 0);
        dash_insert(&mut self.data, key.to_owned(), current + 1);
        assert(self@ =~= old(self)@.insert(key@, (old(self).count(key@) + 1) as i64));
        Ok(())
    }

    /// Counts `key` down by one.
    pub fn dec(&mut self, key: &str) -> (r: Result<(), MetricsError>)
        requires
            old(self).count(key@) > i64::MIN,
        ensures
            r is Ok,
            final(self)@ == old(self)@.insert(key@, (old(self).count(key@) - 1) as i64),
    {
        let current = dash_or_insert(&mut self.data, key.to_owned(), 0);
        dash_insert(&mut self.data, key.to_owned(), current - 1);
        assert(self@ =~= old(self)@.insert(key@, (old(self).count(key@) - 1) as i64));
        Ok(())
    }

    /// The names with their counts, each name once, in the order in which
    /// the map is walked.
    pub fn entries(&self) -> (list: Vec<(String, i64)>)
        ensures
            lists(entry_views(list@), self@),
    {
        dash_entries(&self.data)
    }

    /// The store as text: `<key>: <value>, ` for each counter, in the order
    /// in which the map is walked.
    pub fn to_string(&self) -> (s: String)
        ensures
            exists|entries: Seq<(Seq<char>, i64)>|
                lists(entries, self@) && s@ == #[trigger] counters_text(entries),
    {
        let list = dash_entries(&self.data);
        let s = entries_string(&list);
        assert(s@ == counters_text(entry_views(list@)));
        s
    }
}

} // verus!
