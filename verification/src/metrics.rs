//! Counter stores: named counters that are counted up and down.

use crate::error::MetricsError;
use crate::text::signed_decimal;
use crate::text::signed_decimal_string;
use vstd::hash_map::StringHashMap;
use vstd::prelude::*;

pub mod amap;
pub mod cmap;

verus! {

/// Counters as text, in the order of `entries`: for each the name, a colon
/// and a space, the count, a comma and a space.
pub open spec fn counters_text(entries: Seq<(Seq<char>, i64)>) -> Seq<char>
    decreases entries.len(),
{
    if entries.len() == 0 {
        Seq::empty()
    } else {
        counters_text(entries.drop_last()) + entries.last().0 + ": "@ + signed_decimal(
            entries.last().1 as int,
        ) + ", "@
    }
}

/// `entries` lists `m`: each name of `m` once, with its count.
pub open spec fn lists(entries: Seq<(Seq<char>, i64)>, m: Map<Seq<char>, i64>) -> bool {
    &&& forall|i: int, j: int|
        0 <= i < j < entries.len() ==> (#[trigger] entries[i]).0 != (#[trigger] entries[j]).0
    &&& forall|i: int|
        0 <= i < entries.len() ==> m.contains_key((#[trigger] entries[i]).0) && m[entries[i].0]
            == entries[i].1
    &&& forall|k: Seq<char>| #[trigger]
        m.contains_key(k) ==> exists|i: int| 0 <= i < entries.len() && (#[trigger] entries[i]).0 == k
}

/// The names and counts of `entries`, the names as sequences of characters.
pub open spec fn entry_views(entries: Seq<(String, i64)>) -> Seq<(Seq<char>, i64)> {
    entries.map_values(|e: (String, i64)| (e.0@, e.1))
}

/// Writes the counters of `entries`, in their order.
pub fn entries_string(entries: &Vec<(String, i64)>) -> (s: String)
    ensures
        s@ == counters_text(entry_views(entries@)),
{
    let ghost all = entry_views(entries@);
    let mut s = String::new();
    assert(all.take(0) =~= Seq::<(Seq<char>, i64)>::empty());
    let mut i: usize = 0;
    while i < entries.len()
        invariant
            all == entry_views(entries@),
            i <= entries@.len(),
            s@ == counters_text(all.take(i as int)),
        decreases entries@.len() - i,
    {
        proof {
            let cur = all.take(i + 1);
            assert(cur.drop_last() =~= all.take(i as int));
            assert(cur.last() == (entries@[i as int].0@, entries@[i as int].1));
        }
        s.append(entries[i].0.as_str());
        s.append(": ");
        s.append(signed_decimal_string(entries[i].1).as_str());
        s.append(", ");
        proof {
            let cur = all.take(i + 1);
            assert(s@ =~= counters_text(cur));
        }
        i = i + 1;
    }
    assert(all.take(i as int) =~= all);
    s
}

/// Named counters in a hash map, with the names kept in the order in which
/// they first came, so that the counters can be walked.
pub struct Counters {
    data: StringHashMap<i64>,
    keys: Vec<String>,
}

impl View for Counters {
    type V = Map<Seq<char>, i64>;

    /// The count of each name.
    closed spec fn view(&self) -> Map<Seq<char>, i64> {
        self.data@
    }
}

impl Counters {
    /// The names, in the order in which they first came.
    pub closed spec fn names(&self) -> Seq<Seq<char>> {
        self.keys@.map_values(|k: String| k@)
    }

    /// The names are the names of the map, each once.
    pub open spec fn wf(&self) -> bool {
        &&& self.names().no_duplicates()
        &&& forall|k: Seq<char>| self@.contains_key(k) <==> self.names().contains(k)
    }

    /// The names with their counts, in the order of the names.
    pub open spec fn listing(&self) -> Seq<(Seq<char>, i64)> {
        self.names().map_values(|k: Seq<char>| (k, self@[k]))
    }

    /// No counters.
    pub fn new() -> (c: Self)
        ensures
            c.wf(),
            c@ == Map::<Seq<char>, i64>::empty(),
            c.names() == Seq::<Seq<char>>::empty(),
    {
        let c = Counters { data: StringHashMap::new(), keys: Vec::new() };
        assert(c.names() =~= Seq::<Seq<char>>::empty());
        c
    }

    /// The count under `name`, if there is one.
    pub fn get(&self, name: &str) -> (v: Option<i64>)
        ensures
            v == if self@.contains_key(name@) {
                Some(self@[name@])
            } else {
                None::<i64>
            },
    {
        match self.data.get(name) {
            Some(v) => Some(*v),
            None => None,
        }
    }

    /// Puts `v` under `name`. A new name comes last in the order.
    pub fn set(&mut self, name: &str, v: i64)
        requires
            old(self).wf(),
        ensures
            final(self).wf(),
            final(self)@ == old(self)@.insert(name@, v),
            final(self).names() == if old(self)@.contains_key(name@) {
                old(self).names()
            } else {
                old(self).names().push(name@)
            },
    {
        let ghost before = self.names();
        if !self.data.contains_key(name) {
            self.keys.push(name.to_owned());
            assert(self.names() =~= before.push(name@));
        }
        self.data.insert(name.to_owned(), v);
        proof {
            let after = self.names();
            assert forall|k: Seq<char>| self@.contains_key(k) <==> after.contains(k) by {
                if before.contains(k) {
                    let i = choose|i: int| 0 <= i < before.len() && before[i] == k;
                    assert(after[i] == k);
                }
                if after.contains(k) && k != name@ {
                    let i = choose|i: int| 0 <= i < after.len() && after[i] == k;
                    assert(before[i] == k);
                }
                if k == name@ && !old(self)@.contains_key(name@) {
                    assert(after[before.len() as int] == k);
                }
                if k == name@ && old(self)@.contains_key(name@) {
                    assert(before.contains(k));
                }
            }
            if !old(self)@.contains_key(name@) {
                assert(!before.contains(name@));
                assert forall|i: int, j: int| 0 <= i < after.len() && 0 <= j < after.len() && i != j implies after[i] != after[j] by {
                    if i < before.len() {
                        assert(before[i] == after[i]);
                        assert(before.contains(before[i]));
                    }
                    if j < before.len() {
                        assert(before[j] == after[j]);
                        assert(before.contains(before[j]));
                    }
                }
            }
        }
    }

    /// The names with their counts, in the order of the names.
    pub fn entries(&self) -> (list: Vec<(String, i64)>)
        requires
            self.wf(),
        ensures
            entry_views(list@) == self.listing(),
            lists(self.listing(), self@),
    {
        let mut list: Vec<(String, i64)> = Vec::new();
        let mut i: usize = 0;
        while i < self.keys.len()
            invariant
                self.wf(),
                i <= self.keys@.len(),
                list@.len() == i,
                forall|p: int|
                    0 <= p < i ==> (#[trigger] list@[p]).0@ == self.names()[p] && list@[p].1
                        == self@[self.names()[p]],
            decreases self.keys@.len() - i,
        {
            assert(self.names()[i as int] == self.keys@[i as int]@);
            assert(self.names().contains(self.names()[i as int]));
            let v = match self.data.get(self.keys[i].as_str()) {
                Some(v) => *v,
                None => 0,
            };
            list.push((self.keys[i].clone(), v));
            i = i + 1;
        }
        assert(entry_views(list@) =~= self.listing());
        proof {
            let l = self.listing();
            assert forall|k: Seq<char>| #[trigger] self@.contains_key(k) implies exists|i: int|
                0 <= i < l.len() && (#[trigger] l[i]).0 == k by {
                assert(self.names().contains(k));
                let i = choose|i: int| 0 <= i < self.names().len() && self.names()[i] == k;
                assert(l[i].0 == k);
            }
            assert forall|i: int| 0 <= i < l.len() implies self@.contains_key((#[trigger] l[i]).0)
                && self@[l[i].0] == l[i].1 by {
                assert(self.names().contains(self.names()[i]));
            }
        }
        list
    }

    /// A copy of the map.
    pub fn snapshot(&self) -> (copy: StringHashMap<i64>)
        requires
            self.wf(),
        ensures
            copy@ == self@,
    {
        let mut copy: StringHashMap<i64> = StringHashMap::new();
        let mut i: usize = 0;
        while i < self.keys.len()
            invariant
                self.wf(),
                i <= self.keys@.len(),
                forall|k: Seq<char>|
                    copy@.contains_key(k) <==> self.names().take(i as int).contains(k),
                forall|k: Seq<char>| copy@.contains_key(k) ==> copy@[k] == self@[k],
            decreases self.keys@.len() - i,
        {
            assert(self.names()[i as int] == self.keys@[i as int]@);
            assert(self.names().contains(self.names()[i as int]));
            let v = match self.data.get(self.keys[i].as_str()) {
                Some(v) => *v,
                None => 0,
            };
            copy.insert(self.keys[i].clone(), v);
            proof {
                let prev = self.names().take(i as int);
                let cur = self.names().take(i + 1);
                assert(cur =~= prev.push(self.names()[i as int]));
                assert forall|k: Seq<char>| copy@.contains_key(k) <==> cur.contains(k) by {
                    if prev.contains(k) {
                        let p = choose|p: int| 0 <= p < prev.len() && prev[p] == k;
                        assert(cur[p] == k);
                    }
                    if cur.contains(k) && k != self.names()[i as int] {
                        let p = choose|p: int| 0 <= p < cur.len() && cur[p] == k;
                        assert(prev[p] == k);
                    }
                    if k == self.names()[i as int] {
                        assert(cur[i as int] == k);
                    }
                }
            }
            i = i + 1;
        }
        assert(self.names().take(i as int) =~= self.names());
        assert(copy@ =~= self@);
        copy
    }

    /// The counters as text, in the order of the names.
    pub fn to_string(&self) -> (s: String)
        requires
            self.wf(),
        ensures
            s@ == counters_text(self.listing()),
    {
        let list = self.entries();
        entries_string(&list)
    }
}

/// A counter store that counts any name: a name that was never counted
/// stands at 0.
pub struct Metrics {
    data: Counters,
}

impl View for Metrics {
    type V = Map<Seq<char>, i64>;

    /// The count of each name that was counted.
    closed spec fn view(&self) -> Map<Seq<char>, i64> {
        self.data@
    }
}

impl Metrics {
    /// The names that were counted, in the order in which they first came.
    pub closed spec fn names(&self) -> Seq<Seq<char>> {
        self.data.names()
    }

    /// The store's invariant: the names are the names of the counters, each once.
    pub open spec fn wf(&self) -> bool {
        &&& self.names().no_duplicates()
        &&& forall|k: Seq<char>| self@.contains_key(k) <==> self.names().contains(k)
    }

    /// The count of `name`: 0 for a name that was never counted.
    pub open spec fn count(&self, name: Seq<char>) -> i64 {
        if self@.contains_key(name) {
            self@[name]
        } else {
            0
        }
    }

    /// The names with their counts, in the order in which the names first came.
    pub open spec fn listing(&self) -> Seq<(Seq<char>, i64)> {
        self.names().map_values(|k: Seq<char>| (k, self@[k]))
    }

    /// The names after `name` was counted: it comes last if it is new.
    pub open spec fn names_with(&self, name: Seq<char>) -> Seq<Seq<char>> {
        if self@.contains_key(name) {
            self.names()
        } else {
            self.names().push(name)
        }
    }

    /// An empty store.
    pub fn new() -> (m: Self)
        ensures
            m.wf(),
            m@ == Map::<Seq<char>, i64>::empty(),
            m.names() == Seq::<Seq<char>>::empty(),
    {
        Metrics { data: Counters::new() }
    }

    /// The count under `key`, if `key` was ever counted.
    pub fn get(&self, key: &str) -> (v: Option<i64>)
        ensures
            v == if self@.contains_key(key@) {
                Some(self@[key@])
            } else {
                None::<i64>
            },
    {
        self.data.get(key)
    }

    /// Counts `key` up by one.
    pub fn inc(&mut self, key: &str) -> (r: Result<(), MetricsError>)
        requires
            old(self).wf(),
            old(self).count(key@) < i64::MAX,
        ensures
            final(self).wf(),
            r is Ok,
            final(self)@ == old(self)@.insert(key@, (old(self).count(key@) + 1) as i64),
            final(self).names() == old(self).names_with(key@),
    {
        let current = match self.data.get(key) {
            Some(v) => v,
            None => 0,
        };
        self.data.set(key, current + 1);
        Ok(())
    }

    /// Counts `key` down by one.
    pub fn dec(&mut self, key: &str) -> (r: Result<(), MetricsError>)
        requires
            old(self).wf(),
            old(self).count(key@) > i64::MIN,
        ensures
            final(self).wf(),
            r is Ok,
            final(self)@ == old(self)@.insert(key@, (old(self).count(key@) - 1) as i64),
            final(self).names() == old(self).names_with(key@),
    {
        let current = match self.data.get(key) {
            Some(v) => v,
            None => 0,
        };
        self.data.set(key, current - 1);
        Ok(())
    }

    /// A copy of the counters as they stand.
    pub fn snapshot(&self) -> (r: Result<StringHashMap<i64>, MetricsError>)
        requires
            self.wf(),
        ensures
            r is Ok,
            r->Ok_0@ == self@,
    {
        Ok(self.data.snapshot())
    }

    /// The names with their counts, in the order in which the names first came.
    pub fn entries(&self) -> (list: Vec<(String, i64)>)
        requires
            self.wf(),
        ensures
            entry_views(list@) == self.listing(),
            lists(self.listing(), self@),
    {
        self.data.entries()
    }

    /// The store as text: `<key>: <value>, ` for each counter.
    pub fn to_string(&self) -> (s: String)
        requires
            self.wf(),
        ensures
            s@ == counters_text(self.listing()),
    {
        self.data.to_string()
    }
}

} // verus!
