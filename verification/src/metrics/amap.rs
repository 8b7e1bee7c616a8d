use crate::error::MetricsError;
use crate::metrics::counters_text;
use crate::metrics::entry_views;
use crate::metrics::lists;
use crate::metrics::Counters;
use vstd::prelude::*;

verus! {

/// `v + 1`, wrapped round from the highest value to the lowest.
pub open spec fn wrapped_up(v: i64) -> i64 {
    if v == i64::MAX {
        i64::MIN
    } else {
        (v + 1) as i64
    }
}

/// `v - 1`, wrapped round from the lowest value to the highest.
pub open spec fn wrapped_down(v: i64) -> i64 {
    if v == i64::MIN {
        i64::MAX
    } else {
        (v - 1) as i64
    }
}

/// The names of `names` as sequences of characters.
pub open spec fn name_views(names: Seq<&'static str>) -> Seq<Seq<char>> {
    names.map_values(|name: &'static str| name@)
}

/// `names` without its repetitions: each name where it first stands.
pub open spec fn first_occurrences(names: Seq<Seq<char>>) -> Seq<Seq<char>>
    decreases names.len(),
{
    if names.len() == 0 {
        Seq::empty()
    } else if first_occurrences(names.drop_last()).contains(names.last()) {
        first_occurrences(names.drop_last())
    } else {
        first_occurrences(names.drop_last()).push(names.last())
    }
}

/// `names` without its repetitions holds the names of `names`, and no other.
pub proof fn lemma_first_occurrences_hold(names: Seq<Seq<char>>, k: Seq<char>)
    ensures
        first_occurrences(names).contains(k) <==> names.contains(k),
    decreases names.len(),
{
    if names.len() > 0 {
        let rest = names.drop_last();
        let firsts = first_occurrences(rest);
        lemma_first_occurrences_hold(rest, k);
        lemma_first_occurrences_hold(rest, names.last());
        if names.contains(k) {
            let i = choose|i: int| 0 <= i < names.len() && names[i] == k;
            if i < rest.len() {
                assert(rest[i] == k);
            }
        }
        if rest.contains(k) {
            let i = choose|i: int| 0 <= i < rest.len() && rest[i] == k;
            assert(names[i] == k);
        }
        if k == names.last() {
            assert(names[names.len() - 1] == k);
        }
        if !firsts.contains(names.last()) {
            let grown = firsts.push(names.last());
            if firsts.contains(k) {
                let i = choose|i: int| 0 <= i < firsts.len() && firsts[i] == k;
                assert(grown[i] == k);
            }
            if grown.contains(k) {
                let i = choose|i: int| 0 <= i < grown.len() && grown[i] == k;
                if i < firsts.len() {
                    assert(firsts[i] == k);
                }
            }
            if k == names.last() {
                assert(grown[firsts.len() as int] == k);
            }
        }
    }
}

/// A counter store with a fixed set of counters, named when the store is
/// made. Counting wraps round.
pub struct AmapMetrics {
    data: Counters,
}

impl View for AmapMetrics {
    type V = Map<Seq<char>, i64>;

    /// The count of each counter.
    closed spec fn view(&self) -> Map<Seq<char>, i64> {
        self.data@
    }
}

impl AmapMetrics {
    /// The names of the counters, in the order in which they first stood in
    /// the list that the store was made from.
    pub closed spec fn names(&self) -> Seq<Seq<char>> {
        self.data.names()
    }

    /// The store's invariant: the names are the names of the counters, each once.
    pub open spec fn wf(&self) -> bool {
        &&& self.names().no_duplicates()
        &&& forall|k: Seq<char>| self@.contains_key(k) <==> self.names().contains(k)
    }

    /// The names with their counts, in the order of the names.
    pub open spec fn listing(&self) -> Seq<(Seq<char>, i64)> {
        self.names().map_values(|k: Seq<char>| (k, self@[k]))
    }

    /// A store with one counter for each of `metric_names`, all at 0.
    pub fn new(metric_names: &[&'static str]) -> (m: Self)
        ensures
            m.wf(),
            m.names() == first_occurrences(name_views(metric_names@)),
            forall|k: Seq<char>| m@.contains_key(k) <==> name_views(metric_names@).contains(k),
            forall|k: Seq<char>| m@.contains_key(k) ==> m@[k] == 0,
    {
        let ghost all = name_views(metric_names@);
        let mut data = Counters::new();
        assert(all.take(0) =~= Seq::<Seq<char>>::empty());
        let mut i: usize = 0;
        while i < metric_names.len()
            invariant
                all == name_views(metric_names@),
                i <= metric_names@.len(),
                data.wf(),
                data.names() == first_occurrences(all.take(i as int)),
                forall|k: Seq<char>| data@.contains_key(k) ==> data@[k] == 0,
            decreases metric_names@.len() - i,
        {
            proof {
                let cur = all.take(i + 1);
                assert(cur.drop_last() =~= all.take(i as int));
                assert(cur.last() == metric_names@[i as int]@);
            }
            data.set(metric_names[i], 0);
            i = i + 1;
        }
        assert(all.take(i as int) =~= all);
        proof {
            assert forall|k: Seq<char>| data@.contains_key(k) <==> all.contains(k) by {
                lemma_first_occurrences_hold(all, k);
            }
        }
        AmapMetrics { data }
    }

    /// The count of the counter `key`, if the store has such a counter.
    pub fn get(&self, key: &str) -> (v: Option<i64>)
        ensures
            v == if self@.contains_key(key@) {
                Some(self@[key@])
            } else {
                None::<i64>
            },
    {
        self.data.get(key)
    }

    /// Counts `key` up by one, if the store has such a counter.
    pub fn inc(&mut self, key: &str) -> (r: Result<(), MetricsError>)
        requires
            old(self).wf(),
        ensures
            final(self).wf(),
            final(self).names() == old(self).names(),
            old(self)@.contains_key(key@) ==> r is Ok && final(self)@ == old(self)@.insert(
                key@,
                wrapped_up(old(self)@[key@]),
            ),
            !old(self)@.contains_key(key@) ==> r == Err::<(), MetricsError>(
                MetricsError::KeyNotFound,
            ) && final(self)@ == old(self)@,
    {
        match self.data.get(key) {
            Some(v) => {
                self.data.set(key, v.wrapping_add(1));
                Ok(())
            },
            None => Err(MetricsError::KeyNotFound),
        }
    }

    /// Counts `key` down by one, if the store has such a counter.
    pub fn dec(&mut self, key: &str) -> (r: Result<(), MetricsError>)
        requires
            old(self).wf(),
        ensures
            final(self).wf(),
            final(self).names() == old(self).names(),
            old(self)@.contains_key(key@) ==> r is Ok && final(self)@ == old(self)@.insert(
                key@,
                wrapped_down(old(self)@[key@]),
            ),
            !old(self)@.contains_key(key@) ==> r == Err::<(), MetricsError>(
                MetricsError::KeyNotFound,
            ) && final(self)@ == old(self)@,
    {
        match self.data.get(key) {
            Some(v) => {
                self.data.set(key, v.wrapping_sub(1));
                Ok(())
            },
            None => Err(MetricsError::KeyNotFound),
        }
    }

    /// The names with their counts, in the order of the list that the store
    /// was made from.
    pub fn entries(&self) -> (list: Vec<(String, i64)>)
        requires
            self.wf(),
        ensures
            entry_views(list@) == self.listing(),
            lists(self.listing(), self@),
    {
        self.data.entries()
    }

    /// The store as text: `<key>: <value>, ` for each counter.
    pub fn to_string(&self) -> (s: String)
        requires
            self.wf(),
        ensures
            s@ == counters_text(self.listing()),
    {
        self.data.to_string()
    }
}

} // verus!
