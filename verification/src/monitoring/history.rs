//! The history of collected metrics: the latest records of each kind, and of
//! each device and pool, each list kept to a bounded length by dropping its
//! oldest record.

use vstd::prelude::*;
use crate::monitoring::MetricsHistoryStats;
use std::collections::HashMap;

verus! {

/// `s` after `x` is appended, with the oldest record dropped when that
/// makes it longer than `max`.
pub open spec fn bounded_push<T>(s: Seq<T>, x: T, max: nat) -> Seq<T> {
    if s.len() + 1 > max {
        s.push(x).drop_first()
    } else {
        s.push(x)
    }
}

/// `n` capped at `usize::MAX`.
pub open spec fn capped(n: nat) -> nat {
    if n <= usize::MAX { n } else { usize::MAX as nat }
}

/// The records kept for key `id` in `lists`; none when `id` has no list.
pub open spec fn history_in<T>(lists: Map<u32, Seq<T>>, id: u32) -> Seq<T> {
    if lists.contains_key(id) {
        lists[id]
    } else {
        Seq::empty()
    }
}

/// No list of `lists` is longer than `max`.
pub open spec fn lists_within<T>(lists: Map<u32, Seq<T>>, max: nat) -> bool {
    forall|k: u32| lists.contains_key(k) ==> (#[trigger] lists[k]).len() <= max
}

/// The total number of records over all the lists of a finite map.
pub open spec fn map_total<T>(lists: Map<u32, Seq<T>>) -> nat
    decreases lists.dom().len(),
{
    if lists.dom().finite() && lists.dom().len() > 0 {
        let k = lists.dom().choose();
        proof {
            vstd::set::axiom_set_choose_len(lists.dom());
            vstd::set::axiom_set_remove_len(lists.dom(), k);
        }
        lists[k].len() + map_total(lists.remove(k))
    } else {
        0
    }
}

/// The records of a map are those of any one of its lists and of the rest.
proof fn lemma_map_total_remove<T>(lists: Map<u32, Seq<T>>, k: u32)
    requires
        lists.dom().finite(),
        lists.contains_key(k),
    ensures
        map_total(lists) == lists[k].len() + map_total(lists.remove(k)),
    decreases lists.dom().len(),
{
    vstd::set::axiom_set_remove_len(lists.dom(), k);
    vstd::set::axiom_set_choose_len(lists.dom());
    let c = lists.dom().choose();
    if c != k {
        let rc = lists.remove(c);
        let rk = lists.remove(k);
        vstd::set::axiom_set_remove_len(lists.dom(), c);
        lemma_map_total_remove(rc, k);
        lemma_map_total_remove(rk, c);
        assert(rc.remove(k) =~= rk.remove(c));
    }
}

/// Putting list `v` under key `k` changes the total by the difference of the
/// lengths.
proof fn lemma_map_total_insert<T>(lists: Map<u32, Seq<T>>, k: u32, v: Seq<T>)
    requires
        lists.dom().finite(),
    ensures
        map_total(lists.insert(k, v)) + history_in(lists, k).len() == map_total(lists) + v.len(),
{
    let n = lists.insert(k, v);
    lemma_map_total_remove(n, k);
    if lists.contains_key(k) {
        lemma_map_total_remove(lists, k);
        assert(n.remove(k) =~= lists.remove(k));
    } else {
        assert(n.remove(k) =~= lists);
    }
}

/// An empty map holds no records.
proof fn lemma_map_total_empty<T>()
    ensures
        map_total(Map::<u32, Seq<T>>::empty()) == 0,
{
    assert(Map::<u32, Seq<T>>::empty().dom() =~= Set::<u32>::empty());
}

/// Records kept per key.
pub struct KeyedHistory<T> {
    entries: HashMap<u32, Vec<T>>,
    total: usize,
}

impl<T> KeyedHistory<T> {
    /// The keys with their records.
    pub closed spec fn lists(&self) -> Map<u32, Seq<T>> {
        self.entries@.map_values(|v: Vec<T>| v@)
    }

    /// The records kept for `id`.
    pub open spec fn history(&self, id: u32) -> Seq<T> {
        history_in(self.lists(), id)
    }

    /// The record count kept is the number of records, capped at
    /// `usize::MAX`.
    pub closed spec fn consistent(&self) -> bool {
        self.total == capped(map_total(self.lists()))
    }

    /// Nothing kept.
    pub fn new() -> (r: Self)
        ensures
            r.consistent(),
            r.lists() == Map::<u32, Seq<T>>::empty(),
    {
        let r = KeyedHistory { entries: HashMap::new(), total: 0 };
        assert(r.lists() =~= Map::<u32, Seq<T>>::empty());
        proof {
            lemma_map_total_empty::<T>();
        }
        r
    }

    /// Adds `x` to the records of `id`, keeping at most `max` of them.
    pub fn add(&mut self, id: u32, x: T, max: usize)
        requires
            old(self).consistent(),
            lists_within(old(self).lists(), max as nat),
        ensures
            final(self).consistent(),
            lists_within(final(self).lists(), max as nat),
            final(self).history(id) == bounded_push(old(self).history(id), x, max as nat),
            forall|k: u32| k != id ==> final(self).history(k) == old(self).history(k),
    {
        broadcast use vstd::std_specs::hash::group_hash_axioms;
        let ghost before = self.lists();
        proof {
            assert(self.entries@.dom().finite());
            assert(before.dom() =~= self.entries@.dom());
        }
        let removed = self.entries.remove(&id);
        let mut list = match removed {
            Some(l) => l,
            None => Vec::new(),
        };
        assert(list@ == history_in(before, id));
        let old_len = list.len();
        list.push(x);
        if list.len() > max {
            list.remove(0);
        }
        let new_len = list.len();
        assert(list@ =~= bounded_push(history_in(before, id), x, max as nat));
        self.entries.insert(id, list);
        assert(self.lists() =~= before.insert(id, bounded_push(history_in(before, id), x, max as nat)));
        proof {
            lemma_map_total_insert(before, id, bounded_push(history_in(before, id), x, max as nat));
        }
        if new_len > old_len {
            self.total = self.total.saturating_add(1);
        }
    }

    /// The latest record of `id`, if any.
    pub fn latest(&self, id: u32) -> (r: Option<&T>)
        ensures
            self.history(id).len() == 0 ==> r is None,
            self.history(id).len() > 0 ==> r == Some(&self.history(id).last()),
    {
        broadcast use vstd::std_specs::hash::group_hash_axioms;
        match self.entries.get(&id) {
            Some(list) => {
                let n = list.len();
                if n == 0 {
                    None
                } else {
                    Some(&list[n - 1])
                }
            },
            None => None,
        }
    }

    /// The number of records over all keys, capped at `usize::MAX`.
    pub fn record_count(&self) -> (r: usize)
        requires
            self.consistent(),
        ensures
            r == capped(map_total(self.lists())),
    {
        self.total
    }

    /// Drops every record.
    pub fn clear(&mut self)
        ensures
            final(self).consistent(),
            final(self).lists() == Map::<u32, Seq<T>>::empty(),
    {
        self.entries.clear();
        self.total = 0;
        assert(self.lists() =~= Map::<u32, Seq<T>>::empty());
        proof {
            lemma_map_total_empty::<T>();
        }
    }
}

/// The history of collected metrics: records of the system, of mining, and
/// of each device and pool, each list holding at most `max_entries`.
pub struct MetricsHistory<S, M, D, P> {
    system_metrics: Vec<S>,
    mining_metrics: Vec<M>,
    device_metrics: KeyedHistory<D>,
    pool_metrics: KeyedHistory<P>,
    max_entries: usize,
}

impl<S, M, D, P> MetricsHistory<S, M, D, P> {
    /// The system records, oldest first.
    pub closed spec fn system(&self) -> Seq<S> {
        self.system_metrics@
    }

    /// The mining records, oldest first.
    pub closed spec fn mining(&self) -> Seq<M> {
        self.mining_metrics@
    }

    /// The devices with their records.
    pub closed spec fn devices(&self) -> Map<u32, Seq<D>> {
        self.device_metrics.lists()
    }

    /// The pools with their records.
    pub closed spec fn pools(&self) -> Map<u32, Seq<P>> {
        self.pool_metrics.lists()
    }

    /// The longest a list may grow.
    pub closed spec fn max(&self) -> nat {
        self.max_entries as nat
    }

    /// The record counts of the device and pool lists are up to date.
    pub closed spec fn counts_kept(&self) -> bool {
        self.device_metrics.consistent() && self.pool_metrics.consistent()
    }

    /// Every list within the bound, one entry per device and pool.
    pub open spec fn well_formed(&self) -> bool {
        &&& self.system().len() <= self.max()
        &&& self.mining().len() <= self.max()
        &&& lists_within(self.devices(), self.max())
        &&& lists_within(self.pools(), self.max())
        &&& self.counts_kept()
    }

    /// An empty history keeping at most `max_entries` records per list.
    pub fn new(max_entries: usize) -> (r: Self)
        ensures
            r.well_formed(),
            r.max() == max_entries,
            r.system().len() == 0 && r.mining().len() == 0,
            r.devices() == Map::<u32, Seq<D>>::empty() && r.pools() == Map::<u32, Seq<P>>::empty(),
    {
        MetricsHistory {
            system_metrics: Vec::new(),
            mining_metrics: Vec::new(),
            device_metrics: KeyedHistory::new(),
            pool_metrics: KeyedHistory::new(),
            max_entries,
        }
    }

    /// Records a system reading.
    pub fn add_system_metrics(&mut self, metrics: S)
        requires
            old(self).well_formed(),
        ensures
            final(self).well_formed(),
            final(self).system() == bounded_push(old(self).system(), metrics, old(self).max()),
            final(self).mining() == old(self).mining(),
            final(self).devices() == old(self).devices(),
            final(self).pools() == old(self).pools(),
            final(self).max() == old(self).max(),
    {
        let ghost before = self.system();
        self.system_metrics.push(metrics);
        if self.system_metrics.len() > self.max_entries {
            self.system_metrics.remove(0);
        }
        assert(self.system() =~= bounded_push(before, metrics, old(self).max()));
    }

    /// Records a mining reading.
    pub fn add_mining_metrics(&mut self, metrics: M)
        requires
            old(self).well_formed(),
        ensures
            final(self).well_formed(),
            final(self).mining() == bounded_push(old(self).mining(), metrics, old(self).max()),
            final(self).system() == old(self).system(),
            final(self).devices() == old(self).devices(),
            final(self).pools() == old(self).pools(),
            final(self).max() == old(self).max(),
    {
        let ghost before = self.mining();
        self.mining_metrics.push(metrics);
        if self.mining_metrics.len() > self.max_entries {
            self.mining_metrics.remove(0);
        }
        assert(self.mining() =~= bounded_push(before, metrics, old(self).max()));
    }

    /// Records a reading of device `device_id`.
    pub fn add_device_metrics(&mut self, device_id: u32, metrics: D)
        requires
            old(self).well_formed(),
        ensures
            final(self).well_formed(),
            history_in(final(self).devices(), device_id)
                == bounded_push(history_in(old(self).devices(), device_id), metrics, old(self).max()),
            forall|k: u32| k != device_id ==> history_in(final(self).devices(), k) == history_in(old(self).devices(), k),
            final(self).system() == old(self).system(),
            final(self).mining() == old(self).mining(),
            final(self).pools() == old(self).pools(),
            final(self).max() == old(self).max(),
    {
        self.device_metrics.add(device_id, metrics, self.max_entries);
        assert forall|k: u32| k != device_id implies history_in(self.devices(), k) == history_in(old(self).devices(), k) by {
            assert(self.device_metrics.history(k) == old(self).device_metrics.history(k));
        }
    }

    /// Records a reading of pool `pool_id`.
    pub fn add_pool_metrics(&mut self, pool_id: u32, metrics: P)
        requires
            old(self).well_formed(),
        ensures
            final(self).well_formed(),
            history_in(final(self).pools(), pool_id)
                == bounded_push(history_in(old(self).pools(), pool_id), metrics, old(self).max()),
            forall|k: u32| k != pool_id ==> history_in(final(self).pools(), k) == history_in(old(self).pools(), k),
            final(self).system() == old(self).system(),
            final(self).mining() == old(self).mining(),
            final(self).devices() == old(self).devices(),
            final(self).max() == old(self).max(),
    {
        self.pool_metrics.add(pool_id, metrics, self.max_entries);
        assert forall|k: u32| k != pool_id implies history_in(self.pools(), k) == history_in(old(self).pools(), k) by {
            assert(self.pool_metrics.history(k) == old(self).pool_metrics.history(k));
        }
    }

    /// The latest system reading, if any.
    pub fn get_latest_system_metrics(&self) -> (r: Option<&S>)
        ensures
            self.system().len() == 0 ==> r is None,
            self.system().len() > 0 ==> r == Some(&self.system().last()),
    {
        let n = self.system_metrics.len();
        if n == 0 {
            None
        } else {
            Some(&self.system_metrics[n - 1])
        }
    }

    /// The latest mining reading, if any.
    pub fn get_latest_mining_metrics(&self) -> (r: Option<&M>)
        ensures
            self.mining().len() == 0 ==> r is None,
            self.mining().len() > 0 ==> r == Some(&self.mining().last()),
    {
        let n = self.mining_metrics.len();
        if n == 0 {
            None
        } else {
            Some(&self.mining_metrics[n - 1])
        }
    }

    /// The latest reading of device `device_id`, if any.
    pub fn get_latest_device_metrics(&self, device_id: u32) -> (r: Option<&D>)
        requires
            self.well_formed(),
        ensures
            history_in(self.devices(), device_id).len() == 0 ==> r is None,
            history_in(self.devices(), device_id).len() > 0 ==> r == Some(&history_in(self.devices(), device_id).last()),
    {
        self.device_metrics.latest(device_id)
    }

    /// The latest reading of pool `pool_id`, if any.
    pub fn get_latest_pool_metrics(&self, pool_id: u32) -> (r: Option<&P>)
        requires
            self.well_formed(),
        ensures
            history_in(self.pools(), pool_id).len() == 0 ==> r is None,
            history_in(self.pools(), pool_id).len() > 0 ==> r == Some(&history_in(self.pools(), pool_id).last()),
    {
        self.pool_metrics.latest(pool_id)
    }

    /// Drops every record; the bound stays.
    pub fn clear(&mut self)
        ensures
            final(self).well_formed(),
            final(self).system().len() == 0 && final(self).mining().len() == 0,
            final(self).devices() == Map::<u32, Seq<D>>::empty() && final(self).pools() == Map::<u32, Seq<P>>::empty(),
            final(self).max() == old(self).max(),
    {
        self.system_metrics.clear();
        self.mining_metrics.clear();
        self.device_metrics.clear();
        self.pool_metrics.clear();
    }

    /// How many records of each kind the history holds, each count and the
    /// total capped at `usize::MAX`.
    pub fn get_metrics_history_stats(&self) -> (r: MetricsHistoryStats)
        requires
            self.well_formed(),
        ensures
            r.system_metrics_count == self.system().len(),
            r.mining_metrics_count == self.mining().len(),
            r.device_metrics_count == capped(map_total(self.devices())),
            r.pool_metrics_count == capped(map_total(self.pools())),
            r.total_entries == capped(self.system().len() + self.mining().len()
                + capped(map_total(self.devices()))
                + capped(map_total(self.pools()))),
    {
        let system = self.system_metrics.len();
        let mining = self.mining_metrics.len();
        let device = self.device_metrics.record_count();
        let pool = self.pool_metrics.record_count();
        let total = system.saturating_add(mining).saturating_add(device).saturating_add(pool);
        MetricsHistoryStats {
            system_metrics_count: system,
            mining_metrics_count: mining,
            device_metrics_count: device,
            pool_metrics_count: pool,
            total_entries: total,
        }
    }
}

/// No list of the history outgrows its bound, and a reading just added is
/// the latest of its list.
pub proof fn law_history_lists_bounded<T>(s: Seq<T>, x: T, max: nat)
    requires
        s.len() <= max,
        max > 0,
    ensures
        bounded_push(s, x, max).len() <= max,
        bounded_push(s, x, max).last() == x,
        s.len() < max ==> bounded_push(s, x, max) == s.push(x),
{
}

} // verus!
