//! Bounded queues of work items and results, and the manager that hands work
//! out by strategy.

use vstd::prelude::*;
use std::collections::VecDeque;
use crate::device::{Work, MiningResult, id_string, id_text};
use crate::error::WorkError;
use crate::mining::{WorkItem, ResultItem, WorkDistributionStrategy};

verus! {

/// Counters of a work queue.
#[derive(Debug, Clone, Copy, PartialEq, Eq)]
pub struct WorkQueueStats {
    pub total_added: u64,
    pub total_processed: u64,
    pub total_expired: u64,
    pub total_cleared: u64,
}

impl WorkQueueStats {
    /// All counters at zero.
    pub fn new() -> (s: Self)
        ensures
            s == (WorkQueueStats { total_added: 0, total_processed: 0, total_expired: 0, total_cleared: 0 }),
    {
        WorkQueueStats { total_added: 0, total_processed: 0, total_expired: 0, total_cleared: 0 }
    }
}

/// Counters of a result queue.
#[derive(Debug, Clone, Copy, PartialEq, Eq)]
pub struct ResultQueueStats {
    pub total_added: u64,
    pub total_processed: u64,
    pub total_cleared: u64,
}

impl ResultQueueStats {
    /// All counters at zero.
    pub fn new() -> (s: Self)
        ensures
            s == (ResultQueueStats { total_added: 0, total_processed: 0, total_cleared: 0 }),
    {
        ResultQueueStats { total_added: 0, total_processed: 0, total_cleared: 0 }
    }
}

/// No two items of `items` carry the same work identifier.
pub open spec fn distinct_work_ids(items: Seq<WorkItem>) -> bool {
    forall|i: int, j: int| 0 <= i < items.len() && 0 <= j < items.len() && i != j
        ==> items[i].work.id != items[j].work.id
}

/// Some item of `items` carries the work identifier `id`.
pub open spec fn has_work_id(items: Seq<WorkItem>, id: u128) -> bool {
    exists|i: int| 0 <= i < items.len() && items[i].work.id == id
}

/// `k` is the first position of the highest priority in `items`.
pub open spec fn is_first_top_priority(items: Seq<WorkItem>, k: int) -> bool {
    &&& 0 <= k < items.len()
    &&& forall|j: int| 0 <= j < items.len() ==> items[j].priority <= items[k].priority
    &&& forall|j: int| 0 <= j < k ==> items[j].priority < items[k].priority
}

/// `k` is the first position in `items` whose assignment is `device`.
pub open spec fn is_first_assigned(items: Seq<WorkItem>, device: Option<u32>, k: int) -> bool {
    &&& 0 <= k < items.len()
    &&& items[k].assigned_device == device
    &&& forall|j: int| 0 <= j < k ==> items[j].assigned_device != device
}

/// Some item of `items` has the assignment `device`.
pub open spec fn has_assignment(items: Seq<WorkItem>, device: Option<u32>) -> bool {
    exists|i: int| 0 <= i < items.len() && items[i].assigned_device == device
}

/// The items of `items` whose work has not expired at `now`, in order.
pub open spec fn unexpired(items: Seq<WorkItem>, now: u64) -> Seq<WorkItem> {
    items.filter(|w: WorkItem| !w.expired_at(now))
}

/// A bounded first-in first-out queue of work items, unique by work id.
pub struct WorkQueue {
    queue: VecDeque<WorkItem>,
    max_size: usize,
    stats: WorkQueueStats,
}

impl WorkQueue {
    /// The queued items, front first.
    pub closed spec fn items(&self) -> Seq<WorkItem> {
        self.queue@
    }

    /// The largest number of items the queue accepts.
    pub closed spec fn capacity(&self) -> nat {
        self.max_size as nat
    }

    /// The counters of the queue.
    pub closed spec fn stats_spec(&self) -> WorkQueueStats {
        self.stats
    }

    /// The queue holds at most its capacity, no work id twice, and every
    /// queued item was counted as added and not yet as processed or expired.
    pub open spec fn well_formed(&self) -> bool {
        &&& self.items().len() <= self.capacity()
        &&& distinct_work_ids(self.items())
        &&& self.items().len() + self.stats_spec().total_processed + self.stats_spec().total_expired
            <= self.stats_spec().total_added
    }

    /// An empty queue holding at most `max_size` items.
    pub fn new(max_size: usize) -> (q: Self)
        ensures
            q.items() == Seq::<WorkItem>::empty(),
            q.capacity() == max_size,
            q.stats_spec() == (WorkQueueStats { total_added: 0, total_processed: 0, total_expired: 0, total_cleared: 0 }),
            q.well_formed(),
    {
        WorkQueue { queue: VecDeque::new(), max_size, stats: WorkQueueStats::new() }
    }

    /// Queues `work_item` at the back.
    ///
    /// Fails with `QueueFull` when the queue is at capacity, and otherwise
    /// with `Duplicate` when an item of the same work id is queued.
    pub fn push(&mut self, work_item: WorkItem) -> (r: Result<(), WorkError>)
        requires
            old(self).well_formed(),
            old(self).stats_spec().total_added < u64::MAX,
        ensures
            final(self).well_formed(),
            final(self).capacity() == old(self).capacity(),
            old(self).items().len() >= old(self).capacity() ==> {
                &&& r == Err::<(), WorkError>(WorkError::QueueFull)
                &&& final(self).items() == old(self).items()
                &&& final(self).stats_spec() == old(self).stats_spec()
            },
            old(self).items().len() < old(self).capacity() && has_work_id(old(self).items(), work_item.work.id) ==> {
                &&& r matches Err(WorkError::Duplicate { work_id }) && work_id@ == id_text(work_item.work.id)
                &&& final(self).items() == old(self).items()
                &&& final(self).stats_spec() == old(self).stats_spec()
            },
            old(self).items().len() < old(self).capacity() && !has_work_id(old(self).items(), work_item.work.id) ==> {
                &&& r is Ok
                &&& final(self).items() == old(self).items().push(work_item)
                &&& final(self).stats_spec() == (WorkQueueStats {
                    total_added: (old(self).stats_spec().total_added + 1) as u64,
                    ..old(self).stats_spec()
                })
            },
    {
        if self.queue.len() >= self.max_size {
            return Err(WorkError::QueueFull);
        }
        let id = work_item.work.id;
        let mut i: usize = 0;
        while i < self.queue.len()
            invariant
                i <= self.queue@.len(),
                *self == *old(self),
                old(self).well_formed(),
                old(self).queue@.len() < old(self).max_size,
                id == work_item.work.id,
                forall|j: int| 0 <= j < i ==> self.queue@[j].work.id != id,
            decreases self.queue@.len() - i,
        {
            if self.queue[i].work.id == id {
                assert(has_work_id(old(self).items(), id));
                let work_id = id_string(id);
                return Err(WorkError::Duplicate { work_id });
            }
            i = i + 1;
        }
        self.stats.total_added = self.stats.total_added + 1;
        self.queue.push_back(work_item);
        Ok(())
    }

    /// Removes the item at position `index` and counts it as processed.
    fn take_at(&mut self, index: usize) -> (w: WorkItem)
        requires
            old(self).well_formed(),
            index < old(self).items().len(),
        ensures
            final(self).well_formed(),
            final(self).capacity() == old(self).capacity(),
            w == old(self).items()[index as int],
            final(self).items() == old(self).items().remove(index as int),
            final(self).stats_spec() == (WorkQueueStats {
                total_processed: (old(self).stats_spec().total_processed + 1) as u64,
                ..old(self).stats_spec()
            }),
    {
        let w = self.queue.remove(index).unwrap();
        self.stats.total_processed = self.stats.total_processed + 1;
        w
    }

    /// Takes the front item.
    pub fn pop(&mut self) -> (r: Option<WorkItem>)
        requires
            old(self).well_formed(),
        ensures
            final(self).well_formed(),
            final(self).capacity() == old(self).capacity(),
            old(self).items().len() == 0 ==> r is None && *final(self) == *old(self),
            old(self).items().len() > 0 ==> {
                &&& r == Some(old(self).items()[0])
                &&& final(self).items() == old(self).items().drop_first()
                &&& final(self).stats_spec() == (WorkQueueStats {
                    total_processed: (old(self).stats_spec().total_processed + 1) as u64,
                    ..old(self).stats_spec()
                })
            },
    {
        if self.queue.len() == 0 {
            None
        } else {
            let w = self.take_at(0);
            assert(self.items() =~= old(self).items().drop_first());
            Some(w)
        }
    }

    /// Takes the first item of the highest priority.
    pub fn pop_by_priority(&mut self) -> (r: Option<WorkItem>)
        requires
            old(self).well_formed(),
        ensures
            final(self).well_formed(),
            final(self).capacity() == old(self).capacity(),
            old(self).items().len() == 0 ==> r is None && *final(self) == *old(self),
            old(self).items().len() > 0 ==> exists|k: int| {
                &&& is_first_top_priority(old(self).items(), k)
                &&& r == Some(old(self).items()[k])
                &&& final(self).items() == old(self).items().remove(k)
                &&& final(self).stats_spec() == (WorkQueueStats {
                    total_processed: (old(self).stats_spec().total_processed + 1) as u64,
                    ..old(self).stats_spec()
                })
            },
    {
        if self.queue.len() == 0 {
            return None;
        }
        let mut max_priority: u8 = 0;
        let mut max_index: usize = 0;
        let mut i: usize = 0;
        while i < self.queue.len()
            invariant
                0 < self.queue@.len(),
                i <= self.queue@.len(),
                max_index < self.queue@.len(),
                *self == *old(self),
                old(self).well_formed(),
                i == 0 ==> max_priority == 0 && max_index == 0,
                i > 0 ==> max_index < i && max_priority == self.queue@[max_index as int].priority,
                forall|j: int| 0 <= j < i ==> self.queue@[j].priority <= max_priority,
                forall|j: int| 0 <= j < max_index ==> self.queue@[j].priority < max_priority,
                forall|j: int| 0 <= j < i && self.queue@[j].priority > 0 ==> self.queue@[max_index as int].priority == max_priority,
            decreases self.queue@.len() - i,
        {
            if self.queue[i].priority > max_priority {
                max_priority = self.queue[i].priority;
                max_index = i;
            }
            i = i + 1;
        }
        let ghost k = max_index as int;
        assert(is_first_top_priority(old(self).items(), k));
        let w = self.take_at(max_index);
        Some(w)
    }

    /// Takes the first item assigned to `device_id`; failing that, the first
    /// unassigned item, which is handed out assigned to `device_id`.
    pub fn pop_for_device(&mut self, device_id: u32) -> (r: Option<WorkItem>)
        requires
            old(self).well_formed(),
        ensures
            final(self).well_formed(),
            final(self).capacity() == old(self).capacity(),
            has_assignment(old(self).items(), Some(device_id)) ==> exists|k: int| {
                &&& is_first_assigned(old(self).items(), Some(device_id), k)
                &&& r == Some(old(self).items()[k])
                &&& final(self).items() == old(self).items().remove(k)
                &&& final(self).stats_spec().total_processed == old(self).stats_spec().total_processed + 1
            },
            !has_assignment(old(self).items(), Some(device_id)) && has_assignment(old(self).items(), None) ==> exists|k: int| {
                &&& is_first_assigned(old(self).items(), None, k)
                &&& r == Some(WorkItem { assigned_device: Some(device_id), ..old(self).items()[k] })
                &&& final(self).items() == old(self).items().remove(k)
                &&& final(self).stats_spec().total_processed == old(self).stats_spec().total_processed + 1
            },
            !has_assignment(old(self).items(), Some(device_id)) && !has_assignment(old(self).items(), None) ==> {
                &&& r is None
                &&& *final(self) == *old(self)
            },
            final(self).stats_spec().total_added == old(self).stats_spec().total_added,
            final(self).stats_spec().total_expired == old(self).stats_spec().total_expired,
            final(self).stats_spec().total_cleared == old(self).stats_spec().total_cleared,
    {
        let mut i: usize = 0;
        while i < self.queue.len()
            invariant
                i <= self.queue@.len(),
                *self == *old(self),
                old(self).well_formed(),
                forall|j: int| 0 <= j < i ==> self.queue@[j].assigned_device != Some(device_id),
            decreases self.queue@.len() - i,
        {
            match self.queue[i].assigned_device {
                Some(assigned) => {
                    if assigned == device_id {
                        let ghost k = i as int;
                        assert(is_first_assigned(old(self).items(), Some(device_id), k));
                        let w = self.take_at(i);
                        return Some(w);
                    }
                },
                None => {},
            }
            i = i + 1;
        }
        let mut i: usize = 0;
        while i < self.queue.len()
            invariant
                i <= self.queue@.len(),
                *self == *old(self),
                old(self).well_formed(),
                !has_assignment(old(self).items(), Some(device_id)),
                forall|j: int| 0 <= j < i ==> self.queue@[j].assigned_device != None::<u32>,
            decreases self.queue@.len() - i,
        {
            if self.queue[i].assigned_device.is_none() {
                let ghost k = i as int;
                assert(is_first_assigned(old(self).items(), None, k));
                let mut w = self.take_at(i);
                w.assigned_device = Some(device_id);
                return Some(w);
            }
            i = i + 1;
        }
        None
    }

    /// Removes every item whose work has expired at `now`, keeping the order
    /// of the others, and returns how many were removed.
    pub fn cleanup_expired_at(&mut self, now: u64) -> (removed: usize)
        requires
            old(self).well_formed(),
        ensures
            final(self).well_formed(),
            final(self).capacity() == old(self).capacity(),
            final(self).items() == unexpired(old(self).items(), now),
            removed == old(self).items().len() - final(self).items().len(),
            final(self).stats_spec() == (WorkQueueStats {
                total_expired: (old(self).stats_spec().total_expired + removed) as u64,
                ..old(self).stats_spec()
            }),
    {
        let ghost old_items = self.queue@;
        let ghost pred = |w: WorkItem| !w.expired_at(now);
        let mut removed: usize = 0;
        let mut i: usize = 0;
        let ghost mut j: int = 0;
        assert(old_items.len() == old(self).queue.len());
        while i < self.queue.len()
            invariant
                0 <= i <= j <= old_items.len(),
                old_items.len() <= usize::MAX,
                old_items == old(self).queue@,
                self.max_size == old(self).max_size,
                self.queue@.len() == i + (old_items.len() - j),
                self.queue@.subrange(0, i as int) == old_items.subrange(0, j).filter(pred),
                self.queue@.subrange(i as int, self.queue@.len() as int) == old_items.subrange(j, old_items.len() as int),
                removed == j - i,
                distinct_work_ids(self.queue@),
                self.queue@.len() <= self.max_size,
                self.stats.total_added == old(self).stats.total_added,
                self.stats.total_processed == old(self).stats.total_processed,
                self.stats.total_cleared == old(self).stats.total_cleared,
                self.stats.total_expired == old(self).stats.total_expired + removed,
                self.queue@.len() + self.stats.total_processed + self.stats.total_expired <= self.stats.total_added,
                pred == (|w: WorkItem| !w.expired_at(now)),
            decreases self.queue@.len() - i,
        {
            let ghost before = self.queue@;
            proof {
                assert(old_items.subrange(0, j + 1) =~= old_items.subrange(0, j).push(old_items[j]));
                assert(before.subrange(i as int, before.len() as int)[0] == before[i as int]);
                assert(old_items.subrange(j, old_items.len() as int)[0] == old_items[j]);
                assert(before[i as int] == old_items[j]);
                assert(removed < old_items.len());
                old_items.subrange(0, j).lemma_filter_push(old_items[j], pred);
            }
            if self.queue[i].is_expired_at(now) {
                self.queue.remove(i);
                removed = removed + 1;
                self.stats.total_expired = self.stats.total_expired + 1;
                proof {
                    let tail = before.subrange(i as int, before.len() as int);
                    let otail = old_items.subrange(j, old_items.len() as int);
                    assert(tail.drop_first() =~= before.subrange(i + 1, before.len() as int));
                    assert(otail.drop_first() =~= old_items.subrange(j + 1, old_items.len() as int));
                    assert(self.queue@.subrange(i as int, self.queue@.len() as int)
                        =~= before.subrange(i + 1, before.len() as int));
                    j = j + 1;
                    assert(self.queue@.subrange(0, i as int) =~= before.subrange(0, i as int));
                    assert(self.queue@.subrange(i as int, self.queue@.len() as int)
                        =~= old_items.subrange(j, old_items.len() as int));
                }
            } else {
                proof {
                    assert(self.queue@.subrange(0, i + 1) =~= before.subrange(0, i as int).push(before[i as int]));
                    let tail = before.subrange(i as int, before.len() as int);
                    let otail = old_items.subrange(j, old_items.len() as int);
                    assert(tail.drop_first() =~= before.subrange(i + 1, before.len() as int));
                    assert(otail.drop_first() =~= old_items.subrange(j + 1, old_items.len() as int));
                    j = j + 1;
                    assert(self.queue@.subrange(i + 1, self.queue@.len() as int)
                        =~= old_items.subrange(j, old_items.len() as int));
                }
                i = i + 1;
            }
        }
        proof {
            assert(old_items.subrange(0, old_items.len() as int) =~= old_items);
            assert(self.queue@.subrange(0, i as int) =~= self.queue@);
        }
        removed
    }

    /// Removes every item whose work has expired now.
    pub fn cleanup_expired(&mut self) -> (removed: usize)
        requires
            old(self).well_formed(),
        ensures
            final(self).well_formed(),
            final(self).capacity() == old(self).capacity(),
            exists|now: u64| final(self).items() == unexpired(old(self).items(), now),
            removed == old(self).items().len() - final(self).items().len(),
    {
        let now = crate::clock::now_millis();
        self.cleanup_expired_at(now)
    }

    /// The number of queued items.
    pub fn len(&self) -> (n: usize)
        ensures
            n == self.items().len(),
    {
        self.queue.len()
    }

    /// Whether nothing is queued.
    pub fn is_empty(&self) -> (b: bool)
        ensures
            b == (self.items().len() == 0),
    {
        self.queue.len() == 0
    }

    /// Whether the queue is at capacity.
    pub fn is_full(&self) -> (b: bool)
        ensures
            b == (self.items().len() >= self.capacity()),
    {
        self.queue.len() >= self.max_size
    }

    /// The counters of the queue.
    pub fn get_stats(&self) -> (s: &WorkQueueStats)
        ensures
            *s == self.stats_spec(),
    {
        &self.stats
    }

    /// Empties the queue. The cleared counter is advanced by the length
    /// measured after emptying, so it stays as it was.
    pub fn clear(&mut self)
        requires
            old(self).well_formed(),
        ensures
            final(self).well_formed(),
            final(self).capacity() == old(self).capacity(),
            final(self).items() == Seq::<WorkItem>::empty(),
            final(self).stats_spec() == old(self).stats_spec(),
    {
        self.queue.clear();
        self.stats.total_cleared = self.stats.total_cleared + self.queue.len() as u64;
    }
}


/// No two results of `items` answer the same work identifier.
pub open spec fn distinct_result_ids(items: Seq<ResultItem>) -> bool {
    forall|i: int, j: int| 0 <= i < items.len() && 0 <= j < items.len() && i != j
        ==> items[i].result.work_id != items[j].result.work_id
}

/// Some result of `items` answers the work identifier `id`.
pub open spec fn has_result_id(items: Seq<ResultItem>, id: u128) -> bool {
    exists|i: int| 0 <= i < items.len() && items[i].result.work_id == id
}

/// `k` is the first position of a validated result in `items`.
pub open spec fn is_first_valid(items: Seq<ResultItem>, k: int) -> bool {
    &&& 0 <= k < items.len()
    &&& items[k].validation_status is Valid
    &&& forall|j: int| 0 <= j < k ==> !(items[j].validation_status is Valid)
}

/// A bounded first-in first-out queue of results, unique by work id.
pub struct ResultQueue {
    queue: VecDeque<ResultItem>,
    max_size: usize,
    stats: ResultQueueStats,
}

impl ResultQueue {
    /// The queued results, front first.
    pub closed spec fn items(&self) -> Seq<ResultItem> {
        self.queue@
    }

    /// The largest number of results the queue accepts.
    pub closed spec fn capacity(&self) -> nat {
        self.max_size as nat
    }

    /// The counters of the queue.
    pub closed spec fn stats_spec(&self) -> ResultQueueStats {
        self.stats
    }

    /// The queue holds at most its capacity, no work id twice, and every
    /// queued result was counted as added and not yet as processed.
    pub open spec fn well_formed(&self) -> bool {
        &&& self.items().len() <= self.capacity()
        &&& distinct_result_ids(self.items())
        &&& self.items().len() + self.stats_spec().total_processed <= self.stats_spec().total_added
    }

    /// An empty queue holding at most `max_size` results.
    pub fn new(max_size: usize) -> (q: Self)
        ensures
            q.items() == Seq::<ResultItem>::empty(),
            q.capacity() == max_size,
            q.stats_spec() == (ResultQueueStats { total_added: 0, total_processed: 0, total_cleared: 0 }),
            q.well_formed(),
    {
        ResultQueue { queue: VecDeque::new(), max_size, stats: ResultQueueStats::new() }
    }

    /// Queues `result_item` at the back.
    ///
    /// Fails with `QueueFull` when the queue is at capacity, and otherwise
    /// with `Duplicate` when a result for the same work id is queued.
    pub fn push(&mut self, result_item: ResultItem) -> (r: Result<(), WorkError>)
        requires
            old(self).well_formed(),
            old(self).stats_spec().total_added < u64::MAX,
        ensures
            final(self).well_formed(),
            final(self).capacity() == old(self).capacity(),
            old(self).items().len() >= old(self).capacity() ==> {
                &&& r == Err::<(), WorkError>(WorkError::QueueFull)
                &&& final(self).items() == old(self).items()
                &&& final(self).stats_spec() == old(self).stats_spec()
            },
            old(self).items().len() < old(self).capacity() && has_result_id(old(self).items(), result_item.result.work_id) ==> {
                &&& r matches Err(WorkError::Duplicate { work_id }) && work_id@ == id_text(result_item.result.work_id)
                &&& final(self).items() == old(self).items()
                &&& final(self).stats_spec() == old(self).stats_spec()
            },
            old(self).items().len() < old(self).capacity() && !has_result_id(old(self).items(), result_item.result.work_id) ==> {
                &&& r is Ok
                &&& final(self).items() == old(self).items().push(result_item)
                &&& final(self).stats_spec() == (ResultQueueStats {
                    total_added: (old(self).stats_spec().total_added + 1) as u64,
                    ..old(self).stats_spec()
                })
            },
    {
        if self.queue.len() >= self.max_size {
            return Err(WorkError::QueueFull);
        }
        let id = result_item.result.work_id;
        let mut i: usize = 0;
        while i < self.queue.len()
            invariant
                i <= self.queue@.len(),
                *self == *old(self),
                old(self).well_formed(),
                old(self).queue@.len() < old(self).max_size,
                id == result_item.result.work_id,
                forall|j: int| 0 <= j < i ==> self.queue@[j].result.work_id != id,
            decreases self.queue@.len() - i,
        {
            if self.queue[i].result.work_id == id {
                assert(has_result_id(old(self).items(), id));
                let work_id = id_string(id);
                return Err(WorkError::Duplicate { work_id });
            }
            i = i + 1;
        }
        self.stats.total_added = self.stats.total_added + 1;
        self.queue.push_back(result_item);
        Ok(())
    }

    /// Takes the front result.
    pub fn pop(&mut self) -> (r: Option<ResultItem>)
        requires
            old(self).well_formed(),
        ensures
            final(self).well_formed(),
            final(self).capacity() == old(self).capacity(),
            old(self).items().len() == 0 ==> r is None && *final(self) == *old(self),
            old(self).items().len() > 0 ==> {
                &&& r == Some(old(self).items()[0])
                &&& final(self).items() == old(self).items().drop_first()
                &&& final(self).stats_spec() == (ResultQueueStats {
                    total_processed: (old(self).stats_spec().total_processed + 1) as u64,
                    ..old(self).stats_spec()
                })
            },
    {
        if self.queue.len() == 0 {
            None
        } else {
            let r = self.queue.remove(0).unwrap();
            self.stats.total_processed = self.stats.total_processed + 1;
            assert(self.items() =~= old(self).items().drop_first());
            Some(r)
        }
    }

    /// Takes the first validated result.
    pub fn pop_valid(&mut self) -> (r: Option<ResultItem>)
        requires
            old(self).well_formed(),
        ensures
            final(self).well_formed(),
            final(self).capacity() == old(self).capacity(),
            (exists|k: int| is_first_valid(old(self).items(), k)) ==> exists|k: int| {
                &&& is_first_valid(old(self).items(), k)
                &&& r == Some(old(self).items()[k])
                &&& final(self).items() == old(self).items().remove(k)
                &&& final(self).stats_spec() == (ResultQueueStats {
                    total_processed: (old(self).stats_spec().total_processed + 1) as u64,
                    ..old(self).stats_spec()
                })
            },
            !(exists|k: int| is_first_valid(old(self).items(), k)) ==> r is None && *final(self) == *old(self),
    {
        let mut i: usize = 0;
        while i < self.queue.len()
            invariant
                i <= self.queue@.len(),
                *self == *old(self),
                old(self).well_formed(),
                forall|j: int| 0 <= j < i ==> !(self.queue@[j].validation_status is Valid),
            decreases self.queue@.len() - i,
        {
            if self.queue[i].is_valid() {
                let ghost k = i as int;
                assert(is_first_valid(old(self).items(), k));
                let r = self.queue.remove(i).unwrap();
                self.stats.total_processed = self.stats.total_processed + 1;
                return Some(r);
            }
            i = i + 1;
        }
        assert forall|k: int| !is_first_valid(old(self).items(), k) by {
            if 0 <= k < old(self).items().len() {
                assert(!(old(self).items()[k].validation_status is Valid));
            }
        }
        None
    }

    /// The number of queued results.
    pub fn len(&self) -> (n: usize)
        ensures
            n == self.items().len(),
    {
        self.queue.len()
    }

    /// Whether nothing is queued.
    pub fn is_empty(&self) -> (b: bool)
        ensures
            b == (self.items().len() == 0),
    {
        self.queue.len() == 0
    }

    /// The counters of the queue.
    pub fn get_stats(&self) -> (s: &ResultQueueStats)
        ensures
            *s == self.stats_spec(),
    {
        &self.stats
    }

    /// Empties the queue. The cleared counter is advanced by the length
    /// measured after emptying, so it stays as it was.
    pub fn clear(&mut self)
        requires
            old(self).well_formed(),
        ensures
            final(self).well_formed(),
            final(self).capacity() == old(self).capacity(),
            final(self).items() == Seq::<ResultItem>::empty(),
            final(self).stats_spec() == old(self).stats_spec(),
    {
        self.queue.clear();
        self.stats.total_cleared = self.stats.total_cleared + self.queue.len() as u64;
    }
}


/// A random index below `n`, drawn by `fastrand::usize(0..n)`.
///
/// fastrand documents the result to lie in the range, and panics on an empty
/// range, which `requires` leaves out. Nothing else is promised: it is random.
#[verifier::external_body]
fn random_index(n: usize) -> (r: usize)
    requires
        n > 0,
    ensures
        r < n,
{
    fastrand::usize(0..n)
}

/// `r` is the front of `before` and `after` the rest, or both are as they
/// were when `before` is empty.
pub open spec fn takes_front(before: Seq<WorkItem>, after: Seq<WorkItem>, r: Option<WorkItem>) -> bool {
    if before.len() == 0 {
        r is None && after == before
    } else {
        r == Some(before[0]) && after == before.drop_first()
    }
}

/// `r` is the first item of the highest priority of `before`, removed in
/// `after`, or nothing when `before` is empty.
pub open spec fn takes_top_priority(before: Seq<WorkItem>, after: Seq<WorkItem>, r: Option<WorkItem>) -> bool {
    if before.len() == 0 {
        r is None && after == before
    } else {
        exists|k: int| is_first_top_priority(before, k) && r == Some(before[k]) && after == before.remove(k)
    }
}

/// `r` is the first item of `before` assigned to `device`, or else the first
/// unassigned one handed out assigned to `device`; nothing when neither exists.
pub open spec fn takes_for_device(before: Seq<WorkItem>, after: Seq<WorkItem>, r: Option<WorkItem>, device: u32) -> bool {
    if has_assignment(before, Some(device)) {
        exists|k: int| is_first_assigned(before, Some(device), k) && r == Some(before[k]) && after == before.remove(k)
    } else if has_assignment(before, None) {
        exists|k: int| is_first_assigned(before, None, k)
            && r == Some(WorkItem { assigned_device: Some(device), ..before[k] })
            && after == before.remove(k)
    } else {
        r is None && after == before
    }
}

/// `r` is some item of `before`, removed in `after`, or nothing when
/// `before` is empty.
pub open spec fn takes_any(before: Seq<WorkItem>, after: Seq<WorkItem>, r: Option<WorkItem>) -> bool {
    if before.len() == 0 {
        r is None && after == before
    } else {
        exists|k: int| 0 <= k < before.len() && r == Some(before[k]) && after == before.remove(k)
    }
}

/// What a request for work takes from the queue under `strategy`.
pub open spec fn takes_by_strategy(
    strategy: WorkDistributionStrategy,
    device_id: Option<u32>,
    before: Seq<WorkItem>,
    after: Seq<WorkItem>,
    r: Option<WorkItem>,
) -> bool {
    match strategy {
        WorkDistributionStrategy::RoundRobin => takes_front(before, after, r),
        WorkDistributionStrategy::Priority => takes_top_priority(before, after, r),
        WorkDistributionStrategy::LoadBalance => match device_id {
            Some(d) => takes_for_device(before, after, r, d),
            None => takes_front(before, after, r),
        },
        WorkDistributionStrategy::Random => takes_any(before, after, r),
    }
}

/// The work and result queues with the strategy that hands work out.
pub struct WorkQueueManager {
    work_queue: WorkQueue,
    result_queue: ResultQueue,
    distribution_strategy: WorkDistributionStrategy,
}

impl WorkQueueManager {
    /// The work queue.
    pub closed spec fn work(&self) -> WorkQueue {
        self.work_queue
    }

    /// The result queue.
    pub closed spec fn results(&self) -> ResultQueue {
        self.result_queue
    }

    /// The distribution strategy.
    pub closed spec fn strategy(&self) -> WorkDistributionStrategy {
        self.distribution_strategy
    }

    /// Both queues are well formed.
    pub open spec fn well_formed(&self) -> bool {
        self.work().well_formed() && self.results().well_formed()
    }

    /// Empty queues of the given capacities.
    pub fn new(
        max_work_queue_size: usize,
        max_result_queue_size: usize,
        distribution_strategy: WorkDistributionStrategy,
    ) -> (m: Self)
        ensures
            m.well_formed(),
            m.work().items().len() == 0,
            m.work().capacity() == max_work_queue_size,
            m.results().items().len() == 0,
            m.results().capacity() == max_result_queue_size,
            m.strategy() == distribution_strategy,
    {
        WorkQueueManager {
            work_queue: WorkQueue::new(max_work_queue_size),
            result_queue: ResultQueue::new(max_result_queue_size),
            distribution_strategy,
        }
    }

    /// Queues `work` received at time `now`, as a fresh work item.
    pub fn submit_work_at(&mut self, work: Work, now: u64) -> (r: Result<(), WorkError>)
        requires
            old(self).well_formed(),
            old(self).work().stats_spec().total_added < u64::MAX,
        ensures
            final(self).well_formed(),
            final(self).results() == old(self).results(),
            final(self).strategy() == old(self).strategy(),
            final(self).work().capacity() == old(self).work().capacity(),
            r is Ok <==> (old(self).work().items().len() < old(self).work().capacity()
                && !has_work_id(old(self).work().items(), work.id)),
            r is Ok ==> final(self).work().items() == old(self).work().items().push(WorkItem {
                work, assigned_device: None, created_at: now, priority: 0, retry_count: 0 }),
            r is Err ==> final(self).work().items() == old(self).work().items(),
            old(self).work().items().len() >= old(self).work().capacity() ==> r == Err::<(), WorkError>(WorkError::QueueFull),
            old(self).work().items().len() < old(self).work().capacity() && has_work_id(old(self).work().items(), work.id)
                ==> (r matches Err(WorkError::Duplicate { work_id }) && work_id@ == id_text(work.id)),
    {
        let item = WorkItem::new_at(work, now);
        self.work_queue.push(item)
    }

    /// Queues `work` received now.
    pub fn submit_work(&mut self, work: Work) -> (r: Result<(), WorkError>)
        requires
            old(self).well_formed(),
            old(self).work().stats_spec().total_added < u64::MAX,
        ensures
            final(self).well_formed(),
            final(self).results() == old(self).results(),
            final(self).strategy() == old(self).strategy(),
            final(self).work().capacity() == old(self).work().capacity(),
            r is Ok <==> (old(self).work().items().len() < old(self).work().capacity()
                && !has_work_id(old(self).work().items(), work.id)),
            r is Ok ==> exists|now: u64| final(self).work().items() == old(self).work().items().push(WorkItem {
                work, assigned_device: None, created_at: now, priority: 0, retry_count: 0 }),
            r is Err ==> final(self).work().items() == old(self).work().items(),
            old(self).work().items().len() >= old(self).work().capacity() ==> r == Err::<(), WorkError>(WorkError::QueueFull),
            old(self).work().items().len() < old(self).work().capacity() && has_work_id(old(self).work().items(), work.id)
                ==> (r matches Err(WorkError::Duplicate { work_id }) && work_id@ == id_text(work.id)),
    {
        self.submit_work_at(work, crate::clock::now_millis())
    }

    /// Hands out work by the manager's strategy; `device_id` is the asking
    /// device, which load balancing uses.
    pub fn get_work(&mut self, device_id: Option<u32>) -> (r: Option<WorkItem>)
        requires
            old(self).well_formed(),
        ensures
            final(self).well_formed(),
            final(self).results() == old(self).results(),
            final(self).strategy() == old(self).strategy(),
            final(self).work().capacity() == old(self).work().capacity(),
            takes_by_strategy(old(self).strategy(), device_id, old(self).work().items(), final(self).work().items(), r),
    {
        match self.distribution_strategy {
            WorkDistributionStrategy::RoundRobin => self.work_queue.pop(),
            WorkDistributionStrategy::Priority => self.work_queue.pop_by_priority(),
            WorkDistributionStrategy::LoadBalance => {
                match device_id {
                    Some(d) => self.work_queue.pop_for_device(d),
                    None => self.work_queue.pop(),
                }
            },
            WorkDistributionStrategy::Random => {
                if self.work_queue.is_empty() {
                    None
                } else {
                    let index = random_index(self.work_queue.len());
                    let w = self.work_queue.take_at(index);
                    Some(w)
                }
            },
        }
    }

    /// Queues the result `result` of `work_item`, recorded at time `now`.
    pub fn submit_result_at(&mut self, result: MiningResult, work_item: WorkItem, now: u64) -> (r: Result<(), WorkError>)
        requires
            old(self).well_formed(),
            old(self).results().stats_spec().total_added < u64::MAX,
        ensures
            final(self).well_formed(),
            final(self).work() == old(self).work(),
            final(self).strategy() == old(self).strategy(),
            r is Ok <==> (old(self).results().items().len() < old(self).results().capacity()
                && !has_result_id(old(self).results().items(), result.work_id)),
            r is Ok ==> final(self).results().items() == old(self).results().items().push(ResultItem {
                result, work_item, processed_at: now, validation_status: crate::mining::ValidationStatus::Pending }),
            r is Err ==> final(self).results().items() == old(self).results().items(),
            old(self).results().items().len() >= old(self).results().capacity() ==> r == Err::<(), WorkError>(WorkError::QueueFull),
            old(self).results().items().len() < old(self).results().capacity() && has_result_id(old(self).results().items(), result.work_id)
                ==> (r matches Err(WorkError::Duplicate { work_id }) && work_id@ == id_text(result.work_id)),
    {
        let item = ResultItem::new_at(result, work_item, now);
        self.result_queue.push(item)
    }

    /// Queues the result `result` of `work_item`, recorded now.
    pub fn submit_result(&mut self, result: MiningResult, work_item: WorkItem) -> (r: Result<(), WorkError>)
        requires
            old(self).well_formed(),
            old(self).results().stats_spec().total_added < u64::MAX,
        ensures
            final(self).well_formed(),
            final(self).work() == old(self).work(),
            final(self).strategy() == old(self).strategy(),
            r is Ok <==> (old(self).results().items().len() < old(self).results().capacity()
                && !has_result_id(old(self).results().items(), result.work_id)),
            r is Ok ==> exists|now: u64| final(self).results().items() == old(self).results().items().push(ResultItem {
                result, work_item, processed_at: now, validation_status: crate::mining::ValidationStatus::Pending }),
            r is Err ==> final(self).results().items() == old(self).results().items(),
            old(self).results().items().len() >= old(self).results().capacity() ==> r == Err::<(), WorkError>(WorkError::QueueFull),
            old(self).results().items().len() < old(self).results().capacity() && has_result_id(old(self).results().items(), result.work_id)
                ==> (r matches Err(WorkError::Duplicate { work_id }) && work_id@ == id_text(result.work_id)),
    {
        self.submit_result_at(result, work_item, crate::clock::now_millis())
    }

    /// Takes the front result.
    pub fn get_result(&mut self) -> (r: Option<ResultItem>)
        requires
            old(self).well_formed(),
        ensures
            final(self).well_formed(),
            final(self).work() == old(self).work(),
            old(self).results().items().len() == 0 ==> r is None,
            old(self).results().items().len() > 0 ==> r == Some(old(self).results().items()[0])
                && final(self).results().items() == old(self).results().items().drop_first(),
    {
        self.result_queue.pop()
    }

    /// Takes the first validated result.
    pub fn get_valid_result(&mut self) -> (r: Option<ResultItem>)
        requires
            old(self).well_formed(),
        ensures
            final(self).well_formed(),
            final(self).work() == old(self).work(),
            (exists|k: int| is_first_valid(old(self).results().items(), k)) ==> exists|k: int|
                is_first_valid(old(self).results().items(), k) && r == Some(old(self).results().items()[k])
                && final(self).results().items() == old(self).results().items().remove(k),
            !(exists|k: int| is_first_valid(old(self).results().items(), k)) ==> r is None,
    {
        self.result_queue.pop_valid()
    }

    /// The counters of the work queue.
    pub fn get_work_queue_stats(&self) -> (s: WorkQueueStats)
        ensures
            s == self.work().stats_spec(),
    {
        *self.work_queue.get_stats()
    }

    /// The counters of the result queue.
    pub fn get_result_queue_stats(&self) -> (s: ResultQueueStats)
        ensures
            s == self.results().stats_spec(),
    {
        *self.result_queue.get_stats()
    }

    /// Drops the work that has expired at `now`.
    pub fn cleanup_expired_at(&mut self, now: u64) -> (removed: usize)
        requires
            old(self).well_formed(),
        ensures
            final(self).well_formed(),
            final(self).results() == old(self).results(),
            final(self).strategy() == old(self).strategy(),
            final(self).work().items() == unexpired(old(self).work().items(), now),
            removed == old(self).work().items().len() - final(self).work().items().len(),
    {
        self.work_queue.cleanup_expired_at(now)
    }
}

} // verus!
