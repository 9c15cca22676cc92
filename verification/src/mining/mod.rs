//! Mining coordination data: queued work items, results awaiting
//! validation and the distribution strategies.

pub mod work_queue;
pub mod hashmeter;
pub mod manager;

use vstd::prelude::*;
use crate::device::{Work, MiningResult};

verus! {

/// The state of the mining manager.
#[derive(Debug, Clone, PartialEq, Eq)]
pub enum MiningState {
    Stopped,
    Starting,
    Running,
    Stopping,
    Paused,
    Error(String),
}

/// How queued work is handed to devices.
#[derive(Debug, Clone, Copy, PartialEq, Eq)]
pub enum WorkDistributionStrategy {
    /// First in, first out.
    RoundRobin,
    /// Work assigned to the asking device first, then unassigned work.
    LoadBalance,
    /// Highest priority first, the earliest among equals.
    Priority,
    /// A randomly chosen item.
    Random,
}

/// The validation state of a result.
#[derive(Debug, Clone, PartialEq, Eq)]
pub enum ValidationStatus {
    Pending,
    Valid,
    Invalid(String),
    Stale,
}

/// A unit of work waiting in the queue.
#[derive(Debug, Clone)]
pub struct WorkItem {
    pub work: Work,
    pub assigned_device: Option<u32>,
    pub created_at: u64,
    pub priority: u8,
    pub retry_count: u32,
}

impl WorkItem {
    /// Wraps `work` queued at time `now`: unassigned, priority 0, no retries.
    pub fn new_at(work: Work, now: u64) -> (w: WorkItem)
        ensures
            w.work == work,
            w.assigned_device is None,
            w.created_at == now,
            w.priority == 0,
            w.retry_count == 0,
    {
        WorkItem { work, assigned_device: None, created_at: now, priority: 0, retry_count: 0 }
    }

    /// Wraps `work` queued now.
    pub fn new(work: Work) -> (w: WorkItem)
        ensures
            w.work == work,
            w.assigned_device is None,
            w.priority == 0,
            w.retry_count == 0,
    {
        WorkItem::new_at(work, crate::clock::now_millis())
    }

    /// The same item, assigned to `device_id`.
    pub fn with_device(self, device_id: u32) -> (w: WorkItem)
        ensures
            w == (WorkItem { assigned_device: Some(device_id), ..self }),
    {
        let mut w = self;
        w.assigned_device = Some(device_id);
        w
    }

    /// The same item with another priority.
    pub fn with_priority(self, priority: u8) -> (w: WorkItem)
        ensures
            w == (WorkItem { priority, ..self }),
    {
        let mut w = self;
        w.priority = priority;
        w
    }

    /// Counts one more retry.
    pub fn increment_retry(&mut self)
        requires
            old(self).retry_count < u32::MAX,
        ensures
            *final(self) == (WorkItem { retry_count: (old(self).retry_count + 1) as u32, ..*old(self) }),
    {
        self.retry_count = self.retry_count + 1;
    }

    /// Whether the work of this item has expired at time `now`.
    pub open spec fn expired_at(&self, now: u64) -> bool {
        now > self.work.expires_at
    }

    /// Whether the work of this item has expired at time `now`.
    pub fn is_expired_at(&self, now: u64) -> (b: bool)
        ensures
            b == self.expired_at(now),
    {
        self.work.is_expired_at(now)
    }

    /// Milliseconds since the item was queued, zero if `now` is earlier.
    pub fn age_at(&self, now: u64) -> (age: u64)
        ensures
            age == (if now >= self.created_at { now - self.created_at } else { 0 }),
    {
        if now >= self.created_at {
            now - self.created_at
        } else {
            0
        }
    }
}

/// A result waiting for validation and submission.
#[derive(Debug, Clone)]
pub struct ResultItem {
    pub result: MiningResult,
    pub work_item: WorkItem,
    pub processed_at: u64,
    pub validation_status: ValidationStatus,
}

impl ResultItem {
    /// A pending result recorded at time `now`.
    pub fn new_at(result: MiningResult, work_item: WorkItem, now: u64) -> (r: ResultItem)
        ensures
            r.result == result,
            r.work_item == work_item,
            r.processed_at == now,
            r.validation_status is Pending,
    {
        ResultItem { result, work_item, processed_at: now, validation_status: ValidationStatus::Pending }
    }

    /// A pending result recorded now.
    pub fn new(result: MiningResult, work_item: WorkItem) -> (r: ResultItem)
        ensures
            r.result == result,
            r.work_item == work_item,
            r.validation_status is Pending,
    {
        ResultItem::new_at(result, work_item, crate::clock::now_millis())
    }

    /// The same result, validated.
    pub fn mark_valid(self) -> (r: ResultItem)
        ensures
            r == (ResultItem { validation_status: ValidationStatus::Valid, ..self }),
    {
        let mut r = self;
        r.validation_status = ValidationStatus::Valid;
        r
    }

    /// The same result, rejected for `reason`.
    pub fn mark_invalid(self, reason: String) -> (r: ResultItem)
        ensures
            r == (ResultItem { validation_status: ValidationStatus::Invalid(reason), ..self }),
    {
        let mut r = self;
        r.validation_status = ValidationStatus::Invalid(reason);
        r
    }

    /// The same result, found stale.
    pub fn mark_stale(self) -> (r: ResultItem)
        ensures
            r == (ResultItem { validation_status: ValidationStatus::Stale, ..self }),
    {
        let mut r = self;
        r.validation_status = ValidationStatus::Stale;
        r
    }

    /// Whether the result passed validation.
    pub fn is_valid(&self) -> (b: bool)
        ensures
            b == (self.validation_status is Valid),
    {
        match self.validation_status {
            ValidationStatus::Valid => true,
            _ => false,
        }
    }
}

} // verus!
