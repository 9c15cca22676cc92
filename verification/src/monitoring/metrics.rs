//! Kinds of metrics.

use vstd::prelude::*;

verus! {

/// How a metric's value behaves.
#[derive(Debug, Clone, Copy, PartialEq, Eq)]
pub enum MetricType {
    /// A total that only grows.
    Counter,
    /// A value that goes up and down.
    Gauge,
    /// The distribution of observations.
    Histogram,
    /// Quantiles of observations.
    Summary,
}

} // verus!
