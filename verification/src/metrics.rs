//! Live metrics and the point-in-time readings taken from them.
//!
//! A metric is a handle on a value that its producer keeps changing. Cloning a
//! handle gives a second handle on the same value, so a reporter that holds a
//! clone reads whatever the producer wrote last. Nothing is known statically
//! about the value read: it may change between any two reads.

use std::sync::atomic::AtomicI64;
use std::sync::atomic::Ordering;
use std::sync::Arc;
use vstd::prelude::*;

verus! {

/// A count that goes up and down.
#[derive(Clone, Debug)]
pub struct Counter {
    cell: Arc<AtomicI64>,
}

/// A value that is set outright.
#[derive(Clone, Debug)]
pub struct Gauge {
    cell: Arc<AtomicI64>,
}

/// A count of events that have been marked.
#[derive(Clone, Debug)]
pub struct Meter {
    cell: Arc<AtomicI64>,
}

/// A count of samples that have been recorded.
#[derive(Clone, Debug)]
pub struct Histogram {
    cell: Arc<AtomicI64>,
}

impl Counter {
    pub fn new() -> Counter {
        Counter { cell: Arc::new(AtomicI64::new(0)) }
    }

    /// Adds one to the count, wrapping at the ends of `i64`.
    pub fn inc(&self) {
        self.cell.fetch_add(1, Ordering::SeqCst);
    }

    /// Adds `amount` to the count, wrapping at the ends of `i64`.
    pub fn inc_by(&self, amount: i64) {
        self.cell.fetch_add(amount, Ordering::SeqCst);
    }

    /// The count as it is now.
    pub fn snapshot(&self) -> i64 {
        self.cell.load(Ordering::SeqCst)
    }
}

impl Gauge {
    pub fn new() -> Gauge {
        Gauge { cell: Arc::new(AtomicI64::new(0)) }
    }

    /// Replaces the value.
    pub fn set(&self, value: i64) {
        self.cell.store(value, Ordering::SeqCst);
    }

    /// The value as it is now.
    pub fn snapshot(&self) -> i64 {
        self.cell.load(Ordering::SeqCst)
    }
}

impl Meter {
    pub fn new() -> Meter {
        Meter { cell: Arc::new(AtomicI64::new(0)) }
    }

    /// Marks `events` more events, wrapping at the ends of `i64`.
    pub fn mark(&self, events: i64) {
        self.cell.fetch_add(events, Ordering::SeqCst);
    }

    /// The number of events marked so far.
    pub fn snapshot(&self) -> i64 {
        self.cell.load(Ordering::SeqCst)
    }
}

impl Histogram {
    pub fn new() -> Histogram {
        Histogram { cell: Arc::new(AtomicI64::new(0)) }
    }

    /// Records one more sample, wrapping at the ends of `i64`.
    pub fn increment(&self) {
        self.cell.fetch_add(1, Ordering::SeqCst);
    }

    /// The number of samples recorded so far.
    pub fn snapshot(&self) -> i64 {
        self.cell.load(Ordering::SeqCst)
    }
}

/// The four kinds of metric a reporter accepts.
#[derive(Clone, Debug)]
pub enum Metric {
    Meter(Meter),
    Gauge(Gauge),
    Counter(Counter),
    Histogram(Histogram),
}

/// Which of the four kinds a metric or a reading is.
#[derive(Clone, Copy, Debug, PartialEq, Eq, Structural)]
pub enum MetricKind {
    Meter,
    Gauge,
    Counter,
    Histogram,
}

/// What one metric held at the moment it was read.
#[derive(Clone, Copy, Debug, PartialEq, Eq, Structural)]
pub struct Snapshot {
    pub kind: MetricKind,
    pub value: i64,
}

impl Metric {
    pub open spec fn spec_kind(&self) -> MetricKind {
        match *self {
            Metric::Meter(_) => MetricKind::Meter,
            Metric::Gauge(_) => MetricKind::Gauge,
            Metric::Counter(_) => MetricKind::Counter,
            Metric::Histogram(_) => MetricKind::Histogram,
        }
    }

    /// The kind of this metric.
    #[verifier::when_used_as_spec(spec_kind)]
    pub fn kind(&self) -> (k: MetricKind)
        ensures
            k == self.spec_kind(),
    {
        match self {
            Metric::Meter(_) => MetricKind::Meter,
            Metric::Gauge(_) => MetricKind::Gauge,
            Metric::Counter(_) => MetricKind::Counter,
            Metric::Histogram(_) => MetricKind::Histogram,
        }
    }

    /// Reads the metric as it is now. The kind of the reading is the kind of
    /// the metric; its value is whatever the producer wrote last.
    pub fn snapshot(&self) -> (s: Snapshot)
        ensures
            s.kind == self.kind(),
    {
        match self {
            Metric::Meter(m) => Snapshot { kind: MetricKind::Meter, value: m.snapshot() },
            Metric::Gauge(g) => Snapshot { kind: MetricKind::Gauge, value: g.snapshot() },
            Metric::Counter(c) => Snapshot { kind: MetricKind::Counter, value: c.snapshot() },
            Metric::Histogram(h) => Snapshot {
                kind: MetricKind::Histogram,
                value: h.snapshot(),
            },
        }
    }
}

} // verus!
