//! The console reporter: it reads each of its metrics once per tick.

use crate::metrics::Metric;
use crate::metrics::Snapshot;
use crate::reporter::Reporter;
use vstd::prelude::*;

verus! {

/// A reporter that is filled with metrics and then started.
pub struct ConsoleReporter {
    metrics: Vec<Metric>,
    reporter_name: &'static str,
}

/// The running half of a console reporter: the metrics it reads at each
/// tick and the pause between two ticks.
pub struct ConsoleTask {
    metrics: Vec<Metric>,
    delay_ms: u64,
}

impl Reporter for ConsoleReporter {
    closed spec fn unique_reporter_name(&self) -> Seq<char> {
        self.reporter_name@
    }

    fn get_unique_reporter_name(&self) -> (name: &'static str) {
        self.reporter_name
    }
}

impl ConsoleReporter {
    /// The metrics that were added so far, in the order in which they came.
    pub closed spec fn metrics(&self) -> Seq<Metric> {
        self.metrics@
    }

    /// A reporter named `reporter_name` that holds no metric yet.
    pub fn new(reporter_name: &'static str) -> (reporter: Self)
        ensures
            reporter.unique_reporter_name() == reporter_name@,
            reporter.metrics() == Seq::<Metric>::empty(),
    {
        ConsoleReporter { metrics: Vec::new(), reporter_name }
    }

    /// Adds `metric` behind those that are held already.
    pub fn add(&mut self, metric: Metric)
        ensures
            final(self).metrics() == old(self).metrics().push(metric),
            final(self).unique_reporter_name() == old(self).unique_reporter_name(),
    {
        self.metrics.push(metric);
    }

    /// Ends the filling: the reporter becomes the task that reads its metrics
    /// every `delay_ms` milliseconds.
    pub fn start(self, delay_ms: u64) -> (task: ConsoleTask)
        ensures
            task.metrics() == self.metrics(),
            task.delay() == delay_ms,
    {
        ConsoleTask { metrics: self.metrics, delay_ms }
    }
}

/// `readings` are readings of `metrics`, one of each and in the same order.
pub open spec fn reads_each(readings: Seq<Snapshot>, metrics: Seq<Metric>) -> bool {
    &&& readings.len() == metrics.len()
    &&& forall|i: int| 0 <= i < metrics.len() ==> (#[trigger] readings[i]).kind == metrics[i].kind()
}

impl ConsoleTask {
    /// The metrics that are read at each tick.
    pub closed spec fn metrics(&self) -> Seq<Metric> {
        self.metrics@
    }

    /// The pause between two ticks, in milliseconds.
    pub closed spec fn delay(&self) -> u64 {
        self.delay_ms
    }

    /// The pause between two ticks, in milliseconds.
    pub fn delay_ms(&self) -> (delay: u64)
        ensures
            delay == self.delay(),
    {
        self.delay_ms
    }

    /// One tick: reads every metric as it is now, in the order in which the
    /// metrics were added. The readings are what is to be printed.
    pub fn tick(&self) -> (readings: Vec<Snapshot>)
        ensures
            reads_each(readings@, self.metrics()),
    {
        let mut readings: Vec<Snapshot> = Vec::new();
        let mut i: usize = 0;
        while i < self.metrics.len()
            invariant
                i <= self.metrics.len(),
                reads_each(readings@, self.metrics@.take(i as int)),
            decreases self.metrics.len() - i,
        {
            readings.push(self.metrics[i].snapshot());
            i += 1;
        }
        assert(self.metrics@.take(i as int) =~= self.metrics@);
        readings
    }
}

} // verus!
