//! Periodic export of in-process metrics to a console and to a Prometheus sink.
//!
//! Producers hand live metrics to a reporter. A console reporter reads each of
//! its metrics once per tick. A Prometheus reporter queues what is submitted
//! and, once per cycle, drains the queue, groups the entries by metric name and
//! builds one metric family per name.

pub mod channel;
pub mod clock;
pub mod family;
pub mod grouping;
pub mod labels;
pub mod metrics;
pub mod reporter;
