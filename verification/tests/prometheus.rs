use metrics_reporter::channel::Polled;
use metrics_reporter::family::format_family_name;
use metrics_reporter::family::member_of;
use metrics_reporter::family::declared_type;
use metrics_reporter::family::MemberValue;
use metrics_reporter::family::MetricFamily;
use metrics_reporter::family::MetricType;
use metrics_reporter::labels::LabelSet;
use metrics_reporter::metrics::Counter;
use metrics_reporter::metrics::Gauge;
use metrics_reporter::metrics::Histogram;
use metrics_reporter::metrics::Meter;
use metrics_reporter::metrics::Metric;
use metrics_reporter::metrics::MetricKind;
use metrics_reporter::metrics::Snapshot;
use metrics_reporter::reporter::prometheus::after_cycle;
use metrics_reporter::reporter::prometheus::collect_to_send;
use metrics_reporter::reporter::prometheus::entry_of;
use metrics_reporter::reporter::prometheus::AfterCycle;
use metrics_reporter::reporter::prometheus::families_of;
use metrics_reporter::reporter::prometheus::keep_polled;
use metrics_reporter::reporter::prometheus::make_metric;
use metrics_reporter::reporter::prometheus::submission_result;
use metrics_reporter::reporter::prometheus::to_repeated_fields_labels;
use metrics_reporter::reporter::prometheus::PrometheusMetricEntry;
use metrics_reporter::reporter::prometheus::PrometheusReporter;
use metrics_reporter::reporter::prometheus::ReporterError;
use metrics_reporter::reporter::Reporter;
use std::time::SystemTime;
use std::time::UNIX_EPOCH;

fn counter_at(value: i64) -> Counter {
    let c = Counter::new();
    c.inc_by(value);
    c
}

fn gauge_at(value: i64) -> Gauge {
    let g = Gauge::new();
    g.set(value);
    g
}

fn entry(name: &str, metric: Metric) -> PrometheusMetricEntry {
    PrometheusMetricEntry { name: name.to_string(), metric, labels: LabelSet::new() }
}

fn family<'a>(families: &'a [MetricFamily], name: &str) -> &'a MetricFamily {
    let named: Vec<&MetricFamily> = families.iter().filter(|f| f.name == name).collect();
    assert_eq!(named.len(), 1);
    named[0]
}

fn unix_now() -> i64 {
    SystemTime::now().duration_since(UNIX_EPOCH).unwrap().as_secs() as i64
}

#[test]
fn prometheus_meter() {
    let m = Meter::new();
    m.mark(100);

    let c = Counter::new();
    c.inc();

    let g = Gauge::new();
    g.set(2);

    let h = Histogram::new();
    h.increment();

    let mut reporter = PrometheusReporter::new("test", "0.0.0.0:80");
    let task = reporter.start(1024);
    let labels = LabelSet::new();
    assert_eq!(reporter.add("meter1", Metric::Meter(m.clone()), labels.clone()), Ok(()));
    assert_eq!(reporter.add("counter1", Metric::Counter(c.clone()), labels.clone()), Ok(()));
    assert_eq!(reporter.add("gauge1", Metric::Gauge(g.clone()), labels.clone()), Ok(()));
    assert_eq!(reporter.add("histogram", Metric::Histogram(h), labels), Ok(()));

    assert_eq!(task.host_and_port(), "0.0.0.0:80");
    assert_eq!(task.delay_ms(), 1024);
    let drained = task.collect();
    assert!(!drained.closed);
    assert_eq!(drained.families.len(), 4);
    let meter = family(&drained.families, "application_name_meter1_bytes");
    assert_eq!(meter.declared_type, MetricType::Summary);
    assert_eq!(meter.members[0].value, MemberValue::Summary);
    let counter = family(&drained.families, "application_name_counter1_bytes");
    assert_eq!(counter.declared_type, MetricType::Counter);
    assert_eq!(counter.members[0].value, MemberValue::Counter(1));
    let gauge = family(&drained.families, "application_name_gauge1_bytes");
    assert_eq!(gauge.declared_type, MetricType::Gauge);
    assert_eq!(gauge.members[0].value, MemberValue::Gauge(2));
    let histogram = family(&drained.families, "application_name_histogram_bytes");
    assert_eq!(histogram.declared_type, MetricType::Histogram);
    assert_eq!(histogram.members[0].value, MemberValue::Histogram);
}

#[test]
fn reporter_keeps_its_name() {
    let mut reporter = PrometheusReporter::new("test", "0.0.0.0:80");
    assert_eq!(reporter.get_unique_reporter_name(), "test");
    assert!(!reporter.is_started());
    let _task = reporter.start(5);
    assert!(reporter.is_started());
    assert_eq!(reporter.get_unique_reporter_name(), "test");
}

#[test]
fn add_before_start_is_refused_for_every_kind() {
    let mut reporter = PrometheusReporter::new("test", "0.0.0.0:80");
    let mut labels = LabelSet::new();
    labels.insert("zone".to_string(), "a".to_string());
    assert_eq!(
        reporter.add("m", Metric::Meter(Meter::new()), LabelSet::new()),
        Err(ReporterError::NotStarted)
    );
    assert_eq!(
        reporter.add("c", Metric::Counter(Counter::new()), labels.clone()),
        Err(ReporterError::NotStarted)
    );
    assert_eq!(
        reporter.add("g", Metric::Gauge(Gauge::new()), labels),
        Err(ReporterError::NotStarted)
    );
    assert_eq!(
        reporter.add("h", Metric::Histogram(Histogram::new()), LabelSet::new()),
        Err(ReporterError::NotStarted)
    );
    assert!(!reporter.is_started());
}

#[test]
fn add_after_start_succeeds_however_many_are_queued() {
    let mut reporter = PrometheusReporter::new("test", "0.0.0.0:80");
    let task = reporter.start(1);
    let c = Counter::new();
    for _ in 0..10_000 {
        assert_eq!(reporter.add("c", Metric::Counter(c.clone()), LabelSet::new()), Ok(()));
    }
    let drained = task.collect();
    assert_eq!(drained.families.len(), 1);
    assert_eq!(drained.families[0].members.len(), 10_000);
}

#[test]
fn add_after_the_task_is_gone_reports_a_closed_channel() {
    let mut reporter = PrometheusReporter::new("test", "0.0.0.0:80");
    let task = reporter.start(1);
    drop(task);
    assert_eq!(
        reporter.add("c", Metric::Counter(Counter::new()), LabelSet::new()),
        Err(ReporterError::ChannelClosed)
    );
    assert!(reporter.is_started());
}

#[test]
fn submission_result_maps_both_outcomes() {
    assert_eq!(submission_result(Ok(())), Ok(()));
    assert_eq!(
        submission_result(Err(entry("c", Metric::Counter(Counter::new())))),
        Err(ReporterError::ChannelClosed)
    );
}

#[test]
fn error_messages() {
    assert_eq!(
        ReporterError::NotStarted.message(),
        "Please start the reporter before trying to add to it"
    );
    assert_eq!(
        ReporterError::ChannelClosed.message(),
        "Unable to send sending on a closed channel"
    );
    assert_eq!(ReporterError::SinkBindFailure.message(), "Unable to start prometheus reporter");
}

#[test]
fn k_entries_of_one_name_make_one_family_of_k_members() {
    let mut entries = Vec::new();
    for i in 0..7 {
        entries.push(entry("hits", Metric::Counter(counter_at(i))));
        entries.push(entry("other", Metric::Gauge(gauge_at(i))));
    }
    let families = families_of(entries);
    let hits = family(&families, "application_name_hits_bytes");
    assert_eq!(hits.members.len(), 7);
    for i in 0..7 {
        assert_eq!(hits.members[i].value, MemberValue::Counter(i as i64));
    }
    assert_eq!(families.len(), 2);
}

#[test]
fn declared_type_follows_the_first_entry() {
    let families = families_of(vec![
        entry("a", Metric::Gauge(gauge_at(1))),
        entry("b", Metric::Histogram(Histogram::new())),
        entry("a", Metric::Counter(counter_at(1))),
        entry("b", Metric::Meter(Meter::new())),
    ]);
    assert_eq!(families.len(), 2);
    let a = family(&families, "application_name_a_bytes");
    let b = family(&families, "application_name_b_bytes");
    assert_eq!(a.declared_type, MetricType::Gauge);
    assert_eq!(a.members[1].value, MemberValue::Counter(1));
    assert_eq!(b.declared_type, MetricType::Histogram);
    assert_eq!(b.members[1].value, MemberValue::Summary);
}

#[test]
fn counter_of_five_without_labels_round_trips() {
    let families = families_of(vec![entry("c", Metric::Counter(counter_at(5)))]);
    assert_eq!(families.len(), 1);
    assert_eq!(families[0].members.len(), 1);
    assert_eq!(families[0].members[0].value, MemberValue::Counter(5));
    assert_eq!(families[0].members[0].labels.len(), 0);
}

#[test]
fn mixed_kinds_under_one_name_keep_the_first_type() {
    let mut reporter = PrometheusReporter::new("test", "0.0.0.0:80");
    let task = reporter.start(1);
    assert_eq!(reporter.add("requests", Metric::Counter(counter_at(5)), LabelSet::new()), Ok(()));
    assert_eq!(reporter.add("requests", Metric::Gauge(gauge_at(2)), LabelSet::new()), Ok(()));
    let drained = task.collect();
    assert_eq!(drained.families.len(), 1);
    let family = &drained.families[0];
    assert_eq!(family.name, "application_name_requests_bytes");
    assert_eq!(family.declared_type, MetricType::Counter);
    assert_eq!(family.members.len(), 2);
    assert_eq!(family.members[0].value, MemberValue::Counter(5));
    assert_eq!(family.members[1].value, MemberValue::Gauge(2));
}

#[test]
fn a_cycle_reads_the_value_of_its_own_time() {
    let mut reporter = PrometheusReporter::new("test", "0.0.0.0:80");
    let task = reporter.start(1);
    let g = Gauge::new();
    g.set(2);
    assert_eq!(reporter.add("g", Metric::Gauge(g.clone()), LabelSet::new()), Ok(()));
    g.set(4);
    let drained = task.collect();
    assert_eq!(drained.families[0].members[0].value, MemberValue::Gauge(4));
}

#[test]
fn a_cycle_takes_what_waits_and_no_more() {
    let mut reporter = PrometheusReporter::new("test", "0.0.0.0:80");
    let task = reporter.start(1);
    assert_eq!(task.collect().families.len(), 0);
    assert_eq!(reporter.add("a", Metric::Counter(Counter::new()), LabelSet::new()), Ok(()));
    assert_eq!(task.collect().families.len(), 1);
    let again = task.collect();
    assert_eq!(again.families.len(), 0);
    assert!(!again.closed);
}

#[test]
fn a_cycle_sees_that_the_reporter_is_gone() {
    let mut reporter = PrometheusReporter::new("test", "0.0.0.0:80");
    let task = reporter.start(1);
    assert_eq!(reporter.add("a", Metric::Counter(Counter::new()), LabelSet::new()), Ok(()));
    drop(reporter);
    let last = task.collect();
    assert_eq!(last.families.len(), 1);
    assert!(last.closed);
}

#[test]
fn collect_to_send_reads_a_plain_channel() {
    let (tx, rx) = std::sync::mpsc::channel();
    tx.send(entry("x", Metric::Meter(Meter::new()))).unwrap();
    tx.send(entry("y", Metric::Meter(Meter::new()))).unwrap();
    tx.send(entry("x", Metric::Meter(Meter::new()))).unwrap();
    let drained = collect_to_send(&rx);
    assert!(!drained.closed);
    assert_eq!(drained.families.len(), 2);
    assert_eq!(family(&drained.families, "application_name_x_bytes").members.len(), 2);
    assert_eq!(family(&drained.families, "application_name_y_bytes").members.len(), 1);
}

#[test]
fn entries_of_many_producers_are_all_exported_once() {
    let mut reporter = PrometheusReporter::new("test", "0.0.0.0:80");
    let task = reporter.start(1);
    let producers = 4;
    let per_producer = 25;
    let names = ["p0", "p1", "p2", "p3"];
    let mut total = 0;
    for round in 0..per_producer {
        for p in 0..producers {
            let c = counter_at((p * per_producer + round) as i64);
            assert_eq!(reporter.add(names[p], Metric::Counter(c), LabelSet::new()), Ok(()));
        }
        if round % 10 == 9 {
            for family in task.collect().families {
                total += family.members.len();
            }
        }
    }
    for family in task.collect().families {
        total += family.members.len();
    }
    assert_eq!(total, producers * per_producer);
    assert_eq!(task.collect().families.len(), 0);
}

#[test]
fn labels_are_laid_out_in_the_order_of_the_set() {
    let mut labels = LabelSet::new();
    labels.insert("zone".to_string(), "a".to_string());
    labels.insert("host".to_string(), "h1".to_string());
    let field = to_repeated_fields_labels(labels);
    assert_eq!(field.len(), 2);
    assert_eq!(field[0].name, "zone");
    assert_eq!(field[0].value, "a");
    assert_eq!(field[1].name, "host");
    assert_eq!(field[1].value, "h1");
}

#[test]
fn make_metric_copies_labels_and_stamps_the_time() {
    let mut labels = LabelSet::new();
    labels.insert("zone".to_string(), "a".to_string());
    let before = unix_now();
    let (member, declared) = make_metric(&Metric::Gauge(gauge_at(-3)), &labels);
    let after = unix_now();
    assert_eq!(declared, MetricType::Gauge);
    assert_eq!(member.value, MemberValue::Gauge(-3));
    assert_eq!(member.labels.len(), 1);
    assert_eq!(member.labels[0].name, "zone");
    assert_eq!(member.labels[0].value, "a");
    assert!(before <= member.timestamp && member.timestamp <= after);
    assert_eq!(labels.len(), 1);
}

#[test]
fn conversion_table() {
    assert_eq!(declared_type(MetricKind::Counter), MetricType::Counter);
    assert_eq!(declared_type(MetricKind::Gauge), MetricType::Gauge);
    assert_eq!(declared_type(MetricKind::Meter), MetricType::Summary);
    assert_eq!(declared_type(MetricKind::Histogram), MetricType::Histogram);
    let none = || to_repeated_fields_labels(LabelSet::new());
    let of = |kind, value| member_of(Snapshot { kind, value }, none(), 17);
    assert_eq!(of(MetricKind::Counter, 5).value, MemberValue::Counter(5));
    assert_eq!(of(MetricKind::Gauge, 6).value, MemberValue::Gauge(6));
    assert_eq!(of(MetricKind::Meter, 7).value, MemberValue::Summary);
    assert_eq!(of(MetricKind::Histogram, 8).value, MemberValue::Histogram);
    assert_eq!(of(MetricKind::Counter, 5).timestamp, 17);
}

#[test]
fn family_name_formula() {
    assert_eq!(format_family_name("requests"), "application_name_requests_bytes");
    assert_eq!(format_family_name(""), "application_name__bytes");
}

#[test]
fn a_second_start_closes_the_first_queue() {
    let mut reporter = PrometheusReporter::new("test", "0.0.0.0:80");
    let first = reporter.start(1);
    assert_eq!(reporter.add("a", Metric::Counter(Counter::new()), LabelSet::new()), Ok(()));
    let second = reporter.start(2);
    assert_eq!(reporter.add("b", Metric::Counter(Counter::new()), LabelSet::new()), Ok(()));
    let old = first.collect();
    assert!(old.closed);
    assert_eq!(old.families.len(), 1);
    assert_eq!(old.families[0].name, "application_name_a_bytes");
    let new = second.collect();
    assert!(!new.closed);
    assert_eq!(new.families.len(), 1);
    assert_eq!(new.families[0].name, "application_name_b_bytes");
}

#[test]
fn each_look_at_the_queue_is_judged() {
    let mut kept = vec![entry("a", Metric::Counter(counter_at(1)))];
    assert_eq!(keep_polled(&mut kept, Polled::Item(entry("b", Metric::Counter(counter_at(2))))), None);
    assert_eq!(kept.len(), 2);
    assert_eq!(kept[0].name, "a");
    assert_eq!(kept[1].name, "b");
    assert_eq!(keep_polled(&mut kept, Polled::Empty), Some(false));
    assert_eq!(kept.len(), 2);
    assert_eq!(keep_polled(&mut kept, Polled::Disconnected), Some(true));
    assert_eq!(kept.len(), 2);
}

#[test]
fn an_entry_carries_what_was_submitted() {
    let g = Gauge::new();
    let mut labels = LabelSet::new();
    labels.insert("zone".to_string(), "a".to_string());
    let made = entry_of("requests", Metric::Gauge(g.clone()), labels);
    assert_eq!(made.name, "requests");
    assert_eq!(made.labels.len(), 1);
    assert_eq!(made.labels.get(0).name, "zone");
    assert_eq!(made.labels.get(0).value, "a");
    g.set(11);
    assert_eq!(made.metric.snapshot(), Snapshot { kind: MetricKind::Gauge, value: 11 });
}

#[test]
fn add_queues_the_entry_once_with_its_labels() {
    let mut reporter = PrometheusReporter::new("test", "0.0.0.0:80");
    let task = reporter.start(1);
    let mut labels = LabelSet::new();
    labels.insert("zone".to_string(), "a".to_string());
    assert_eq!(reporter.add("requests", Metric::Counter(counter_at(3)), labels), Ok(()));
    let drained = task.collect();
    assert_eq!(drained.families.len(), 1);
    let requests = family(&drained.families, "application_name_requests_bytes");
    assert_eq!(requests.members.len(), 1);
    assert_eq!(requests.members[0].value, MemberValue::Counter(3));
    assert_eq!(requests.members[0].labels.len(), 1);
    assert_eq!(requests.members[0].labels[0].name, "zone");
    assert_eq!(requests.members[0].labels[0].value, "a");
    assert_eq!(task.collect().families.len(), 0);
}

#[test]
fn after_a_cycle_the_task_sleeps_or_stops() {
    assert_eq!(after_cycle(false, 1024), AfterCycle::Sleep(1024));
    assert_eq!(after_cycle(false, 0), AfterCycle::Sleep(0));
    assert_eq!(after_cycle(true, 1024), AfterCycle::Stop);
}

#[test]
fn members_over_several_cycles_number_the_submissions() {
    let mut reporter = PrometheusReporter::new("test", "0.0.0.0:80");
    let task = reporter.start(1);
    let names = ["a", "b", "c"];
    let mut total = 0;
    let mut under_b = 0;
    for round in 0..30 {
        let name = names[round % 3];
        assert_eq!(reporter.add(name, Metric::Counter(counter_at(1)), LabelSet::new()), Ok(()));
        if round % 7 == 6 {
            for f in task.collect().families {
                total += f.members.len();
                if f.name == "application_name_b_bytes" {
                    under_b += f.members.len();
                }
            }
        }
    }
    for f in task.collect().families {
        total += f.members.len();
        if f.name == "application_name_b_bytes" {
            under_b += f.members.len();
        }
    }
    assert_eq!(total, 30);
    assert_eq!(under_b, 10);
}
