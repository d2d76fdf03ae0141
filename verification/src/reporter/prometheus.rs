//! The Prometheus reporter: a queue that producers fill and that the export
//! task drains, once per cycle, into metric families.

use crate::channel::open_channel;
use crate::channel::send;
use crate::channel::try_receive;
use crate::channel::Polled;
use crate::clock::now_seconds;
use crate::family::declared_type;
use crate::family::family_name;
use crate::family::format_family_name;
use crate::family::kind_of_value;
use crate::family::lemma_family_name_injective;
use crate::family::label_fields;
use crate::family::member_of;
use crate::family::repeated_from_vec;
use crate::family::type_of_kind;
use crate::family::FamilyView;
use crate::family::Member;
use crate::family::MemberView;
use crate::family::MetricFamily;
use crate::family::MetricType;
use crate::grouping::bucket_total;
use crate::grouping::bucket_views;
use crate::grouping::group_entries;
use crate::grouping::grouped;
use crate::grouping::lemma_grouped;
use crate::grouping::lemma_grouped_total;
use crate::grouping::Bucket;
use crate::grouping::entries_named;
use crate::grouping::first_bucket;
use crate::grouping::lemma_first_entry_leads;
use crate::grouping::lemma_one_bucket_per_name;
use crate::labels::LabelPair;
use crate::labels::LabelSet;
use crate::metrics::Metric;
use crate::reporter::Reporter;
use protobuf::repeated::RepeatedField;
use std::sync::mpsc::Receiver;
use std::sync::mpsc::Sender;
use vstd::prelude::*;

verus! {

/// One submission: a metric, the name it is exported under, and its labels.
pub struct PrometheusMetricEntry {
    pub name: String,
    pub metric: Metric,
    pub labels: LabelSet,
}

/// Why a reporter could not do what was asked.
#[derive(Clone, Copy, Debug, PartialEq, Eq, Structural)]
pub enum ReporterError {
    /// A metric was submitted before the reporter was started.
    NotStarted,
    /// A metric was submitted after the export task had gone.
    ChannelClosed,
    /// The export task could not set up its sink.
    SinkBindFailure,
}

impl ReporterError {
    /// The error in words.
    pub open spec fn spec_message(&self) -> Seq<char> {
        match *self {
            ReporterError::NotStarted => "Please start the reporter before trying to add to it"@,
            ReporterError::ChannelClosed => "Unable to send sending on a closed channel"@,
            ReporterError::SinkBindFailure => "Unable to start prometheus reporter"@,
        }
    }

    /// The error in words.
    pub fn message(&self) -> (text: String)
        ensures
            text@ == self.spec_message(),
    {
        match self {
            ReporterError::NotStarted => String::from_str(
                "Please start the reporter before trying to add to it",
            ),
            ReporterError::ChannelClosed => String::from_str(
                "Unable to send sending on a closed channel",
            ),
            ReporterError::SinkBindFailure => String::from_str("Unable to start prometheus reporter"),
        }
    }
}

/// A reporter that takes submissions once it has been started.
pub struct PrometheusReporter {
    reporter_name: &'static str,
    host_and_port: &'static str,
    tx: Option<Sender<PrometheusMetricEntry>>,
}

/// The export task of a started reporter: the receiving end of its queue,
/// the address of its sink and the pause between two cycles.
pub struct ExportTask {
    rx: Receiver<PrometheusMetricEntry>,
    host_and_port: &'static str,
    delay_ms: u64,
}

/// What the export task does when a cycle is over.
#[derive(Clone, Copy, Debug, PartialEq, Eq, Structural)]
pub enum AfterCycle {
    /// Sleep for so many milliseconds, then run the next cycle.
    Sleep(u64),
    /// End the task: the queue is closed for good.
    Stop,
}

/// What the export task does after a cycle that found the queue closed or
/// not, where the pause between two cycles is `delay_ms` milliseconds.
pub fn after_cycle(closed: bool, delay_ms: u64) -> (next: AfterCycle)
    ensures
        next == (if closed {
            AfterCycle::Stop
        } else {
            AfterCycle::Sleep(delay_ms)
        }),
{
    if closed {
        AfterCycle::Stop
    } else {
        AfterCycle::Sleep(delay_ms)
    }
}

/// What one cycle of the export task found.
pub struct Drained {
    /// The families to hand to the sink, one for each name that was submitted.
    pub families: Vec<MetricFamily>,
    /// Every sender is gone: no further cycle will find anything.
    pub closed: bool,
}

impl Reporter for PrometheusReporter {
    closed spec fn unique_reporter_name(&self) -> Seq<char> {
        self.reporter_name@
    }

    fn get_unique_reporter_name(&self) -> (name: &'static str) {
        self.reporter_name
    }
}

/// The entry that a submission puts into the queue: it carries the name, the
/// metric and the labels as they were given.
pub fn entry_of(name: &'static str, metric: Metric, labels: LabelSet) -> (entry:
    PrometheusMetricEntry)
    ensures
        entry.name@ == name@,
        entry.metric == metric,
        entry.labels == labels,
{
    PrometheusMetricEntry { name: name.to_owned(), metric, labels }
}

/// What `add` answers once the queue has taken the entry or handed it back.
pub fn submission_result(sent: Result<(), PrometheusMetricEntry>) -> (result: Result<
    (),
    ReporterError,
>)
    ensures
        result == (match sent {
            Ok(_) => Ok::<(), ReporterError>(()),
            Err(_) => Err::<(), ReporterError>(ReporterError::ChannelClosed),
        }),
{
    match sent {
        Ok(_) => Ok(()),
        Err(_) => Err(ReporterError::ChannelClosed),
    }
}

impl PrometheusReporter {
    /// The reporter has been started.
    pub closed spec fn started(&self) -> bool {
        self.tx is Some
    }

    /// The address that the sink is to be bound to.
    pub closed spec fn sink_address(&self) -> Seq<char> {
        self.host_and_port@
    }

    /// A reporter named `reporter_name` for a sink at `host_and_port`. It is
    /// not started.
    pub fn new(reporter_name: &'static str, host_and_port: &'static str) -> (reporter: Self)
        ensures
            !reporter.started(),
            reporter.unique_reporter_name() == reporter_name@,
            reporter.sink_address() == host_and_port@,
    {
        PrometheusReporter { reporter_name, host_and_port, tx: None }
    }

    /// Whether the reporter has been started.
    pub fn is_started(&self) -> (started: bool)
        ensures
            started == self.started(),
    {
        self.tx.is_some()
    }

    /// Submits `metric` under `name` with `labels`. Before the reporter is
    /// started this fails with `NotStarted`. Afterwards the entry that
    /// `entry_of` makes of the three is handed to the queue, once; this never
    /// blocks, and fails, with `ChannelClosed`, only if the queue hands the
    /// entry back. The reporter itself is left as it was.
    pub fn add(&mut self, name: &'static str, metric: Metric, labels: LabelSet) -> (result: Result<
        (),
        ReporterError,
    >)
        ensures
            !old(self).started() ==> result == Err::<(), ReporterError>(ReporterError::NotStarted),
            old(self).started() ==> result is Ok || result == Err::<(), ReporterError>(
                ReporterError::ChannelClosed,
            ),
            *final(self) == *old(self),
    {
        match &self.tx {
            Some(tx) => {
                submission_result(send(tx, entry_of(name, metric, labels)))
            },
            None => Err(ReporterError::NotStarted),
        }
    }

    /// Starts the reporter: opens its queue, keeps the sending end and gives
    /// the receiving end to the export task that is returned. From now on
    /// submissions are taken.
    pub fn start(&mut self, delay_ms: u64) -> (task: ExportTask)
        ensures
            final(self).started(),
            final(self).unique_reporter_name() == old(self).unique_reporter_name(),
            final(self).sink_address() == old(self).sink_address(),
            task.sink_address() == old(self).sink_address(),
            task.delay() == delay_ms,
    {
        let (tx, rx) = open_channel();
        self.tx = Some(tx);
        ExportTask { rx, host_and_port: self.host_and_port, delay_ms }
    }
}

/// Lays a label set out as the repeated field of a member: one pair for each
/// label, in the order of the set.
pub fn to_repeated_fields_labels(labels: LabelSet) -> (field: RepeatedField<LabelPair>)
    ensures
        label_fields(field) == labels@,
{
    repeated_from_vec(labels.into_vec())
}

/// `member` stands for a reading of `metric` submitted with `labels`: it has
/// those labels, and its value is of the metric's kind.
pub open spec fn member_reports(member: MemberView, metric: Metric, labels: LabelSet) -> bool {
    &&& member.labels == labels@
    &&& kind_of_value(member.value) == metric.kind()
}

/// Reads `metric` and the clock now, and makes the member that carries the
/// reading with a copy of `labels`, together with the type that a family led
/// by this metric declares.
pub fn make_metric(metric: &Metric, labels: &LabelSet) -> (made: (Member, MetricType))
    ensures
        member_reports(made.0@, *metric, *labels),
        made.1 == type_of_kind(metric.kind()),
{
    let ts = now_seconds();
    let snapshot = metric.snapshot();
    let member = member_of(snapshot, to_repeated_fields_labels(labels.clone()), ts);
    (member, declared_type(snapshot.kind))
}

/// `family` is what the bucket `group` is exported as: it bears the exported
/// form of the bucket's name, declares the type of the bucket's first entry,
/// and has one member for each entry, in the same order.
pub open spec fn family_reports(
    family: FamilyView,
    group: (Seq<char>, Seq<PrometheusMetricEntry>),
) -> bool {
    &&& family.name == family_name(group.0)
    &&& family.declared_type == type_of_kind(group.1[0].metric.kind())
    &&& family.members.len() == group.1.len()
    &&& forall|i: int|
        0 <= i < group.1.len() ==> member_reports(
            #[trigger] family.members[i],
            group.1[i].metric,
            group.1[i].labels,
        )
}

/// `families` are what `entries` are exported as: one family for each bucket
/// that grouping makes of them, in the order of the buckets.
pub open spec fn families_report(
    families: Seq<MetricFamily>,
    entries: Seq<PrometheusMetricEntry>,
) -> bool {
    &&& families.len() == grouped(entries).len()
    &&& forall|i: int|
        0 <= i < families.len() ==> family_reports((#[trigger] families[i])@, grouped(entries)[i])
}

/// A name under which `k` entries were submitted in one cycle, `k` at least
/// one, is exported as exactly one family, and that family has `k` members.
pub proof fn lemma_one_family_per_name(
    families: Seq<MetricFamily>,
    entries: Seq<PrometheusMetricEntry>,
    name: Seq<char>,
)
    requires
        families_report(families, entries),
        entries_named(entries, name).len() > 0,
    ensures
        ({
            let at = first_bucket(grouped(entries), name);
            &&& 0 <= at < families.len()
            &&& families[at]@.name == family_name(name)
            &&& families[at]@.members.len() == entries_named(entries, name).len()
            &&& forall|i: int|
                0 <= i < families.len() && i != at ==> (#[trigger] families[i])@.name
                    != family_name(name)
        }),
{
    let groups = grouped(entries);
    lemma_one_bucket_per_name(entries, name);
    let at = first_bucket(groups, name);
    assert(0 <= at < groups.len()) by {
        crate::grouping::lemma_first_bucket_exists(groups, name);
    }
    assert(family_reports(families[at]@, groups[at]));
    assert forall|i: int| 0 <= i < families.len() && i != at implies (#[trigger] families[i])@.name
        != family_name(name) by {
        assert(family_reports(families[i]@, groups[i]));
        assert(groups[i].0 != name);
        if family_name(groups[i].0) == family_name(name) {
            lemma_family_name_injective(groups[i].0, name);
        }
    }
}

/// The family of a name declares the type that goes with the kind of the
/// first entry submitted under that name in the cycle, whatever the kinds of
/// the entries that follow.
pub proof fn lemma_first_entry_declares_type(
    families: Seq<MetricFamily>,
    entries: Seq<PrometheusMetricEntry>,
    first: int,
)
    requires
        families_report(families, entries),
        0 <= first < entries.len(),
        forall|k: int| 0 <= k < first ==> (#[trigger] entries[k]).name@ != entries[first].name@,
    ensures
        ({
            let at = first_bucket(grouped(entries), entries[first].name@);
            &&& 0 <= at < families.len()
            &&& families[at]@.name == family_name(entries[first].name@)
            &&& families[at]@.declared_type == type_of_kind(entries[first].metric.kind())
        }),
{
    let name = entries[first].name@;
    lemma_first_entry_leads(entries, name, first);
    lemma_one_family_per_name(families, entries, name);
    lemma_one_bucket_per_name(entries, name);
    let at = first_bucket(grouped(entries), name);
    assert(family_reports(families[at]@, grouped(entries)[at]));
}

/// The number of members that `families` have between them.
pub open spec fn member_count(families: Seq<MetricFamily>) -> nat
    decreases families.len(),
{
    if families.len() == 0 {
        0
    } else {
        member_count(families.drop_last()) + families.last()@.members.len()
    }
}

/// The number of members that the families of all `cycles` have between them.
pub open spec fn member_count_of_cycles(cycles: Seq<Seq<MetricFamily>>) -> nat
    decreases cycles.len(),
{
    if cycles.len() == 0 {
        0
    } else {
        member_count_of_cycles(cycles.drop_last()) + member_count(cycles.last())
    }
}

/// The number of entries that all `drains` hold between them.
pub open spec fn entry_count_of_drains(drains: Seq<Seq<PrometheusMetricEntry>>) -> nat
    decreases drains.len(),
{
    if drains.len() == 0 {
        0
    } else {
        entry_count_of_drains(drains.drop_last()) + drains.last().len()
    }
}

/// The first `n` families have as many members as the first `n` buckets
/// have entries, where each family is that of the bucket at its place.
proof fn lemma_members_match_buckets(
    families: Seq<MetricFamily>,
    groups: Seq<(Seq<char>, Seq<PrometheusMetricEntry>)>,
)
    requires
        families.len() == groups.len(),
        forall|i: int|
            0 <= i < families.len() ==> (#[trigger] families[i])@.members.len() == groups[i].1.len(),
    ensures
        member_count(families) == bucket_total(groups),
    decreases families.len(),
{
    if families.len() > 0 {
        assert(families.last() == families[families.len() - 1]);
        assert(groups.last() == groups[groups.len() - 1]);
        assert forall|i: int| 0 <= i < families.drop_last().len() implies (
        #[trigger] families.drop_last()[i])@.members.len() == groups.drop_last()[i].1.len() by {
            assert(families.drop_last()[i] == families[i]);
            assert(groups.drop_last()[i] == groups[i]);
        }
        lemma_members_match_buckets(families.drop_last(), groups.drop_last());
    }
}

/// The families of one cycle have, between them, one member for each entry
/// of the cycle: no entry is lost and none is exported twice.
pub proof fn lemma_one_member_per_entry(
    families: Seq<MetricFamily>,
    entries: Seq<PrometheusMetricEntry>,
)
    requires
        families_report(families, entries),
    ensures
        member_count(families) == entries.len(),
{
    let groups = grouped(entries);
    assert forall|i: int| 0 <= i < families.len() implies (#[trigger] families[i])@.members.len()
        == groups[i].1.len() by {
        assert(family_reports(families[i]@, groups[i]));
    }
    lemma_members_match_buckets(families, groups);
    lemma_grouped_total(entries);
}

/// A name under which nothing was submitted in a cycle has no family in it.
pub proof fn lemma_no_family_without_entry(
    families: Seq<MetricFamily>,
    entries: Seq<PrometheusMetricEntry>,
    name: Seq<char>,
)
    requires
        families_report(families, entries),
        entries_named(entries, name).len() == 0,
    ensures
        forall|i: int| 0 <= i < families.len() ==> (#[trigger] families[i])@.name != family_name(name),
{
    let groups = grouped(entries);
    lemma_grouped(entries);
    assert forall|i: int| 0 <= i < families.len() implies (#[trigger] families[i])@.name
        != family_name(name) by {
        assert(family_reports(families[i]@, groups[i]));
        assert(groups[i].1 == entries_named(entries, groups[i].0));
        if family_name(groups[i].0) == family_name(name) {
            lemma_family_name_injective(groups[i].0, name);
        }
    }
}

/// Over any number of cycles, the families have between them one member for
/// each entry that the cycles drained, where the families of each cycle are
/// those of what that cycle drained.
pub proof fn lemma_cycles_export_each_entry_once(
    cycles: Seq<Seq<MetricFamily>>,
    drains: Seq<Seq<PrometheusMetricEntry>>,
)
    requires
        cycles.len() == drains.len(),
        forall|c: int| 0 <= c < cycles.len() ==> families_report(#[trigger] cycles[c], drains[c]),
    ensures
        member_count_of_cycles(cycles) == entry_count_of_drains(drains),
    decreases cycles.len(),
{
    if cycles.len() > 0 {
        let last = cycles.len() - 1;
        assert(families_report(cycles[last], drains[last]));
        lemma_one_member_per_entry(cycles.last(), drains.last());
        assert forall|c: int| 0 <= c < cycles.drop_last().len() implies families_report(
            #[trigger] cycles.drop_last()[c],
            drains.drop_last()[c],
        ) by {
            assert(families_report(cycles[c], drains[c]));
        }
        lemma_cycles_export_each_entry_once(cycles.drop_last(), drains.drop_last());
    }
}

/// The number of members that the families named `exported` have between
/// them.
pub open spec fn members_under(families: Seq<MetricFamily>, exported: Seq<char>) -> nat
    decreases families.len(),
{
    if families.len() == 0 {
        0
    } else if families.last()@.name == exported {
        members_under(families.drop_last(), exported) + families.last()@.members.len()
    } else {
        members_under(families.drop_last(), exported)
    }
}

/// The number of members that the families named `exported` have between
/// them over all `cycles`.
pub open spec fn members_under_in_cycles(
    cycles: Seq<Seq<MetricFamily>>,
    exported: Seq<char>,
) -> nat
    decreases cycles.len(),
{
    if cycles.len() == 0 {
        0
    } else {
        members_under_in_cycles(cycles.drop_last(), exported) + members_under(
            cycles.last(),
            exported,
        )
    }
}

/// The number of entries named `name` that all `drains` hold between them.
pub open spec fn entries_named_in_drains(
    drains: Seq<Seq<PrometheusMetricEntry>>,
    name: Seq<char>,
) -> nat
    decreases drains.len(),
{
    if drains.len() == 0 {
        0
    } else {
        entries_named_in_drains(drains.drop_last(), name) + entries_named(
            drains.last(),
            name,
        ).len()
    }
}

/// Where no family is named `exported`, except perhaps the one at `at`, the
/// members under that name are those of that one, or none.
proof fn lemma_members_under_one(families: Seq<MetricFamily>, exported: Seq<char>, at: int)
    requires
        forall|i: int|
            0 <= i < families.len() && i != at ==> (#[trigger] families[i])@.name != exported,
        0 <= at < families.len() ==> families[at]@.name == exported,
    ensures
        members_under(families, exported) == (if 0 <= at < families.len() {
            families[at]@.members.len()
        } else {
            0
        }),
    decreases families.len(),
{
    if families.len() > 0 {
        let front = families.drop_last();
        assert(families.last() == families[families.len() - 1]);
        assert forall|i: int| 0 <= i < front.len() && i != at implies (#[trigger] front[i])@.name
            != exported by {
            assert(front[i] == families[i]);
        }
        if 0 <= at < front.len() {
            assert(front[at] == families[at]);
        }
        lemma_members_under_one(front, exported, at);
    }
}

/// The families of one cycle have, under the exported form of a name, one
/// member for each entry that was submitted under that name in the cycle.
pub proof fn lemma_one_member_per_entry_of_name(
    families: Seq<MetricFamily>,
    entries: Seq<PrometheusMetricEntry>,
    name: Seq<char>,
)
    requires
        families_report(families, entries),
    ensures
        members_under(families, family_name(name)) == entries_named(entries, name).len(),
{
    if entries_named(entries, name).len() == 0 {
        lemma_no_family_without_entry(families, entries, name);
        lemma_members_under_one(families, family_name(name), -1);
    } else {
        lemma_one_family_per_name(families, entries, name);
        lemma_members_under_one(
            families,
            family_name(name),
            first_bucket(grouped(entries), name),
        );
    }
}

/// Over any number of cycles, the families have under the exported form of
/// a name one member for each entry of that name that the cycles drained,
/// where the families of each cycle are those of what that cycle drained.
pub proof fn lemma_cycles_export_each_entry_of_name_once(
    cycles: Seq<Seq<MetricFamily>>,
    drains: Seq<Seq<PrometheusMetricEntry>>,
    name: Seq<char>,
)
    requires
        cycles.len() == drains.len(),
        forall|c: int| 0 <= c < cycles.len() ==> families_report(#[trigger] cycles[c], drains[c]),
    ensures
        members_under_in_cycles(cycles, family_name(name)) == entries_named_in_drains(
            drains,
            name,
        ),
    decreases cycles.len(),
{
    if cycles.len() > 0 {
        let last = cycles.len() - 1;
        assert(families_report(cycles[last], drains[last]));
        lemma_one_member_per_entry_of_name(cycles.last(), drains.last(), name);
        assert forall|c: int| 0 <= c < cycles.drop_last().len() implies families_report(
            #[trigger] cycles.drop_last()[c],
            drains.drop_last()[c],
        ) by {
            assert(families_report(cycles[c], drains[c]));
        }
        lemma_cycles_export_each_entry_of_name_once(cycles.drop_last(), drains.drop_last(), name);
    }
}

/// Builds the family of one bucket, reading each of its metrics now.
pub fn make_family(bucket: &Bucket) -> (family: MetricFamily)
    requires
        bucket.entries@.len() > 0,
    ensures
        family_reports(family@, bucket@),
{
    let formatted_metric = format_family_name(bucket.name.as_str());
    let e1 = &bucket.entries[0];
    let (_, pb_metric_type) = make_metric(&e1.metric, &e1.labels);
    let mut pb_metrics: Vec<Member> = Vec::new();
    let mut i: usize = 0;
    while i < bucket.entries.len()
        invariant
            i <= bucket.entries.len(),
            pb_metrics@.len() == i,
            forall|k: int|
                0 <= k < i ==> member_reports(
                    (#[trigger] pb_metrics@[k])@,
                    bucket.entries@[k].metric,
                    bucket.entries@[k].labels,
                ),
        decreases bucket.entries.len() - i,
    {
        let metric_entry = &bucket.entries[i];
        let (pb_metric, _) = make_metric(&metric_entry.metric, &metric_entry.labels);
        pb_metrics.push(pb_metric);
        i += 1;
    }
    MetricFamily { name: formatted_metric, declared_type: pb_metric_type, members: pb_metrics }
}

/// Groups `entries` by name and builds one family for each name, reading
/// each metric now.
pub fn families_of(entries: Vec<PrometheusMetricEntry>) -> (families: Vec<MetricFamily>)
    ensures
        families_report(families@, entries@),
{
    let buckets = group_entries(entries);
    proof {
        lemma_grouped(entries@);
    }
    let mut families: Vec<MetricFamily> = Vec::new();
    let mut i: usize = 0;
    while i < buckets.len()
        invariant
            i <= buckets.len(),
            bucket_views(buckets@) == grouped(entries@),
            forall|k: int| 0 <= k < buckets.len() ==> (#[trigger] grouped(entries@)[k]).1.len() > 0,
            families@.len() == i,
            forall|k: int|
                0 <= k < i ==> family_reports((#[trigger] families@[k])@, grouped(entries@)[k]),
        decreases buckets.len() - i,
    {
        assert(bucket_views(buckets@)[i as int] == buckets@[i as int]@);
        let family = make_family(&buckets[i]);
        families.push(family);
        i += 1;
    }
    families
}

/// Takes from the queue every entry that is waiting now, in the order in
/// which the entries were queued, and says whether the queue was found
/// closed. It does not wait for entries that have not come yet. What is
/// waiting is the queue's affair: each look at it is judged by `keep_polled`.
fn drain(metric_entries: &Receiver<PrometheusMetricEntry>) -> (drained: (
    Vec<PrometheusMetricEntry>,
    bool,
)) {
    let mut entries: Vec<PrometheusMetricEntry> = Vec::new();
    while entries.len() < usize::MAX
        invariant
            entries.len() <= usize::MAX,
        decreases usize::MAX - entries.len(),
    {
        match keep_polled(&mut entries, try_receive(metric_entries)) {
            Some(closed) => {
                return (entries, closed);
            },
            None => {},
        }
    }
    (entries, false)
}

/// Judges one look at the queue. An entry that was waiting is kept behind
/// those kept already, and the drain goes on. An empty queue ends the drain
/// and leaves the queue open; a queue without senders ends it and is closed.
pub fn keep_polled(
    entries: &mut Vec<PrometheusMetricEntry>,
    polled: Polled<PrometheusMetricEntry>,
) -> (end: Option<bool>)
    ensures
        match polled {
            Polled::Item(entry) => final(entries)@ == old(entries)@.push(entry) && end is None,
            Polled::Empty => final(entries)@ == old(entries)@ && end == Some(false),
            Polled::Disconnected => final(entries)@ == old(entries)@ && end == Some(true),
        },
{
    match polled {
        Polled::Item(entry) => {
            entries.push(entry);
            None
        },
        Polled::Empty => Some(false),
        Polled::Disconnected => Some(true),
    }
}

/// One cycle of the export task: drains the queue and builds the families of
/// what was found. Whatever entries were waiting, the families are those of
/// these entries, grouped by name.
pub fn collect_to_send(metric_entries: &Receiver<PrometheusMetricEntry>) -> (drained: Drained)
    ensures
        exists|entries: Seq<PrometheusMetricEntry>|
            #[trigger] families_report(drained.families@, entries),
{
    let (entries, closed) = drain(metric_entries);
    let ghost found = entries@;
    let drained = Drained { families: families_of(entries), closed };
    assert(families_report(drained.families@, found));
    drained
}

impl ExportTask {
    /// The address that the sink is to be bound to.
    pub closed spec fn sink_address(&self) -> Seq<char> {
        self.host_and_port@
    }

    /// The pause between two cycles, in milliseconds.
    pub closed spec fn delay(&self) -> u64 {
        self.delay_ms
    }

    /// The address that the sink is to be bound to.
    pub fn host_and_port(&self) -> (address: &'static str)
        ensures
            address@ == self.sink_address(),
    {
        self.host_and_port
    }

    /// The pause between two cycles, in milliseconds.
    pub fn delay_ms(&self) -> (delay: u64)
        ensures
            delay == self.delay(),
    {
        self.delay_ms
    }

    /// One cycle: see `collect_to_send`.
    pub fn collect(&self) -> (drained: Drained)
        ensures
            exists|entries: Seq<PrometheusMetricEntry>|
                #[trigger] families_report(drained.families@, entries),
    {
        collect_to_send(&self.rx)
    }
}

} // verus!
