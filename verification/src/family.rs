//! Metric families: the records that are handed to a Prometheus sink.

use crate::labels::pair_views;
use crate::labels::LabelPair;
use crate::metrics::MetricKind;
use crate::metrics::Snapshot;
use protobuf::repeated::RepeatedField;
use vstd::prelude::*;

verus! {

/// The repeated field of the protobuf runtime: a list that a message keeps.
#[verifier::external_type_specification]
#[verifier::external_body]
#[verifier::reject_recursive_types(T)]
pub struct ExRepeatedField<T>(RepeatedField<T>);

/// The labels that a repeated field of label pairs holds, in order.
pub uninterp spec fn label_fields(field: RepeatedField<LabelPair>) -> Seq<(Seq<char>, Seq<char>)>;

/// `RepeatedField::from_vec`: the field takes the vector over as it is, so it
/// holds the pairs of `pairs` in their order.
#[verifier::external_body]
pub(crate) fn repeated_from_vec(pairs: Vec<LabelPair>) -> (field: RepeatedField<LabelPair>)
    ensures
        label_fields(field) == pair_views(pairs@),
{
    RepeatedField::from_vec(pairs)
}

/// The type that a family declares for all its members.
#[derive(Clone, Copy, Debug, PartialEq, Eq, Structural)]
pub enum MetricType {
    Counter,
    Gauge,
    Summary,
    Histogram,
}

/// What one member of a family carries: the number read from a counter or a
/// gauge, or nothing for a summary or a histogram.
#[derive(Clone, Copy, Debug, PartialEq, Eq, Structural)]
pub enum MemberValue {
    Counter(i64),
    Gauge(i64),
    Summary,
    Histogram,
}

/// One member of a family.
pub struct Member {
    pub value: MemberValue,
    pub labels: RepeatedField<LabelPair>,
    pub timestamp: i64,
}

/// A member as a plain value.
pub struct MemberView {
    pub value: MemberValue,
    pub labels: Seq<(Seq<char>, Seq<char>)>,
    pub timestamp: i64,
}

impl View for Member {
    type V = MemberView;

    open spec fn view(&self) -> MemberView {
        MemberView {
            value: self.value,
            labels: label_fields(self.labels),
            timestamp: self.timestamp,
        }
    }
}

/// A named group of members with one declared type.
pub struct MetricFamily {
    pub name: String,
    pub declared_type: MetricType,
    pub members: Vec<Member>,
}

/// A family as a plain value.
pub struct FamilyView {
    pub name: Seq<char>,
    pub declared_type: MetricType,
    pub members: Seq<MemberView>,
}

impl View for MetricFamily {
    type V = FamilyView;

    open spec fn view(&self) -> FamilyView {
        FamilyView {
            name: self.name@,
            declared_type: self.declared_type,
            members: self.members@.map_values(|m: Member| m@),
        }
    }
}

/// The declared type that goes with each kind of metric.
pub open spec fn type_of_kind(kind: MetricKind) -> MetricType {
    match kind {
        MetricKind::Counter => MetricType::Counter,
        MetricKind::Gauge => MetricType::Gauge,
        MetricKind::Meter => MetricType::Summary,
        MetricKind::Histogram => MetricType::Histogram,
    }
}

/// What a member carries for a reading: the number of a counter or a gauge,
/// and nothing of a meter or a histogram.
pub open spec fn value_of_snapshot(snapshot: Snapshot) -> MemberValue {
    match snapshot.kind {
        MetricKind::Counter => MemberValue::Counter(snapshot.value),
        MetricKind::Gauge => MemberValue::Gauge(snapshot.value),
        MetricKind::Meter => MemberValue::Summary,
        MetricKind::Histogram => MemberValue::Histogram,
    }
}

/// The name under which the metric `name` is exported.
pub open spec fn family_name(name: Seq<char>) -> Seq<char> {
    "application_name_"@ + name + "_bytes"@
}

/// The kind of metric that a member's value was read from.
pub open spec fn kind_of_value(value: MemberValue) -> MetricKind {
    match value {
        MemberValue::Counter(_) => MetricKind::Counter,
        MemberValue::Gauge(_) => MetricKind::Gauge,
        MemberValue::Summary => MetricKind::Meter,
        MemberValue::Histogram => MetricKind::Histogram,
    }
}

/// Exported names tell metric names apart: two metric names with the same
/// exported name are the same name.
pub proof fn lemma_family_name_injective(a: Seq<char>, b: Seq<char>)
    requires
        family_name(a) == family_name(b),
    ensures
        a == b,
{
    let prefix = "application_name_"@;
    let suffix = "_bytes"@;
    let exported = family_name(a);
    assert(exported.len() == prefix.len() + a.len() + suffix.len());
    assert(exported.len() == prefix.len() + b.len() + suffix.len());
    assert(a =~= exported.subrange(prefix.len() as int, (prefix.len() + a.len()) as int));
    assert(b =~= exported.subrange(prefix.len() as int, (prefix.len() + b.len()) as int));
}

/// The declared type that goes with `kind`.
pub fn declared_type(kind: MetricKind) -> (t: MetricType)
    ensures
        t == type_of_kind(kind),
{
    match kind {
        MetricKind::Counter => MetricType::Counter,
        MetricKind::Gauge => MetricType::Gauge,
        MetricKind::Meter => MetricType::Summary,
        MetricKind::Histogram => MetricType::Histogram,
    }
}

/// The name under which the metric `name` is exported.
pub fn format_family_name(name: &str) -> (formatted: String)
    ensures
        formatted@ == family_name(name@),
{
    let mut formatted = String::from_str("application_name_");
    formatted.append(name);
    formatted.append("_bytes");
    formatted
}

/// The member that stands for one reading taken at `timestamp`.
pub fn member_of(snapshot: Snapshot, labels: RepeatedField<LabelPair>, timestamp: i64) -> (member:
    Member)
    ensures
        member@ == (MemberView {
            value: value_of_snapshot(snapshot),
            labels: label_fields(labels),
            timestamp,
        }),
{
    let value = match snapshot.kind {
        MetricKind::Counter => MemberValue::Counter(snapshot.value),
        MetricKind::Gauge => MemberValue::Gauge(snapshot.value),
        MetricKind::Meter => MemberValue::Summary,
        MetricKind::Histogram => MemberValue::Histogram,
    };
    Member { value, labels, timestamp }
}

} // verus!
