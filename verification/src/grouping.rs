//! Grouping: from the entries of one cycle, in the order in which they were
//! submitted, to one bucket per metric name.
//!
//! The buckets stand in the order in which their names were first seen, and
//! each bucket holds the entries of its name in the order of submission.

use crate::reporter::prometheus::PrometheusMetricEntry;
use vstd::prelude::*;

verus! {

/// The entries of one name.
pub struct Bucket {
    pub name: String,
    pub entries: Vec<PrometheusMetricEntry>,
}

impl View for Bucket {
    type V = (Seq<char>, Seq<PrometheusMetricEntry>);

    open spec fn view(&self) -> (Seq<char>, Seq<PrometheusMetricEntry>) {
        (self.name@, self.entries@)
    }
}

/// The views of a list of buckets, in the same order.
pub open spec fn bucket_views(buckets: Seq<Bucket>) -> Seq<(Seq<char>, Seq<PrometheusMetricEntry>)> {
    buckets.map_values(|b: Bucket| b@)
}

/// Bucket `i` is the first bucket of `groups` that is named `name`.
pub open spec fn is_first_bucket(
    groups: Seq<(Seq<char>, Seq<PrometheusMetricEntry>)>,
    name: Seq<char>,
    i: int,
) -> bool {
    &&& 0 <= i < groups.len()
    &&& groups[i].0 == name
    &&& forall|k: int| 0 <= k < i ==> (#[trigger] groups[k]).0 != name
}

/// Some bucket of `groups` is named `name`.
pub open spec fn has_bucket(
    groups: Seq<(Seq<char>, Seq<PrometheusMetricEntry>)>,
    name: Seq<char>,
) -> bool {
    exists|i: int| 0 <= i < groups.len() && (#[trigger] groups[i]).0 == name
}

/// The place of the first bucket named `name`, where there is one.
pub open spec fn first_bucket(
    groups: Seq<(Seq<char>, Seq<PrometheusMetricEntry>)>,
    name: Seq<char>,
) -> int {
    choose|i: int| is_first_bucket(groups, name, i)
}

/// `groups` after `entry` has been filed: it goes to the end of the bucket of
/// its name, or into a new bucket behind the others.
pub open spec fn with_entry(
    groups: Seq<(Seq<char>, Seq<PrometheusMetricEntry>)>,
    entry: PrometheusMetricEntry,
) -> Seq<(Seq<char>, Seq<PrometheusMetricEntry>)> {
    if has_bucket(groups, entry.name@) {
        let i = first_bucket(groups, entry.name@);
        groups.update(i, (groups[i].0, groups[i].1.push(entry)))
    } else {
        groups.push((entry.name@, seq![entry]))
    }
}

/// The buckets that `entries` make when they are filed one after the other.
pub open spec fn grouped(entries: Seq<PrometheusMetricEntry>) -> Seq<
    (Seq<char>, Seq<PrometheusMetricEntry>),
>
    decreases entries.len(),
{
    if entries.len() == 0 {
        Seq::empty()
    } else {
        with_entry(grouped(entries.drop_last()), entries.last())
    }
}

/// The entries of `entries` that are named `name`, in their order.
pub open spec fn entries_named(entries: Seq<PrometheusMetricEntry>, name: Seq<char>) -> Seq<
    PrometheusMetricEntry,
>
    decreases entries.len(),
{
    if entries.len() == 0 {
        Seq::empty()
    } else if entries.last().name@ == name {
        entries_named(entries.drop_last(), name).push(entries.last())
    } else {
        entries_named(entries.drop_last(), name)
    }
}

/// No two buckets of `groups` have the same name.
pub open spec fn bucket_names_distinct(groups: Seq<(Seq<char>, Seq<PrometheusMetricEntry>)>) -> bool {
    forall|i: int, j: int|
        0 <= i < j < groups.len() ==> (#[trigger] groups[i]).0 != (#[trigger] groups[j]).0
}

/// Where some bucket has the name, there is a first one.
pub proof fn lemma_first_bucket_exists(
    groups: Seq<(Seq<char>, Seq<PrometheusMetricEntry>)>,
    name: Seq<char>,
)
    requires
        has_bucket(groups, name),
    ensures
        is_first_bucket(groups, name, first_bucket(groups, name)),
    decreases groups.len(),
{
    let j = choose|i: int| 0 <= i < groups.len() && (#[trigger] groups[i]).0 == name;
    let front = groups.take(j);
    if has_bucket(front, name) {
        lemma_first_bucket_exists(front, name);
        let i = first_bucket(front, name);
        assert(front[i] == groups[i]);
        assert forall|k: int| 0 <= k < i implies (#[trigger] groups[k]).0 != name by {
            assert(front[k] == groups[k]);
        }
        assert(is_first_bucket(groups, name, i));
    } else {
        assert forall|k: int| 0 <= k < j implies (#[trigger] groups[k]).0 != name by {
            assert(front[k] == groups[k]);
        }
        assert(is_first_bucket(groups, name, j));
    }
}

/// What holds of the buckets `groups` made from `entries`: their names are
/// distinct, each holds exactly the entries of its name and at least one, and
/// a name without a bucket has no entry.
pub open spec fn groups_of(
    groups: Seq<(Seq<char>, Seq<PrometheusMetricEntry>)>,
    entries: Seq<PrometheusMetricEntry>,
) -> bool {
    &&& bucket_names_distinct(groups)
    &&& forall|i: int|
        0 <= i < groups.len() ==> {
            &&& (#[trigger] groups[i]).1 == entries_named(entries, groups[i].0)
            &&& groups[i].1.len() > 0
        }
    &&& forall|name: Seq<char>|
        !has_bucket(groups, name) ==> (#[trigger] entries_named(entries, name)).len() == 0
}

/// Grouping makes one bucket for each name that occurs: the names of the
/// buckets are distinct, each bucket holds the entries of its name in the
/// order of submission, and no entry is left out.
pub proof fn lemma_grouped(entries: Seq<PrometheusMetricEntry>)
    ensures
        groups_of(grouped(entries), entries),
    decreases entries.len(),
{
    if entries.len() > 0 {
        let front = entries.drop_last();
        let entry = entries.last();
        let before = grouped(front);
        let after = grouped(entries);
        lemma_grouped(front);
        if has_bucket(before, entry.name@) {
            lemma_first_bucket_exists(before, entry.name@);
            let at = first_bucket(before, entry.name@);
            assert forall|i: int, j: int| 0 <= i < j < after.len() implies (#[trigger] after[i]).0
                != (#[trigger] after[j]).0 by {
                assert(after[i].0 == before[i].0);
                assert(after[j].0 == before[j].0);
            }
            assert forall|i: int| 0 <= i < after.len() implies {
                &&& (#[trigger] after[i]).1 == entries_named(entries, after[i].0)
                &&& after[i].1.len() > 0
            } by {
                assert(before[i].1 == entries_named(front, before[i].0));
                if i != at {
                    assert(before[i].0 != before[at].0);
                }
            }
            assert forall|name: Seq<char>| !has_bucket(after, name) implies (
            #[trigger] entries_named(entries, name)).len() == 0 by {
                if has_bucket(before, name) {
                    let k = choose|k: int| 0 <= k < before.len() && (#[trigger] before[k]).0 == name;
                    assert(after[k].0 == name);
                }
                assert(after[at].0 == entry.name@);
                assert(name != entry.name@);
                assert(entries_named(front, name).len() == 0);
                assert(entries_named(entries, name) == entries_named(front, name));
            }
        } else {
            assert forall|i: int, j: int| 0 <= i < j < after.len() implies (#[trigger] after[i]).0
                != (#[trigger] after[j]).0 by {
                if j == before.len() {
                    assert(before[i].0 != entry.name@);
                }
            }
            assert forall|i: int| 0 <= i < after.len() implies {
                &&& (#[trigger] after[i]).1 == entries_named(entries, after[i].0)
                &&& after[i].1.len() > 0
            } by {
                if i < before.len() {
                    assert(before[i].1 == entries_named(front, before[i].0));
                    assert(before[i].0 != entry.name@);
                } else {
                    assert(entries_named(front, entry.name@).len() == 0);
                    assert(entries_named(entries, entry.name@) =~= seq![entry]);
                }
            }
            assert forall|name: Seq<char>| !has_bucket(after, name) implies (
            #[trigger] entries_named(entries, name)).len() == 0 by {
                if has_bucket(before, name) {
                    let k = choose|k: int| 0 <= k < before.len() && (#[trigger] before[k]).0 == name;
                    assert(after[k].0 == name);
                }
                assert(after[before.len() as int].0 == entry.name@);
                assert(name != entry.name@);
                assert(entries_named(front, name).len() == 0);
                assert(entries_named(entries, name) == entries_named(front, name));
            }
        }
    }
}

/// A name under which at least one entry was submitted gets exactly one
/// bucket, and that bucket holds all the entries of that name, as many as
/// were submitted and in the order of submission.
pub proof fn lemma_one_bucket_per_name(entries: Seq<PrometheusMetricEntry>, name: Seq<char>)
    requires
        entries_named(entries, name).len() > 0,
    ensures
        has_bucket(grouped(entries), name),
        grouped(entries)[first_bucket(grouped(entries), name)] == (
            name,
            entries_named(entries, name),
        ),
        forall|i: int|
            0 <= i < grouped(entries).len() && i != first_bucket(grouped(entries), name) ==> (
            #[trigger] grouped(entries)[i]).0 != name,
{
    let groups = grouped(entries);
    lemma_grouped(entries);
    lemma_first_bucket_exists(groups, name);
    let at = first_bucket(groups, name);
    assert(groups[at].1 == entries_named(entries, groups[at].0));
    assert forall|i: int| 0 <= i < groups.len() && i != at implies (#[trigger] groups[i]).0
        != name by {
        assert(groups[i].0 != groups[at].0);
    }
}

/// The first entry of a bucket is the first entry that was submitted under
/// the bucket's name.
pub proof fn lemma_first_entry_leads(
    entries: Seq<PrometheusMetricEntry>,
    name: Seq<char>,
    first: int,
)
    requires
        0 <= first < entries.len(),
        entries[first].name@ == name,
        forall|k: int| 0 <= k < first ==> (#[trigger] entries[k]).name@ != name,
    ensures
        entries_named(entries, name).len() > 0,
        entries_named(entries, name)[0] == entries[first],
    decreases entries.len(),
{
    let front = entries.drop_last();
    if first == entries.len() - 1 {
        lemma_none_named(front, name);
    } else {
        lemma_first_entry_leads(front, name, first);
    }
}

/// Where no entry has the name, no entry is found under it.
pub proof fn lemma_none_named(entries: Seq<PrometheusMetricEntry>, name: Seq<char>)
    requires
        forall|k: int| 0 <= k < entries.len() ==> (#[trigger] entries[k]).name@ != name,
    ensures
        entries_named(entries, name).len() == 0,
    decreases entries.len(),
{
    if entries.len() > 0 {
        assert(entries.last() == entries[entries.len() - 1]);
        lemma_none_named(entries.drop_last(), name);
    }
}

/// The number of entries that `groups` hold between them.
pub open spec fn bucket_total(groups: Seq<(Seq<char>, Seq<PrometheusMetricEntry>)>) -> nat
    decreases groups.len(),
{
    if groups.len() == 0 {
        0
    } else {
        bucket_total(groups.drop_last()) + groups.last().1.len()
    }
}

/// A bucket that grows by one entry makes the total grow by one.
proof fn lemma_total_after_update(
    groups: Seq<(Seq<char>, Seq<PrometheusMetricEntry>)>,
    at: int,
    entry: PrometheusMetricEntry,
)
    requires
        0 <= at < groups.len(),
    ensures
        bucket_total(groups.update(at, (groups[at].0, groups[at].1.push(entry)))) == bucket_total(
            groups,
        ) + 1,
    decreases groups.len(),
{
    let after = groups.update(at, (groups[at].0, groups[at].1.push(entry)));
    if at == groups.len() - 1 {
        assert(after.drop_last() =~= groups.drop_last());
    } else {
        assert(after.drop_last() =~= groups.drop_last().update(
            at,
            (groups[at].0, groups[at].1.push(entry)),
        ));
        assert(groups.drop_last()[at] == groups[at]);
        lemma_total_after_update(groups.drop_last(), at, entry);
    }
}

/// Grouping keeps every entry, once: the buckets hold between them as many
/// entries as were grouped.
pub proof fn lemma_grouped_total(entries: Seq<PrometheusMetricEntry>)
    ensures
        bucket_total(grouped(entries)) == entries.len(),
    decreases entries.len(),
{
    if entries.len() > 0 {
        let before = grouped(entries.drop_last());
        let entry = entries.last();
        lemma_grouped_total(entries.drop_last());
        if has_bucket(before, entry.name@) {
            lemma_first_bucket_exists(before, entry.name@);
            lemma_total_after_update(before, first_bucket(before, entry.name@), entry);
        } else {
            assert(before.push((entry.name@, seq![entry])).drop_last() =~= before);
        }
    }
}

/// Files `entry`: behind the entries of the first bucket of its name, or, if
/// no bucket has that name, in a new bucket behind the others.
pub fn push_entry(buckets: &mut Vec<Bucket>, entry: PrometheusMetricEntry)
    ensures
        bucket_views(final(buckets)@) == with_entry(bucket_views(old(buckets)@), entry),
{
    let ghost before = bucket_views(buckets@);
    let mut i: usize = 0;
    while i < buckets.len()
        invariant
            i <= buckets.len(),
            buckets@ == old(buckets)@,
            before == bucket_views(buckets@),
            forall|k: int| 0 <= k < i ==> (#[trigger] before[k]).0 != entry.name@,
        decreases buckets.len() - i,
    {
        if buckets[i].name == entry.name {
            proof {
                assert(before[i as int].0 == entry.name@);
                assert(is_first_bucket(before, entry.name@, i as int));
                lemma_first_bucket_exists(before, entry.name@);
                let c = first_bucket(before, entry.name@);
                assert(c == i as int) by {
                    if c < i {
                        assert(before[c].0 != entry.name@);
                    } else if i < c {
                        assert(before[i as int].0 != entry.name@);
                    }
                }
            }
            let mut bucket = buckets.remove(i);
            bucket.entries.push(entry);
            buckets.insert(i, bucket);
            assert(bucket_views(buckets@) =~= before.update(
                i as int,
                (before[i as int].0, before[i as int].1.push(entry)),
            ));
            return ;
        }
        i += 1;
    }
    assert(!has_bucket(before, entry.name@));
    let mut entries: Vec<PrometheusMetricEntry> = Vec::new();
    let name = entry.name.clone();
    entries.push(entry);
    buckets.push(Bucket { name, entries });
    assert(bucket_views(buckets@) =~= before.push((entry.name@, seq![entry])));
}

/// Groups the entries of one cycle by name: the buckets stand in the order in
/// which their names first occur, each with its entries in their order.
pub fn group_entries(entries: Vec<PrometheusMetricEntry>) -> (buckets: Vec<Bucket>)
    ensures
        bucket_views(buckets@) == grouped(entries@),
{
    let mut buckets: Vec<Bucket> = Vec::new();
    let ghost mut done: Seq<PrometheusMetricEntry> = Seq::empty();
    for entry in it: entries
        invariant
            it.seq() == entries@,
            done == entries@.take(it.index() as int),
            bucket_views(buckets@) == grouped(done),
    {
        proof {
            let next = entries@.take(it.index() + 1);
            assert(next.drop_last() =~= done);
            assert(next.last() == entry);
            done = next;
        }
        push_entry(&mut buckets, entry);
    }
    assert(done =~= entries@);
    buckets
}

} // verus!
