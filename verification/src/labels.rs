//! Label sets: the name/value pairs that qualify one submitted metric.

use vstd::prelude::*;

verus! {

/// One label: a name and the value it has.
#[derive(Debug)]
pub struct LabelPair {
    pub name: String,
    pub value: String,
}

impl View for LabelPair {
    type V = (Seq<char>, Seq<char>);

    open spec fn view(&self) -> (Seq<char>, Seq<char>) {
        (self.name@, self.value@)
    }
}

impl Clone for LabelPair {
    fn clone(&self) -> (copy: LabelPair)
        ensures
            copy@ == self@,
    {
        LabelPair { name: self.name.clone(), value: self.value.clone() }
    }
}

/// The views of a sequence of label pairs, in the same order.
pub open spec fn pair_views(pairs: Seq<LabelPair>) -> Seq<(Seq<char>, Seq<char>)> {
    pairs.map_values(|p: LabelPair| p@)
}

/// No two pairs of `pairs` have the same name.
pub open spec fn names_distinct(pairs: Seq<(Seq<char>, Seq<char>)>) -> bool {
    forall|i: int, j: int|
        0 <= i < j < pairs.len() ==> (#[trigger] pairs[i]).0 != (#[trigger] pairs[j]).0
}

/// `name` is the name of one of `pairs`.
pub open spec fn has_name(pairs: Seq<(Seq<char>, Seq<char>)>, name: Seq<char>) -> bool {
    exists|i: int| 0 <= i < pairs.len() && (#[trigger] pairs[i]).0 == name
}

/// The place of the pair named `name` in `pairs`, where there is one.
pub open spec fn index_of_name(pairs: Seq<(Seq<char>, Seq<char>)>, name: Seq<char>) -> int {
    choose|i: int| 0 <= i < pairs.len() && (#[trigger] pairs[i]).0 == name
}

/// `pairs` after `name` has been given `value`: the pair of that name is
/// replaced where it stands, and a new name goes to the end.
pub open spec fn with_label(
    pairs: Seq<(Seq<char>, Seq<char>)>,
    name: Seq<char>,
    value: Seq<char>,
) -> Seq<(Seq<char>, Seq<char>)> {
    if has_name(pairs, name) {
        pairs.update(index_of_name(pairs, name), (name, value))
    } else {
        pairs.push((name, value))
    }
}

/// A set of labels in which each name occurs once, kept in the order in which
/// the names were first inserted.
#[derive(Debug)]
pub struct LabelSet {
    pairs: Vec<LabelPair>,
}

impl View for LabelSet {
    type V = Seq<(Seq<char>, Seq<char>)>;

    closed spec fn view(&self) -> Seq<(Seq<char>, Seq<char>)> {
        pair_views(self.pairs@)
    }
}

impl LabelSet {
    #[verifier::type_invariant]
    spec fn names_are_distinct(&self) -> bool {
        names_distinct(pair_views(self.pairs@))
    }

    /// The empty label set.
    pub fn new() -> (labels: LabelSet)
        ensures
            labels@ == Seq::<(Seq<char>, Seq<char>)>::empty(),
    {
        LabelSet { pairs: Vec::new() }
    }

    /// The number of labels.
    pub fn len(&self) -> (n: usize)
        ensures
            n == self@.len(),
            names_distinct(self@),
    {
        proof {
            use_type_invariant(self);
        }
        self.pairs.len()
    }

    /// The label at place `index`.
    pub fn get(&self, index: usize) -> (pair: &LabelPair)
        requires
            index < self@.len(),
        ensures
            pair@ == self@[index as int],
    {
        &self.pairs[index]
    }

    /// Gives `name` the value `value`, in place of the value it had, if any.
    pub fn insert(&mut self, name: String, value: String)
        ensures
            final(self)@ == with_label(old(self)@, name@, value@),
            names_distinct(final(self)@),
    {
        proof {
            use_type_invariant(&*self);
        }
        let ghost before = self@;
        let mut pairs = self.to_vec();
        let mut i: usize = 0;
        while i < pairs.len()
            invariant
                i <= pairs.len(),
                pair_views(pairs@) == before,
                before == old(self)@,
                names_distinct(before),
                forall|k: int| 0 <= k < i ==> (#[trigger] before[k]).0 != name@,
            decreases pairs.len() - i,
        {
            if pairs[i].name == name {
                assert(before[i as int].0 == name@);
                assert(has_name(before, name@));
                assert(index_of_name(before, name@) == i as int) by {
                    let j = index_of_name(before, name@);
                    assert(before[j].0 == before[i as int].0);
                }
                pairs.set(i, LabelPair { name, value });
                assert(pair_views(pairs@) =~= before.update(i as int, (name@, value@)));
                *self = LabelSet { pairs };
                return ;
            }
            i += 1;
        }
        assert(!has_name(before, name@));
        pairs.push(LabelPair { name, value });
        assert(pair_views(pairs@) =~= before.push((name@, value@)));
        *self = LabelSet { pairs };
    }

    /// Gives the pairs up, in the order of the set.
    pub fn into_vec(self) -> (pairs: Vec<LabelPair>)
        ensures
            pair_views(pairs@) == self@,
    {
        self.pairs
    }

    /// The labels as a list of pairs, in the order of the set.
    pub fn to_vec(&self) -> (pairs: Vec<LabelPair>)
        ensures
            pair_views(pairs@) == self@,
    {
        let mut out: Vec<LabelPair> = Vec::new();
        let mut i: usize = 0;
        while i < self.pairs.len()
            invariant
                i <= self.pairs.len(),
                out@.len() == i,
                forall|k: int| 0 <= k < i ==> (#[trigger] out@[k])@ == self.pairs@[k]@,
            decreases self.pairs.len() - i,
        {
            out.push(self.pairs[i].clone());
            i += 1;
        }
        assert(pair_views(out@) =~= pair_views(self.pairs@));
        out
    }
}

impl Clone for LabelSet {
    fn clone(&self) -> (copy: LabelSet)
        ensures
            copy@ == self@,
    {
        proof {
            use_type_invariant(self);
        }
        LabelSet { pairs: self.to_vec() }
    }
}

} // verus!
