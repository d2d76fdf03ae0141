//! Reporters: what they have in common, and the two kinds.

use vstd::prelude::*;

pub mod console;
pub mod prometheus;

verus! {

/// What every reporter offers: the name it was made with.
pub trait Reporter {
    /// The name that was given when the reporter was made.
    spec fn unique_reporter_name(&self) -> Seq<char>;

    /// The name that was given when the reporter was made.
    fn get_unique_reporter_name(&self) -> (name: &'static str)
        ensures
            name@ == self.unique_reporter_name(),
    ;
}

} // verus!
