//! The record that one executed benchmark case leaves behind.

use vstd::prelude::*;

verus! {

/// One recorded measurement: the name a benchmark case ran under and the
/// resource units its measured step consumed.
#[derive(Clone, Debug, PartialEq, Eq)]
pub struct BenchResult {
    pub name: String,
    pub value: u64,
}

/// The mathematical value of a [`BenchResult`].
pub struct BenchResultView {
    pub name: Seq<char>,
    pub value: u64,
}

impl View for BenchResult {
    type V = BenchResultView;

    open spec fn view(&self) -> BenchResultView {
        BenchResultView { name: self.name@, value: self.value }
    }
}

/// The views of a list of results, in the same order.
pub open spec fn views(results: Seq<BenchResult>) -> Seq<BenchResultView> {
    Seq::new(results.len(), |i: int| results[i]@)
}

impl BenchResult {
    /// The record of a case that ran as `name` and consumed `value` units.
    pub fn new(name: &str, value: u64) -> (r: BenchResult)
        ensures
            r@ == (BenchResultView { name: name@, value }),
    {
        BenchResult { name: name.to_owned(), value }
    }
}

} // verus!
