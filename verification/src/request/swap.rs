//! The pair-volume query: names the trading pair whose accumulated
//! totals are asked for.

use vstd::prelude::*;

verus! {

/// The query of one pair's accumulated totals.
#[derive(Debug, Clone, PartialEq, Eq)]
pub struct Query {
    /// The pair name.
    pub name: String,
}

impl Query {
    /// A shortcut constructor.
    pub fn new(name: String) -> (r: Self)
        ensures
            r.name@ == name@,
    {
        Self { name }
    }

    /// The query as key/value pairs, for building a request.
    pub fn into_pairs(self) -> (r: Vec<(&'static str, String)>)
        ensures
            r@.len() == 1,
            r@[0].1@ == self.name@,
    {
        let mut result: Vec<(&'static str, String)> = Vec::new();
        result.push(("name", self.name));
        result
    }
}

} // verus!
