//! The token-registration query: binds a token name to a contract
//! address.

use vstd::prelude::*;

verus! {

/// The query registering one token name for an address.
#[derive(Debug, Clone, PartialEq, Eq)]
pub struct Query {
    /// The token name.
    pub tokenname: String,
    /// The contract address the name stands for.
    pub address: String,
}

impl Query {
    /// A shortcut constructor.
    pub fn new(tokenname: String, address: String) -> (r: Self)
        ensures
            r.tokenname@ == tokenname@,
            r.address@ == address@,
    {
        Self { tokenname, address }
    }

    /// The query as key/value pairs, for building a request.
    pub fn into_pairs(self) -> (r: Vec<(&'static str, String)>)
        ensures
            r@.len() == 2,
            r@[0].1@ == self.tokenname@,
            r@[1].1@ == self.address@,
    {
        let mut result: Vec<(&'static str, String)> = Vec::new();
        result.push(("tokenname", self.tokenname));
        result.push(("address", self.address));
        result
    }
}

} // verus!
