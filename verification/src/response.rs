//! A response of the line-based protocol: the lines sent back to the client.
use vstd::prelude::*;

verus! {

/// The lines of a response, first line first.
#[derive(Debug, PartialEq, Eq)]
pub struct Response {
    pub data: Vec<String>,
}

impl Response {
    /// A response with no line yet.
    pub fn new() -> (r: Response)
        ensures
            r.data@.len() == 0,
    {
        Response { data: Vec::new() }
    }
}

} // verus!
