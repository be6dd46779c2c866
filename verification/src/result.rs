//! How results are handed to the reporting layer: the output mode and the
//! column headers. Rendering itself (table or JSON) is I/O and lives in the
//! surrounding application.

use vstd::prelude::*;

verus! {

/// Output mode and column headers for one command's results.
#[derive(Debug)]
pub struct CommandResult {
    pub as_json: bool,
    pub headers: Vec<String>,
}

impl CommandResult {
    pub fn new(as_json: bool, headers: Vec<String>) -> (r: Self)
        ensures
            r.as_json == as_json,
            r.headers == headers,
    {
        CommandResult { as_json, headers }
    }
}

} // verus!
