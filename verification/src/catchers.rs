//! The fixed pages that answer a request which no handler served.

use vstd::prelude::*;

verus! {

/// The page for a request that no route matches (404).
pub fn not_found() -> (page: &'static str)
    ensures
        page@ == "不好意思，没找到。404"@,
{
    "不好意思，没找到。404"
}

/// The page for a request that is not well formed (400).
pub fn bad_request() -> (page: &'static str)
    ensures
        page@ == "不好意思，我做错了。500"@,
{
    "不好意思，我做错了。500"
}

/// The page for a failure inside the server (500).
pub fn internal_server_error() -> (page: &'static str)
    ensures
        page@ == "不好意思，您做错了。500"@,
{
    "不好意思，您做错了。500"
}

} // verus!
