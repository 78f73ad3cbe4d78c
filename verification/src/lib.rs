//! Verified core of an HTTP load-testing harness: session acquisition,
//! identity provisioning, worker dispatch and result aggregation.
//!
//! All network I/O lives outside this crate; the logic here works on plain
//! values (statuses, bodies, timestamps) and is fully specified.

use vstd::prelude::*;

pub mod auth;
pub mod dispatch;
pub mod outcome;
pub mod provision;
pub mod wire;
pub mod worker;

verus! {

/// Base URL of the target service under test.
pub const API_URL: &'static str = "http://localhost:8000";

/// Joins the target base URL with a request path.
pub fn api(path: &str) -> (r: String)
    ensures
        r@ == API_URL@ + path@,
{
    let mut s = String::new();
    s.append(API_URL);
    s.append(path);
    s
}

} // verus!
