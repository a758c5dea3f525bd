//! The callback command a harness uses from inside a cloud run.
//!
//! Every subcommand of it reports a cloud run's progress back to the upstream vendor's
//! servers, keyed by that run's id. There is no such run and no such server in this build,
//! so the command reports that plainly instead of failing with a connection error that
//! reads like a transient outage.

use vstd::prelude::*;

verus! {

/// What the command answers.
pub open spec fn harness_support_unavailable_message() -> Seq<char> {
    "`harness-support` reports a cloud run's progress back to Warp's servers, which this build does not talk to."@
}

/// Runs a harness-support command: always refused, with the reason.
pub fn run() -> (r: Result<(), String>)
    ensures
        r matches Err(message) && message@ == harness_support_unavailable_message(),
{
    Err(
        "`harness-support` reports a cloud run's progress back to Warp's servers, which this build does not talk to.".to_owned(),
    )
}

} // verus!
