//! Rendering a period in seconds as a six-field cron expression and as a
//! human-readable description.

use vstd::prelude::*;
use crate::text::{concat2, concat3, spec_dec, u64_to_dec};

verus! {

/// The description of a period: whole minutes are named as minutes, a
/// remainder keeps both units.
pub open spec fn spec_cron_desc(seconds: u64) -> Seq<char> {
    if seconds < 60 {
        "every "@ + spec_dec(seconds as nat) + " seconds"@
    } else if seconds % 60 == 0 {
        "every "@ + spec_dec((seconds / 60) as nat) + " minutes"@
    } else {
        "every "@ + spec_dec((seconds / 60) as nat) + " minutes "@
            + spec_dec((seconds % 60) as nat) + " seconds"@
    }
}

/// The six-field cron expression for a period: sub-minute periods divide the
/// second field, longer ones divide the minute field.
pub open spec fn spec_cron_expr(seconds: u64) -> Seq<char> {
    if seconds < 60 {
        "*/"@ + spec_dec(seconds as nat) + " * * * * *"@
    } else {
        "0 */"@ + spec_dec((seconds / 60) as nat) + " * * * *"@
    }
}

/// Renders a period as a description and a cron expression.
pub fn build_cron_expr(seconds: u64) -> (r: (String, String))
    ensures
        r.0@ == spec_cron_desc(seconds),
        r.1@ == spec_cron_expr(seconds),
{
    let desc = if seconds < 60 {
        concat3("every ", u64_to_dec(seconds).as_str(), " seconds")
    } else if seconds % 60 == 0 {
        concat3("every ", u64_to_dec(seconds / 60).as_str(), " minutes")
    } else {
        let head = concat3("every ", u64_to_dec(seconds / 60).as_str(), " minutes ");
        concat3(head.as_str(), u64_to_dec(seconds % 60).as_str(), " seconds")
    };

    let expr = if seconds < 60 {
        concat3("*/", u64_to_dec(seconds).as_str(), " * * * * *")
    } else {
        concat3("0 */", u64_to_dec(seconds / 60).as_str(), " * * * *")
    };

    proof {
        assert(desc@ =~= spec_cron_desc(seconds));
        assert(expr@ =~= spec_cron_expr(seconds));
    }
    (desc, expr)
}

} // verus!
