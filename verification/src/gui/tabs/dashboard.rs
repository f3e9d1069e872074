//! The dashboard's text formats that need no floating point.

use std::time::Duration;
use vstd::prelude::*;

use crate::tftp::text::{decimal, u64_to_string};
use crate::tftp::timing::{duration_as_secs, spec_as_nanos};

verus! {

broadcast use vstd::string::group_string_axioms;

/// `{h}h {m}m {s}s` from an hour on, `{m}m {s}s` from a minute on, `{s}s` below.
pub open spec fn spec_format_duration(secs: nat) -> Seq<char> {
    if secs >= 3600 {
        decimal(secs / 3600) + "h "@ + decimal((secs % 3600) / 60) + "m "@ + decimal(secs % 60)
            + "s"@
    } else if secs >= 60 {
        decimal(secs / 60) + "m "@ + decimal(secs % 60) + "s"@
    } else {
        decimal(secs) + "s"@
    }
}

/// An uptime in whole seconds: `1h 2m 3s`, `4m 5s`, `6s`.
pub fn format_duration(d: Duration) -> (r: String)
    ensures
        r@ == spec_format_duration((spec_as_nanos(d) / 1000000000) as nat),
{
    let secs = duration_as_secs(d);
    if secs >= 3600 {
        let mut out = u64_to_string(secs / 3600);
        out.append("h ");
        out.append(u64_to_string((secs % 3600) / 60).as_str());
        out.append("m ");
        out.append(u64_to_string(secs % 60).as_str());
        out.append("s");
        out
    } else if secs >= 60 {
        let mut out = u64_to_string(secs / 60);
        out.append("m ");
        out.append(u64_to_string(secs % 60).as_str());
        out.append("s");
        out
    } else {
        let mut out = u64_to_string(secs);
        out.append("s");
        out
    }
}

} // verus!
