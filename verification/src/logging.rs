//! The choice of what is logged.

use vstd::prelude::*;

verus! {

/// The log filter that a verbosity stands for where no filter is configured
/// otherwise: warnings only at 0, then informational messages, then the debug
/// and trace messages of this program, then those of everything.
pub fn default_log_filter(verbosity: u8) -> (filter: &'static str)
    ensures
        filter@ == if verbosity == 0 {
            "warn"@
        } else if verbosity == 1 {
            "info"@
        } else if verbosity == 2 {
            "info,git_changes=debug"@
        } else if verbosity == 3 {
            "info,git_changes=trace"@
        } else if verbosity == 4 {
            "debug"@
        } else {
            "trace"@
        },
{
    match verbosity {
        0 => "warn",
        1 => "info",
        2 => "info,git_changes=debug",
        3 => "info,git_changes=trace",
        4 => "debug",
        _ => "trace",
    }
}

} // verus!
