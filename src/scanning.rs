//! When the log list rescans by itself, and how it says when it last did.
use vstd::prelude::*;
use vstd::string::StringExecFns;
use crate::formatting::{dec_of, decimal_string};
use crate::state::TimeFilter;

verus! {

/// Seconds between two automatic rescans.
pub const AUTO_SCAN_INTERVAL_SECS: u64 = 20;

/// An automatic rescan is due when the main window shows the log list, the
/// list shows this session's logs, and no scan ran in the last 20 seconds.
pub open spec fn auto_scan_due(
    show_main_window: bool,
    show_log_selection: bool,
    filter: TimeFilter,
    secs_since_last_scan: Option<u64>,
) -> bool {
    show_main_window && show_log_selection && filter == TimeFilter::SincePluginStart && match secs_since_last_scan {
        None => true,
        Some(e) => e >= AUTO_SCAN_INTERVAL_SECS,
    }
}

/// Decides whether the log list should rescan now.
pub fn check_auto_scan(
    show_main_window: bool,
    show_log_selection: bool,
    filter: TimeFilter,
    secs_since_last_scan: Option<u64>,
) -> (r: bool)
    ensures
        r == auto_scan_due(show_main_window, show_log_selection, filter, secs_since_last_scan),
{
    if !show_main_window || !show_log_selection {
        return false;
    }
    if filter != TimeFilter::SincePluginStart {
        return false;
    }
    match secs_since_last_scan {
        None => true,
        Some(e) => e >= AUTO_SCAN_INTERVAL_SECS,
    }
}

pub open spec fn plural(n: nat) -> Seq<char> {
    if n == 1 {
        Seq::empty()
    } else {
        "s"@
    }
}

/// The "last refreshed" line: seconds under a minute, whole minutes after.
pub open spec fn scan_display_text(secs_since_last_scan: Option<u64>) -> Seq<char> {
    match secs_since_last_scan {
        None => "Not yet refreshed"@,
        Some(e) => if e < 60 {
            "Last refreshed: "@ + dec_of(e as nat) + " second"@ + plural(e as nat) + " ago"@
        } else {
            "Last refreshed: "@ + dec_of((e / 60) as nat) + " minute"@ + plural((e / 60) as nat) + " ago"@
        },
    }
}

fn refreshed_text(n: u64, unit: &str) -> (r: String)
    ensures
        r@ == "Last refreshed: "@ + dec_of(n as nat) + unit@ + plural(n as nat) + " ago"@,
{
    let mut s = String::from_str("Last refreshed: ");
    let d = decimal_string(n);
    s.append(d.as_str());
    s.append(unit);
    let ghost base = s@;
    if n != 1 {
        s.append("s");
    } else {
        assert(s@ =~= base + Seq::<char>::empty());
    }
    s.append(" ago");
    s
}

/// The text that tells how long ago the log list was last scanned.
pub fn update_scan_display(secs_since_last_scan: Option<u64>) -> (r: String)
    ensures
        r@ == scan_display_text(secs_since_last_scan),
{
    match secs_since_last_scan {
        None => String::from_str("Not yet refreshed"),
        Some(e) => if e < 60 {
            refreshed_text(e, " second")
        } else {
            refreshed_text(e / 60, " minute")
        },
    }
}

} // verus!
