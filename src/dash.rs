use vstd::prelude::*;
use vstd::string::StringExecFns;

use crate::text::{decimal, decimal_string, two_digit_string, two_digits};

verus! {

/// An uptime as days, hours, minutes and seconds; leading units that are
/// zero are left out, and all but the first are two digits wide.
pub open spec fn uptime_text(secs: nat) -> Seq<char> {
    let d = secs / 86400;
    let h = (secs % 86400) / 3600;
    let m = (secs % 3600) / 60;
    let s = secs % 60;
    let tail = two_digits(m) + "m "@ + two_digits(s) + "s"@;
    if d > 0 {
        decimal(d) + "d "@ + two_digits(h) + "h "@ + tail
    } else if h > 0 {
        two_digits(h) + "h "@ + tail
    } else {
        tail
    }
}

/// Formats an uptime in seconds, as `1d 02h 03m 04s`, `02h 03m 04s` or
/// `03m 04s`.
pub fn format_uptime(secs: u64) -> (r: String)
    ensures
        r@ == uptime_text(secs as nat),
{
    let d = secs / 86400;
    let h = (secs % 86400) / 3600;
    let m = (secs % 3600) / 60;
    let s = secs % 60;
    let tail = two_digit_string(m).concat("m ").concat(two_digit_string(s).as_str()).concat("s");
    if d > 0 {
        let r = decimal_string(d).concat("d ").concat(two_digit_string(h).as_str()).concat(
            "h ",
        ).concat(tail.as_str());
        assert(r@ =~= uptime_text(secs as nat));
        r
    } else if h > 0 {
        let r = two_digit_string(h).concat("h ").concat(tail.as_str());
        assert(r@ =~= uptime_text(secs as nat));
        r
    } else {
        assert(tail@ =~= uptime_text(secs as nat));
        tail
    }
}

} // verus!
