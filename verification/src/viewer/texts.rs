//! The texts the viewer page shows: clock times, how long the camera has
//! been watching, viewer and event counts, and the labels that follow the
//! motion and presence state.

use vstd::prelude::*;
use vstd::string::StringExecFns;

use crate::decimal::{decimal_chars, decimal_string};

verus! {

/// `n` with at least two digits, zero-padded (`{:02}`).
pub open spec fn two_digits(n: nat) -> Seq<char> {
    if n < 10 {
        seq!['0'] + decimal_chars(n)
    } else {
        decimal_chars(n)
    }
}

/// Appends `n` in decimal to `s`.
fn push_number(s: &mut String, n: u64)
    ensures
        final(s)@ == old(s)@ + decimal_chars(n as nat),
{
    let d = decimal_string(n);
    s.append(d.as_str());
}

/// Appends `n` zero-padded to two digits to `s`.
fn push_two_digits(s: &mut String, n: u32)
    ensures
        final(s)@ == old(s)@ + two_digits(n as nat),
{
    proof {
        reveal_strlit("0");
    }
    if n < 10 {
        s.append("0");
    }
    push_number(s, n as u64);
    assert(s@ =~= old(s)@ + two_digits(n as nat));
}

/// `AM` before noon, `PM` from noon.
pub open spec fn meridiem(hours: u32) -> Seq<char> {
    if hours >= 12 {
        "PM"@
    } else {
        "AM"@
    }
}

/// The 12-hour clock hour of a clock time: midnight is 12, and 13 to 23
/// count from 1 again.
pub open spec fn clock_hour12(hours: u32) -> u32 {
    if hours == 0 {
        12
    } else if 13 <= hours <= 23 {
        (hours - 12) as u32
    } else {
        hours
    }
}

/// The 12-hour clock hour of a start time: midnight is 12, and anything
/// past noon counts from 1 again.
pub open spec fn since_hour12(hours: u32) -> u32 {
    if hours == 0 {
        12
    } else if hours > 12 {
        (hours - 12) as u32
    } else {
        hours
    }
}

fn push_meridiem(s: &mut String, hours: u32)
    ensures
        final(s)@ == old(s)@ + meridiem(hours),
{
    proof {
        reveal_strlit("PM");
        reveal_strlit("AM");
    }
    if hours >= 12 {
        s.append("PM");
    } else {
        s.append("AM");
    }
}

/// A motion event's time of day, as the panel lists it:
/// `h:mm:ss AM` on a 12-hour clock. The local hours, minutes and seconds
/// come from the browser's clock.
pub fn clock_time_text(hours: u32, minutes: u32, seconds: u32) -> (r: String)
    ensures
        r@ == decimal_chars(clock_hour12(hours) as nat) + ":"@ + two_digits(minutes as nat) + ":"@
            + two_digits(seconds as nat) + " "@ + meridiem(hours),
{
    proof {
        reveal_strlit(":");
        reveal_strlit(" ");
    }
    let h12: u32 = if hours == 0 {
        12
    } else if 13 <= hours && hours <= 23 {
        hours - 12
    } else {
        hours
    };
    let mut s = String::new();
    push_number(&mut s, h12 as u64);
    s.append(":");
    push_two_digits(&mut s, minutes);
    s.append(":");
    push_two_digits(&mut s, seconds);
    s.append(" ");
    push_meridiem(&mut s, hours);
    assert(s@ =~= decimal_chars(clock_hour12(hours) as nat) + ":"@ + two_digits(minutes as nat) + ":"@
        + two_digits(seconds as nat) + " "@ + meridiem(hours));
    s
}

/// Whole days in `uptime_secs`, saturating at `u32::MAX`.
pub open spec fn days(uptime_secs: u64) -> u32 {
    if uptime_secs / 86400 > u32::MAX {
        u32::MAX
    } else {
        (uptime_secs / 86400) as u32
    }
}

/// The footer's uptime text for a camera that has been up `uptime_secs`
/// whole seconds and started at `start_hours:start_minutes` local time:
/// "Just started" in the first minute, "Watching for Nd Mh" after a day,
/// and the start time in between.
pub fn since_text(uptime_secs: u64, start_hours: u32, start_minutes: u32) -> (r: String)
    ensures
        r@ == if uptime_secs < 60 {
            "Just started"@
        } else if uptime_secs >= 86400 {
            let h = (uptime_secs % 86400) / 3600;
            "Watching for "@ + decimal_chars(days(uptime_secs) as nat) + "d"@ + if h > 0 {
                " "@ + decimal_chars(h as nat) + "h"@
            } else {
                Seq::empty()
            }
        } else {
            "Watching since "@ + decimal_chars(since_hour12(start_hours) as nat) + ":"@ + two_digits(
                start_minutes as nat,
            ) + " "@ + meridiem(start_hours)
        },
{
    proof {
        reveal_strlit("Just started");
        reveal_strlit("Watching for ");
        reveal_strlit("d");
        reveal_strlit(" ");
        reveal_strlit("h");
        reveal_strlit("Watching since ");
        reveal_strlit(":");
    }
    if uptime_secs < 60 {
        return "Just started".to_owned();
    }
    if uptime_secs >= 86400 {
        let d64 = uptime_secs / 86400;
        let d: u32 = if d64 > u32::MAX as u64 { u32::MAX } else { d64 as u32 };
        let h = (uptime_secs % 86400) / 3600;
        let mut s = "Watching for ".to_owned();
        push_number(&mut s, d as u64);
        s.append("d");
        if h > 0 {
            s.append(" ");
            push_number(&mut s, h);
            s.append("h");
        }
        assert(s@ =~= "Watching for "@ + decimal_chars(days(uptime_secs) as nat) + "d"@ + if h > 0 {
            " "@ + decimal_chars(h as nat) + "h"@
        } else {
            Seq::empty()
        });
        return s;
    }
    let h12: u32 = if start_hours == 0 {
        12
    } else if start_hours > 12 {
        start_hours - 12
    } else {
        start_hours
    };
    let mut s = "Watching since ".to_owned();
    push_number(&mut s, h12 as u64);
    s.append(":");
    push_two_digits(&mut s, start_minutes);
    s.append(" ");
    push_meridiem(&mut s, start_hours);
    assert(s@ =~= "Watching since "@ + decimal_chars(since_hour12(start_hours) as nat) + ":"@
        + two_digits(start_minutes as nat) + " "@ + meridiem(start_hours));
    s
}

/// The footer counts one viewer as "1 viewer" and any other number in the
/// plural.
pub fn viewers_text(v: u64) -> (r: String)
    ensures
        r@ == if v == 1 {
            "1 viewer"@
        } else {
            decimal_chars(v as nat) + " viewers"@
        },
{
    if v == 1 {
        "1 viewer".to_owned()
    } else {
        let mut s = decimal_string(v);
        s.append(" viewers");
        s
    }
}

/// The motion panel's event counter: "N total", or nothing before the
/// first event.
pub fn total_text(n: u64) -> (r: String)
    ensures
        r@ == if n > 0 {
            decimal_chars(n as nat) + " total"@
        } else {
            Seq::empty()
        },
{
    if n > 0 {
        let mut s = decimal_string(n);
        s.append(" total");
        s
    } else {
        String::new()
    }
}

/// The footer's presence stat: nothing while detection is off, then
/// whether the latest detection pass (with `boxes` people, once one has
/// arrived) found anyone.
pub fn presence_text(detect_open: bool, boxes: Option<usize>) -> (r: &'static str)
    ensures
        r@ == if !detect_open {
            ""@
        } else {
            match boxes {
                None => "checking\u{2026}"@,
                Some(0) => "no person detected"@,
                Some(_) => "person detected"@,
            }
        },
{
    if !detect_open {
        return "";
    }
    match boxes {
        None => "checking\u{2026}",
        Some(n) => if n == 0 {
            "no person detected"
        } else {
            "person detected"
        },
    }
}

/// The footer's motion button: its label and its class.
pub fn motion_button(moving: bool) -> (r: (&'static str, &'static str))
    ensures
        r.0@ == if moving { "Moving"@ } else { "Still"@ },
        r.1@ == if moving { "motion-btn active"@ } else { "motion-btn"@ },
{
    if moving {
        ("Moving", "motion-btn active")
    } else {
        ("Still", "motion-btn")
    }
}

/// The mute button's accessible label.
pub fn mute_label(sound_on: bool) -> (r: &'static str)
    ensures
        r@ == if sound_on { "Mute motion alert sound"@ } else { "Unmute motion alert sound"@ },
{
    if sound_on {
        "Mute motion alert sound"
    } else {
        "Unmute motion alert sound"
    }
}

} // verus!

verus! {

/// Whether two texts are the same.
pub fn same_text(a: &str, b: &str) -> (r: bool)
    ensures
        r == (a@ == b@),
{
    let x = a.to_owned();
    let y = b.to_owned();
    x == y
}

} // verus!
