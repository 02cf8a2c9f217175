//! The camera settings form: which rows show a preset dropdown and which a
//! typed number, how typed and picked values are read, the check run
//! before an update is sent, and the status texts around it.

use vstd::prelude::*;

use crate::decimal::decimal_string;
use crate::shared_types::{VideoSettingsUpdate, validation_error};
use crate::viewer::texts::same_text;

verus! {

/// Shown when the form fails the range checks. Note the en dash.
pub const VALIDATION_MSG: &'static str = "All values must be positive; quality must be 1\u{2013}100.";

/// Shown after a successful apply: the capture pipeline restarts, so the
/// video drops and reconnects a moment later.
pub const APPLIED_STATUS: &'static str = "Applied \u{2014} restarting capture\u{2026}";

/// Shown when the server rejects an update without a readable error body.
pub const FALLBACK_ERROR: &'static str = "Failed to apply settings.";

/// Shown when the server can't be reached.
pub const NETWORK_ERROR: &'static str = "Failed to reach server";

/// How long the applied status stays up, in milliseconds.
pub const STATUS_CLEAR_MS: u32 = 3000;

/// The dropdown entry that swaps a row to a typed number.
pub const CUSTOM: &'static str = "custom";

/// The backend on which quality and flips apply.
pub const RPICAM: &'static str = "rpicam";

/// The form rows that offer presets.
#[derive(Debug, Clone, Copy, PartialEq, Eq)]
pub enum PresetRow {
    Width,
    Height,
    Fps,
}

/// A row's presets, in the order the dropdown lists them.
pub open spec fn preset_values(row: PresetRow) -> Seq<u32> {
    match row {
        PresetRow::Width => seq![320u32, 640, 800, 1280, 1920],
        PresetRow::Height => seq![240u32, 480, 600, 720, 1080],
        PresetRow::Fps => seq![5u32, 10, 15, 20, 30],
    }
}

/// A row's presets.
pub fn presets(row: PresetRow) -> (r: Vec<u32>)
    ensures
        r@ == preset_values(row),
{
    let r = match row {
        PresetRow::Width => vec![320u32, 640, 800, 1280, 1920],
        PresetRow::Height => vec![240u32, 480, 600, 720, 1080],
        PresetRow::Fps => vec![5u32, 10, 15, 20, 30],
    };
    assert(r@ =~= preset_values(row));
    r
}

/// Whether a row opens as a typed number: its value is none of its presets.
pub fn is_custom(row: PresetRow, value: u32) -> (r: bool)
    ensures
        r == !preset_values(row).contains(value),
{
    let p = presets(row);
    let mut i: usize = 0;
    while i < p.len()
        invariant
            p@ == preset_values(row),
            i <= p@.len(),
            forall|j: int| 0 <= j < i ==> p@[j] != value,
        decreases p@.len() - i,
    {
        if p[i] == value {
            assert(preset_values(row)[i as int] == value);
            return false;
        }
        i = i + 1;
    }
    true
}

/// Whether `c` is an ASCII digit.
pub open spec fn is_digit(c: char) -> bool {
    48 <= (c as u32) <= 57
}

/// The number the digits of `s` spell, most significant first.
pub open spec fn digits_value(s: Seq<char>) -> nat
    decreases s.len(),
{
    if s.len() == 0 {
        0
    } else {
        digits_value(s.drop_last()) * 10 + ((s.last() as u32) - 48) as nat
    }
}

/// `s` without a leading `+`.
pub open spec fn unsigned_part(s: Seq<char>) -> Seq<char> {
    if s.len() > 0 && s[0] == '+' {
        s.skip(1)
    } else {
        s
    }
}

/// Whether every character of `d` is an ASCII digit.
pub open spec fn all_digits(d: Seq<char>) -> bool {
    forall|i: int| 0 <= i < d.len() ==> is_digit(#[trigger] d[i])
}

/// What Rust's `u32::from_str` reads from `s`: an optional `+`, then one
/// or more ASCII digits whose value fits in a `u32`; anything else fails.
pub open spec fn parsed_u32(s: Seq<char>) -> Option<u32> {
    let d = unsigned_part(s);
    if d.len() > 0 && all_digits(d) && digits_value(d) <= u32::MAX {
        Some(digits_value(d) as u32)
    } else {
        None
    }
}

proof fn lemma_digits_value_grows(s: Seq<char>, c: char)
    requires
        is_digit(c),
    ensures
        digits_value(s.push(c)) == digits_value(s) * 10 + ((c as u32) - 48),
        digits_value(s.push(c)) >= digits_value(s),
{
    assert(s.push(c).drop_last() =~= s);
}

/// Reads a decimal `u32` the way `u32::from_str` does.
pub fn parse_u32(text: &str) -> (r: Option<u32>)
    ensures
        r == parsed_u32(text@),
{
    let n = text.unicode_len();
    let mut start: usize = 0;
    if n > 0 && text.get_char(0) == '+' {
        start = 1;
    }
    let ghost d = unsigned_part(text@);
    assert(d =~= text@.skip(start as int));
    if start >= n {
        return None;
    }
    // `value` is exact while it fits; `over` records that it no longer does.
    let mut value: u64 = 0;
    let mut over = false;
    let mut i: usize = start;
    while i < n
        invariant
            n == text@.len(),
            d == unsigned_part(text@),
            d =~= text@.skip(start as int),
            start <= i <= n,
            forall|k: int| start <= k < i ==> is_digit(#[trigger] text@[k]),
            over <==> digits_value(text@.subrange(start as int, i as int)) > u32::MAX,
            !over ==> value == digits_value(text@.subrange(start as int, i as int)),
        decreases n - i,
    {
        let c = text.get_char(i);
        let code = c as u32;
        if code < 48 || code > 57 {
            proof {
                let k = i - start;
                assert(d[k] == text@[i as int]);
                assert(!is_digit(d[k]));
                assert(!all_digits(d));
            }
            return None;
        }
        proof {
            assert(text@.subrange(start as int, i + 1) =~= text@.subrange(start as int, i as int).push(c));
            lemma_digits_value_grows(text@.subrange(start as int, i as int), c);
        }
        if !over {
            let next = value * 10 + (code - 48) as u64;
            if next > u32::MAX as u64 {
                over = true;
            } else {
                value = next;
            }
        }
        i = i + 1;
    }
    assert(text@.subrange(start as int, n as int) =~= d);
    assert(all_digits(d)) by {
        assert forall|k: int| 0 <= k < d.len() implies is_digit(#[trigger] d[k]) by {
            assert(d[k] == text@[start + k]);
        }
    }
    if over {
        None
    } else {
        Some(value as u32)
    }
}

/// A number typed into a row's box; an empty or unreadable box reads as
/// 0, which the range checks then reject.
pub fn typed_value(text: &str) -> (r: u32)
    ensures
        r == match parsed_u32(text@) {
            Some(v) => v,
            None => 0,
        },
{
    match parse_u32(text) {
        Some(v) => v,
        None => 0,
    }
}

/// What picking a dropdown entry does.
#[derive(Debug, Clone, Copy, PartialEq, Eq)]
pub enum Pick {
    /// Swap the row to a typed number, keeping its value.
    Custom,
    /// Set the row's value.
    Value(u32),
    /// Nothing (an unreadable entry).
    Ignore,
}

/// Reads a picked dropdown entry.
pub fn picked(entry: &str) -> (r: Pick)
    ensures
        r == if entry@ == CUSTOM@ {
            Pick::Custom
        } else {
            match parsed_u32(entry@) {
                Some(v) => Pick::Value(v),
                None => Pick::Ignore,
            }
        },
{
    if same_text(entry, CUSTOM) {
        return Pick::Custom;
    }
    match parse_u32(entry) {
        Some(v) => Pick::Value(v),
        None => Pick::Ignore,
    }
}

/// What the dropdown shows as selected: the custom entry while the row is
/// a typed number, else the value.
pub fn select_value(is_custom: bool, value: u32) -> (r: String)
    ensures
        r@ == if is_custom { CUSTOM@ } else { crate::decimal::decimal_chars(value as nat) },
{
    if is_custom {
        CUSTOM.to_owned()
    } else {
        decimal_string(value as u64)
    }
}

/// A quality read off the slider, if it reads as a `u8`.
pub fn slid_quality(text: &str) -> (r: Option<u8>)
    ensures
        r == match parsed_u32(text@) {
            Some(v) => if v <= 255 { Some(v as u8) } else { None::<u8> },
            None => None::<u8>,
        },
{
    match parse_u32(text) {
        Some(v) => if v <= 255 {
            Some(v as u8)
        } else {
            None
        },
        None => None,
    }
}

/// The update the form sends: every field, as currently shown.
pub fn form_update(width: u32, height: u32, fps: u32, quality: u8, hflip: bool, vflip: bool) -> (r:
    VideoSettingsUpdate)
    ensures
        r == (VideoSettingsUpdate {
            width: Some(width),
            height: Some(height),
            fps: Some(fps),
            quality: Some(quality),
            hflip: Some(hflip),
            vflip: Some(vflip),
        }),
{
    VideoSettingsUpdate {
        width: Some(width),
        height: Some(height),
        fps: Some(fps),
        quality: Some(quality),
        hflip: Some(hflip),
        vflip: Some(vflip),
    }
}

/// The check run before an update is sent, with the same range checks the
/// server runs: the form's message if any fails.
pub fn check_before_apply(update: &VideoSettingsUpdate) -> (r: Result<(), &'static str>)
    ensures
        match r {
            Ok(()) => validation_error(*update) is None,
            Err(m) => validation_error(*update) is Some && m@ == VALIDATION_MSG@,
        },
{
    match update.validate() {
        Ok(()) => Ok(()),
        Err(_) => Err(VALIDATION_MSG),
    }
}

/// Whether the quality and flip rows apply: on the `rpicam` backend, and
/// before the first config arrives (the backend is unknown then).
pub fn is_rpicam(backend: &Option<String>) -> (r: bool)
    ensures
        r == match backend {
            Some(b) => b@ == RPICAM@,
            None => true,
        },
{
    match backend {
        Some(b) => same_text(b.as_str(), RPICAM),
        None => true,
    }
}

/// Whether the status timer may clear the status: only if it still shows
/// the applied message, so an older timer never clobbers a newer status.
pub fn status_timer_clears(status: &Option<String>) -> (r: bool)
    ensures
        r == (status matches Some(s) && s@ == APPLIED_STATUS@),
{
    match status {
        Some(s) => same_text(s.as_str(), APPLIED_STATUS),
        None => false,
    }
}

} // verus!
