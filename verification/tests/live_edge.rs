use winnie_cam::viewer::live_edge::{
    decide, trim_range, Decision, KEEP_BEHIND_MS, MAX_LAG_MS, TARGET_LAG_MS,
};

#[test]
fn holds_within_threshold() {
    // Just under the max lag.
    assert_eq!(decide(10_000, Some(11_400)), Decision::Hold);
    // Right at the max lag.
    assert_eq!(decide(10_000, Some(11_500)), Decision::Hold);
}

#[test]
fn holds_with_no_buffer() {
    assert_eq!(decide(10_000, None), Decision::Hold);
}

#[test]
fn holds_when_buffer_is_behind_playback() {
    // Defensive: garbage ranges must never produce a backwards seek.
    assert_eq!(decide(10_000, Some(9_000)), Decision::Hold);
}

#[test]
fn seeks_to_target_when_far_behind() {
    assert_eq!(decide(10_000, Some(16_000)), Decision::Seek(16_000 - TARGET_LAG_MS));
}

#[test]
fn threshold_ordering_keeps_seeks_forward_only() {
    // Tautological with today's constants on purpose: it only fires if
    // someone retunes them into an order that makes seeks go backwards.
    let (max_lag, target_lag) = (MAX_LAG_MS, TARGET_LAG_MS);
    assert!(max_lag > target_lag);
}

#[test]
fn just_past_the_max_lag_seeks() {
    assert_eq!(decide(10_000, Some(11_501)), Decision::Seek(11_201));
}

#[test]
fn buffer_well_behind_playback_is_trimmed() {
    assert_eq!(KEEP_BEHIND_MS, 5000);
    assert_eq!(trim_range(0, 12_000), Some((0, 7_000)));
    assert_eq!(trim_range(7_000, 12_000), None);
    assert_eq!(trim_range(0, 4_000), None);
}
