use winnie_cam::detect::motion::grid::{count_changes, downscale, CellCounts};

fn solid_rgb(w: u32, h: u32, rgb: [u8; 3]) -> Vec<u8> {
    let mut out = Vec::with_capacity((w * h * 3) as usize);
    for _ in 0..(w * h) {
        out.extend_from_slice(&rgb);
    }
    out
}

/// The fractions the motion loop scores a pair of grids by: changed cells
/// over compared cells, inside and outside the mask; `None` with nothing
/// inside the mask.
fn fractions(c: CellCounts) -> Option<(f32, f32)> {
    if c.inside_total == 0 {
        return None;
    }
    let inside = c.inside_changed as f32 / c.inside_total as f32;
    let outside = if c.outside_total == 0 {
        0.0
    } else {
        c.outside_changed as f32 / c.outside_total as f32
    };
    Some((inside, outside))
}

#[test]
fn downscale_of_a_solid_frame_is_uniform() {
    let rgb = solid_rgb(16, 16, [100, 150, 200]);
    let mut out = Vec::new();
    downscale(&rgb, 16, 16, 4, &mut out);
    assert_eq!(out.len(), 16);
    let expected = (100u64 * 299 + 150 * 587 + 200 * 114) / 1000;
    assert!(out.iter().all(|&v| v as u64 == expected));
}

#[test]
fn downscale_replaces_what_the_output_held() {
    let rgb = solid_rgb(4, 4, [255, 255, 255]);
    let mut out = vec![7u8; 40];
    downscale(&rgb, 4, 4, 2, &mut out);
    assert_eq!(out, vec![255u8; 4]);
}

#[test]
fn downscale_averages_the_pixels_of_each_cell() {
    // A 2x1 frame, one black and one white pixel, into a 1x1 grid.
    let rgb = vec![0, 0, 0, 255, 255, 255];
    let mut out = Vec::new();
    downscale(&rgb, 2, 1, 1, &mut out);
    assert_eq!(out, vec![127u8]);
}

#[test]
fn downscale_keeps_cells_apart() {
    // Left half black, right half white, 4x4 frame into a 2x2 grid.
    let mut rgb = Vec::new();
    for _y in 0..4 {
        for x in 0..4 {
            let v = if x < 2 { 0 } else { 255 };
            rgb.extend_from_slice(&[v, v, v]);
        }
    }
    let mut out = Vec::new();
    downscale(&rgb, 4, 4, 2, &mut out);
    assert_eq!(out, vec![0, 255, 0, 255]);
}

#[test]
fn downscale_of_a_short_buffer_reads_missing_pixels_as_absent() {
    // Only the first pixel of a 2x2 frame is present.
    let rgb = vec![10, 20, 30];
    let mut out = Vec::new();
    downscale(&rgb, 2, 2, 2, &mut out);
    let first = (10u64 * 299 + 20 * 587 + 30 * 114) / 1000;
    assert_eq!(out, vec![first as u8, 0, 0, 0]);
}

#[test]
fn downscale_counts_zero_sizes_as_one() {
    let rgb = vec![90, 90, 90];
    let mut out = Vec::new();
    downscale(&rgb, 0, 0, 0, &mut out);
    assert_eq!(out, vec![90u8]);
}

#[test]
fn identical_frames_score_zero_everywhere() {
    let grid = vec![128u8; 16];
    let mask = vec![true; 16];
    let c = count_changes(&grid, &grid, &mask, 12);
    assert_eq!(
        c,
        CellCounts { inside_total: 16, inside_changed: 0, outside_total: 0, outside_changed: 0 }
    );
    assert_eq!(fractions(c), Some((0.0, 0.0)));
}

#[test]
fn a_change_inside_the_mask_scores_its_exact_fraction() {
    let side = 4;
    let mut mask = vec![false; side * side];
    for m in mask.iter_mut().take(side) {
        *m = true;
    }
    let prev = vec![100u8; side * side];
    let mut cur = prev.clone();
    cur[0] = 200;
    cur[1] = 200;
    let c = count_changes(&prev, &cur, &mask, 12);
    assert_eq!(c.inside_changed, 2);
    assert_eq!(c.inside_total, 4);
    let (inside, outside) = fractions(c).unwrap();
    assert_eq!(inside, 0.5);
    assert_eq!(outside, 0.0);
}

#[test]
fn a_change_entirely_outside_the_mask_scores_zero_inside() {
    let side = 4;
    let mut mask = vec![false; side * side];
    mask[0] = true;
    let prev = vec![100u8; side * side];
    let mut cur = prev.clone();
    cur[side * side - 1] = 250;
    let c = count_changes(&prev, &cur, &mask, 12);
    let (inside, outside) = fractions(c).unwrap();
    assert_eq!(inside, 0.0);
    assert!(outside > 0.0);
    assert_eq!(c.outside_changed, 1);
    assert_eq!(c.outside_total, 15);
}

#[test]
fn an_empty_mask_returns_none() {
    let grid = vec![100u8; 16];
    let mask = vec![false; 16];
    let c = count_changes(&grid, &grid, &mask, 12);
    assert_eq!(c.inside_total, 0);
    assert_eq!(fractions(c), None);
}

#[test]
fn a_uniform_brightness_shift_raises_outside_as_much_as_inside() {
    let side = 4;
    let mut mask = vec![false; side * side];
    for m in mask.iter_mut().take(side * side / 2) {
        *m = true;
    }
    let prev = vec![100u8; side * side];
    let cur = vec![140u8; side * side];
    let c = count_changes(&prev, &cur, &mask, 12);
    assert_eq!(fractions(c), Some((1.0, 1.0)));
}

#[test]
fn a_change_exactly_at_the_threshold_counts() {
    let prev = vec![100u8, 100, 100];
    let cur = vec![112u8, 111, 88];
    let mask = vec![true, true, true];
    let c = count_changes(&prev, &cur, &mask, 12);
    assert_eq!(c.inside_changed, 2);
}

#[test]
fn only_the_cells_all_three_slices_have_are_compared() {
    let prev = vec![0u8; 10];
    let cur = vec![255u8; 6];
    let mask = vec![true, false, true, false];
    let c = count_changes(&prev, &cur, &mask, 1);
    assert_eq!(
        c,
        CellCounts { inside_total: 2, inside_changed: 2, outside_total: 2, outside_changed: 2 }
    );
}
