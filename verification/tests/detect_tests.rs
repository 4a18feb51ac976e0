use lol_auto_accept_rs::detect::{detect, Template};
use lol_auto_accept_rs::grid::Grid;
use lol_auto_accept_rs::SCORE_ONE;

/// Deterministic pseudo-random byte pattern, so the marker has plenty of
/// contrast and matches nothing by accident.
fn pattern_pixels(n: usize, seed: u64) -> Vec<u8> {
    let mut state = seed;
    let mut out = Vec::with_capacity(n);
    for _ in 0..n {
        state = state.wrapping_mul(6364136223846793005).wrapping_add(1442695040888963407);
        out.push((state >> 33) as u8);
    }
    out
}

fn pattern_grid(w: usize, h: usize, seed: u64) -> Grid {
    Grid::new(w, h, pattern_pixels(w * h, seed)).expect("grid builds")
}

/// A black frame with `inner`'s pixels copied in at `(ox, oy)`.
fn embed(frame_w: usize, frame_h: usize, inner: &Grid, ox: usize, oy: usize) -> Grid {
    let mut pixels = vec![0u8; frame_w * frame_h];
    for j in 0..inner.height {
        for i in 0..inner.width {
            pixels[(oy + j) * frame_w + ox + i] = inner.pixels[j * inner.width + i];
        }
    }
    Grid::new(frame_w, frame_h, pixels).expect("frame builds")
}

#[test]
fn positive_sample_has_high_score() {
    let base = pattern_grid(20, 20, 7);
    let template = Template::build(&base);
    let sample = embed(100, 100, &base, 30, 40);

    let detection = detect(&sample, &template).expect("match not found");
    assert!(
        detection.score_micro > 850_000,
        "expected high score, got {}",
        detection.score_micro
    );
    assert!(
        (detection.width as usize) <= sample.width,
        "template width {} should fit sample width {}",
        detection.width,
        sample.width
    );
    assert!(
        (detection.height as usize) <= sample.height,
        "template height {} should fit sample height {}",
        detection.height,
        sample.height
    );
    assert!(
        detection.scale_centi > 0,
        "scale should be positive, got {}",
        detection.scale_centi
    );
}

#[test]
fn negative_sample_is_below_threshold() {
    let base = pattern_grid(20, 20, 7);
    let template = Template::build(&base);
    // A nearly black frame with a few bright speckles: nothing resembling
    // the marker, so every window's correlation stays low.
    let mut pixels = vec![0u8; 100 * 100];
    pixels[5 * 100 + 9] = 255;
    pixels[47 * 100 + 81] = 255;
    pixels[90 * 100 + 33] = 255;
    let sample = Grid::new(100, 100, pixels).expect("sample builds");

    if let Some(detection) = detect(&sample, &template) {
        assert!(
            detection.score_micro < 880_000,
            "negative sample produced high score {}",
            detection.score_micro
        );
    }
}

#[test]
fn repeated_match_is_identical() {
    let base = pattern_grid(16, 12, 99);
    let template = Template::build(&base);
    let sample = embed(80, 60, &base, 21, 17);

    let first = detect(&sample, &template);
    let second = detect(&sample, &template);
    assert_eq!(first, second);
}

#[test]
fn no_variant_fits_returns_none() {
    let base = pattern_grid(20, 20, 3);
    let template = Template::build(&base);
    // Smallest variant is 13x13; a 10x10 frame fits none of them.
    let frame = pattern_grid(10, 10, 4);
    assert!(detect(&frame, &template).is_none());
}

#[test]
fn perfect_match_found_at_exact_offset() {
    let base = pattern_grid(20, 20, 42);
    let template = Template::build(&base);
    let sample = embed(64, 64, &base, 8, 5);

    let detection = detect(&sample, &template).expect("match not found");
    assert_eq!(detection.x, 8);
    assert_eq!(detection.y, 5);
    assert_eq!(detection.scale_centi, 100);
    assert!(
        detection.score_micro >= 990_000,
        "expected a perfect score, got {}",
        detection.score_micro
    );
    assert!(detection.score_micro <= SCORE_ONE);
}

#[test]
fn all_black_frame_scores_zero() {
    let base = pattern_grid(20, 20, 11);
    let template = Template::build(&base);
    let frame = Grid::new(40, 40, vec![0u8; 40 * 40]).expect("frame builds");

    let detection = detect(&frame, &template).expect("fits, so a result exists");
    assert_eq!(detection.score_micro, 0);
}

#[test]
fn grid_rejects_mismatched_buffer() {
    assert!(Grid::new(4, 4, vec![0u8; 15]).is_none());
    assert!(Grid::new(4, 4, vec![0u8; 16]).is_some());
}

#[test]
fn template_build_keeps_ladder_order_and_sizes() {
    let base = pattern_grid(20, 20, 5);
    let template = Template::build(&base);
    assert_eq!(template.variants.len(), 14);
    // 0.65x of 20 rounds to 13; 1.20x rounds to 24; 1.00x is the base.
    assert_eq!(template.variants[0].scale_centi, 65);
    assert_eq!(template.variants[0].grid.width, 13);
    assert_eq!(template.variants[0].grid.height, 13);
    let v120 = &template.variants[11];
    assert_eq!(v120.scale_centi, 120);
    assert_eq!(v120.grid.width, 24);
    assert_eq!(v120.grid.height, 24);
    let v100 = &template.variants[7];
    assert_eq!(v100.scale_centi, 100);
    assert_eq!(v100.grid.pixels, base.pixels);
}

#[test]
fn template_build_drops_too_small_variants() {
    let base = pattern_grid(4, 4, 5);
    let template = Template::build(&base);
    // (4 * s + 50) / 100 reaches 4 only from factor 0.90 upward.
    assert_eq!(template.variants.len(), 9);
    assert_eq!(template.variants[0].scale_centi, 90);
    for v in &template.variants {
        assert!(v.grid.width >= 4 && v.grid.height >= 4);
    }
}

#[test]
fn resampled_variant_changes_dimensions() {
    // If resampling handed its input back unchanged, the 1.2x variant of a
    // 20x20 base would still be 20x20 with 400 pixels.
    let base = pattern_grid(20, 20, 8);
    let template = Template::build(&base);
    let v120 = &template.variants[11];
    assert_eq!(v120.scale_centi, 120);
    assert_eq!(v120.grid.pixels.len(), 24 * 24);
    assert_ne!(v120.grid.pixels.len(), base.pixels.len());
}
