//! Tests of the motion classifier on concrete frames.

use security_cam_client::grayimage::GrayFrame;
use security_cam_client::grayimage::abs_diff;
use security_cam_client::grayimage::diffs_to_gray_image;
use security_cam_client::grayimage::movement_score;
use security_cam_client::grayimage::pixel_diffs;
use security_cam_client::grayimage::threshold;
use security_cam_client::grayimage::window_movement_score;

fn flat(width: u32, height: u32, value: u8) -> GrayFrame {
    GrayFrame::from_pixels(width, height, vec![value; (width * height) as usize])
}

#[test]
fn test_static_scene_score_zero() {
    let f = flat(8, 8, 100);
    let g = flat(8, 8, 100);
    let h = flat(8, 8, 100);
    assert_eq!(window_movement_score(&f, &g, &h), 0);
}

#[test]
fn test_noise_below_threshold_scores_zero() {
    // single-pixel changes of 40 exceed the sensitivity but not the
    // binarisation threshold of 60, so no pixel survives
    let f1 = flat(4, 4, 100);
    let mut f2 = flat(4, 4, 100);
    f2.set(1, 1, 140);
    let mut f3 = flat(4, 4, 100);
    f3.set(2, 2, 140);
    assert_eq!(window_movement_score(&f1, &f2, &f3), 0);
}

#[test]
fn test_moving_block_triggers_movement() {
    // a 3x3 block jumps by 200 between each pair of frames: 9 pixels are
    // hot in both difference images, above the threshold of 5
    let f1 = flat(8, 8, 10);
    let mut f2 = flat(8, 8, 10);
    let mut f3 = flat(8, 8, 10);
    for y in 2..5 {
        for x in 2..5 {
            f2.set(x, y, 210);
            f3.set(x, y, 10);
        }
    }
    // f2 -> f3 moves the block back, so both diffs light the same block
    let score = window_movement_score(&f1, &f2, &f3);
    assert_eq!(score, 9);
    assert!(score > 5);
}

#[test]
fn test_uncorrelated_changes_score_zero() {
    // a change present in only one diff pair is suppressed by the AND
    let f1 = flat(8, 8, 10);
    let mut f2 = flat(8, 8, 10);
    for y in 0..3 {
        for x in 0..3 {
            f2.set(x, y, 210);
        }
    }
    let f3 = f2_copy(&f2);
    assert_eq!(window_movement_score(&f1, &f2, &f3), 0);
}

fn f2_copy(f: &GrayFrame) -> GrayFrame {
    GrayFrame::from_pixels(f.width, f.height, f.pixels.clone())
}

#[test]
fn test_abs_diff() {
    assert_eq!(abs_diff(10, 250), 240);
    assert_eq!(abs_diff(250, 10), 240);
    assert_eq!(abs_diff(7, 7), 0);
}

#[test]
fn test_pixel_diffs_exact() {
    let a = GrayFrame::from_pixels(2, 2, vec![0, 100, 0, 0]);
    let b = GrayFrame::from_pixels(2, 2, vec![0, 0, 0, 50]);
    let diffs = pixel_diffs(&a, &b, 30);
    assert_eq!(diffs.len(), 2);
    assert_eq!((diffs[0].x, diffs[0].y), (1, 0));
    assert_eq!(diffs[0].actual, 100);
    assert_eq!(diffs[0].expected, 0);
    assert_eq!((diffs[1].x, diffs[1].y), (1, 1));
    assert_eq!(diffs[1].actual, 0);
    assert_eq!(diffs[1].expected, 50);
}

#[test]
fn test_pixel_diffs_sensitivity_is_strict() {
    let a = GrayFrame::from_pixels(1, 1, vec![30]);
    let b = GrayFrame::from_pixels(1, 1, vec![0]);
    // a difference of exactly the sensitivity does not count
    assert_eq!(pixel_diffs(&a, &b, 30).len(), 0);
    assert_eq!(pixel_diffs(&a, &b, 29).len(), 1);
}

#[test]
fn test_diffs_to_gray_image() {
    let a = GrayFrame::from_pixels(2, 2, vec![0, 100, 0, 0]);
    let b = GrayFrame::from_pixels(2, 2, vec![0, 0, 0, 50]);
    let diffs = pixel_diffs(&a, &b, 30);
    let img = diffs_to_gray_image(diffs, 2, 2);
    assert_eq!(img.pixels, vec![0, 100, 0, 50]);
}

#[test]
fn test_threshold_is_strict() {
    let img = GrayFrame::from_pixels(2, 2, vec![0, 60, 61, 255]);
    let out = threshold(&img, 60);
    assert_eq!(out.pixels, vec![0, 0, 255, 255]);
}

#[test]
fn test_movement_score_counts_and() {
    let a = GrayFrame::from_pixels(2, 2, vec![255, 255, 0, 0]);
    let b = GrayFrame::from_pixels(2, 2, vec![255, 0, 255, 0]);
    assert_eq!(movement_score(&a, &b), 1);
}
