use screen_recorder::resize::{resize_image_img, resize_target, ResizeError};
use screen_recorder::frame::Frame;
use screen_recorder::sizing::resize_image_with_max_width;

#[test]
fn target_of_full_hd_is_downscaled() {
    assert_eq!(resize_image_with_max_width(1920, 1080), (1129, 635));
    assert_eq!(resize_target(1920, 1080), Ok((1129, 635)));
}

#[test]
fn target_of_small_source_is_upscaled() {
    assert_eq!(resize_image_with_max_width(800, 600), (1080, 810));
    assert_eq!(resize_target(800, 600), Ok((1080, 810)));
}

#[test]
fn target_of_wide_source() {
    // floor(3840 / 1.7) = 2258; height round(2160 * 2258 / 3840) = round(1270.125)
    assert_eq!(resize_image_with_max_width(3840, 2160), (2258, 1270));
}

#[test]
fn target_height_rounds_half_up() {
    // 1 * 1080 / 2160 = 0.5, rounded up
    assert_eq!(resize_image_with_max_width(2160, 1), (1270, 1));
    // 3 * 1080 / 8 = 405
    assert_eq!(resize_image_with_max_width(8, 3), (1080, 405));
}

#[test]
fn target_keeps_aspect_ratio_within_a_pixel() {
    for &(w, h) in &[(1920u32, 1080u32), (800, 600), (1366, 768), (2560, 1440), (1, 1), (3, 7)] {
        let (tw, th) = resize_image_with_max_width(w, h);
        let exact = h as f64 * tw as f64 / w as f64;
        assert!((th as f64 - exact).abs() <= 0.5 + 1e-9, "{}x{} -> {}x{}", w, h, tw, th);
    }
}

#[test]
fn target_of_zero_dimension_is_an_error() {
    assert_eq!(resize_target(0, 1080), Err(ResizeError::ZeroDimension));
    assert_eq!(resize_target(1920, 0), Err(ResizeError::ZeroDimension));
    assert_eq!(resize_target(0, 0), Err(ResizeError::ZeroDimension));
}

#[test]
fn target_too_large_is_an_error() {
    assert_eq!(resize_target(1, 4_000_000_000), Err(ResizeError::TooLarge));
    assert_eq!(resize_target(70_000, 70_000), Err(ResizeError::TooLarge));
}

fn ramp(width: u32, height: u32) -> Frame {
    let mut pixels = Vec::new();
    for _y in 0..height {
        for x in 0..width {
            let v = (x * 255 / width.max(1)) as u8;
            pixels.extend_from_slice(&[v, v, v, 255]);
        }
    }
    Frame::new(width, height, pixels).unwrap()
}

#[test]
fn resize_produces_target_dimensions() {
    let src = ramp(64, 32);
    let out = resize_image_img(&src).unwrap();
    assert_eq!((out.width, out.height), (1080, 540));
    assert_eq!(out.pixels.len(), 4 * 1080 * 540);
}

#[test]
fn resize_of_zero_height_frame_fails() {
    let src = Frame::new(16, 0, Vec::new()).unwrap();
    assert_eq!(resize_image_img(&src).unwrap_err(), ResizeError::ZeroDimension);
}

#[test]
fn resize_at_target_size_keeps_pixels() {
    let mut pixels = Vec::new();
    for i in 0..(1080u32 * 3) {
        pixels.extend_from_slice(&[(i % 251) as u8, (i % 13) as u8, (i % 7) as u8, 255]);
    }
    let src = Frame::new(1080, 3, pixels).unwrap();
    let out = resize_image_img(&src).unwrap();
    assert_eq!((out.width, out.height), (1080, 3));
    assert_eq!(out.pixels, src.pixels);
}
