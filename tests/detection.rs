use screen_recorder::cycle::{run_cycle, Capture, MonitorOutcome};
use screen_recorder::detector::{hamming_distance, is_image_different_enough, signatures_differ};
use screen_recorder::frame::Frame;
use screen_recorder::resize::ResizeError;
use screen_recorder::store::{Decision, FrameStore};

fn ramp(width: u32, height: u32, rising: bool) -> Frame {
    let mut pixels = Vec::new();
    for _y in 0..height {
        for x in 0..width {
            let step = if rising { x } else { width - 1 - x };
            let v = (step * 255 / (width - 1)) as u8;
            pixels.extend_from_slice(&[v, v, v, 255]);
        }
    }
    Frame::new(width, height, pixels).unwrap()
}

#[test]
fn frame_new_checks_buffer_length() {
    assert!(Frame::new(2, 2, vec![0; 16]).is_some());
    assert!(Frame::new(2, 2, vec![0; 15]).is_none());
    assert!(Frame::new(2, 0, vec![]).is_some());
}

#[test]
fn hamming_distance_counts_bits() {
    assert_eq!(hamming_distance(&vec![0xFF, 0x00], &vec![0x0F, 0x01]), 5);
    assert_eq!(hamming_distance(&vec![0xAB; 8], &vec![0xAB; 8]), 0);
    assert_eq!(hamming_distance(&vec![0x00; 8], &vec![0xFF; 8]), 64);
    assert_eq!(hamming_distance(&vec![], &vec![0xFF]), 0);
}

#[test]
fn signatures_differ_iff_distance_positive() {
    assert!(signatures_differ(&vec![1, 2, 3], &vec![1, 2, 2]));
    assert!(!signatures_differ(&vec![1, 2, 3], &vec![1, 2, 3]));
}

#[test]
fn identical_frames_are_unchanged() {
    let a = ramp(32, 16, true);
    let b = a.duplicate();
    assert!(!is_image_different_enough(&a, Some(&b)));
}

#[test]
fn first_frame_is_changed() {
    let a = ramp(32, 16, true);
    assert!(is_image_different_enough(&a, None));
    let empty = Frame::new(0, 0, vec![]).unwrap();
    assert!(is_image_different_enough(&empty, None));
}

#[test]
fn opposite_ramps_are_changed() {
    let a = ramp(32, 16, true);
    let b = ramp(32, 16, false);
    assert!(is_image_different_enough(&a, Some(&b)));
}

#[test]
fn frames_without_pixels_compare_exactly() {
    let a = Frame::new(0, 5, vec![]).unwrap();
    let b = Frame::new(0, 5, vec![]).unwrap();
    let c = Frame::new(5, 0, vec![]).unwrap();
    assert!(!is_image_different_enough(&a, Some(&b)));
    assert!(is_image_different_enough(&a, Some(&c)));
}

#[test]
fn store_keeps_one_frame_per_monitor() {
    let mut store = FrameStore::new();
    let a = ramp(32, 16, true);
    let b = ramp(32, 16, false);
    assert!(store.get(1).is_none());
    assert_eq!(store.compare_and_update(1, &a), Decision::Changed);
    assert_eq!(store.compare_and_update(1, &a), Decision::Unchanged);
    assert_eq!(store.compare_and_update(2, &a), Decision::Changed);
    assert_eq!(store.compare_and_update(1, &b), Decision::Changed);
    assert_eq!(store.get(1).unwrap().pixels, b.pixels);
    assert_eq!(store.get(2).unwrap().pixels, a.pixels);
}

#[test]
fn later_change_wins() {
    let mut store = FrameStore::new();
    let a = ramp(32, 16, true);
    let b = ramp(32, 16, false);
    store.compare_and_update(7, &a);
    assert_eq!(store.compare_and_update(7, &b), Decision::Changed);
    assert_eq!(store.get(7).unwrap().pixels, b.pixels);
    assert_eq!(store.compare_and_update(7, &a), Decision::Changed);
    assert_eq!(store.get(7).unwrap().pixels, a.pixels);
}

#[test]
fn repeated_frame_is_persisted_once() {
    let mut store = FrameStore::new();
    let first = vec![Capture { monitor: 1, frame: ramp(64, 36, true) }];
    let out = run_cycle(&mut store, &first);
    assert_eq!(out.iter().filter(|o| matches!(o, MonitorOutcome::Resized(_))).count(), 1);
    let second = vec![Capture { monitor: 1, frame: ramp(64, 36, true) }];
    let out = run_cycle(&mut store, &second);
    assert_eq!(out.iter().filter(|o| matches!(o, MonitorOutcome::Resized(_))).count(), 0);
    assert!(matches!(out[0], MonitorOutcome::Unchanged));
}

#[test]
fn zero_height_frame_skips_only_its_monitor() {
    let mut store = FrameStore::new();
    let captures = vec![
        Capture { monitor: 1, frame: Frame::new(64, 0, vec![]).unwrap() },
        Capture { monitor: 2, frame: ramp(64, 36, true) },
    ];
    let out = run_cycle(&mut store, &captures);
    assert_eq!(out.len(), 2);
    assert!(matches!(out[0], MonitorOutcome::ResizeFailed(ResizeError::ZeroDimension)));
    match &out[1] {
        MonitorOutcome::Resized(f) => {
            assert_eq!((f.width, f.height), (1080, 608));
            assert_eq!(f.pixels.len(), 4 * 1080 * 608);
        }
        other => panic!("unexpected outcome {:?}", other),
    }
}

fn uniform(width: u32, height: u32, level: u8) -> Frame {
    let mut pixels = Vec::new();
    for _ in 0..(width * height) {
        pixels.extend_from_slice(&[level, level, level, 255]);
    }
    Frame::new(width, height, pixels).unwrap()
}

#[test]
fn uniform_frames_share_a_signature() {
    // a gradient hash sees no gradient in either frame, although every byte differs
    let dark = uniform(32, 16, 0);
    let light = uniform(32, 16, 255);
    assert!(!is_image_different_enough(&light, Some(&dark)));
}

#[test]
fn only_the_changed_monitor_is_resized() {
    let mut store = FrameStore::new();
    let first = vec![
        Capture { monitor: 1, frame: ramp(64, 36, true) },
        Capture { monitor: 2, frame: ramp(64, 36, true) },
    ];
    let out = run_cycle(&mut store, &first);
    assert!(out.iter().all(|o| matches!(o, MonitorOutcome::Resized(_))));
    let second = vec![
        Capture { monitor: 1, frame: ramp(64, 36, false) },
        Capture { monitor: 2, frame: ramp(64, 36, true) },
    ];
    let out = run_cycle(&mut store, &second);
    assert!(matches!(out[0], MonitorOutcome::Resized(_)));
    assert!(matches!(out[1], MonitorOutcome::Unchanged));
    assert_eq!(store.get(1).unwrap().pixels, ramp(64, 36, false).pixels);
    assert_eq!(store.get(2).unwrap().pixels, ramp(64, 36, true).pixels);
}

#[test]
fn signatures_of_different_length_differ() {
    assert!(signatures_differ(&vec![1, 2], &vec![1, 2, 0]));
}
