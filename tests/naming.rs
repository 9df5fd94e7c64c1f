use screen_recorder::naming::{artifact_path, format_timestamp, normalized, Timestamp};

#[test]
fn normalized_strips_path_characters() {
    assert_eq!(normalized("a|b\\c:d/e"), "abcde");
    assert_eq!(normalized(r"\\.\DISPLAY1"), ".DISPLAY1");
    assert_eq!(normalized("HDMI-1"), "HDMI-1");
    assert_eq!(normalized(""), "");
    assert_eq!(normalized("|:/\\"), "");
}

#[test]
fn normalized_is_idempotent() {
    for name in ["a|b\\c:d/e", "plain", "//::||\\\\", "Écran: 2 / ü"] {
        let once = normalized(name);
        assert_eq!(normalized(&once), once);
        assert!(!once.contains(['|', '\\', ':', '/']));
    }
}

#[test]
fn timestamp_is_zero_padded() {
    let t = Timestamp { year: 2024, month: 3, day: 7, hour: 9, minute: 5, second: 1 };
    assert_eq!(format_timestamp(&t), "2024-03-07-09-05-01");
    let t = Timestamp { year: 999, month: 12, day: 31, hour: 23, minute: 59, second: 59 };
    assert_eq!(format_timestamp(&t), "0999-12-31-23-59-59");
}

#[test]
fn artifact_path_pattern() {
    let t = Timestamp { year: 2024, month: 11, day: 2, hour: 14, minute: 30, second: 0 };
    assert_eq!(artifact_path("target", r"\\.\DISPLAY1", &t), "target/monitor-.DISPLAY1-2024-11-02-14-30-00.webp");
}
