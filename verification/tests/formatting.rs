use media_library::text::format_playback_time;

#[test]
fn zero_formats_as_zero_minutes() {
    assert_eq!(format_playback_time(0), "00:00");
}

#[test]
fn seconds_and_minutes_are_zero_padded() {
    assert_eq!(format_playback_time(5), "00:05");
    assert_eq!(format_playback_time(61), "01:01");
    assert_eq!(format_playback_time(125), "02:05");
    assert_eq!(format_playback_time(599), "09:59");
}

#[test]
fn minutes_grow_past_two_digits() {
    assert_eq!(format_playback_time(3600), "60:00");
    assert_eq!(format_playback_time(60 * 123 + 45), "123:45");
}
