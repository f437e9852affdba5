use ffmpeg_rust_scripts::timecode::{
    clock_ms_text, clock_text, clock_text_auto, format_time_for_filename, format_time_for_filename_on,
    split_timestamp, without_fraction, TimestampFields,
};

#[test]
fn filename_time_on_windows_replaces_colons() {
    assert_eq!(format_time_for_filename_on("00:01:02.500", true), "00-01-02.500");
}

#[test]
fn filename_time_elsewhere_keeps_text() {
    assert_eq!(format_time_for_filename_on("00:01:02.500", false), "00:01:02.500");
}

#[test]
fn filename_time_on_this_platform() {
    let r = format_time_for_filename("12:34:56");
    if std::path::MAIN_SEPARATOR == '\\' {
        assert_eq!(r, "12-34-56");
    } else {
        assert_eq!(r, "12:34:56");
    }
}

#[test]
fn clock_text_pads_to_two_digits() {
    assert_eq!(clock_text(1, 2, 3), "01:02:03");
    assert_eq!(clock_text(123, 59, 0), "123:59:00");
}

#[test]
fn clock_ms_text_pads_milliseconds() {
    assert_eq!(clock_ms_text(0, 0, 45, 5), "00:00:45.005");
    assert_eq!(clock_ms_text(1, 30, 0, 500), "01:30:00.500");
}

#[test]
fn clock_auto_drops_zero_milliseconds() {
    assert_eq!(clock_text_auto(0, 0, 45, 500), "00:00:45.500");
    assert_eq!(clock_text_auto(0, 1, 0, 0), "00:01:00");
}

#[test]
fn without_fraction_cuts_at_first_dot() {
    assert_eq!(without_fraction("00:01:02.345"), "00:01:02");
    assert_eq!(without_fraction("12"), "12");
    assert_eq!(without_fraction(".5"), "");
}

#[test]
fn without_fraction_of_formatted_clock() {
    let t = clock_ms_text(2, 3, 4, 999);
    assert_eq!(without_fraction(&t), clock_text(2, 3, 4));
}

#[test]
fn split_timestamp_three_fields() {
    match split_timestamp("01:02:03.250") {
        TimestampFields::HoursMinutesSeconds(h, m, s) => {
            assert_eq!((h.as_str(), m.as_str(), s.as_str()), ("01", "02", "03.250"));
        }
        other => panic!("unexpected {:?}", other),
    }
}

#[test]
fn split_timestamp_two_fields() {
    match split_timestamp("1:45") {
        TimestampFields::MinutesSeconds(m, s) => assert_eq!((m.as_str(), s.as_str()), ("1", "45")),
        other => panic!("unexpected {:?}", other),
    }
}

#[test]
fn split_timestamp_plain_and_odd() {
    match split_timestamp("90.5") {
        TimestampFields::Seconds(s) => assert_eq!(s, "90.5"),
        other => panic!("unexpected {:?}", other),
    }
    match split_timestamp("1:2:3:4") {
        TimestampFields::Seconds(s) => assert_eq!(s, "1:2:3:4"),
        other => panic!("unexpected {:?}", other),
    }
}

#[test]
fn formatted_clock_splits_back_into_fields() {
    let t = clock_ms_text(3, 7, 9, 42);
    match split_timestamp(&t) {
        TimestampFields::HoursMinutesSeconds(h, m, s) => {
            assert_eq!(h.parse::<u32>().unwrap(), 3);
            assert_eq!(m.parse::<u32>().unwrap(), 7);
            assert_eq!(s, "09.042");
        }
        other => panic!("unexpected {:?}", other),
    }
}
