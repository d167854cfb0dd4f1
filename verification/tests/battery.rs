use utensil_bs::battery::level_message;
use utensil_bs::{read_level, read_status, status_str};

#[test]
fn codes_have_names() {
    assert_eq!(status_str("2"), "Charging");
    assert_eq!(status_str("3"), "Discharging");
    assert_eq!(status_str("4"), "Not charging");
    assert_eq!(status_str("5"), "Full");
}

#[test]
fn anything_else_is_unknown() {
    for raw in ["", "0", "1", "6", "22", " 2", "2\n", "Full"] {
        assert_eq!(status_str(raw), "Unknown");
    }
}

#[test]
fn the_level_is_the_trimmed_number() {
    assert_eq!(read_level(Some("87\n")), Some(87));
    assert_eq!(read_level(Some("  0 ")), Some(0));
    assert_eq!(read_level(Some("255")), Some(255));
}

#[test]
fn no_number_is_no_level() {
    assert_eq!(read_level(None), None);
    assert_eq!(read_level(Some("")), None);
    assert_eq!(read_level(Some("full\n")), None);
    assert_eq!(read_level(Some("256\n")), None);
    assert_eq!(read_level(Some("-1\n")), None);
    assert_eq!(read_level(Some("8 7")), None);
}

#[test]
fn the_status_file_comes_first() {
    assert_eq!(read_status(Some("Not charging\n"), Some("2")), "Not charging");
    assert_eq!(read_status(Some("\n"), Some("2")), "");
}

#[test]
fn the_property_stands_in_for_the_status_file() {
    assert_eq!(read_status(None, Some("5")), "Full");
    assert_eq!(read_status(None, Some("9")), "Unknown");
    assert_eq!(read_status(None, None), "Unknown");
}

#[test]
fn the_line_about_a_level_reads_back() {
    assert_eq!(level_message(7), "7\n");
    assert_eq!(level_message(100), "100\n");
    for level in 0..=255u8 {
        assert_eq!(read_level(Some(&level_message(level))), Some(level));
    }
}
