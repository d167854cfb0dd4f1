use utensil_bs::text::{
    decimal_text, parse_i32, parse_u8, signed_decimal_text, text_eq, trim, IntError,
};

const SAMPLES: [&str; 12] = [
    "",
    " ",
    "\n",
    "42",
    " 42\n",
    "\t\r\n 7 \u{b}\u{c}",
    "a b",
    " \u{a0}x\u{3000}",
    "\u{2003}\u{2028}\u{205f}",
    "\u{200b}x\u{200b}",
    "\u{85}Full\u{1680}",
    "Not charging\n",
];

#[test]
fn trim_agrees_with_the_standard_library() {
    for s in SAMPLES {
        assert_eq!(trim(s), s.trim());
    }
}

#[test]
fn trim_knows_every_white_space_character() {
    for n in 0..0x11_0000u32 {
        if let Some(c) = char::from_u32(n) {
            let s = format!("{c}x{c}");
            assert_eq!(trim(&s) == "x", c.is_whitespace(), "{n:x}");
        }
    }
}

#[test]
fn trimming_twice_changes_nothing() {
    for s in SAMPLES {
        assert_eq!(trim(trim(s)), trim(s));
    }
}

#[test]
fn texts_are_compared_by_their_characters() {
    assert!(text_eq("", ""));
    assert!(text_eq("daemon", "daemon"));
    assert!(!text_eq("daemon", "daemons"));
    assert!(!text_eq("daemon", "Daemon"));
    assert!(text_eq("\u{e9}", "\u{e9}"));
    assert!(!text_eq("\u{e9}", "e\u{301}"));
}

#[test]
fn each_kind_of_bad_number_has_its_error() {
    assert_eq!(parse_i32(""), Err(IntError::Empty));
    assert_eq!(parse_i32("-"), Err(IntError::InvalidDigit));
    assert_eq!(parse_i32("+"), Err(IntError::InvalidDigit));
    assert_eq!(parse_i32("12x"), Err(IntError::InvalidDigit));
    assert_eq!(parse_i32(" 12"), Err(IntError::InvalidDigit));
    assert_eq!(parse_i32("2147483648"), Err(IntError::PosOverflow));
    assert_eq!(parse_i32("-2147483649"), Err(IntError::NegOverflow));
    assert_eq!(parse_u8("-0"), Err(IntError::InvalidDigit));
    assert_eq!(parse_u8("256"), Err(IntError::PosOverflow));
}

#[test]
fn good_numbers_are_read() {
    assert_eq!(parse_i32("2147483647"), Ok(2147483647));
    assert_eq!(parse_i32("-2147483648"), Ok(-2147483648));
    assert_eq!(parse_i32("+007"), Ok(7));
    assert_eq!(parse_u8("0"), Ok(0));
    assert_eq!(parse_u8("255"), Ok(255));
    assert_eq!(parse_u8("+100"), Ok(100));
}

#[test]
fn numbers_are_read_as_the_standard_library_reads_them() {
    let samples = [
        "", "+", "-", "--1", "+-1", "0", "00", "-0", "+0", "99", "100", "255", "256", "999",
        "999x", "99x", "x99", "25x6", "2147483647", "2147483648", "99999999999999999999",
        "99999999999999999999x", "-2147483648", "-2147483649", "-2147483649x", "-21474836x",
        "1_000", "\u{661}", "1\n", "0x10", "1e3", "1.0", "+2147483648",
    ];
    for s in samples {
        match (parse_i32(s), s.parse::<i32>()) {
            (Ok(a), Ok(b)) => assert_eq!(a, b, "{s}"),
            (Err(a), Err(b)) => assert_eq!(a.message(), b.to_string(), "{s}"),
            _ => panic!("{s}"),
        }
        match (parse_u8(s), s.parse::<u8>()) {
            (Ok(a), Ok(b)) => assert_eq!(a, b, "{s}"),
            (Err(a), Err(b)) => assert_eq!(a.message(), b.to_string(), "{s}"),
            _ => panic!("{s}"),
        }
    }
}

#[test]
fn numbers_are_written_in_decimal() {
    for n in [0u64, 7, 10, 99, 100, 4096, u64::MAX] {
        assert_eq!(decimal_text(n), n.to_string());
    }
    for n in [0i32, 1, -1, 10, -10, i32::MAX, i32::MIN] {
        assert_eq!(signed_decimal_text(n), n.to_string());
    }
}

#[test]
fn a_written_number_reads_back() {
    for n in [0i32, 1, -1, 31337, i32::MAX, i32::MIN] {
        assert_eq!(parse_i32(&signed_decimal_text(n)), Ok(n));
    }
    for n in 0..=255u8 {
        assert_eq!(parse_u8(&decimal_text(n as u64)), Ok(n));
    }
}
