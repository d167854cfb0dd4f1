use coreshift_core::reactor::Fd;
use coreshift_core::CoreError;
use utensil_bs::cmd_uevent_dump;
use utensil_bs::errors::CommandError;
use utensil_bs::uevent::{dump, uevent_fields, Dump, DumpEvent};

#[test]
fn zero_bytes_part_the_texts() {
    assert_eq!(uevent_fields(b"change@/x\0ACTION=change\0"), ["change@/x", "ACTION=change"]);
    assert_eq!(uevent_fields(b"\0\0a\0\0b"), ["a", "b"]);
    assert_eq!(uevent_fields(b"only"), ["only"]);
}

#[test]
fn empty_messages_have_no_texts() {
    assert!(uevent_fields(b"").is_empty());
    assert!(uevent_fields(b"\0\0").is_empty());
}

#[test]
fn parts_that_are_no_text_are_left_out() {
    assert_eq!(uevent_fields(b"a\0\xff\xfe\0\xc3\xa9\0\xc3\0\xed\xa0\x80\0b"), ["a", "\u{e9}", "b"]);
}

#[test]
fn texts_agree_with_the_standard_library() {
    let messages: [&[u8]; 5] = [
        b"add@/devices\0SUBSYSTEM=power_supply\0POWER_SUPPLY_CAPACITY=55\0",
        b"\0x\0\xf0\x9f\x94\x8b\0\xf0\x9f\x94\0",
        b"\xc0\x80\0\xe0\x80\x80\0\xf4\x90\x80\x80\0ok",
        b"libudev\0\xfe\xed\xca\xfe\0\0\0",
        b"\n\0 \0\t",
    ];
    for message in messages {
        let expected: Vec<&str> = message
            .split(|&b| b == 0)
            .filter_map(|s| std::str::from_utf8(s).ok())
            .filter(|s| !s.is_empty())
            .collect();
        assert_eq!(uevent_fields(message), expected);
    }
}

#[test]
fn the_parts_make_up_the_message() {
    let message = b"a=1\0b=2\0c=3";
    assert_eq!(uevent_fields(message).join("\0").as_bytes(), message);
}

#[test]
fn a_message_is_shown_under_its_length() {
    assert_eq!(dump(b"ab\0c"), ["--- uevent (4b) ---", "  ab", "  c"]);
    assert_eq!(dump(b""), ["--- uevent (0b) ---"]);
}

fn socket() -> Fd {
    Fd::eventfd(0).unwrap()
}

#[test]
fn messages_are_shown_one_after_the_other() {
    let state = cmd_uevent_dump(Dump::Open, DumpEvent::Opened(Ok(socket())));
    match &state {
        Dump::Announce { line, .. } => {
            assert_eq!(*line, "listening for uevents (Ctrl-C to stop)...")
        }
        _ => panic!("not announced"),
    }
    let state = cmd_uevent_dump(state, DumpEvent::Performed);
    assert!(matches!(state, Dump::Receive { .. }));
    let state = cmd_uevent_dump(state, DumpEvent::Received(None));
    assert!(matches!(state, Dump::Pause { millis: 10, .. }));
    let state = cmd_uevent_dump(state, DumpEvent::Performed);
    let state = cmd_uevent_dump(state, DumpEvent::Received(Some(b"x\0y".to_vec())));
    match &state {
        Dump::Print { lines, .. } => {
            assert_eq!(*lines, ["--- uevent (3b) ---", "  x", "  y"])
        }
        _ => panic!("not shown"),
    }
    assert!(matches!(cmd_uevent_dump(state, DumpEvent::Performed), Dump::Receive { .. }));
}

#[test]
fn a_socket_that_cannot_be_opened_ends_the_dump() {
    let error = CoreError::sys(38, "netlink");
    match cmd_uevent_dump(Dump::Open, DumpEvent::Opened(Err(error.clone()))) {
        Dump::Return(Err(CommandError::Core(e))) => assert_eq!(e, error),
        _ => panic!("not returned"),
    }
}
