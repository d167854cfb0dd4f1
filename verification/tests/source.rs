use coreshift_core::reactor::Fd;
use coreshift_core::CoreError;
use utensil_bs::source::{DrainEvent, DrainStep, OpenEvent, OpenStep};
use utensil_bs::BatterySource;

/// A descriptor that can be told from others by the number it holds.
fn numbered(n: u32) -> Fd {
    Fd::eventfd(n).unwrap()
}

fn number(fd: &Fd) -> u64 {
    fd.read_u64().unwrap().unwrap()
}

fn error(code: i32) -> CoreError {
    CoreError::sys(code, "test")
}

#[test]
fn inotify_is_preferred() {
    let step = BatterySource::open(OpenStep::InitInotify, OpenEvent::Inotify(Ok(numbered(3))));
    assert!(matches!(step, OpenStep::AddWatches { .. }));
    let step = BatterySource::open(
        step,
        OpenEvent::Watched { capacity: Ok(1), status: Err(error(2)) },
    );
    match step {
        OpenStep::Opened(Ok(source)) => {
            assert_eq!(source.name(), "inotify");
            assert_eq!(number(source.fd()), 3);
        }
        _ => panic!("not opened"),
    }
}

#[test]
fn without_the_capacity_file_uevents_serve() {
    let step = OpenStep::AddWatches { fd: numbered(3) };
    let step = BatterySource::open(
        step,
        OpenEvent::Watched { capacity: Err(error(2)), status: Ok(2) },
    );
    assert!(matches!(step, OpenStep::OpenUevent));
    match BatterySource::open(step, OpenEvent::Uevent(Ok(numbered(4)))) {
        OpenStep::Opened(Ok(source)) => {
            assert_eq!(source.name(), "uevent");
            assert_eq!(number(source.fd()), 4);
        }
        _ => panic!("not opened"),
    }
}

#[test]
fn without_inotify_uevents_serve() {
    let step = BatterySource::open(OpenStep::InitInotify, OpenEvent::Inotify(Err(error(24))));
    assert!(matches!(step, OpenStep::OpenUevent));
    match BatterySource::open(step, OpenEvent::Uevent(Err(error(38)))) {
        OpenStep::Opened(Err(e)) => assert_eq!(e, error(38)),
        _ => panic!("opened"),
    }
}

#[test]
fn a_stray_outcome_of_opening_is_ignored() {
    let step = BatterySource::open(OpenStep::InitInotify, OpenEvent::Uevent(Ok(numbered(1))));
    assert!(matches!(step, OpenStep::InitInotify));
}

fn text(s: &str) -> DrainEvent {
    DrainEvent::Text(Some(s.to_string()))
}

#[test]
fn inotify_news_is_read_from_the_files() {
    let source = BatterySource::Inotify(numbered(1));
    let step = source.drain(DrainStep::Collect, DrainEvent::Collected);
    assert!(matches!(step, DrainStep::ReadLevel));
    let step = source.drain(step, text("64\n"));
    assert!(matches!(step, DrainStep::ReadStatus { level: 64 }));
    match source.drain(step, text("Charging\n")) {
        DrainStep::Done(Some((level, status))) => {
            assert_eq!(level, 64);
            assert_eq!(status, "Charging");
        }
        _ => panic!("no news"),
    }
}

#[test]
fn without_a_level_there_is_no_news() {
    let source = BatterySource::Inotify(numbered(1));
    let step = source.drain(DrainStep::ReadLevel, DrainEvent::Text(None));
    assert!(matches!(step, DrainStep::Done(None)));
}

#[test]
fn a_message_with_a_level_needs_no_capacity_file() {
    let source = BatterySource::Uevent(numbered(1));
    let message = DrainEvent::Message(Some((Some(12), "Full".to_string())));
    let step = source.drain(DrainStep::Collect, message);
    assert!(matches!(step, DrainStep::ReadStatus { level: 12 }));
    let step = source.drain(step, DrainEvent::Text(None));
    assert!(matches!(step, DrainStep::ReadProperty { level: 12 }));
    match source.drain(step, text("3")) {
        DrainStep::Done(Some((level, status))) => {
            assert_eq!(level, 12);
            assert_eq!(status, "Discharging");
        }
        _ => panic!("no news"),
    }
}

#[test]
fn a_message_without_a_level_asks_for_the_capacity_file() {
    let source = BatterySource::Uevent(numbered(1));
    let message = DrainEvent::Message(Some((None, "Full".to_string())));
    assert!(matches!(source.drain(DrainStep::Collect, message), DrainStep::ReadLevel));
}

#[test]
fn no_message_is_no_news() {
    let source = BatterySource::Uevent(numbered(1));
    let step = source.drain(DrainStep::Collect, DrainEvent::Message(None));
    assert!(matches!(step, DrainStep::Done(None)));
}
