use coreshift_core::reactor::Fd;
use coreshift_core::unix_socket::UnixStreamFd;
use coreshift_core::CoreError;
use std::collections::HashMap;
use utensil_bs::client::{ClientEvent, Status};
use utensil_bs::daemon::{recipients, Daemon, DaemonEvent, Feed, Phase, Ready};
use utensil_bs::source::{DrainEvent, DrainStep};
use utensil_bs::{broadcast, cmd_status, read_level, run_daemon, BatterySource};

const SOURCE: u64 = 1;
const LISTENER: u64 = 2;

/// A stream that can be told from others by the number it holds.
fn stream(n: u32) -> UnixStreamFd {
    UnixStreamFd { fd: Fd::eventfd(n).unwrap() }
}

fn numbers(streams: &[UnixStreamFd]) -> Vec<u64> {
    streams.iter().map(|s| s.fd.read_u64().unwrap().unwrap()).collect()
}

fn error() -> CoreError {
    CoreError::sys(32, "write")
}

fn daemon(feed: Feed, last_level: Option<u8>, tokens: &[u64]) -> Daemon {
    let mut watchers = HashMap::new();
    for &token in tokens {
        watchers.insert(token, stream(token as u32));
    }
    Daemon { feed, source_token: SOURCE, listener_token: LISTENER, last_level, watchers }
}

fn on_files(last_level: Option<u8>, tokens: &[u64]) -> Daemon {
    let source = BatterySource::Inotify(Fd::eventfd(0).unwrap());
    daemon(Feed::Source(source), last_level, tokens)
}

fn on_messages(last_level: Option<u8>, tokens: &[u64]) -> Daemon {
    daemon(Feed::Messages(Fd::eventfd(0).unwrap()), last_level, tokens)
}

fn tokens(daemon: &Daemon) -> Vec<u64> {
    let mut all = recipients(&daemon.watchers);
    all.sort();
    all
}

fn ready(token: u64) -> Ready {
    Ready { token, hangup: false, error: false }
}

fn text(s: &str) -> DaemonEvent {
    DaemonEvent::Text(Some(s.to_string()))
}

#[test]
fn a_failed_or_empty_wait_is_repeated() {
    let mut d = on_files(None, &[7]);
    let phase = run_daemon(&mut d, Phase::Wait, DaemonEvent::Woken(Err(error())));
    assert!(matches!(phase, Phase::Wait));
    let phase = run_daemon(&mut d, phase, DaemonEvent::Woken(Ok(vec![])));
    assert!(matches!(phase, Phase::Wait));
    assert_eq!(tokens(&d), [7]);
}

#[test]
fn consumers_that_are_gone_leave() {
    let mut d = on_files(None, &[7, 8, 9]);
    let events = vec![
        Ready { token: 8, hangup: true, error: false },
        ready(7),
        Ready { token: 9, hangup: false, error: true },
        Ready { token: 8, hangup: true, error: true },
        Ready { token: 55, hangup: true, error: false },
    ];
    match run_daemon(&mut d, Phase::Wait, DaemonEvent::Woken(Ok(events))) {
        Phase::Dismiss { streams, source, accept } => {
            assert_eq!(numbers(&streams), [8, 9]);
            assert!(!source);
            assert!(!accept);
        }
        _ => panic!("not dismissed"),
    }
    assert_eq!(tokens(&d), [7]);
}

#[test]
fn the_feed_and_the_listener_never_count_as_gone() {
    let mut d = on_files(None, &[7]);
    let events = vec![
        Ready { token: LISTENER, hangup: true, error: true },
        Ready { token: SOURCE, hangup: true, error: true },
    ];
    match run_daemon(&mut d, Phase::Wait, DaemonEvent::Woken(Ok(events))) {
        Phase::Dismiss { streams, source, accept } => {
            assert!(streams.is_empty());
            assert!(source);
            assert!(accept);
        }
        _ => panic!("not dismissed"),
    }
}

#[test]
fn a_new_level_goes_to_every_consumer() {
    let mut d = on_files(Some(50), &[7, 8]);
    let phase = Phase::Dismiss { streams: vec![], source: true, accept: false };
    let phase = run_daemon(&mut d, phase, DaemonEvent::Performed);
    assert!(matches!(phase, Phase::Drain { step: DrainStep::Collect, accept: false }));
    let phase = run_daemon(&mut d, phase, DaemonEvent::Drain(DrainEvent::Collected));
    let level = DrainEvent::Text(Some("51\n".to_string()));
    let phase = run_daemon(&mut d, phase, DaemonEvent::Drain(level));
    let status = DrainEvent::Text(Some("Charging\n".to_string()));
    let phase = run_daemon(&mut d, phase, DaemonEvent::Drain(status));
    match &phase {
        Phase::Publish { status, level, .. } => {
            assert_eq!(status, "Charging");
            assert_eq!(*level, Some(51));
        }
        _ => panic!("not published"),
    }
    assert_eq!(d.last_level, Some(50));
    let phase = run_daemon(&mut d, phase, DaemonEvent::Performed);
    assert_eq!(d.last_level, Some(51));
    match &phase {
        Phase::Send { message, to, .. } => {
            assert_eq!(message, "51\n");
            let mut to = to.clone();
            to.sort();
            assert_eq!(to, [7, 8]);
        }
        _ => panic!("not sent"),
    }
    let outcomes = vec![(7, Ok(None)), (8, Err(error()))];
    let phase = run_daemon(&mut d, phase, DaemonEvent::Sent(outcomes));
    match &phase {
        Phase::Discard { streams, .. } => assert_eq!(numbers(streams), [8]),
        _ => panic!("not discarded"),
    }
    assert_eq!(tokens(&d), [7]);
    assert!(matches!(run_daemon(&mut d, phase, DaemonEvent::Performed), Phase::Wait));
}

#[test]
fn a_level_heard_of_again_is_not_sent() {
    let mut d = on_files(Some(51), &[7]);
    let phase = Phase::Publish { status: "Full".to_string(), level: Some(51), accept: true };
    assert!(matches!(run_daemon(&mut d, phase, DaemonEvent::Performed), Phase::Accept));
    assert_eq!(d.last_level, Some(51));
}

#[test]
fn no_news_publishes_nothing() {
    let mut d = on_files(Some(51), &[]);
    let phase = Phase::Drain { step: DrainStep::ReadLevel, accept: false };
    let phase = run_daemon(&mut d, phase, DaemonEvent::Drain(DrainEvent::Text(None)));
    assert!(matches!(phase, Phase::Wait));
}

#[test]
fn a_message_publishes_its_own_charge_state() {
    let mut d = on_messages(Some(51), &[7]);
    let phase = Phase::Dismiss { streams: vec![], source: true, accept: true };
    let phase = run_daemon(&mut d, phase, DaemonEvent::Performed);
    assert!(matches!(phase, Phase::DrainMessages { accept: true }));
    let message = Some((None, "Discharging".to_string()));
    let phase = run_daemon(&mut d, phase, DaemonEvent::Message(message));
    match &phase {
        Phase::Publish { status, level, .. } => {
            assert_eq!(status, "Discharging");
            assert_eq!(*level, None);
        }
        _ => panic!("not published"),
    }
    let phase = run_daemon(&mut d, phase, DaemonEvent::Performed);
    assert!(matches!(phase, Phase::FetchLevel { accept: true }));
    let phase = run_daemon(&mut d, phase, text("49\n"));
    match &phase {
        Phase::Send { message, to, .. } => {
            assert_eq!(message, "49\n");
            assert_eq!(*to, [7]);
        }
        _ => panic!("not sent"),
    }
}

#[test]
fn a_message_without_any_level_is_only_published() {
    let mut d = on_messages(Some(51), &[7]);
    let phase = Phase::FetchLevel { accept: false };
    assert!(matches!(run_daemon(&mut d, phase, DaemonEvent::Text(None)), Phase::Wait));
    assert_eq!(d.last_level, Some(51));
}

#[test]
fn a_queue_without_a_message_is_no_news() {
    let mut d = on_messages(Some(51), &[7]);
    let phase = Phase::DrainMessages { accept: false };
    assert!(matches!(run_daemon(&mut d, phase, DaemonEvent::Message(None)), Phase::Wait));
}

#[test]
fn a_consumer_is_greeted_with_the_last_level() {
    let mut d = on_files(Some(33), &[7]);
    let accepted = DaemonEvent::Accepted(Ok(Some(stream(9))));
    let phase = run_daemon(&mut d, Phase::Accept, accepted);
    match &phase {
        Phase::Greet { message, .. } => assert_eq!(message, "33\n"),
        _ => panic!("not greeted"),
    }
    let phase = run_daemon(&mut d, phase, DaemonEvent::Greeted(Ok(Some(3))));
    assert!(matches!(phase, Phase::Register { .. }));
    assert_eq!(tokens(&d), [7]);
    let phase = run_daemon(&mut d, phase, DaemonEvent::Registered(Ok(9)));
    assert!(matches!(phase, Phase::Accept));
    assert_eq!(tokens(&d), [7, 9]);
    assert_eq!(d.watchers[&9].fd.read_u64().unwrap(), Some(9));
    let phase = run_daemon(&mut d, phase, DaemonEvent::Accepted(Ok(None)));
    assert!(matches!(phase, Phase::Wait));
}

#[test]
fn before_any_level_the_greeting_reads_the_file() {
    let mut d = on_files(None, &[]);
    let accepted = DaemonEvent::Accepted(Ok(Some(stream(9))));
    let phase = run_daemon(&mut d, Phase::Accept, accepted);
    assert!(matches!(phase, Phase::FallbackLevel { .. }));
    match run_daemon(&mut d, phase, text("12")) {
        Phase::Greet { message, .. } => assert_eq!(message, "12\n"),
        _ => panic!("not greeted"),
    }
    assert_eq!(d.last_level, None);
    let phase = Phase::FallbackLevel { stream: stream(9) };
    match run_daemon(&mut d, phase, DaemonEvent::Text(None)) {
        Phase::Greet { message, .. } => assert_eq!(message, "0\n"),
        _ => panic!("not greeted"),
    }
}

#[test]
fn a_consumer_that_cannot_be_greeted_does_not_join() {
    let mut d = on_files(Some(33), &[]);
    let phase = Phase::Greet { stream: stream(9), message: "33\n".to_string() };
    let phase = run_daemon(&mut d, phase, DaemonEvent::Greeted(Err(error())));
    assert!(matches!(phase, Phase::Accept));
    let phase = Phase::Register { stream: stream(9) };
    let phase = run_daemon(&mut d, phase, DaemonEvent::Registered(Err(error())));
    assert!(matches!(phase, Phase::Accept));
    assert!(tokens(&d).is_empty());
}

#[test]
fn failing_to_accept_ends_accepting() {
    let mut d = on_files(Some(33), &[]);
    let phase = run_daemon(&mut d, Phase::Accept, DaemonEvent::Accepted(Err(error())));
    assert!(matches!(phase, Phase::Wait));
}

#[test]
fn a_broadcast_drops_whom_it_cannot_reach() {
    let mut d = on_files(None, &[3, 4, 5]);
    let outcomes = vec![
        (5, Err(error())),
        (3, Ok(Some(3))),
        (4, Ok(None)),
        (6, Err(error())),
        (5, Err(error())),
    ];
    let streams = broadcast(&mut d.watchers, &outcomes);
    assert_eq!(numbers(&streams), [5]);
    assert_eq!(tokens(&d), [3, 4]);
}

#[test]
fn nobody_is_lost_on_the_way() {
    let mut d = on_files(None, &[3, 4, 5, 6]);
    let outcomes = vec![(4, Err(error())), (6, Err(error())), (9, Err(error()))];
    let streams = broadcast(&mut d.watchers, &outcomes);
    assert_eq!(streams.len() + d.watchers.len(), 4);
}

#[test]
fn a_stray_outcome_of_the_daemon_is_ignored() {
    let mut d = on_files(Some(1), &[3]);
    let phase = run_daemon(&mut d, Phase::Wait, DaemonEvent::Performed);
    assert!(matches!(phase, Phase::Wait));
    assert_eq!(tokens(&d), [3]);
}

#[test]
fn one_wakeup_serves_everybody() {
    let mut d = on_files(Some(80), &[7, 8]);
    let events = vec![
        ready(LISTENER),
        Ready { token: 7, hangup: true, error: false },
        ready(SOURCE),
    ];
    let outcomes = vec![
        DaemonEvent::Woken(Ok(events)),
        DaemonEvent::Performed,
        DaemonEvent::Drain(DrainEvent::Collected),
        DaemonEvent::Drain(DrainEvent::Text(Some("79\n".to_string()))),
        DaemonEvent::Drain(DrainEvent::Text(Some("Discharging\n".to_string()))),
        DaemonEvent::Performed,
        DaemonEvent::Sent(vec![(8, Ok(Some(3)))]),
        DaemonEvent::Performed,
        DaemonEvent::Accepted(Ok(Some(stream(9)))),
        DaemonEvent::Greeted(Ok(Some(3))),
        DaemonEvent::Registered(Ok(9)),
        DaemonEvent::Accepted(Ok(Some(stream(10)))),
        DaemonEvent::Greeted(Err(error())),
        DaemonEvent::Accepted(Ok(None)),
    ];
    let mut phase = Phase::Wait;
    for outcome in outcomes {
        phase = run_daemon(&mut d, phase, outcome);
    }
    assert!(matches!(phase, Phase::Wait));
    assert_eq!(d.last_level, Some(79));
    assert_eq!(tokens(&d), [8, 9]);
}

#[test]
fn a_caller_learns_the_level() {
    for level in [0, 9, 42, 100, 255] {
        let mut d = on_files(Some(level), &[]);
        let accepted = DaemonEvent::Accepted(Ok(Some(stream(1))));
        let message = match run_daemon(&mut d, Phase::Accept, accepted) {
            Phase::Greet { message, .. } => message,
            _ => panic!("not greeted"),
        };
        let received = ClientEvent::Received(Ok(Some(message.into_bytes())));
        match cmd_status(Status::Read { stream: stream(2) }, received) {
            Status::Print(bytes) => {
                let text = String::from_utf8(bytes).unwrap();
                assert_eq!(read_level(Some(text.as_str())), Some(level));
            }
            _ => panic!("not printed"),
        }
    }
}

/// Brings the news of a level, and gives the message and to whom it goes, if it
/// goes out.
fn news(d: &mut Daemon, level: u8) -> (Phase, Option<(String, Vec<u64>)>) {
    let publish = Phase::Publish { status: String::new(), level: Some(level), accept: false };
    let phase = run_daemon(d, publish, DaemonEvent::Performed);
    let sent = match &phase {
        Phase::Send { message, to, .. } => {
            let mut to = to.clone();
            to.sort();
            Some((message.clone(), to))
        }
        _ => None,
    };
    (phase, sent)
}

#[test]
fn who_failed_once_is_not_written_to_again() {
    let mut d = on_files(None, &[3, 4, 5]);
    let (phase, sent) = news(&mut d, 50);
    assert_eq!(sent.unwrap().1, [3, 4, 5]);
    let outcomes = vec![(5, Ok(None)), (4, Err(error())), (3, Ok(Some(3)))];
    run_daemon(&mut d, phase, DaemonEvent::Sent(outcomes));
    let (phase, sent) = news(&mut d, 49);
    assert_eq!(sent.unwrap(), ("49\n".to_string(), vec![3, 5]));
    run_daemon(&mut d, phase, DaemonEvent::Sent(vec![(3, Err(error())), (5, Ok(Some(3)))]));
    let (_, sent) = news(&mut d, 48);
    assert_eq!(sent.unwrap().1, [5]);
}

/// All that is written to a caller: its greeting, then the news of each level.
fn life(last_level: Option<u8>, file: &str, levels: &[u8]) -> Vec<String> {
    let mut d = on_files(last_level, &[]);
    let accepted = DaemonEvent::Accepted(Ok(Some(stream(9))));
    let mut phase = run_daemon(&mut d, Phase::Accept, accepted);
    if let Phase::FallbackLevel { .. } = phase {
        phase = run_daemon(&mut d, phase, text(file));
    }
    let mut written = match &phase {
        Phase::Greet { message, .. } => vec![message.clone()],
        _ => panic!("not greeted"),
    };
    phase = run_daemon(&mut d, phase, DaemonEvent::Greeted(Ok(Some(3))));
    run_daemon(&mut d, phase, DaemonEvent::Registered(Ok(9)));
    for &level in levels {
        let (phase, sent) = news(&mut d, level);
        if let Some((message, to)) = sent {
            assert_eq!(to, [9]);
            written.push(message);
            run_daemon(&mut d, phase, DaemonEvent::Sent(vec![(9, Ok(Some(3)))]));
        }
    }
    written
}

#[test]
fn a_consumer_never_hears_the_same_twice_in_a_row() {
    let levels = [50, 50, 51, 51, 50, 49, 49];
    assert_eq!(life(Some(50), "", &levels), ["50\n", "51\n", "50\n", "49\n"]);
    assert_eq!(life(None, "7", &levels), ["7\n", "50\n", "51\n", "50\n", "49\n"]);
}

#[test]
fn a_greeting_from_the_file_may_be_repeated_once() {
    assert_eq!(life(None, "50", &[50, 50, 51]), ["50\n", "50\n", "51\n"]);
}
