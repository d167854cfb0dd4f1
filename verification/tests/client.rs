use coreshift_core::reactor::Fd;
use coreshift_core::unix_socket::UnixStreamFd;
use coreshift_core::CoreError;
use utensil_bs::client::{ClientEvent, Connection, Status, Stop, StopEvent, Watch};
use utensil_bs::errors::CommandError;
use utensil_bs::text::IntError;
use utensil_bs::{cmd_status, cmd_stop, cmd_watch, connect, connect_as_consumer};

fn stream(n: u32) -> UnixStreamFd {
    UnixStreamFd { fd: Fd::eventfd(n).unwrap() }
}

fn error() -> CoreError {
    CoreError::sys(111, "connect")
}

fn broken_pipe() -> std::io::Error {
    std::io::Error::from(std::io::ErrorKind::BrokenPipe)
}

#[test]
fn a_connection_that_stands_gives_its_stream() {
    let s = connect(Ok(Connection::Connected(stream(5)))).ok().unwrap();
    assert_eq!(s.fd.read_u64().unwrap(), Some(5));
    let s = connect_as_consumer(Ok(Connection::Connected(stream(6)))).ok().unwrap();
    assert_eq!(s.fd.read_u64().unwrap(), Some(6));
}

#[test]
fn a_connection_in_progress_is_an_error() {
    assert!(matches!(
        connect(Ok(Connection::InProgress(stream(0)))),
        Err(CommandError::InProgress),
    ));
    assert!(matches!(
        connect_as_consumer(Ok(Connection::InProgress(stream(0)))),
        Err(CommandError::InProgress),
    ));
}

#[test]
fn a_refused_connection_is_an_error() {
    match connect(Err(error())) {
        Err(CommandError::Core(e)) => assert_eq!(e, error()),
        _ => panic!("connected"),
    }
}

#[test]
fn nobody_to_watch_is_said_so() {
    let dialed = [Err(error()), Ok(Connection::InProgress(stream(0)))];
    for d in dialed {
        assert!(matches!(
            cmd_watch(Watch::Connect, ClientEvent::Dialed(d)),
            Watch::Return(Err(CommandError::NotRunning)),
        ));
    }
}

fn waiting() -> Watch {
    let dialed = Ok(Connection::Connected(stream(0)));
    let state = cmd_watch(Watch::Connect, ClientEvent::Dialed(dialed));
    let state = cmd_watch(state, ClientEvent::Opened(Ok(())));
    let state = cmd_watch(state, ClientEvent::Registered(Ok(4)));
    assert!(matches!(state, Watch::Wait { token: 4, .. }));
    state
}

#[test]
fn watching_prints_what_is_sent() {
    let mut state = waiting();
    let mut printed = Vec::new();
    for chunk in ["50\n", "49\n", "48\n47\n"] {
        state = cmd_watch(state, ClientEvent::Woken(Ok(vec![4])));
        assert!(matches!(state, Watch::Read { left: 0, .. }));
        let bytes = chunk.as_bytes().to_vec();
        state = cmd_watch(state, ClientEvent::Received(Ok(Some(bytes))));
        match &state {
            Watch::Print { bytes, .. } => printed.extend_from_slice(bytes),
            _ => panic!("not printed"),
        }
        state = cmd_watch(state, ClientEvent::Printed(Ok(())));
        assert!(matches!(state, Watch::Wait { .. }));
    }
    assert_eq!(printed, b"50\n49\n48\n47\n");
}

#[test]
fn each_own_event_is_read_once() {
    let state = cmd_watch(waiting(), ClientEvent::Woken(Ok(vec![3, 4, 9, 4])));
    assert!(matches!(state, Watch::Read { left: 1, .. }));
    let state = cmd_watch(state, ClientEvent::Received(Ok(Some(vec![1]))));
    let state = cmd_watch(state, ClientEvent::Printed(Ok(())));
    assert!(matches!(state, Watch::Read { left: 0, .. }));
}

#[test]
fn events_of_others_are_ignored() {
    let state = cmd_watch(waiting(), ClientEvent::Woken(Ok(vec![3, 9])));
    assert!(matches!(state, Watch::Wait { .. }));
    let state = cmd_watch(state, ClientEvent::Woken(Ok(vec![])));
    assert!(matches!(state, Watch::Wait { .. }));
}

#[test]
fn the_end_of_the_stream_ends_watching() {
    for received in [None, Some(vec![])] {
        let state = cmd_watch(waiting(), ClientEvent::Woken(Ok(vec![4])));
        let state = cmd_watch(state, ClientEvent::Received(Ok(received)));
        assert!(matches!(state, Watch::Return(Ok(()))));
    }
}

#[test]
fn errors_end_watching() {
    let failed = [
        cmd_watch(Watch::OpenReactor { stream: stream(0) }, ClientEvent::Opened(Err(error()))),
        cmd_watch(Watch::Register { stream: stream(0) }, ClientEvent::Registered(Err(error()))),
        cmd_watch(waiting(), ClientEvent::Woken(Err(error()))),
        cmd_watch(
            Watch::Read { stream: stream(0), token: 4, left: 0 },
            ClientEvent::Received(Err(error())),
        ),
    ];
    for state in failed {
        match state {
            Watch::Return(Err(CommandError::Core(e))) => assert_eq!(e, error()),
            _ => panic!("no error"),
        }
    }
    let print = Watch::Print { stream: stream(0), token: 4, left: 0, bytes: vec![1] };
    assert!(matches!(
        cmd_watch(print, ClientEvent::Printed(Err(broken_pipe()))),
        Watch::Return(Err(CommandError::Output(_))),
    ));
}

fn asking() -> Status {
    let dialed = Ok(Connection::Connected(stream(0)));
    cmd_status(Status::Connect, ClientEvent::Dialed(dialed))
}

#[test]
fn the_status_is_what_is_sent() {
    let state = cmd_status(asking(), ClientEvent::Received(Ok(Some(b"73\n".to_vec()))));
    match &state {
        Status::Print(bytes) => assert_eq!(bytes, b"73\n"),
        _ => panic!("not printed"),
    }
    let state = cmd_status(state, ClientEvent::Printed(Ok(())));
    assert!(matches!(state, Status::Return(Ok(()))));
}

#[test]
fn no_data_is_said_so() {
    for received in [None, Some(vec![])] {
        let state = cmd_status(asking(), ClientEvent::Received(Ok(received)));
        match &state {
            Status::Report(line) => assert_eq!(*line, "no data"),
            _ => panic!("not reported"),
        }
        let state = cmd_status(state, ClientEvent::Performed);
        assert!(matches!(state, Status::Return(Ok(()))));
    }
}

#[test]
fn errors_end_asking() {
    assert!(matches!(
        cmd_status(Status::Connect, ClientEvent::Dialed(Err(error()))),
        Status::Return(Err(CommandError::NotRunning)),
    ));
    assert!(matches!(
        cmd_status(asking(), ClientEvent::Received(Err(error()))),
        Status::Return(Err(CommandError::Core(_))),
    ));
    assert!(matches!(
        cmd_status(Status::Print(vec![1]), ClientEvent::Printed(Err(broken_pipe()))),
        Status::Return(Err(CommandError::Output(_))),
    ));
}

#[test]
fn without_a_pid_file_nothing_is_stopped() {
    let state = cmd_stop(Stop::ReadPid, StopEvent::Contents(None));
    match &state {
        Stop::Report(line) => assert_eq!(*line, "daemon not running (no PID file)"),
        _ => panic!("not reported"),
    }
    assert!(matches!(cmd_stop(state, StopEvent::Performed), Stop::Return(Ok(()))));
}

#[test]
fn a_bad_pid_file_is_an_error() {
    let cases = [
        ("", IntError::Empty),
        (" \n", IntError::Empty),
        ("12 34", IntError::InvalidDigit),
        ("99999999999", IntError::PosOverflow),
        ("-99999999999", IntError::NegOverflow),
    ];
    for (text, expected) in cases {
        match cmd_stop(Stop::ReadPid, StopEvent::Contents(Some(text.to_string()))) {
            Stop::Return(Err(CommandError::Pid(e))) => assert_eq!(e, expected),
            _ => panic!("no error"),
        }
    }
}

#[test]
fn stopping_waits_for_the_pid_file_to_go() {
    let state = cmd_stop(Stop::ReadPid, StopEvent::Contents(Some(" 812\n".to_string())));
    assert!(matches!(state, Stop::Terminate { pid: 812 }));
    let state = cmd_stop(state, StopEvent::Performed);
    let state = cmd_stop(state, StopEvent::Looked { present: true, nanos: 2_999_999_999 });
    assert!(matches!(state, Stop::Pause { millis: 100 }));
    let state = cmd_stop(state, StopEvent::Performed);
    let state = cmd_stop(state, StopEvent::Looked { present: false, nanos: 0 });
    assert!(matches!(state, Stop::LookAgain));
    match cmd_stop(state, StopEvent::LookedAgain { present: false }) {
        Stop::Report(line) => assert_eq!(line, "daemon stopped"),
        _ => panic!("not reported"),
    }
}

#[test]
fn stopping_gives_up_after_three_seconds() {
    let state = cmd_stop(Stop::Look, StopEvent::Looked { present: true, nanos: 3_000_000_000 });
    assert!(matches!(state, Stop::LookAgain));
    match cmd_stop(state, StopEvent::LookedAgain { present: true }) {
        Stop::Report(line) => {
            assert_eq!(line, "warning: PID file still exists after SIGTERM")
        }
        _ => panic!("not reported"),
    }
}
