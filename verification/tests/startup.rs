use coreshift_core::reactor::Fd;
use coreshift_core::CoreError;
use utensil_bs::daemon::Feed;
use utensil_bs::source::{OpenEvent, OpenStep};
use utensil_bs::startup::{exit_code, start_daemon, Startup, StartupEvent};
use utensil_bs::supervisor::{Ended, Supervision, SupervisionEvent};
use utensil_bs::{run_supervisor, BatterySource};

fn fd() -> Fd {
    Fd::eventfd(0).unwrap()
}

fn error() -> CoreError {
    CoreError::sys(13, "test")
}

fn source() -> Feed {
    Feed::Source(BatterySource::Uevent(fd()))
}

fn text(s: &str) -> StartupEvent {
    StartupEvent::Text(Some(s.to_string()))
}

fn run(mut state: Startup, outcomes: Vec<StartupEvent>) -> Startup {
    for outcome in outcomes {
        state = start_daemon(state, outcome);
    }
    state
}

fn exit_reason(state: Startup) -> &'static str {
    match state {
        Startup::Exit { what, error: e } => {
            assert_eq!(e, error());
            what
        }
        _ => panic!("no exit"),
    }
}

fn panic_reason(state: Startup) -> &'static str {
    match state {
        Startup::Panic { what, error: e } => {
            assert_eq!(e, error());
            what
        }
        _ => panic!("no panic"),
    }
}

#[test]
fn a_daemon_on_a_source_comes_up() {
    let state = run(
        Startup::OpenSource(OpenStep::InitInotify),
        vec![
            StartupEvent::Open(OpenEvent::Inotify(Ok(fd()))),
            StartupEvent::Open(OpenEvent::Watched { capacity: Ok(1), status: Ok(2) }),
            StartupEvent::Done(Ok(())),
            StartupEvent::Done(Ok(())),
            StartupEvent::Registered(Ok(1)),
            StartupEvent::Registered(Ok(2)),
            text("90\n"),
            text("Full\n"),
        ],
    );
    match &state {
        Startup::Publish { status, .. } => assert_eq!(status, "Full"),
        _ => panic!("not published"),
    }
    match start_daemon(state, StartupEvent::Performed) {
        Startup::Ready { daemon } => {
            assert_eq!(daemon.source_token, 1);
            assert_eq!(daemon.listener_token, 2);
            assert_eq!(daemon.last_level, Some(90));
            assert!(daemon.watchers.is_empty());
            assert!(matches!(daemon.feed, Feed::Source(BatterySource::Inotify(_))));
        }
        _ => panic!("not ready"),
    }
}

#[test]
fn without_the_status_file_the_property_is_published() {
    let state = run(
        Startup::ReadLevel { feed: source(), source_token: 1, listener_token: 2 },
        vec![StartupEvent::Text(None), StartupEvent::Text(None), text("2")],
    );
    match state {
        Startup::Publish { daemon, status } => {
            assert_eq!(status, "Charging");
            assert_eq!(daemon.last_level, None);
        }
        _ => panic!("not published"),
    }
}

#[test]
fn a_daemon_on_messages_comes_up() {
    let state = run(
        Startup::OpenReactor { opened: None },
        vec![
            StartupEvent::Done(Ok(())),
            StartupEvent::Messages(Ok(fd())),
            StartupEvent::Done(Ok(())),
            StartupEvent::Registered(Ok(1)),
            StartupEvent::Registered(Ok(2)),
            text("17\n"),
        ],
    );
    assert!(matches!(state, Startup::ReadProperty { .. }));
    match run(state, vec![StartupEvent::Text(None), StartupEvent::Performed]) {
        Startup::Ready { daemon } => {
            assert_eq!(daemon.last_level, Some(17));
            assert!(matches!(daemon.feed, Feed::Messages(_)));
        }
        _ => panic!("not ready"),
    }
}

#[test]
fn what_cannot_be_opened_ends_the_daemon() {
    let state = run(
        Startup::OpenSource(OpenStep::OpenUevent),
        vec![StartupEvent::Open(OpenEvent::Uevent(Err(error())))],
    );
    assert_eq!(exit_reason(state), "battery source");
    let state = run(
        Startup::OpenReactor { opened: Some(source()) },
        vec![StartupEvent::Done(Err(error()))],
    );
    assert_eq!(exit_reason(state), "reactor");
    let state = run(Startup::OpenMessages, vec![StartupEvent::Messages(Err(error()))]);
    assert_eq!(exit_reason(state), "netlink uevent");
    let state = run(Startup::Bind { feed: source() }, vec![StartupEvent::Done(Err(error()))]);
    assert_eq!(exit_reason(state), "bind @coreshift_batterystats");
}

#[test]
fn what_cannot_be_registered_panics() {
    let failed = || vec![StartupEvent::Registered(Err(error()))];
    let state = run(Startup::AddSource { feed: source() }, failed());
    assert_eq!(panic_reason(state), "add source");
    let state = run(Startup::AddSource { feed: Feed::Messages(fd()) }, failed());
    assert_eq!(panic_reason(state), "add uevent");
    let state = run(Startup::AddListener { feed: source(), source_token: 1 }, failed());
    assert_eq!(panic_reason(state), "add listener");
}

#[test]
fn a_failed_start_exits_with_one_and_counts_as_a_crash() {
    let failed = run(Startup::OpenMessages, vec![StartupEvent::Messages(Err(error()))]);
    let code = exit_code(&failed);
    assert_eq!(code, Some(1));
    let state = run_supervisor(
        Supervision::AwaitDaemon { crashes: 0, pid: 1 },
        SupervisionEvent::Ended(Ok(Ended::Exited(code.unwrap()))),
    );
    assert!(matches!(state, Supervision::ForgetPid { clean: false, .. }));
    let bind = Startup::Bind { feed: source() };
    assert_eq!(exit_code(&bind), None);
    let panicked = run(
        Startup::AddSource { feed: source() },
        vec![StartupEvent::Registered(Err(error()))],
    );
    assert_eq!(exit_code(&panicked), None);
}
