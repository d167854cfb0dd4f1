use coreshift_core::signal::SIGTERM;
use coreshift_core::CoreError;
use utensil_bs::client::{Stop, StopEvent};
use utensil_bs::errors::CommandError;
use utensil_bs::supervisor::{Ended, Fork, Supervision, SupervisionEvent, TERM_SIGNAL};
use utensil_bs::{cmd_stop, run_supervisor};

const SECOND: u128 = 1_000_000_000;

fn error() -> CoreError {
    CoreError::sys(11, "fork")
}

fn run(mut state: Supervision, outcomes: Vec<SupervisionEvent>) -> Supervision {
    for outcome in outcomes {
        state = run_supervisor(state, outcome);
    }
    state
}

/// One life of the daemon, up to the look at the crash window.
fn life(state: Supervision, ended: Ended) -> Supervision {
    run(
        state,
        vec![
            SupervisionEvent::Forked(Ok(Fork::Parent(77))),
            SupervisionEvent::Performed,
            SupervisionEvent::Ended(Ok(ended)),
            SupervisionEvent::Performed,
        ],
    )
}

#[test]
fn a_running_daemon_is_not_started_again() {
    let state = run_supervisor(Supervision::Probe, SupervisionEvent::Probed(true));
    match &state {
        Supervision::Report(line) => assert_eq!(*line, "daemon already running"),
        _ => panic!("not reported"),
    }
    let state = run_supervisor(state, SupervisionEvent::Performed);
    assert!(matches!(state, Supervision::Return(Ok(()))));
}

#[test]
fn the_first_process_waits_until_the_daemon_answers() {
    let state = run(
        Supervision::Probe,
        vec![
            SupervisionEvent::Probed(false),
            SupervisionEvent::Performed,
            SupervisionEvent::Forked(Ok(Fork::Parent(5))),
        ],
    );
    assert!(matches!(state, Supervision::ReapSession { pid: 5 }));
    let state = run_supervisor(state, SupervisionEvent::Performed);
    let poll = |connected, nanos| SupervisionEvent::Polled { connected, nanos };
    let state = run_supervisor(state, poll(false, 10 * SECOND));
    assert!(matches!(state, Supervision::Pause { millis: 100 }));
    let state = run_supervisor(state, SupervisionEvent::Performed);
    assert!(matches!(
        run_supervisor(state, poll(true, 11 * SECOND)),
        Supervision::Return(Ok(())),
    ));
    match run_supervisor(Supervision::AwaitReady, poll(false, 10 * SECOND + 1)) {
        Supervision::Report(line) => assert_eq!(line, "warning: daemon start timed out"),
        _ => panic!("no warning"),
    }
}

#[test]
fn the_supervisor_detaches() {
    let state = run(
        Supervision::ForkSession,
        vec![
            SupervisionEvent::Forked(Ok(Fork::Child)),
            SupervisionEvent::Performed,
            SupervisionEvent::Forked(Ok(Fork::Child)),
            SupervisionEvent::Performed,
        ],
    );
    assert!(matches!(state, Supervision::ForkDaemon { crashes: 0 }));
    let state = run_supervisor(
        Supervision::ForkSupervisor,
        SupervisionEvent::Forked(Ok(Fork::Parent(6))),
    );
    assert!(matches!(state, Supervision::Exit(0)));
}

#[test]
fn a_fork_that_fails_is_an_error() {
    let states = [
        Supervision::ForkSession,
        Supervision::ForkSupervisor,
        Supervision::ForkDaemon { crashes: 3 },
    ];
    for state in states {
        match run_supervisor(state, SupervisionEvent::Forked(Err(error()))) {
            Supervision::Return(Err(CommandError::Core(e))) => assert_eq!(e, error()),
            _ => panic!("no error"),
        }
    }
}

#[test]
fn the_child_becomes_the_daemon() {
    let state = run_supervisor(
        Supervision::ForkDaemon { crashes: 2 },
        SupervisionEvent::Forked(Ok(Fork::Child)),
    );
    assert!(matches!(state, Supervision::RunDaemon));
    assert!(matches!(
        run_supervisor(state, SupervisionEvent::Performed),
        Supervision::Exit(0),
    ));
}

#[test]
fn the_recorded_process_is_the_one_that_is_stopped() {
    for pid in [1, 4711, i32::MAX] {
        let state = run_supervisor(
            Supervision::ForkDaemon { crashes: 0 },
            SupervisionEvent::Forked(Ok(Fork::Parent(pid))),
        );
        match state {
            Supervision::RecordPid { text, pid: recorded, .. } => {
                assert_eq!(text, pid.to_string());
                assert_eq!(recorded, pid);
                match cmd_stop(Stop::ReadPid, StopEvent::Contents(Some(text))) {
                    Stop::Terminate { pid: stopped } => assert_eq!(stopped, pid),
                    _ => panic!("not terminated"),
                }
            }
            _ => panic!("not recorded"),
        }
    }
}

#[test]
fn a_daemon_that_means_to_end_is_not_restarted() {
    let state = life(Supervision::ForkDaemon { crashes: 4 }, Ended::Exited(0));
    assert!(matches!(state, Supervision::Exit(0)));
}

#[test]
fn five_quick_crashes_are_too_many() {
    let mut state = Supervision::ForkDaemon { crashes: 0 };
    for count in 1..5 {
        state = life(state, Ended::Signaled(11));
        state = run_supervisor(state, SupervisionEvent::Elapsed { nanos: 10 * SECOND });
        match &state {
            Supervision::Backoff { crashes, millis } => {
                assert_eq!(*crashes, count);
                assert_eq!(*millis, 500 * count);
            }
            _ => panic!("no pause"),
        }
        state = run_supervisor(state, SupervisionEvent::Performed);
    }
    state = life(state, Ended::Exited(1));
    state = run_supervisor(state, SupervisionEvent::Elapsed { nanos: 10 * SECOND });
    assert!(matches!(state, Supervision::Exit(1)));
}

#[test]
fn slow_crashes_never_add_up() {
    let mut state = Supervision::ForkDaemon { crashes: 4 };
    for _ in 0..20 {
        state = life(state, Ended::Exited(101));
        state = run_supervisor(state, SupervisionEvent::Elapsed { nanos: 10 * SECOND + 1 });
        assert!(matches!(state, Supervision::RestartWindow));
        state = run_supervisor(state, SupervisionEvent::Performed);
        assert!(matches!(state, Supervision::Backoff { crashes: 1, millis: 500 }));
        state = run_supervisor(state, SupervisionEvent::Performed);
        assert!(matches!(state, Supervision::ForkDaemon { crashes: 1 }));
    }
}

#[test]
fn an_end_that_cannot_be_known_is_a_crash() {
    let state = run(
        Supervision::AwaitDaemon { crashes: 0, pid: 1 },
        vec![SupervisionEvent::Ended(Err(error())), SupervisionEvent::Performed],
    );
    assert!(matches!(state, Supervision::MeasureWindow { crashes: 0 }));
}

#[test]
fn a_stopped_daemon_is_not_started_again() {
    assert_eq!(TERM_SIGNAL, SIGTERM);
    for crashes in 0..5 {
        let state = run_supervisor(
            Supervision::ForkDaemon { crashes },
            SupervisionEvent::Forked(Ok(Fork::Parent(812))),
        );
        let text = match &state {
            Supervision::RecordPid { text, .. } => text.clone(),
            _ => panic!("not recorded"),
        };
        assert!(matches!(
            cmd_stop(Stop::ReadPid, StopEvent::Contents(Some(text))),
            Stop::Terminate { pid: 812 },
        ));
        let state = run(
            state,
            vec![
                SupervisionEvent::Performed,
                SupervisionEvent::Ended(Ok(Ended::Signaled(15))),
            ],
        );
        assert!(matches!(state, Supervision::ForgetPid { clean: true, .. }));
        let state = run(
            state,
            vec![
                SupervisionEvent::Performed,
                SupervisionEvent::Elapsed { nanos: 0 },
                SupervisionEvent::Performed,
                SupervisionEvent::Forked(Ok(Fork::Parent(813))),
            ],
        );
        assert!(matches!(state, Supervision::Exit(0)));
    }
}

#[test]
fn any_other_signal_is_a_crash() {
    for signal in [1, 2, 6, 9, 11, 14, 16] {
        let state = life(Supervision::ForkDaemon { crashes: 0 }, Ended::Signaled(signal));
        assert!(matches!(state, Supervision::MeasureWindow { crashes: 0 }));
    }
}
