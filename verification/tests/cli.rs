use coreshift_core::CoreError;
use utensil_bs::cli::{command, exit_code, restart, usage, Command, Restart, RestartEvent};
use utensil_bs::errors::CommandError;
use utensil_bs::text::IntError;

fn asked(words: &[&str]) -> Command {
    command(&words.iter().map(|w| w.to_string()).collect())
}

#[test]
fn every_command_has_its_word() {
    assert_eq!(asked(&["bs", "daemon"]), Command::Daemon);
    assert_eq!(asked(&["bs", "stop"]), Command::Stop);
    assert_eq!(asked(&["bs", "restart"]), Command::Restart);
    assert_eq!(asked(&["bs", "status"]), Command::Status);
    assert_eq!(asked(&["bs", "watch"]), Command::Watch);
    assert_eq!(asked(&["bs", "uevent-dump"]), Command::UeventDump);
}

#[test]
fn anything_else_asks_for_the_usage() {
    assert_eq!(asked(&[]), Command::Usage);
    assert_eq!(asked(&["bs"]), Command::Usage);
    assert_eq!(asked(&["bs", ""]), Command::Usage);
    assert_eq!(asked(&["bs", "Daemon"]), Command::Usage);
    assert_eq!(asked(&["bs", "--help", "stop"]), Command::Usage);
}

#[test]
fn further_words_are_ignored() {
    assert_eq!(asked(&["bs", "stop", "daemon"]), Command::Stop);
}

#[test]
fn the_usage_lists_the_commands() {
    let lines = usage();
    assert_eq!(lines.len(), 8);
    assert_eq!(lines[0], "Usage: utensil-bs <command>");
    assert_eq!(lines[7], "  uevent-dump  Dump raw kernel uevents (for debugging)");
}

#[test]
fn only_a_failure_exits_with_one() {
    assert_eq!(exit_code(&Ok(())), 0);
    assert_eq!(exit_code(&Err(CommandError::NotRunning)), 1);
}

#[test]
fn a_restart_waits_until_the_socket_is_gone() {
    let state = restart(Restart::Stop, RestartEvent::Performed);
    assert_eq!(state, Restart::Look);
    let state = restart(state, RestartEvent::Elapsed { nanos: 0 });
    assert_eq!(state, Restart::Probe);
    let state = restart(state, RestartEvent::Probed { connected: true });
    assert_eq!(state, Restart::Pause { millis: 100 });
    let state = restart(state, RestartEvent::Performed);
    assert_eq!(state, Restart::Look);
    let state = restart(state, RestartEvent::Elapsed { nanos: 2_999_999_999 });
    assert_eq!(state, Restart::Probe);
    let state = restart(state, RestartEvent::Probed { connected: false });
    assert_eq!(state, Restart::Start);
}

#[test]
fn a_restart_waits_three_seconds_at_most() {
    let state = restart(Restart::Look, RestartEvent::Elapsed { nanos: 3_000_000_000 });
    assert_eq!(state, Restart::Start);
}

#[test]
fn errors_have_words() {
    assert_eq!(CommandError::NotRunning.message(), Some("daemon not running"));
    assert_eq!(CommandError::InProgress.message(), Some("connection in progress"));
    assert_eq!(
        CommandError::Pid(IntError::Empty).message(),
        Some("cannot parse integer from empty string"),
    );
    assert_eq!(CommandError::Core(CoreError::sys(1, "test")).message(), None);
    assert_eq!(
        CommandError::Output(std::io::Error::from(std::io::ErrorKind::BrokenPipe)).message(),
        None,
    );
}
