//! The command line.

use crate::errors::CommandError;
use crate::text::text_eq;
use vstd::prelude::*;

verus! {

/// How long a stopped daemon may keep its socket, in nanoseconds.
pub const RESTART_LIMIT_NANOS: u128 = 3_000_000_000;

/// The pause between two looks at the socket, in milliseconds.
pub const RESTART_PAUSE_MILLIS: u64 = 100;

/// What the command line asks for.
#[derive(Clone, Copy, Debug, PartialEq, Eq, Structural)]
pub enum Command {
    /// Start the daemon.
    Daemon,
    /// Stop the daemon.
    Stop,
    /// Stop the daemon, then start it.
    Restart,
    /// Print the level once.
    Status,
    /// Print the level whenever it changes.
    Watch,
    /// Show raw uevents.
    UeventDump,
    /// Say how to use the program.
    Usage,
}

/// The command that a word names; anything unknown asks for the usage.
pub open spec fn named(word: Seq<char>) -> Command {
    if word == "daemon"@ {
        Command::Daemon
    } else if word == "stop"@ {
        Command::Stop
    } else if word == "restart"@ {
        Command::Restart
    } else if word == "status"@ {
        Command::Status
    } else if word == "watch"@ {
        Command::Watch
    } else if word == "uevent-dump"@ {
        Command::UeventDump
    } else {
        Command::Usage
    }
}

/// The command that the arguments ask for, of which the first is the program.
/// Whatever follows the second is ignored.
pub fn command(args: &Vec<String>) -> (r: Command)
    ensures
        r == (if args@.len() < 2 {
            Command::Usage
        } else {
            named(args@[1]@)
        }),
{
    if args.len() < 2 {
        return Command::Usage;
    }
    let word = args[1].as_str();
    if text_eq(word, "daemon") {
        Command::Daemon
    } else if text_eq(word, "stop") {
        Command::Stop
    } else if text_eq(word, "restart") {
        Command::Restart
    } else if text_eq(word, "status") {
        Command::Status
    } else if text_eq(word, "watch") {
        Command::Watch
    } else if text_eq(word, "uevent-dump") {
        Command::UeventDump
    } else {
        Command::Usage
    }
}

/// The lines that say how to use the program.
pub open spec fn usage_lines() -> Seq<Seq<char>> {
    seq![
        "Usage: utensil-bs <command>"@,
        "Commands:"@,
        "  daemon       Start the battery-status daemon (supervised, detached)"@,
        "  stop         Stop the running daemon"@,
        "  restart      Stop then start the daemon"@,
        "  status       Print current battery level"@,
        "  watch        Stream battery level changes to stdout"@,
        "  uevent-dump  Dump raw kernel uevents (for debugging)"@,
    ]
}

/// Says how to use the program, line by line.
pub fn usage() -> (r: Vec<&'static str>)
    ensures
        r@.map_values(|line: &'static str| line@) == usage_lines(),
{
    let mut r: Vec<&'static str> = Vec::new();
    r.push("Usage: utensil-bs <command>");
    r.push("Commands:");
    r.push("  daemon       Start the battery-status daemon (supervised, detached)");
    r.push("  stop         Stop the running daemon");
    r.push("  restart      Stop then start the daemon");
    r.push("  status       Print current battery level");
    r.push("  watch        Stream battery level changes to stdout");
    r.push("  uevent-dump  Dump raw kernel uevents (for debugging)");
    assert(r@.map_values(|line: &'static str| line@) =~= usage_lines());
    r
}

/// The exit code of the program: 1 where a command failed, else 0.
pub fn exit_code(result: &Result<(), CommandError>) -> (r: i32)
    ensures
        r == (if *result is Err {
            1int
        } else {
            0int
        }),
{
    match result {
        Ok(_) => 0,
        Err(_) => 1,
    }
}

/// The next call of a restart. It starts with [`Restart::Stop`].
#[derive(Clone, Copy, Debug, PartialEq, Eq, Structural)]
pub enum Restart {
    /// Stop the daemon, then start a clock.
    Stop,
    /// Look at the clock.
    Look,
    /// Try to connect to the socket of the daemon.
    Probe,
    /// Sleep.
    Pause { millis: u64 },
    /// Start the daemon.
    Start,
}

/// The outcome of a call of a restart.
#[derive(Clone, Copy, Debug, PartialEq, Eq, Structural)]
pub enum RestartEvent {
    /// Of [`Restart::Look`].
    Elapsed { nanos: u128 },
    /// Of [`Restart::Probe`]: whether the socket answers.
    Probed { connected: bool },
    /// Of a call whose outcome does not matter.
    Performed,
}

/// Where the outcome `event` leads from `state`. An outcome that does not belong
/// to the state changes nothing.
pub open spec fn restart_next(state: Restart, event: RestartEvent) -> Restart {
    match (state, event) {
        (Restart::Stop, RestartEvent::Performed) => Restart::Look,
        (Restart::Look, RestartEvent::Elapsed { nanos }) => if nanos < RESTART_LIMIT_NANOS {
            Restart::Probe
        } else {
            Restart::Start
        },
        (Restart::Probe, RestartEvent::Probed { connected }) => if connected {
            Restart::Pause { millis: RESTART_PAUSE_MILLIS }
        } else {
            Restart::Start
        },
        (Restart::Pause { .. }, RestartEvent::Performed) => Restart::Look,
        _ => state,
    }
}

/// Takes the outcome of one call of a restart to the next call.
pub fn restart(state: Restart, event: RestartEvent) -> (r: Restart)
    ensures
        r == restart_next(state, event),
{
    match (state, event) {
        (Restart::Stop, RestartEvent::Performed) => Restart::Look,
        (Restart::Look, RestartEvent::Elapsed { nanos }) => if nanos < RESTART_LIMIT_NANOS {
            Restart::Probe
        } else {
            Restart::Start
        },
        (Restart::Probe, RestartEvent::Probed { connected }) => if connected {
            Restart::Pause { millis: RESTART_PAUSE_MILLIS }
        } else {
            Restart::Start
        },
        (Restart::Pause { .. }, RestartEvent::Performed) => Restart::Look,
        (state, _) => state,
    }
}

/// A restart starts the daemon only after stopping it: once its socket does not
/// answer any more, or after three seconds.
pub proof fn law_restart_waits_for_the_socket(state: Restart, event: RestartEvent)
    ensures
        state !is Start && restart_next(state, event) is Start ==> {
            ||| state is Probe && event == (RestartEvent::Probed { connected: false })
            ||| state is Look && (event matches RestartEvent::Elapsed { nanos } && nanos
                >= RESTART_LIMIT_NANOS)
        },
        restart_next(Restart::Stop, event) is Stop || restart_next(Restart::Stop, event) is Look,
{
}

/// The six words of the usage name six different commands, and nothing else names
/// one of these.
pub proof fn law_words_name_commands(word: Seq<char>, other: Seq<char>)
    ensures
        named("daemon"@) == Command::Daemon,
        named("stop"@) == Command::Stop,
        named("restart"@) == Command::Restart,
        named("status"@) == Command::Status,
        named("watch"@) == Command::Watch,
        named("uevent-dump"@) == Command::UeventDump,
        named(word) == named(other) && named(word) != Command::Usage ==> word == other,
{
    reveal_strlit("daemon");
    reveal_strlit("stop");
    reveal_strlit("restart");
    reveal_strlit("status");
    reveal_strlit("watch");
    reveal_strlit("uevent-dump");
    assert("daemon"@[0] == 'd');
    assert("stop"@[2] == 'o');
    assert("restart"@[0] == 'r');
    assert("status"@[2] == 'a');
    assert("watch"@[0] == 'w');
    assert("uevent-dump"@[0] == 'u');
    assert("stop"@[0] == 's' && "status"@[0] == 's');
}

/// The usage is these lines.
pub proof fn law_the_usage_lists_every_command()
    ensures
        usage_lines().len() == 8,
        usage_lines()[0] == "Usage: utensil-bs <command>"@,
        usage_lines()[1] == "Commands:"@,
        usage_lines()[2] == "  daemon       Start the battery-status daemon (supervised, detached)"@,
        usage_lines()[3] == "  stop         Stop the running daemon"@,
        usage_lines()[4] == "  restart      Stop then start the daemon"@,
        usage_lines()[5] == "  status       Print current battery level"@,
        usage_lines()[6] == "  watch        Stream battery level changes to stdout"@,
        usage_lines()[7] == "  uevent-dump  Dump raw kernel uevents (for debugging)"@,
{
}

/// Where the outcomes `events`, one after the other, lead from `state`.
pub open spec fn restart_run(state: Restart, events: Seq<RestartEvent>) -> Restart
    decreases events.len(),
{
    if events.len() == 0 {
        state
    } else {
        restart_run(restart_next(state, events.first()), events.drop_first())
    }
}

/// The outcomes of the calls while the socket goes on answering: at each of the
/// `times` a look at the clock, a try that is answered, and a pause.
pub open spec fn answered_events(times: Seq<u128>) -> Seq<RestartEvent>
    decreases times.len(),
{
    if times.len() == 0 {
        Seq::empty()
    } else {
        seq![
            RestartEvent::Elapsed { nanos: times.first() },
            RestartEvent::Probed { connected: true },
            RestartEvent::Performed,
        ] + answered_events(times.drop_first())
    }
}

/// A restart stops the daemon, then tries its socket every tenth of a second, as
/// long as it answers and three seconds are not over; the first time that it does
/// not answer, or that they are over, the daemon is started.
pub proof fn law_a_whole_restart(times: Seq<u128>, nanos: u128)
    requires
        forall|i: int| 0 <= i < times.len() ==> #[trigger] times[i] < 3_000_000_000,
    ensures
        restart_next(Restart::Stop, RestartEvent::Performed) is Look,
        restart_run(Restart::Look, answered_events(times)) is Look,
        nanos < 3_000_000_000 <==> restart_next(
            Restart::Look,
            RestartEvent::Elapsed { nanos },
        ) is Probe,
        nanos >= 3_000_000_000 <==> restart_next(
            Restart::Look,
            RestartEvent::Elapsed { nanos },
        ) is Start,
        restart_next(Restart::Probe, RestartEvent::Probed { connected: true }) == (Restart::Pause {
            millis: 100,
        }),
        restart_next(Restart::Probe, RestartEvent::Probed { connected: false }) is Start,
    decreases times.len(),
{
    if times.len() > 0 {
        let events = answered_events(times);
        let rest = answered_events(times.drop_first());
        assert forall|i: int| 0 <= i < times.drop_first().len() implies
            #[trigger] times.drop_first()[i] < 3_000_000_000 by {
            assert(times.drop_first()[i] == times[i + 1]);
        }
        law_a_whole_restart(times.drop_first(), nanos);
        let e1 = events.drop_first();
        let e2 = e1.drop_first();
        assert(e2.drop_first() =~= rest);
        assert(times[0] < 3_000_000_000);
        let pause = Restart::Pause { millis: 100 };
        assert(restart_run(Restart::Look, events) == restart_run(Restart::Probe, e1));
        assert(restart_run(Restart::Probe, e1) == restart_run(pause, e2));
        assert(restart_run(pause, e2) == restart_run(Restart::Look, rest));
    }
}

/// An outcome of another call than the one that was due changes nothing.
pub proof fn law_stray_outcomes_leave_the_restart_alone(state: Restart, event: RestartEvent)
    requires
        !((state is Stop || state is Pause) && event is Performed),
        !(state is Look && event is Elapsed),
        !(state is Probe && event is Probed),
    ensures
        restart_next(state, event) == state,
{
}

} // verus!
