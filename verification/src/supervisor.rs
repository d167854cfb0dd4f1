//! The supervisor: it detaches from the terminal, keeps a daemon process alive
//! until it is stopped, and gives up when the daemon crashes too often.
//!
//! A [`Supervision`] names the call to make next; [`run_supervisor`] takes its
//! outcome to the next one. Three processes follow it: the one that was started,
//! the supervisor itself, and the daemon.

use crate::client::law_stop_signals_the_recorded_process;
use crate::client::stop_next;
use crate::client::StopEventView;
use crate::client::StopView;
use crate::errors::CommandError;
use crate::text::signed_decimal;
use crate::text::signed_decimal_text;
use coreshift_core::CoreError;
use vstd::prelude::*;

verus! {

/// How long a started daemon may take to answer, in nanoseconds.
pub const READY_LIMIT_NANOS: u128 = 10_000_000_000;

/// The pause between two looks at whether the daemon answers, in milliseconds.
pub const READY_PAUSE_MILLIS: u64 = 100;

/// How long crashes are counted together, in nanoseconds.
pub const CRASH_WINDOW_NANOS: u128 = 10_000_000_000;

/// The number of crashes in one window at which the supervisor gives up.
pub const CRASH_LIMIT: u64 = 5;

/// The pause before the next try, in milliseconds for each counted crash.
pub const CRASH_PAUSE_MILLIS: u64 = 500;

/// `SIGTERM`, the signal that tells the daemon to stop.
pub const TERM_SIGNAL: i32 = 15;

/// The next call of the supervisor. It starts with [`Supervision::Probe`].
pub enum Supervision {
    /// Try to connect to the socket of the daemon.
    Probe,
    /// Print the line and return.
    Report(&'static str),
    /// Create the data directory.
    PrepareDirectory,
    /// Fork the process that leads the new session.
    ForkSession,
    /// Wait for that process to end, then start a clock.
    ReapSession { pid: i32 },
    /// Try to connect to the socket of the daemon, and look at the clock.
    AwaitReady,
    /// Sleep.
    Pause { millis: u64 },
    /// Return.
    Return(Result<(), CommandError>),
    /// Start a session and a process group of one's own.
    LeadSession,
    /// Fork the supervisor.
    ForkSupervisor,
    /// Point the standard streams to `/dev/null`, and open the crash window.
    Detach,
    /// Fork the daemon. `crashes` were counted in this window.
    ForkDaemon { crashes: u64 },
    /// Write the text to the PID file.
    RecordPid { crashes: u64, pid: i32, text: String },
    /// Wait for the daemon to end.
    AwaitDaemon { crashes: u64, pid: i32 },
    /// Remove the PID file. `clean` says that the daemon was meant to end.
    ForgetPid { crashes: u64, clean: bool },
    /// Look how long the crash window is open.
    MeasureWindow { crashes: u64 },
    /// Open the crash window anew.
    RestartWindow,
    /// Sleep before the next try.
    Backoff { crashes: u64, millis: u64 },
    /// Set the process up as the daemon, and run that.
    RunDaemon,
    /// End the process.
    Exit(i32),
}

/// A [`Supervision`] with its texts as characters.
#[verifier::ext_equal]
pub enum SupervisionView {
    Probe,
    Report(Seq<char>),
    PrepareDirectory,
    ForkSession,
    ReapSession { pid: i32 },
    AwaitReady,
    Pause { millis: u64 },
    Return(Result<(), CommandError>),
    LeadSession,
    ForkSupervisor,
    Detach,
    ForkDaemon { crashes: u64 },
    RecordPid { crashes: u64, pid: i32, text: Seq<char> },
    AwaitDaemon { crashes: u64, pid: i32 },
    ForgetPid { crashes: u64, clean: bool },
    MeasureWindow { crashes: u64 },
    RestartWindow,
    Backoff { crashes: u64, millis: u64 },
    RunDaemon,
    Exit(i32),
}

impl View for Supervision {
    type V = SupervisionView;

    open spec fn view(&self) -> SupervisionView {
        match *self {
            Supervision::Probe => SupervisionView::Probe,
            Supervision::Report(line) => SupervisionView::Report(line@),
            Supervision::PrepareDirectory => SupervisionView::PrepareDirectory,
            Supervision::ForkSession => SupervisionView::ForkSession,
            Supervision::ReapSession { pid } => SupervisionView::ReapSession { pid },
            Supervision::AwaitReady => SupervisionView::AwaitReady,
            Supervision::Pause { millis } => SupervisionView::Pause { millis },
            Supervision::Return(r) => SupervisionView::Return(r),
            Supervision::LeadSession => SupervisionView::LeadSession,
            Supervision::ForkSupervisor => SupervisionView::ForkSupervisor,
            Supervision::Detach => SupervisionView::Detach,
            Supervision::ForkDaemon { crashes } => SupervisionView::ForkDaemon { crashes },
            Supervision::RecordPid { crashes, pid, text } => SupervisionView::RecordPid {
                crashes,
                pid,
                text: text@,
            },
            Supervision::AwaitDaemon { crashes, pid } => SupervisionView::AwaitDaemon {
                crashes,
                pid,
            },
            Supervision::ForgetPid { crashes, clean } => SupervisionView::ForgetPid {
                crashes,
                clean,
            },
            Supervision::MeasureWindow { crashes } => SupervisionView::MeasureWindow { crashes },
            Supervision::RestartWindow => SupervisionView::RestartWindow,
            Supervision::Backoff { crashes, millis } => SupervisionView::Backoff {
                crashes,
                millis,
            },
            Supervision::RunDaemon => SupervisionView::RunDaemon,
            Supervision::Exit(code) => SupervisionView::Exit(code),
        }
    }
}

/// On which side of a fork the process is.
#[derive(Clone, Copy, Debug, PartialEq, Eq, Structural)]
pub enum Fork {
    /// It is the parent of the process with this PID.
    Parent(i32),
    /// It is the new process.
    Child,
}

/// How a process ended.
#[derive(Clone, Copy, Debug, PartialEq, Eq, Structural)]
pub enum Ended {
    /// By itself, with this code.
    Exited(i32),
    /// By this signal.
    Signaled(i32),
}

/// The daemon was meant to end: it ended by itself with 0, or it was told to stop.
pub open spec fn meant(ended: Result<Ended, CoreError>) -> bool {
    ended == Ok::<Ended, CoreError>(Ended::Exited(0)) || ended == Ok::<Ended, CoreError>(
        Ended::Signaled(TERM_SIGNAL),
    )
}

/// The outcome of a call of the supervisor.
pub enum SupervisionEvent {
    /// Of [`Supervision::Probe`]: whether the socket answers.
    Probed(bool),
    /// Of [`Supervision::AwaitReady`]: whether the socket answers, and the clock.
    Polled { connected: bool, nanos: u128 },
    /// Of a fork.
    Forked(Result<Fork, CoreError>),
    /// Of [`Supervision::AwaitDaemon`].
    Ended(Result<Ended, CoreError>),
    /// Of [`Supervision::MeasureWindow`].
    Elapsed { nanos: u128 },
    /// Of a call whose outcome does not matter.
    Performed,
}

/// Where the outcome `event` leads from `state`. An outcome that does not belong
/// to the state changes nothing.
pub open spec fn supervisor_next(
    state: SupervisionView,
    event: SupervisionEvent,
) -> SupervisionView {
    match (state, event) {
        (SupervisionView::Probe, SupervisionEvent::Probed(connected)) => if connected {
            SupervisionView::Report("daemon already running"@)
        } else {
            SupervisionView::PrepareDirectory
        },
        (SupervisionView::Report(_), SupervisionEvent::Performed) => SupervisionView::Return(Ok(())),
        (SupervisionView::PrepareDirectory, SupervisionEvent::Performed) =>
            SupervisionView::ForkSession,
        (SupervisionView::ForkSession, SupervisionEvent::Forked(forked)) => match forked {
            Ok(Fork::Parent(pid)) => SupervisionView::ReapSession { pid },
            Ok(Fork::Child) => SupervisionView::LeadSession,
            Err(e) => SupervisionView::Return(Err(CommandError::Core(e))),
        },
        (SupervisionView::ReapSession { .. }, SupervisionEvent::Performed) =>
            SupervisionView::AwaitReady,
        (SupervisionView::AwaitReady, SupervisionEvent::Polled { connected, nanos }) =>
            if connected {
                SupervisionView::Return(Ok(()))
            } else if nanos > READY_LIMIT_NANOS {
                SupervisionView::Report("warning: daemon start timed out"@)
            } else {
                SupervisionView::Pause { millis: READY_PAUSE_MILLIS }
            },
        (SupervisionView::Pause { .. }, SupervisionEvent::Performed) => SupervisionView::AwaitReady,
        (SupervisionView::LeadSession, SupervisionEvent::Performed) =>
            SupervisionView::ForkSupervisor,
        (SupervisionView::ForkSupervisor, SupervisionEvent::Forked(forked)) => match forked {
            Ok(Fork::Parent(_)) => SupervisionView::Exit(0),
            Ok(Fork::Child) => SupervisionView::Detach,
            Err(e) => SupervisionView::Return(Err(CommandError::Core(e))),
        },
        (SupervisionView::Detach, SupervisionEvent::Performed) => SupervisionView::ForkDaemon {
            crashes: 0,
        },
        (SupervisionView::ForkDaemon { crashes }, SupervisionEvent::Forked(forked)) =>
            match forked {
                Ok(Fork::Parent(pid)) => SupervisionView::RecordPid {
                    crashes,
                    pid,
                    text: signed_decimal(pid as int),
                },
                Ok(Fork::Child) => SupervisionView::RunDaemon,
                Err(e) => SupervisionView::Return(Err(CommandError::Core(e))),
            },
        (SupervisionView::RecordPid { crashes, pid, .. }, SupervisionEvent::Performed) =>
            SupervisionView::AwaitDaemon { crashes, pid },
        (SupervisionView::AwaitDaemon { crashes, .. }, SupervisionEvent::Ended(ended)) =>
            SupervisionView::ForgetPid { crashes, clean: meant(ended) },
        (SupervisionView::ForgetPid { crashes, clean }, SupervisionEvent::Performed) => if clean {
            SupervisionView::Exit(0)
        } else {
            SupervisionView::MeasureWindow { crashes }
        },
        (SupervisionView::MeasureWindow { crashes }, SupervisionEvent::Elapsed { nanos }) =>
            if nanos > CRASH_WINDOW_NANOS {
                SupervisionView::RestartWindow
            } else if crashes + 1 >= CRASH_LIMIT {
                SupervisionView::Exit(1)
            } else {
                SupervisionView::Backoff {
                    crashes: (crashes + 1) as u64,
                    millis: (CRASH_PAUSE_MILLIS * (crashes + 1)) as u64,
                }
            },
        (SupervisionView::RestartWindow, SupervisionEvent::Performed) => SupervisionView::Backoff {
            crashes: 1,
            millis: CRASH_PAUSE_MILLIS,
        },
        (SupervisionView::Backoff { crashes, .. }, SupervisionEvent::Performed) =>
            SupervisionView::ForkDaemon { crashes },
        (SupervisionView::RunDaemon, SupervisionEvent::Performed) => SupervisionView::Exit(0),
        _ => state,
    }
}

impl SupervisionView {
    /// The crashes counted so far stay below the limit, and the pause before the
    /// next try goes by their number.
    pub open spec fn wf(self) -> bool {
        match self {
            SupervisionView::ForkDaemon { crashes } => crashes < CRASH_LIMIT,
            SupervisionView::RecordPid { crashes, .. } => crashes < CRASH_LIMIT,
            SupervisionView::AwaitDaemon { crashes, .. } => crashes < CRASH_LIMIT,
            SupervisionView::ForgetPid { crashes, .. } => crashes < CRASH_LIMIT,
            SupervisionView::MeasureWindow { crashes } => crashes < CRASH_LIMIT,
            SupervisionView::Backoff { crashes, millis } => 1 <= crashes < CRASH_LIMIT && millis
                == CRASH_PAUSE_MILLIS * crashes,
            _ => true,
        }
    }
}

/// Takes the outcome of one call of the supervisor to its next call.
pub fn run_supervisor(state: Supervision, event: SupervisionEvent) -> (r: Supervision)
    requires
        state@.wf(),
    ensures
        r@ == supervisor_next(state@, event),
        r@.wf(),
{
    match (state, event) {
        (Supervision::Probe, SupervisionEvent::Probed(connected)) => if connected {
            Supervision::Report("daemon already running")
        } else {
            Supervision::PrepareDirectory
        },
        (Supervision::Report(_), SupervisionEvent::Performed) => Supervision::Return(Ok(())),
        (Supervision::PrepareDirectory, SupervisionEvent::Performed) => Supervision::ForkSession,
        (Supervision::ForkSession, SupervisionEvent::Forked(forked)) => match forked {
            Ok(Fork::Parent(pid)) => Supervision::ReapSession { pid },
            Ok(Fork::Child) => Supervision::LeadSession,
            Err(e) => Supervision::Return(Err(CommandError::Core(e))),
        },
        (Supervision::ReapSession { .. }, SupervisionEvent::Performed) => Supervision::AwaitReady,
        (Supervision::AwaitReady, SupervisionEvent::Polled { connected, nanos }) => if connected {
            Supervision::Return(Ok(()))
        } else if nanos > READY_LIMIT_NANOS {
            Supervision::Report("warning: daemon start timed out")
        } else {
            Supervision::Pause { millis: READY_PAUSE_MILLIS }
        },
        (Supervision::Pause { .. }, SupervisionEvent::Performed) => Supervision::AwaitReady,
        (Supervision::LeadSession, SupervisionEvent::Performed) => Supervision::ForkSupervisor,
        (Supervision::ForkSupervisor, SupervisionEvent::Forked(forked)) => match forked {
            Ok(Fork::Parent(_)) => Supervision::Exit(0),
            Ok(Fork::Child) => Supervision::Detach,
            Err(e) => Supervision::Return(Err(CommandError::Core(e))),
        },
        (Supervision::Detach, SupervisionEvent::Performed) => Supervision::ForkDaemon {
            crashes: 0,
        },
        (Supervision::ForkDaemon { crashes }, SupervisionEvent::Forked(forked)) => match forked {
            Ok(Fork::Parent(pid)) => {
                let text = signed_decimal_text(pid);
                Supervision::RecordPid { crashes, pid, text }
            },
            Ok(Fork::Child) => Supervision::RunDaemon,
            Err(e) => Supervision::Return(Err(CommandError::Core(e))),
        },
        (Supervision::RecordPid { crashes, pid, .. }, SupervisionEvent::Performed) =>
            Supervision::AwaitDaemon { crashes, pid },
        (Supervision::AwaitDaemon { crashes, .. }, SupervisionEvent::Ended(ended)) => {
            let clean = match ended {
                Ok(Ended::Exited(code)) => code == 0,
                Ok(Ended::Signaled(signal)) => signal == TERM_SIGNAL,
                Err(_) => false,
            };
            Supervision::ForgetPid { crashes, clean }
        },
        (Supervision::ForgetPid { crashes, clean }, SupervisionEvent::Performed) => if clean {
            Supervision::Exit(0)
        } else {
            Supervision::MeasureWindow { crashes }
        },
        (Supervision::MeasureWindow { crashes }, SupervisionEvent::Elapsed { nanos }) => if nanos
            > CRASH_WINDOW_NANOS {
            Supervision::RestartWindow
        } else if crashes + 1 >= CRASH_LIMIT {
            Supervision::Exit(1)
        } else {
            Supervision::Backoff { crashes: crashes + 1, millis: CRASH_PAUSE_MILLIS * (crashes + 1) }
        },
        (Supervision::RestartWindow, SupervisionEvent::Performed) => Supervision::Backoff {
            crashes: 1,
            millis: CRASH_PAUSE_MILLIS,
        },
        (Supervision::Backoff { crashes, .. }, SupervisionEvent::Performed) =>
            Supervision::ForkDaemon { crashes },
        (Supervision::RunDaemon, SupervisionEvent::Performed) => Supervision::Exit(0),
        (state, _) => state,
    }
}

/// Where the outcomes `events`, one after the other, lead from `state`.
pub open spec fn supervisor_run(
    state: SupervisionView,
    events: Seq<SupervisionEvent>,
) -> SupervisionView
    decreases events.len(),
{
    if events.len() == 0 {
        state
    } else {
        supervisor_run(supervisor_next(state, events.first()), events.drop_first())
    }
}

proof fn lemma_supervisor_runs_on(
    state: SupervisionView,
    first: Seq<SupervisionEvent>,
    rest: Seq<SupervisionEvent>,
)
    ensures
        supervisor_run(state, first + rest) == supervisor_run(supervisor_run(state, first), rest),
    decreases first.len(),
{
    if first.len() == 0 {
        assert(first + rest =~= rest);
    } else {
        assert((first + rest).first() == first.first());
        assert((first + rest).drop_first() =~= first.drop_first() + rest);
        lemma_supervisor_runs_on(
            supervisor_next(state, first.first()),
            first.drop_first(),
            rest,
        );
    }
}

/// No outcome makes the counted crashes reach the limit without an end.
pub proof fn law_the_count_stays_below_the_limit(state: SupervisionView, event: SupervisionEvent)
    requires
        state.wf(),
    ensures
        supervisor_next(state, event).wf(),
{
}

/// A life of the daemon: its process, how it ended, and how long the crash
/// window was open then, in nanoseconds.
pub struct Life {
    pub pid: i32,
    pub ended: Result<Ended, CoreError>,
    pub nanos: u128,
}

impl Life {
    /// The daemon was not meant to end.
    pub open spec fn crashed(self) -> bool {
        !meant(self.ended)
    }
}

/// The outcomes of the calls that one life of the daemon takes, up to the next.
pub open spec fn life_events(life: Life) -> Seq<SupervisionEvent> {
    let lived = seq![
        SupervisionEvent::Forked(Ok(Fork::Parent(life.pid))),
        SupervisionEvent::Performed,
        SupervisionEvent::Ended(life.ended),
        SupervisionEvent::Performed,
    ];
    if !life.crashed() {
        lived
    } else if life.nanos > CRASH_WINDOW_NANOS {
        lived + seq![
            SupervisionEvent::Elapsed { nanos: life.nanos },
            SupervisionEvent::Performed,
            SupervisionEvent::Performed,
        ]
    } else {
        lived + seq![
            SupervisionEvent::Elapsed { nanos: life.nanos },
            SupervisionEvent::Performed,
        ]
    }
}

/// The outcomes of the calls that lives of the daemon take, one after the other.
pub open spec fn lives_events(lives: Seq<Life>) -> Seq<SupervisionEvent>
    decreases lives.len(),
{
    if lives.len() == 0 {
        Seq::empty()
    } else {
        lives_events(lives.drop_last()) + life_events(lives.last())
    }
}

/// The crashes since the crash window was last opened anew, that crash included.
pub open spec fn counted(lives: Seq<Life>) -> nat
    decreases lives.len(),
{
    if lives.len() == 0 {
        0
    } else if lives.last().nanos > CRASH_WINDOW_NANOS {
        1
    } else {
        counted(lives.drop_last()) + 1
    }
}

proof fn lemma_life(crashes: u64, life: Life)
    requires
        crashes < CRASH_LIMIT,
    ensures
        supervisor_run(SupervisionView::ForkDaemon { crashes }, life_events(life)) == (
        if !life.crashed() {
            SupervisionView::Exit(0)
        } else if life.nanos > CRASH_WINDOW_NANOS {
            SupervisionView::ForkDaemon { crashes: 1 }
        } else if crashes + 1 >= CRASH_LIMIT {
            SupervisionView::Exit(1)
        } else {
            SupervisionView::ForkDaemon { crashes: (crashes + 1) as u64 }
        }),
{
    reveal_with_fuel(supervisor_run, 8);
}

/// A daemon that crashes is started again, as long as fewer than five crashes
/// are counted together; with the fifth the supervisor ends with 1.
pub proof fn law_five_crashes_end_the_supervisor(lives: Seq<Life>)
    requires
        forall|i: int| 0 <= i < lives.len() ==> (#[trigger] lives[i]).crashed(),
        forall|n: int| 0 <= n < lives.len() ==> counted(#[trigger] lives.take(n)) < CRASH_LIMIT,
    ensures
        supervisor_run(SupervisionView::ForkDaemon { crashes: 0 }, lives_events(lives)) == (
        if counted(lives) < CRASH_LIMIT {
            SupervisionView::ForkDaemon { crashes: counted(lives) as u64 }
        } else {
            SupervisionView::Exit(1)
        }),
        counted(lives) <= CRASH_LIMIT,
    decreases lives.len(),
{
    if lives.len() > 0 {
        let before = lives.drop_last();
        assert(before =~= lives.take(lives.len() - 1));
        assert forall|n: int| 0 <= n < before.len() implies counted(#[trigger] before.take(n))
            < CRASH_LIMIT by {
            assert(before.take(n) =~= lives.take(n));
        }
        assert(lives.last() == lives[lives.len() - 1]);
        law_five_crashes_end_the_supervisor(before);
        lemma_supervisor_runs_on(
            SupervisionView::ForkDaemon { crashes: 0 },
            lives_events(before),
            life_events(lives.last()),
        );
        lemma_life(counted(before) as u64, lives.last());
    }
}

/// The supervisor gives up only on five crashes in a row of which the last four
/// came within ten seconds of the opening of one crash window. Crashes that each
/// come later than that never add up.
pub proof fn law_giving_up_takes_five_quick_crashes(lives: Seq<Life>)
    ensures
        counted(lives) >= CRASH_LIMIT ==> lives.len() >= CRASH_LIMIT && forall|i: int|
            lives.len() - CRASH_LIMIT < i < lives.len() ==> (#[trigger] lives[i]).nanos
                <= CRASH_WINDOW_NANOS,
        lives.len() > 0 && lives.last().nanos > CRASH_WINDOW_NANOS ==> counted(lives) == 1,
{
    lemma_counted(lives);
}

proof fn lemma_counted(lives: Seq<Life>)
    ensures
        counted(lives) <= lives.len(),
        forall|i: int|
            lives.len() - counted(lives) < i < lives.len() ==> (#[trigger] lives[i]).nanos
                <= CRASH_WINDOW_NANOS,
    decreases lives.len(),
{
    if lives.len() > 0 {
        lemma_counted(lives.drop_last());
        assert forall|i: int|
            lives.len() - counted(lives) < i < lives.len() implies (#[trigger] lives[i]).nanos
            <= CRASH_WINDOW_NANOS by {
            if i < lives.len() - 1 {
                assert(lives.drop_last()[i] == lives[i]);
            }
        }
    }
}

/// A daemon that ends with 0, or by the signal to stop, ends the supervisor with
/// 0, however many crashes were counted before.
pub proof fn law_a_clean_end_is_final(crashes: u64, life: Life)
    requires
        crashes < CRASH_LIMIT,
        !life.crashed(),
    ensures
        supervisor_run(SupervisionView::ForkDaemon { crashes }, life_events(life))
            == SupervisionView::Exit(0),
{
    lemma_life(crashes, life);
}

proof fn lemma_exit_rests(code: i32, events: Seq<SupervisionEvent>)
    ensures
        supervisor_run(SupervisionView::Exit(code), events) == SupervisionView::Exit(code),
    decreases events.len(),
{
    if events.len() > 0 {
        lemma_exit_rests(code, events.drop_first());
    }
}

/// A stopped daemon stays stopped. Stopping reads the PID that the supervisor
/// recorded and signals that process; once the daemon has ended by the signal, the
/// supervisor forgets the PID and ends with 0, and whatever comes after that, it
/// starts no other daemon.
pub proof fn law_a_stopped_daemon_stays_stopped(
    crashes: u64,
    pid: i32,
    events: Seq<SupervisionEvent>,
)
    requires
        crashes < CRASH_LIMIT,
    ensures
        ({
            let record = supervisor_next(
                SupervisionView::ForkDaemon { crashes },
                SupervisionEvent::Forked(Ok(Fork::Parent(pid))),
            );
            let wait = SupervisionView::AwaitDaemon { crashes, pid };
            let ended = SupervisionEvent::Ended(Ok(Ended::Signaled(TERM_SIGNAL)));
            &&& record == (SupervisionView::RecordPid {
                crashes,
                pid,
                text: signed_decimal(pid as int),
            })
            &&& supervisor_next(record, SupervisionEvent::Performed) == wait
            &&& stop_next(
                StopView::ReadPid,
                StopEventView::Contents(Some(signed_decimal(pid as int))),
            ) == (StopView::Terminate { pid })
            &&& supervisor_next(wait, ended) is ForgetPid
            &&& supervisor_run(wait, seq![ended, SupervisionEvent::Performed])
                == SupervisionView::Exit(0)
            &&& supervisor_run(wait, seq![ended, SupervisionEvent::Performed] + events)
                == SupervisionView::Exit(0)
        }),
{
    law_stop_signals_the_recorded_process(pid);
    let wait = SupervisionView::AwaitDaemon { crashes, pid };
    let ended = SupervisionEvent::Ended(Ok(Ended::Signaled(TERM_SIGNAL)));
    let stopped = seq![ended, SupervisionEvent::Performed];
    reveal_with_fuel(supervisor_run, 3);
    lemma_supervisor_runs_on(wait, stopped, events);
    lemma_exit_rests(0, events);
}

/// The supervisor waits for a daemon only once its PID is recorded, and whatever
/// the end of the daemon, the record is removed next.
pub proof fn law_the_pid_is_recorded_while_the_daemon_lives(
    state: SupervisionView,
    event: SupervisionEvent,
)
    ensures
        ({
            let next = supervisor_next(state, event);
            &&& next is AwaitDaemon && state !is AwaitDaemon ==> {
                &&& state is RecordPid
                &&& next->AwaitDaemon_pid == state->RecordPid_pid
            }
            &&& next is RecordPid && state !is RecordPid ==> next->text == signed_decimal(
                next->RecordPid_pid as int,
            )
            &&& state is AwaitDaemon && next !is AwaitDaemon ==> next is ForgetPid
        }),
{
}

/// A process of the supervisor ends with 1 only by giving up, and with 0 only
/// when it handed over to the supervisor, when the daemon was meant to end, or
/// when it was the daemon.
pub proof fn law_exit_codes(state: SupervisionView, event: SupervisionEvent)
    requires
        state !is Exit,
    ensures
        supervisor_next(state, event) matches SupervisionView::Exit(code) ==> {
            ||| code == 1 && state is MeasureWindow
            ||| code == 0 && (state is ForkSupervisor || state is RunDaemon || (state is ForgetPid
                && state->clean))
        },
{
}

proof fn lemma_report_leads_to_return(state: SupervisionView, events: Seq<SupervisionEvent>)
    requires
        state is Report || state == SupervisionView::Return(Ok(())),
    ensures
        supervisor_run(state, events) == state || supervisor_run(state, events)
            == SupervisionView::Return(Ok(())),
    decreases events.len(),
{
    if events.len() > 0 {
        lemma_report_leads_to_return(
            supervisor_next(state, events.first()),
            events.drop_first(),
        );
    }
}

/// Where a daemon answers already, nothing is forked: whatever comes after that,
/// the supervisor only says so and returns.
pub proof fn law_a_running_daemon_is_left_alone(events: Seq<SupervisionEvent>)
    ensures
        ({
            let state = supervisor_run(
                SupervisionView::Probe,
                seq![SupervisionEvent::Probed(true)] + events,
            );
            state == SupervisionView::Report("daemon already running"@) || state
                == SupervisionView::Return(Ok(()))
        }),
{
    let all = seq![SupervisionEvent::Probed(true)] + events;
    assert(all.drop_first() =~= events);
    lemma_report_leads_to_return(SupervisionView::Report("daemon already running"@), events);
}

/// The process that was started returns as soon as the daemon answers. It warns
/// exactly where the daemon does not answer and ten seconds are over.
pub proof fn law_the_start_waits_for_an_answer(connected: bool, nanos: u128)
    ensures
        ({
            let next = supervisor_next(
                SupervisionView::AwaitReady,
                SupervisionEvent::Polled { connected, nanos },
            );
            &&& next == SupervisionView::Return(Ok(())) <==> connected
            &&& next == SupervisionView::Report("warning: daemon start timed out"@) <==> (
            !connected && nanos > READY_LIMIT_NANOS)
            &&& next is Pause <==> (!connected && nanos <= READY_LIMIT_NANOS)
        }),
{
}

/// The pause before the next try is half a second for each counted crash, and two
/// seconds at most.
pub proof fn law_the_pause_grows_with_the_crashes(state: SupervisionView, event: SupervisionEvent)
    requires
        state.wf(),
    ensures
        supervisor_next(state, event) matches SupervisionView::Backoff { crashes, millis } ==> {
            &&& millis == 500 * crashes
            &&& 500 <= millis <= 2000
        },
{
}

/// The states that the outcomes `events`, one after the other, lead through.
pub open spec fn supervisor_trace(
    state: SupervisionView,
    events: Seq<SupervisionEvent>,
) -> Seq<SupervisionView>
    decreases events.len(),
{
    if events.len() == 0 {
        Seq::empty()
    } else {
        let next = supervisor_next(state, events.first());
        seq![next] + supervisor_trace(next, events.drop_first())
    }
}

/// The outcomes of the calls while the daemon does not answer: at each of the
/// `times` a try, and a pause.
pub open spec fn unanswered_events(times: Seq<u128>) -> Seq<SupervisionEvent>
    decreases times.len(),
{
    if times.len() == 0 {
        Seq::empty()
    } else {
        seq![
            SupervisionEvent::Polled { connected: false, nanos: times.first() },
            SupervisionEvent::Performed,
        ] + unanswered_events(times.drop_first())
    }
}

proof fn lemma_unanswered(times: Seq<u128>)
    requires
        forall|i: int| 0 <= i < times.len() ==> #[trigger] times[i] <= 10_000_000_000,
    ensures
        supervisor_run(SupervisionView::AwaitReady, unanswered_events(times)) is AwaitReady,
    decreases times.len(),
{
    if times.len() > 0 {
        let events = unanswered_events(times);
        let rest = unanswered_events(times.drop_first());
        assert forall|i: int| 0 <= i < times.drop_first().len() implies
            #[trigger] times.drop_first()[i] <= 10_000_000_000 by {
            assert(times.drop_first()[i] == times[i + 1]);
        }
        lemma_unanswered(times.drop_first());
        let e1 = events.drop_first();
        assert(e1.drop_first() =~= rest);
        assert(times[0] <= 10_000_000_000);
        let await_ready = SupervisionView::AwaitReady;
        let pause = SupervisionView::Pause { millis: 100 };
        assert(supervisor_run(await_ready, events) == supervisor_run(pause, e1));
        assert(supervisor_run(pause, e1) == supervisor_run(await_ready, rest));
    }
}

/// The process that was started makes the data directory, forks, waits for the
/// process it forked, and then tries the socket every tenth of a second, however
/// often, as long as nobody answers and ten seconds are not over. It returns once
/// the socket answers; where they are over, it warns first.
pub proof fn law_a_whole_start(pid: i32, times: Seq<u128>, connected: bool, nanos: u128)
    requires
        forall|i: int| 0 <= i < times.len() ==> #[trigger] times[i] <= 10_000_000_000,
        connected || nanos > 10_000_000_000,
    ensures
        supervisor_trace(
            SupervisionView::Probe,
            seq![
                SupervisionEvent::Probed(false),
                SupervisionEvent::Performed,
                SupervisionEvent::Forked(Ok(Fork::Parent(pid))),
                SupervisionEvent::Performed,
            ],
        ) == seq![
            SupervisionView::PrepareDirectory,
            SupervisionView::ForkSession,
            SupervisionView::ReapSession { pid },
            SupervisionView::AwaitReady,
        ],
        ({
            let tried = unanswered_events(times);
            let last = seq![SupervisionEvent::Polled { connected, nanos }];
            let done = supervisor_run(SupervisionView::AwaitReady, tried + last);
            &&& supervisor_run(SupervisionView::AwaitReady, tried) is AwaitReady
            &&& if connected {
                done == SupervisionView::Return(Ok(()))
            } else {
                &&& done == SupervisionView::Report("warning: daemon start timed out"@)
                &&& supervisor_next(done, SupervisionEvent::Performed) == SupervisionView::Return(
                    Ok(()),
                )
            }
        }),
{
    reveal_with_fuel(supervisor_trace, 5);
    let events = seq![
        SupervisionEvent::Probed(false),
        SupervisionEvent::Performed,
        SupervisionEvent::Forked(Ok(Fork::Parent(pid))),
        SupervisionEvent::Performed,
    ];
    assert(supervisor_trace(SupervisionView::Probe, events) =~= seq![
        SupervisionView::PrepareDirectory,
        SupervisionView::ForkSession,
        SupervisionView::ReapSession { pid },
        SupervisionView::AwaitReady,
    ]);
    lemma_unanswered(times);
    let last = seq![SupervisionEvent::Polled { connected, nanos }];
    lemma_supervisor_runs_on(SupervisionView::AwaitReady, unanswered_events(times), last);
    reveal_with_fuel(supervisor_run, 2);
}

/// A process returns without an error only right after a try that was answered, or
/// after a report; with an error only where a fork failed, and with that error.
/// There are two reports: that a daemon runs already, where the first try was
/// answered, and the warning, where ten seconds were over and a try was not. It
/// sleeps for a tenth of a second, and only after a try that was not answered.
pub proof fn law_a_process_returns_for_a_reason(state: SupervisionView, event: SupervisionEvent)
    ensures
        ({
            let next = supervisor_next(state, event);
            &&& next is Return && state !is Return ==> {
                ||| {
                    &&& next == SupervisionView::Return(Ok(()))
                    &&& state is AwaitReady
                    &&& event matches SupervisionEvent::Polled { connected, .. } && connected
                }
                ||| {
                    &&& next == SupervisionView::Return(Ok(()))
                    &&& state is Report && event is Performed
                }
                ||| {
                    &&& state is ForkSession || state is ForkSupervisor || state is ForkDaemon
                    &&& event matches SupervisionEvent::Forked(Err(e)) && next
                        == SupervisionView::Return(Err(CommandError::Core(e)))
                }
            }
            &&& next is Report && state !is Report ==> {
                ||| {
                    &&& state is Probe && event == SupervisionEvent::Probed(true)
                    &&& next == SupervisionView::Report("daemon already running"@)
                }
                ||| {
                    &&& state is AwaitReady
                    &&& event matches SupervisionEvent::Polled { connected, nanos } && !connected
                        && nanos > 10_000_000_000
                    &&& next == SupervisionView::Report("warning: daemon start timed out"@)
                }
            }
            &&& next is Pause && state !is Pause ==> {
                &&& next == (SupervisionView::Pause { millis: 100 })
                &&& state is AwaitReady
                &&& event matches SupervisionEvent::Polled { connected, nanos } && !connected
                    && nanos <= 10_000_000_000
            }
        }),
{
}

/// A fork that fails ends the process with that error, whichever it was, and a
/// first try that is answered ends it with a report.
pub proof fn law_failed_forks_are_errors(crashes: u64, e: CoreError)
    ensures
        ({
            let failed = SupervisionEvent::Forked(Err(e));
            let error = SupervisionView::Return(Err(CommandError::Core(e)));
            &&& supervisor_next(SupervisionView::ForkSession, failed) == error
            &&& supervisor_next(SupervisionView::ForkSupervisor, failed) == error
            &&& supervisor_next(SupervisionView::ForkDaemon { crashes }, failed) == error
        }),
        supervisor_trace(
            SupervisionView::Probe,
            seq![SupervisionEvent::Probed(true), SupervisionEvent::Performed],
        ) == seq![
            SupervisionView::Report("daemon already running"@),
            SupervisionView::Return(Ok(())),
        ],
{
    reveal_with_fuel(supervisor_trace, 3);
    let events = seq![SupervisionEvent::Probed(true), SupervisionEvent::Performed];
    assert(supervisor_trace(SupervisionView::Probe, events) =~= seq![
        SupervisionView::Report("daemon already running"@),
        SupervisionView::Return(Ok(())),
    ]);
}

/// The supervisor is forked twice: by the process that was started, and, once a
/// session of its own is led, by that child, which then ends with 0. It detaches,
/// and forks its first daemon without a crash counted. What it forks becomes the
/// daemon, and ends with 0 should that ever return.
pub proof fn law_the_supervisor_detaches(pid: i32, crashes: u64)
    ensures
        supervisor_trace(
            SupervisionView::Probe,
            seq![
                SupervisionEvent::Probed(false),
                SupervisionEvent::Performed,
                SupervisionEvent::Forked(Ok(Fork::Child)),
                SupervisionEvent::Performed,
                SupervisionEvent::Forked(Ok(Fork::Child)),
                SupervisionEvent::Performed,
            ],
        ) == seq![
            SupervisionView::PrepareDirectory,
            SupervisionView::ForkSession,
            SupervisionView::LeadSession,
            SupervisionView::ForkSupervisor,
            SupervisionView::Detach,
            SupervisionView::ForkDaemon { crashes: 0 },
        ],
        supervisor_next(
            SupervisionView::ForkSupervisor,
            SupervisionEvent::Forked(Ok(Fork::Parent(pid))),
        ) == SupervisionView::Exit(0),
        supervisor_trace(
            SupervisionView::ForkDaemon { crashes },
            seq![SupervisionEvent::Forked(Ok(Fork::Child)), SupervisionEvent::Performed],
        ) == seq![SupervisionView::RunDaemon, SupervisionView::Exit(0)],
{
    reveal_with_fuel(supervisor_trace, 7);
    let events = seq![
        SupervisionEvent::Probed(false),
        SupervisionEvent::Performed,
        SupervisionEvent::Forked(Ok(Fork::Child)),
        SupervisionEvent::Performed,
        SupervisionEvent::Forked(Ok(Fork::Child)),
        SupervisionEvent::Performed,
    ];
    assert(supervisor_trace(SupervisionView::Probe, events) =~= seq![
        SupervisionView::PrepareDirectory,
        SupervisionView::ForkSession,
        SupervisionView::LeadSession,
        SupervisionView::ForkSupervisor,
        SupervisionView::Detach,
        SupervisionView::ForkDaemon { crashes: 0 },
    ]);
    let forked = seq![SupervisionEvent::Forked(Ok(Fork::Child)), SupervisionEvent::Performed];
    assert(supervisor_trace(SupervisionView::ForkDaemon { crashes }, forked) =~= seq![
        SupervisionView::RunDaemon,
        SupervisionView::Exit(0),
    ]);
}

/// The daemon was meant to end exactly where it ended with 0 or by signal 15; any
/// other end, and one that cannot be known, is a crash. Either way its PID is
/// forgotten first. After an end that was meant, the supervisor ends with 0.
pub proof fn law_what_counts_as_a_crash(
    crashes: u64,
    pid: i32,
    ended: Result<Ended, CoreError>,
)
    ensures
        ({
            let end = ended == Ok::<Ended, CoreError>(Ended::Exited(0)) || ended == Ok::<
                Ended,
                CoreError,
            >(Ended::Signaled(15));
            supervisor_trace(
                SupervisionView::AwaitDaemon { crashes, pid },
                seq![SupervisionEvent::Ended(ended), SupervisionEvent::Performed],
            ) == seq![
                SupervisionView::ForgetPid { crashes, clean: end },
                if end {
                    SupervisionView::Exit(0)
                } else {
                    SupervisionView::MeasureWindow { crashes }
                },
            ]
        }),
{
    reveal_with_fuel(supervisor_trace, 3);
    let start = SupervisionView::AwaitDaemon { crashes, pid };
    let events = seq![SupervisionEvent::Ended(ended), SupervisionEvent::Performed];
    let first = supervisor_next(start, events[0]);
    let second = supervisor_next(first, events[1]);
    assert(supervisor_trace(start, events) =~= seq![first, second]);
}

/// One life of a daemon that crashes, call by call: its PID is recorded, its end
/// awaited, the PID forgotten and the crash window looked at. Where the window was
/// open for more than ten seconds, it is opened anew and the crash is the first in
/// it; else it is one more, and with the fifth the supervisor ends with 1. Before
/// the next daemon it sleeps, half a second for each crash.
pub proof fn law_one_crash_after_the_other(
    crashes: u64,
    pid: i32,
    ended: Result<Ended, CoreError>,
    nanos: u128,
)
    requires
        crashes < 5,
        ended != Ok::<Ended, CoreError>(Ended::Exited(0)),
        ended != Ok::<Ended, CoreError>(Ended::Signaled(15)),
    ensures
        ({
            let performed = SupervisionEvent::Performed;
            let lived = seq![
                SupervisionEvent::Forked(Ok(Fork::Parent(pid))),
                performed,
                SupervisionEvent::Ended(ended),
                performed,
            ];
            let measure = SupervisionView::MeasureWindow { crashes };
            let looked = SupervisionEvent::Elapsed { nanos };
            &&& supervisor_trace(SupervisionView::ForkDaemon { crashes }, lived) == seq![
                SupervisionView::RecordPid { crashes, pid, text: signed_decimal(pid as int) },
                SupervisionView::AwaitDaemon { crashes, pid },
                SupervisionView::ForgetPid { crashes, clean: false },
                measure,
            ]
            &&& if nanos > 10_000_000_000 {
                supervisor_trace(measure, seq![looked, performed, performed]) == seq![
                    SupervisionView::RestartWindow,
                    SupervisionView::Backoff { crashes: 1, millis: 500 },
                    SupervisionView::ForkDaemon { crashes: 1 },
                ]
            } else if crashes == 4 {
                supervisor_next(measure, looked) == SupervisionView::Exit(1)
            } else {
                supervisor_trace(measure, seq![looked, performed]) == seq![
                    SupervisionView::Backoff {
                        crashes: (crashes + 1) as u64,
                        millis: (500 * (crashes + 1)) as u64,
                    },
                    SupervisionView::ForkDaemon { crashes: (crashes + 1) as u64 },
                ]
            }
        }),
{
    reveal_with_fuel(supervisor_trace, 5);
    let performed = SupervisionEvent::Performed;
    let lived = seq![
        SupervisionEvent::Forked(Ok(Fork::Parent(pid))),
        performed,
        SupervisionEvent::Ended(ended),
        performed,
    ];
    let measure = SupervisionView::MeasureWindow { crashes };
    let looked = SupervisionEvent::Elapsed { nanos };
    assert(supervisor_trace(SupervisionView::ForkDaemon { crashes }, lived) =~= seq![
        SupervisionView::RecordPid { crashes, pid, text: signed_decimal(pid as int) },
        SupervisionView::AwaitDaemon { crashes, pid },
        SupervisionView::ForgetPid { crashes, clean: false },
        measure,
    ]);
    if nanos > 10_000_000_000 {
        assert(supervisor_trace(measure, seq![looked, performed, performed]) =~= seq![
            SupervisionView::RestartWindow,
            SupervisionView::Backoff { crashes: 1, millis: 500 },
            SupervisionView::ForkDaemon { crashes: 1 },
        ]);
    } else if crashes < 4 {
        assert(supervisor_trace(measure, seq![looked, performed]) =~= seq![
            SupervisionView::Backoff {
                crashes: (crashes + 1) as u64,
                millis: (500 * (crashes + 1)) as u64,
            },
            SupervisionView::ForkDaemon { crashes: (crashes + 1) as u64 },
        ]);
    }
}

/// An outcome of another call than the one that was due changes nothing.
pub proof fn law_stray_outcomes_leave_the_supervisor_alone(
    state: SupervisionView,
    event: SupervisionEvent,
)
    requires
        !(state is Probe && event is Probed),
        !(state is AwaitReady && event is Polled),
        !((state is ForkSession || state is ForkSupervisor || state is ForkDaemon)
            && event is Forked),
        !(state is AwaitDaemon && event is Ended),
        !(state is MeasureWindow && event is Elapsed),
        event is Performed ==> state is Probe || state is AwaitReady || state is ForkSession
            || state is ForkSupervisor || state is ForkDaemon || state is AwaitDaemon
            || state is MeasureWindow || state is Return || state is Exit,
    ensures
        supervisor_next(state, event) == state,
{
}

/// The limits and pauses of the supervisor.
pub proof fn law_how_long_the_supervisor_waits()
    ensures
        READY_LIMIT_NANOS == 10_000_000_000,
        READY_PAUSE_MILLIS == 100,
        CRASH_WINDOW_NANOS == 10_000_000_000,
        CRASH_LIMIT == 5,
        CRASH_PAUSE_MILLIS == 500,
        TERM_SIGNAL == 15,
{
}

/// A state of the supervisor shows all that it holds.
pub proof fn law_supervision_states_show_everything(
    line: &'static str,
    crashes: u64,
    pid: i32,
    millis: u64,
    code: i32,
    clean: bool,
    text: String,
    r: Result<(), CommandError>,
)
    ensures
        Supervision::Probe@ is Probe,
        Supervision::Report(line)@ == SupervisionView::Report(line@),
        Supervision::PrepareDirectory@ is PrepareDirectory,
        Supervision::ForkSession@ is ForkSession,
        (Supervision::ReapSession { pid })@ == (SupervisionView::ReapSession { pid }),
        Supervision::AwaitReady@ is AwaitReady,
        (Supervision::Pause { millis })@ == (SupervisionView::Pause { millis }),
        Supervision::Return(r)@ == SupervisionView::Return(r),
        Supervision::LeadSession@ is LeadSession,
        Supervision::ForkSupervisor@ is ForkSupervisor,
        Supervision::Detach@ is Detach,
        (Supervision::ForkDaemon { crashes })@ == (SupervisionView::ForkDaemon { crashes }),
        (Supervision::RecordPid { crashes, pid, text })@ == (SupervisionView::RecordPid {
            crashes,
            pid,
            text: text@,
        }),
        (Supervision::AwaitDaemon { crashes, pid })@ == (SupervisionView::AwaitDaemon {
            crashes,
            pid,
        }),
        (Supervision::ForgetPid { crashes, clean })@ == (SupervisionView::ForgetPid {
            crashes,
            clean,
        }),
        (Supervision::MeasureWindow { crashes })@ == (SupervisionView::MeasureWindow { crashes }),
        Supervision::RestartWindow@ is RestartWindow,
        (Supervision::Backoff { crashes, millis })@ == (SupervisionView::Backoff {
            crashes,
            millis,
        }),
        Supervision::RunDaemon@ is RunDaemon,
        Supervision::Exit(code)@ == SupervisionView::Exit(code),
{
}

/// Exactly the states with fewer than five crashes are taken, and of those that
/// sleep before the next try the ones that sleep half a second for each.
pub proof fn law_which_states_are_taken(state: SupervisionView, crashes: u64)
    ensures
        (SupervisionView::ForkDaemon { crashes }).wf() <==> crashes < 5,
        (SupervisionView::MeasureWindow { crashes }).wf() <==> crashes < 5,
        state is Probe || state is Report || state is PrepareDirectory || state is ForkSession
            || state is ReapSession || state is AwaitReady || state is Pause || state is Return
            || state is LeadSession || state is ForkSupervisor || state is Detach
            || state is RestartWindow || state is RunDaemon || state is Exit ==> state.wf(),
{
}

} // verus!
