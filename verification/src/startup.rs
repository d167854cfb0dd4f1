//! How the daemon comes up: it opens what it needs, reads the level and the
//! charge state once, and publishes the latter.

use crate::battery::chars_of;
use crate::battery::level_of;
use crate::battery::read_level;
use crate::battery::read_status;
use crate::battery::status_of;
use crate::config::SOCKET;
use crate::daemon::Daemon;
use crate::daemon::DaemonView;
use crate::daemon::Feed;
use crate::source::law_open_prefers_inotify;
use crate::source::open_answer;
use crate::source::open_next;
use crate::source::open_run;
use crate::source::BatterySource;
use crate::source::OpenAnswers;
use crate::source::OpenEvent;
use crate::source::OpenStep;
use crate::supervisor::meant;
use crate::supervisor::Ended;
use coreshift_core::reactor::Fd;
use coreshift_core::unix_socket::UnixStreamFd;
use coreshift_core::CoreError;
use std::collections::HashMap;
use vstd::prelude::*;

verus! {

broadcast use vstd::std_specs::hash::group_hash_axioms;

/// The next call of starting the daemon. It starts with
/// `OpenSource(OpenStep::InitInotify)` or, to hear of uevent messages alone, with
/// `OpenReactor { opened: None }`.
pub enum Startup {
    /// Make the next call of opening the battery source.
    OpenSource(OpenStep),
    /// Create the reactor. The feed may still have to be opened.
    OpenReactor { opened: Option<Feed> },
    /// Open the uevent socket.
    OpenMessages,
    /// Bind the listening socket.
    Bind { feed: Feed },
    /// Register the feed for reading.
    AddSource { feed: Feed },
    /// Register the listening socket for reading.
    AddListener { feed: Feed, source_token: u64 },
    /// Read the capacity file.
    ReadLevel { feed: Feed, source_token: u64, listener_token: u64 },
    /// Read the status file.
    ReadStatus { daemon: Daemon },
    /// Read the status property.
    ReadProperty { daemon: Daemon },
    /// Set the charge state property.
    Publish { daemon: Daemon, status: String },
    /// The daemon runs.
    Ready { daemon: Daemon },
    /// Log the error of what failed and exit with [`exit_code`].
    Exit { what: &'static str, error: CoreError },
    /// Panic with the error of what failed.
    Panic { what: &'static str, error: CoreError },
}

/// A [`Startup`] with its texts and maps as mathematical values.
#[verifier::ext_equal]
pub enum StartupView {
    OpenSource(OpenStep),
    OpenReactor { opened: Option<Feed> },
    OpenMessages,
    Bind { feed: Feed },
    AddSource { feed: Feed },
    AddListener { feed: Feed, source_token: u64 },
    ReadLevel { feed: Feed, source_token: u64, listener_token: u64 },
    ReadStatus { daemon: DaemonView },
    ReadProperty { daemon: DaemonView },
    Publish { daemon: DaemonView, status: Seq<char> },
    Ready { daemon: DaemonView },
    Exit { what: Seq<char>, error: CoreError },
    Panic { what: Seq<char>, error: CoreError },
}

impl View for Startup {
    type V = StartupView;

    open spec fn view(&self) -> StartupView {
        match *self {
            Startup::OpenSource(step) => StartupView::OpenSource(step),
            Startup::OpenReactor { opened } => StartupView::OpenReactor { opened },
            Startup::OpenMessages => StartupView::OpenMessages,
            Startup::Bind { feed } => StartupView::Bind { feed },
            Startup::AddSource { feed } => StartupView::AddSource { feed },
            Startup::AddListener { feed, source_token } => StartupView::AddListener {
                feed,
                source_token,
            },
            Startup::ReadLevel { feed, source_token, listener_token } => StartupView::ReadLevel {
                feed,
                source_token,
                listener_token,
            },
            Startup::ReadStatus { daemon } => StartupView::ReadStatus { daemon: daemon@ },
            Startup::ReadProperty { daemon } => StartupView::ReadProperty { daemon: daemon@ },
            Startup::Publish { daemon, status } => StartupView::Publish {
                daemon: daemon@,
                status: status@,
            },
            Startup::Ready { daemon } => StartupView::Ready { daemon: daemon@ },
            Startup::Exit { what, error } => StartupView::Exit { what: what@, error },
            Startup::Panic { what, error } => StartupView::Panic { what: what@, error },
        }
    }
}

/// The outcome of a call of starting the daemon.
pub enum StartupEvent {
    /// Of [`Startup::OpenSource`].
    Open(OpenEvent),
    /// Of [`Startup::OpenMessages`].
    Messages(Result<Fd, CoreError>),
    /// Of [`Startup::OpenReactor`] and [`Startup::Bind`].
    Done(Result<(), CoreError>),
    /// Of a registration: the new token.
    Registered(Result<u64, CoreError>),
    /// Of a read: what was there, if it could be read.
    Text(Option<String>),
    /// Of [`Startup::Publish`], whose outcome does not matter.
    Performed,
}

/// A [`StartupEvent`] with its text as characters.
#[verifier::ext_equal]
pub enum StartupEventView {
    Open(OpenEvent),
    Messages(Result<Fd, CoreError>),
    Done(Result<(), CoreError>),
    Registered(Result<u64, CoreError>),
    Text(Option<Seq<char>>),
    Performed,
}

impl View for StartupEvent {
    type V = StartupEventView;

    open spec fn view(&self) -> StartupEventView {
        match *self {
            StartupEvent::Open(event) => StartupEventView::Open(event),
            StartupEvent::Messages(r) => StartupEventView::Messages(r),
            StartupEvent::Done(r) => StartupEventView::Done(r),
            StartupEvent::Registered(r) => StartupEventView::Registered(r),
            StartupEvent::Text(text) => StartupEventView::Text(chars_of(text)),
            StartupEvent::Performed => StartupEventView::Performed,
        }
    }
}

/// What the registration of a feed is called.
pub open spec fn add_feed_name(feed: Feed) -> Seq<char> {
    match feed {
        Feed::Source(_) => "add source"@,
        Feed::Messages(_) => "add uevent"@,
    }
}

/// Where the outcome `event` leads from `state`. An outcome that does not belong
/// to the state changes nothing.
pub open spec fn startup_next(state: StartupView, event: StartupEventView) -> StartupView {
    match (state, event) {
        (StartupView::OpenSource(step), StartupEventView::Open(event)) => match open_next(
            step,
            event,
        ) {
            OpenStep::Opened(Ok(source)) => StartupView::OpenReactor {
                opened: Some(Feed::Source(source)),
            },
            OpenStep::Opened(Err(error)) => StartupView::Exit { what: "battery source"@, error },
            step => StartupView::OpenSource(step),
        },
        (StartupView::OpenReactor { opened }, StartupEventView::Done(done)) => match done {
            Ok(_) => match opened {
                Some(feed) => StartupView::Bind { feed },
                None => StartupView::OpenMessages,
            },
            Err(error) => StartupView::Exit { what: "reactor"@, error },
        },
        (StartupView::OpenMessages, StartupEventView::Messages(messages)) => match messages {
            Ok(fd) => StartupView::Bind { feed: Feed::Messages(fd) },
            Err(error) => StartupView::Exit { what: "netlink uevent"@, error },
        },
        (StartupView::Bind { feed }, StartupEventView::Done(done)) => match done {
            Ok(_) => StartupView::AddSource { feed },
            Err(error) => StartupView::Exit { what: "bind @coreshift_batterystats"@, error },
        },
        (StartupView::AddSource { feed }, StartupEventView::Registered(registered)) =>
            match registered {
                Ok(source_token) => StartupView::AddListener { feed, source_token },
                Err(error) => StartupView::Panic { what: add_feed_name(feed), error },
            },
        (
            StartupView::AddListener { feed, source_token },
            StartupEventView::Registered(registered),
        ) => match registered {
            Ok(listener_token) => StartupView::ReadLevel { feed, source_token, listener_token },
            Err(error) => StartupView::Panic { what: "add listener"@, error },
        },
        (
            StartupView::ReadLevel { feed, source_token, listener_token },
            StartupEventView::Text(contents),
        ) => {
            let daemon = DaemonView {
                feed,
                source_token,
                listener_token,
                last_level: level_of(contents),
                watchers: Map::empty(),
            };
            match feed {
                Feed::Source(_) => StartupView::ReadStatus { daemon },
                Feed::Messages(_) => StartupView::ReadProperty { daemon },
            }
        },
        (StartupView::ReadStatus { daemon }, StartupEventView::Text(contents)) => match contents {
            Some(_) => StartupView::Publish { daemon, status: status_of(contents, None) },
            None => StartupView::ReadProperty { daemon },
        },
        (StartupView::ReadProperty { daemon }, StartupEventView::Text(property)) =>
            StartupView::Publish { daemon, status: status_of(None, property) },
        (StartupView::Publish { daemon, .. }, StartupEventView::Performed) => StartupView::Ready {
            daemon,
        },
        _ => state,
    }
}

/// Takes the outcome of one call of starting the daemon to the next call.
pub fn start_daemon(state: Startup, event: StartupEvent) -> (r: Startup)
    ensures
        r@ == startup_next(state@, event@),
{
    match (state, event) {
        (Startup::OpenSource(step), StartupEvent::Open(event)) => match BatterySource::open(
            step,
            event,
        ) {
            OpenStep::Opened(Ok(source)) => Startup::OpenReactor {
                opened: Some(Feed::Source(source)),
            },
            OpenStep::Opened(Err(error)) => Startup::Exit { what: "battery source", error },
            step => Startup::OpenSource(step),
        },
        (Startup::OpenReactor { opened }, StartupEvent::Done(done)) => match done {
            Ok(_) => match opened {
                Some(feed) => Startup::Bind { feed },
                None => Startup::OpenMessages,
            },
            Err(error) => Startup::Exit { what: "reactor", error },
        },
        (Startup::OpenMessages, StartupEvent::Messages(messages)) => match messages {
            Ok(fd) => Startup::Bind { feed: Feed::Messages(fd) },
            Err(error) => Startup::Exit { what: "netlink uevent", error },
        },
        (Startup::Bind { feed }, StartupEvent::Done(done)) => match done {
            Ok(_) => Startup::AddSource { feed },
            Err(error) => Startup::Exit { what: "bind @coreshift_batterystats", error },
        },
        (Startup::AddSource { feed }, StartupEvent::Registered(registered)) => match registered {
            Ok(source_token) => Startup::AddListener { feed, source_token },
            Err(error) => {
                let what = match &feed {
                    Feed::Source(_) => "add source",
                    Feed::Messages(_) => "add uevent",
                };
                Startup::Panic { what, error }
            },
        },
        (
            Startup::AddListener { feed, source_token },
            StartupEvent::Registered(registered),
        ) => match registered {
            Ok(listener_token) => Startup::ReadLevel { feed, source_token, listener_token },
            Err(error) => Startup::Panic { what: "add listener", error },
        },
        (
            Startup::ReadLevel { feed, source_token, listener_token },
            StartupEvent::Text(contents),
        ) => {
            let last_level = match &contents {
                Some(s) => read_level(Some(s.as_str())),
                None => read_level(None),
            };
            let sensed = match &feed {
                Feed::Source(_) => true,
                Feed::Messages(_) => false,
            };
            let watchers = HashMap::new();
            let daemon = Daemon { feed, source_token, listener_token, last_level, watchers };
            if sensed {
                Startup::ReadStatus { daemon }
            } else {
                Startup::ReadProperty { daemon }
            }
        },
        (Startup::ReadStatus { daemon }, StartupEvent::Text(contents)) => match contents {
            Some(s) => {
                let status = read_status(Some(s.as_str()), None);
                Startup::Publish { daemon, status }
            },
            None => Startup::ReadProperty { daemon },
        },
        (Startup::ReadProperty { daemon }, StartupEvent::Text(property)) => {
            let status = match &property {
                Some(p) => read_status(None, Some(p.as_str())),
                None => read_status(None, None),
            };
            Startup::Publish { daemon, status }
        },
        (Startup::Publish { daemon, .. }, StartupEvent::Performed) => Startup::Ready { daemon },
        (state, _) => state,
    }
}

/// The code with which the process exits, where starting failed.
pub open spec fn exit_code_of(state: StartupView) -> Option<i32> {
    if state is Exit {
        Some(1i32)
    } else {
        None
    }
}

/// The code with which to exit, where starting failed.
pub fn exit_code(state: &Startup) -> (r: Option<i32>)
    ensures
        r == exit_code_of(state@),
{
    match state {
        Startup::Exit { .. } => Some(1),
        _ => None,
    }
}

/// What the calls of starting the daemon answer, for each of them that is made.
pub struct StartupAnswers {
    pub open: OpenAnswers,
    pub reactor: Result<(), CoreError>,
    pub messages: Result<Fd, CoreError>,
    pub bound: Result<(), CoreError>,
    pub source_token: Result<u64, CoreError>,
    pub listener_token: Result<u64, CoreError>,
    pub level: Option<Seq<char>>,
    pub status: Option<Seq<char>>,
    pub property: Option<Seq<char>>,
}

/// The answer to the call that `state` names.
pub open spec fn startup_answer(state: StartupView, answers: StartupAnswers) -> StartupEventView {
    match state {
        StartupView::OpenSource(step) => StartupEventView::Open(open_answer(step, answers.open)),
        StartupView::OpenReactor { .. } => StartupEventView::Done(answers.reactor),
        StartupView::OpenMessages => StartupEventView::Messages(answers.messages),
        StartupView::Bind { .. } => StartupEventView::Done(answers.bound),
        StartupView::AddSource { .. } => StartupEventView::Registered(answers.source_token),
        StartupView::AddListener { .. } => StartupEventView::Registered(answers.listener_token),
        StartupView::ReadLevel { .. } => StartupEventView::Text(answers.level),
        StartupView::ReadStatus { .. } => StartupEventView::Text(answers.status),
        StartupView::ReadProperty { .. } => StartupEventView::Text(answers.property),
        _ => StartupEventView::Performed,
    }
}

/// Where `calls` calls lead from `state`.
pub open spec fn startup_run(
    state: StartupView,
    answers: StartupAnswers,
    calls: nat,
) -> StartupView
    decreases calls,
{
    if calls == 0 {
        state
    } else {
        startup_run(
            startup_next(state, startup_answer(state, answers)),
            answers,
            (calls - 1) as nat,
        )
    }
}

/// How starting ends once the feed and the reactor are open.
pub open spec fn started(feed: Feed, answers: StartupAnswers) -> StartupView {
    match (answers.bound, answers.source_token, answers.listener_token) {
        (Err(error), _, _) => StartupView::Exit { what: "bind @coreshift_batterystats"@, error },
        (Ok(_), Err(error), _) => StartupView::Panic { what: add_feed_name(feed), error },
        (Ok(_), Ok(_), Err(error)) => StartupView::Panic { what: "add listener"@, error },
        (Ok(_), Ok(source_token), Ok(listener_token)) => StartupView::Ready {
            daemon: DaemonView {
                feed,
                source_token,
                listener_token,
                last_level: level_of(answers.level),
                watchers: Map::empty(),
            },
        },
    }
}

/// The charge state that is published at the start.
pub open spec fn first_status(feed: Feed, answers: StartupAnswers) -> Seq<char> {
    match feed {
        Feed::Source(_) => status_of(answers.status, answers.property),
        Feed::Messages(_) => status_of(None, answers.property),
    }
}

proof fn lemma_startup_runs_on(state: StartupView, answers: StartupAnswers, m: nat, n: nat)
    ensures
        startup_run(startup_run(state, answers, m), answers, n) == startup_run(
            state,
            answers,
            m + n,
        ),
    decreases m,
{
    if m > 0 {
        lemma_startup_runs_on(
            startup_next(state, startup_answer(state, answers)),
            answers,
            (m - 1) as nat,
            n,
        );
    }
}

proof fn lemma_startup_from_bind(feed: Feed, answers: StartupAnswers)
    ensures
        startup_run(StartupView::Bind { feed }, answers, 7) == started(feed, answers),
{
    reveal_with_fuel(startup_run, 8);
}

proof fn lemma_startup_publishes(feed: Feed, answers: StartupAnswers) -> (calls: nat)
    requires
        answers.bound is Ok,
        answers.source_token is Ok,
        answers.listener_token is Ok,
    ensures
        calls < 7,
        startup_run(StartupView::Bind { feed }, answers, calls) == (StartupView::Publish {
            daemon: started(feed, answers)->Ready_daemon,
            status: first_status(feed, answers),
        }),
{
    reveal_with_fuel(startup_run, 8);
    if feed is Source && answers.status is None {
        6
    } else {
        5
    }
}

proof fn lemma_startup_rests(state: StartupView, answers: StartupAnswers, calls: nat)
    requires
        state is Ready || state is Exit || state is Panic,
    ensures
        startup_run(state, answers, calls) == state,
    decreases calls,
{
    if calls > 0 {
        lemma_startup_rests(state, answers, (calls - 1) as nat);
    }
}

/// A daemon on a battery source is up after eleven calls at most. It exits where
/// the source, the reactor or the socket cannot be had, and panics where a
/// descriptor cannot be registered; otherwise it runs, without consumers, with
/// the level of the capacity file as the last one heard of.
pub proof fn law_source_daemon_starts(answers: StartupAnswers)
    ensures
        startup_run(StartupView::OpenSource(OpenStep::InitInotify), answers, 11) == (
        match open_run(OpenStep::InitInotify, answers.open, 3)->Opened_0 {
            Ok(source) => match answers.reactor {
                Ok(_) => started(Feed::Source(source), answers),
                Err(error) => StartupView::Exit { what: "reactor"@, error },
            },
            Err(error) => StartupView::Exit { what: "battery source"@, error },
        }),
{
    law_open_prefers_inotify(answers.open);
    let start = StartupView::OpenSource(OpenStep::InitInotify);
    let opened = open_run(OpenStep::InitInotify, answers.open, 3)->Opened_0;
    let calls: nat = if answers.open.inotify is Ok && answers.open.capacity is Err {
        4
    } else {
        3
    };
    let middle = startup_run(start, answers, calls);
    assert(opened is Ok && answers.reactor is Ok ==> middle == (StartupView::Bind {
        feed: Feed::Source(opened->Ok_0),
    })) by {
        reveal_with_fuel(startup_run, 5);
    }
    assert(!(opened is Ok && answers.reactor is Ok) ==> middle is Exit) by {
        reveal_with_fuel(startup_run, 5);
    }
    let rest = (11 - calls) as nat;
    lemma_startup_runs_on(start, answers, calls, rest);
    if opened is Ok && answers.reactor is Ok {
        let feed = Feed::Source(opened->Ok_0);
        lemma_startup_from_bind(feed, answers);
        lemma_startup_runs_on(middle, answers, 7, (rest - 7) as nat);
        lemma_startup_rests(started(feed, answers), answers, (rest - 7) as nat);
    } else {
        lemma_startup_rests(middle, answers, rest);
        reveal_with_fuel(startup_run, 5);
    }
}

/// A daemon on uevent messages alone is up after nine calls, with the same
/// endings.
pub proof fn law_message_daemon_starts(answers: StartupAnswers)
    ensures
        startup_run(StartupView::OpenReactor { opened: None }, answers, 9) == (
        match (answers.reactor, answers.messages) {
            (Err(error), _) => StartupView::Exit { what: "reactor"@, error },
            (Ok(_), Err(error)) => StartupView::Exit { what: "netlink uevent"@, error },
            (Ok(_), Ok(fd)) => started(Feed::Messages(fd), answers),
        }),
{
    let start = StartupView::OpenReactor { opened: None };
    let middle = startup_run(start, answers, 2);
    lemma_startup_runs_on(start, answers, 2, 7);
    reveal_with_fuel(startup_run, 3);
    if answers.reactor is Ok && answers.messages is Ok {
        lemma_startup_from_bind(Feed::Messages(answers.messages->Ok_0), answers);
    } else {
        lemma_startup_rests(middle, answers, 7);
    }
}

proof fn lemma_startup_stays_up(state: StartupView, answers: StartupAnswers, calls: nat)
    requires
        state is Publish || state is Ready,
    ensures
        startup_run(state, answers, calls) is Publish || startup_run(
            state,
            answers,
            calls,
        ) is Ready,
    decreases calls,
{
    if calls > 0 {
        lemma_startup_stays_up(
            startup_next(state, startup_answer(state, answers)),
            answers,
            (calls - 1) as nat,
        );
    }
}

/// A daemon that cannot be started exits with a code that the supervisor counts as
/// a crash. Until then it has neither published a charge state nor run, so that it
/// accepted nobody; the same holds of one that panics.
pub proof fn law_a_failed_start_is_a_crash(
    start: StartupView,
    answers: StartupAnswers,
    calls: nat,
    earlier: nat,
)
    requires
        earlier <= calls,
    ensures
        ({
            let state = startup_run(start, answers, calls);
            let before = startup_run(start, answers, earlier);
            &&& exit_code_of(state) is Some <==> state is Exit
            &&& exit_code_of(state) matches Some(code) ==> !meant(Ok(Ended::Exited(code)))
            &&& state is Exit || state is Panic ==> before !is Publish && before !is Ready
        }),
{
    let before = startup_run(start, answers, earlier);
    lemma_startup_runs_on(start, answers, earlier, (calls - earlier) as nat);
    if before is Publish || before is Ready {
        lemma_startup_stays_up(before, answers, (calls - earlier) as nat);
    }
}

/// Between binding its socket and running, the daemon publishes the charge
/// state: on a battery source that of the status file, or of the property where
/// the file cannot be read; on uevent messages that of the property.
pub proof fn law_start_publishes_the_charge_state(feed: Feed, answers: StartupAnswers)
    requires
        answers.bound is Ok,
        answers.source_token is Ok,
        answers.listener_token is Ok,
    ensures
        exists|calls: nat|
            calls < 7 && #[trigger] startup_run(StartupView::Bind { feed }, answers, calls) == (
            StartupView::Publish {
                daemon: DaemonView {
                    feed,
                    source_token: answers.source_token->Ok_0,
                    listener_token: answers.listener_token->Ok_0,
                    last_level: level_of(answers.level),
                    watchers: Map::empty(),
                },
                status: if feed is Source {
                    status_of(answers.status, answers.property)
                } else {
                    status_of(None, answers.property)
                },
            }),
{
    let calls = lemma_startup_publishes(feed, answers);
}

/// What failed is called by these names, and a failed start exits with 1.
pub proof fn law_failures_are_named(
    source: BatterySource,
    fd: Fd,
    feed: Feed,
    token: u64,
    e: CoreError,
)
    ensures
        startup_next(
            StartupView::OpenSource(OpenStep::OpenUevent),
            StartupEventView::Open(OpenEvent::Uevent(Err(e))),
        ) == (StartupView::Exit { what: "battery source"@, error: e }),
        startup_next(
            StartupView::OpenMessages,
            StartupEventView::Messages(Err(e)),
        ) == (StartupView::Exit { what: "netlink uevent"@, error: e }),
        startup_next(
            StartupView::OpenReactor { opened: Some(feed) },
            StartupEventView::Done(Err(e)),
        ) == (StartupView::Exit { what: "reactor"@, error: e }),
        startup_next(StartupView::Bind { feed }, StartupEventView::Done(Err(e))) == (
        StartupView::Exit { what: "bind @"@ + SOCKET@, error: e }),
        startup_next(
            StartupView::AddSource { feed: Feed::Source(source) },
            StartupEventView::Registered(Err(e)),
        ) == (StartupView::Panic { what: "add source"@, error: e }),
        startup_next(
            StartupView::AddSource { feed: Feed::Messages(fd) },
            StartupEventView::Registered(Err(e)),
        ) == (StartupView::Panic { what: "add uevent"@, error: e }),
        startup_next(
            StartupView::AddListener { feed, source_token: token },
            StartupEventView::Registered(Err(e)),
        ) == (StartupView::Panic { what: "add listener"@, error: e }),
        forall|state: StartupView| #[trigger] exit_code_of(state) == (if state is Exit {
            Some(1i32)
        } else {
            None
        }),
{
    reveal_strlit("bind @");
    reveal_strlit("coreshift_batterystats");
    reveal_strlit("bind @coreshift_batterystats");
    assert("bind @coreshift_batterystats"@ =~= "bind @"@ + SOCKET@);
}

/// Once all that it needs is open and registered, the daemon runs on the feed it
/// opened, under the tokens it was given, with the level that the capacity file
/// holds as the one last heard of and without consumers.
pub proof fn law_a_started_daemon_has_what_it_opened(answers: StartupAnswers)
    requires
        answers.reactor is Ok,
        answers.bound is Ok,
        answers.source_token is Ok,
        answers.listener_token is Ok,
    ensures
        ({
            let state = startup_run(StartupView::OpenSource(OpenStep::InitInotify), answers, 11);
            let has_inotify = answers.open.inotify is Ok && answers.open.capacity is Ok;
            has_inotify || answers.open.uevent is Ok ==> {
                &&& state is Ready
                &&& state->Ready_daemon.feed == Feed::Source(
                    if has_inotify {
                        BatterySource::Inotify(answers.open.inotify->Ok_0)
                    } else {
                        BatterySource::Uevent(answers.open.uevent->Ok_0)
                    },
                )
                &&& state->Ready_daemon.source_token == answers.source_token->Ok_0
                &&& state->Ready_daemon.listener_token == answers.listener_token->Ok_0
                &&& state->Ready_daemon.last_level == level_of(answers.level)
                &&& state->Ready_daemon.watchers == Map::<u64, UnixStreamFd>::empty()
            }
        }),
        ({
            let state = startup_run(StartupView::OpenReactor { opened: None }, answers, 9);
            answers.messages is Ok ==> {
                &&& state is Ready
                &&& state->Ready_daemon.feed == Feed::Messages(answers.messages->Ok_0)
                &&& state->Ready_daemon.source_token == answers.source_token->Ok_0
                &&& state->Ready_daemon.listener_token == answers.listener_token->Ok_0
                &&& state->Ready_daemon.last_level == level_of(answers.level)
                &&& state->Ready_daemon.watchers == Map::<u64, UnixStreamFd>::empty()
            }
        }),
{
    law_source_daemon_starts(answers);
    law_message_daemon_starts(answers);
    law_open_prefers_inotify(answers.open);
}

/// An outcome of another call than the one that was due changes nothing.
pub proof fn law_stray_outcomes_leave_the_start_alone(state: StartupView, event: StartupEventView)
    requires
        !(state is OpenSource && event is Open),
        !((state is OpenReactor || state is Bind) && event is Done),
        !(state is OpenMessages && event is Messages),
        !((state is AddSource || state is AddListener) && event is Registered),
        !((state is ReadLevel || state is ReadStatus || state is ReadProperty) && event is Text),
        !(state is Publish && event is Performed),
    ensures
        startup_next(state, event) == state,
{
}

/// A state of the start shows all that it holds.
pub proof fn law_startup_states_show_everything(
    step: OpenStep,
    opened: Option<Feed>,
    feed: Feed,
    source_token: u64,
    listener_token: u64,
    daemon: Daemon,
    status: String,
    what: &'static str,
    error: CoreError,
)
    ensures
        Startup::OpenSource(step)@ == StartupView::OpenSource(step),
        (Startup::OpenReactor { opened })@ == (StartupView::OpenReactor { opened }),
        Startup::OpenMessages@ is OpenMessages,
        (Startup::Bind { feed })@ == (StartupView::Bind { feed }),
        (Startup::AddSource { feed })@ == (StartupView::AddSource { feed }),
        (Startup::AddListener { feed, source_token })@ == (StartupView::AddListener {
            feed,
            source_token,
        }),
        (Startup::ReadLevel { feed, source_token, listener_token })@ == (StartupView::ReadLevel {
            feed,
            source_token,
            listener_token,
        }),
        (Startup::ReadStatus { daemon })@ == (StartupView::ReadStatus { daemon: daemon@ }),
        (Startup::ReadProperty { daemon })@ == (StartupView::ReadProperty { daemon: daemon@ }),
        (Startup::Publish { daemon, status })@ == (StartupView::Publish {
            daemon: daemon@,
            status: status@,
        }),
        (Startup::Ready { daemon })@ == (StartupView::Ready { daemon: daemon@ }),
        (Startup::Exit { what, error })@ == (StartupView::Exit { what: what@, error }),
        (Startup::Panic { what, error })@ == (StartupView::Panic { what: what@, error }),
{
}

/// An outcome of a call of the start shows all that it holds.
pub proof fn law_startup_events_show_everything(
    event: OpenEvent,
    messages: Result<Fd, CoreError>,
    done: Result<(), CoreError>,
    registered: Result<u64, CoreError>,
    text: Option<String>,
)
    ensures
        StartupEvent::Open(event)@ == StartupEventView::Open(event),
        StartupEvent::Messages(messages)@ == StartupEventView::Messages(messages),
        StartupEvent::Done(done)@ == StartupEventView::Done(done),
        StartupEvent::Registered(registered)@ == StartupEventView::Registered(registered),
        StartupEvent::Text(text)@ == StartupEventView::Text(chars_of(text)),
        StartupEvent::Performed@ is Performed,
{
}

} // verus!
