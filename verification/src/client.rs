//! The commands that talk to a running daemon: watching the level, asking for
//! it once, and stopping the daemon.
//!
//! Each command is a value that names the call to make next; a function of the
//! same name takes its outcome to the next one.

use crate::battery::chars_of;
use crate::battery::level_line;
use crate::errors::CommandError;
use crate::text::decimal;
use crate::text::int_of;
use crate::text::is_white_space;
use crate::text::law_decimal_reads_back;
use crate::text::law_decimal_survives_trim;
use crate::text::law_trim_takes_the_surroundings;
use crate::text::parse_i32;
use crate::text::signed_decimal;
use crate::text::trim;
use crate::text::trimmed;
use coreshift_core::unix_socket::UnixStreamFd;
use coreshift_core::CoreError;
use vstd::prelude::*;

verus! {

/// How many bytes are read from the daemon at once.
pub const READ_LIMIT: usize = 64;

/// How many readiness events a watching consumer takes at once.
pub const WATCH_EVENTS: usize = 1;

/// The wait for readiness has no time limit.
pub const WATCH_TIMEOUT: i32 = -1;

/// How long a daemon may take to stop, in nanoseconds.
pub const STOP_LIMIT_NANOS: u128 = 3_000_000_000;

/// The pause between two looks at the PID file, in milliseconds.
pub const STOP_PAUSE_MILLIS: u64 = 100;

/// A connection to the daemon, as soon as it is begun.
pub enum Connection {
    /// It stands.
    Connected(UnixStreamFd),
    /// It is still being made.
    InProgress(UnixStreamFd),
}

/// The stream of a connection that stands at once.
pub open spec fn settled(dialed: Result<Connection, CoreError>) -> Result<
    UnixStreamFd,
    CommandError,
> {
    match dialed {
        Ok(Connection::Connected(stream)) => Ok(stream),
        Ok(Connection::InProgress(_)) => Err(CommandError::InProgress),
        Err(e) => Err(CommandError::Core(e)),
    }
}

/// Takes the stream out of a connection to [`crate::config::SOCKET`].
pub fn connect(dialed: Result<Connection, CoreError>) -> (r: Result<UnixStreamFd, CommandError>)
    ensures
        r == settled(dialed),
{
    match dialed {
        Ok(Connection::Connected(stream)) => Ok(stream),
        Ok(Connection::InProgress(_)) => Err(CommandError::InProgress),
        Err(e) => Err(CommandError::Core(e)),
    }
}

/// Takes the stream out of a connection to [`crate::config::SOCKET`] that was
/// made under the name [`crate::config::SOCKET_WATCHER`].
pub fn connect_as_consumer(dialed: Result<Connection, CoreError>) -> (r: Result<
    UnixStreamFd,
    CommandError,
>)
    ensures
        r == settled(dialed),
{
    connect(dialed)
}

/// The outcome of a call of a consumer.
pub enum ClientEvent {
    /// Of connecting.
    Dialed(Result<Connection, CoreError>),
    /// Of creating the reactor.
    Opened(Result<(), CoreError>),
    /// Of registering the stream: the token.
    Registered(Result<u64, CoreError>),
    /// Of waiting: the tokens that are ready.
    Woken(Result<Vec<u64>, CoreError>),
    /// Of reading: what came, nothing at the end, or that the read would block.
    Received(Result<Option<Vec<u8>>, CoreError>),
    /// Of printing.
    Printed(Result<(), std::io::Error>),
    /// Of a call whose outcome does not matter.
    Performed,
}

/// A [`ClientEvent`] with its lists as sequences.
#[verifier::ext_equal]
pub enum ClientEventView {
    Dialed(Result<Connection, CoreError>),
    Opened(Result<(), CoreError>),
    Registered(Result<u64, CoreError>),
    Woken(Result<Seq<u64>, CoreError>),
    Received(Result<Option<Seq<u8>>, CoreError>),
    Printed(Result<(), std::io::Error>),
    Performed,
}

impl View for ClientEvent {
    type V = ClientEventView;

    open spec fn view(&self) -> ClientEventView {
        match *self {
            ClientEvent::Dialed(r) => ClientEventView::Dialed(r),
            ClientEvent::Opened(r) => ClientEventView::Opened(r),
            ClientEvent::Registered(r) => ClientEventView::Registered(r),
            ClientEvent::Woken(Ok(tokens)) => ClientEventView::Woken(Ok(tokens@)),
            ClientEvent::Woken(Err(e)) => ClientEventView::Woken(Err(e)),
            ClientEvent::Received(Ok(Some(bytes))) => ClientEventView::Received(Ok(Some(bytes@))),
            ClientEvent::Received(Ok(None)) => ClientEventView::Received(Ok(None)),
            ClientEvent::Received(Err(e)) => ClientEventView::Received(Err(e)),
            ClientEvent::Printed(r) => ClientEventView::Printed(r),
            ClientEvent::Performed => ClientEventView::Performed,
        }
    }
}

/// The next call of watching. It starts with [`Watch::Connect`].
pub enum Watch {
    /// Connect to the daemon as a consumer.
    Connect,
    /// Create a reactor.
    OpenReactor { stream: UnixStreamFd },
    /// Register the stream for reading.
    Register { stream: UnixStreamFd },
    /// Wait for at most [`WATCH_EVENTS`] readiness events.
    Wait { stream: UnixStreamFd, token: u64 },
    /// Read at most [`READ_LIMIT`] bytes; `left` more reads are due after it.
    Read { stream: UnixStreamFd, token: u64, left: usize },
    /// Print the bytes.
    Print { stream: UnixStreamFd, token: u64, left: usize, bytes: Vec<u8> },
    /// Return.
    Return(Result<(), CommandError>),
}

/// A [`Watch`] with its bytes as a sequence.
#[verifier::ext_equal]
pub enum WatchView {
    Connect,
    OpenReactor { stream: UnixStreamFd },
    Register { stream: UnixStreamFd },
    Wait { stream: UnixStreamFd, token: u64 },
    Read { stream: UnixStreamFd, token: u64, left: nat },
    Print { stream: UnixStreamFd, token: u64, left: nat, bytes: Seq<u8> },
    Return(Result<(), CommandError>),
}

impl View for Watch {
    type V = WatchView;

    open spec fn view(&self) -> WatchView {
        match *self {
            Watch::Connect => WatchView::Connect,
            Watch::OpenReactor { stream } => WatchView::OpenReactor { stream },
            Watch::Register { stream } => WatchView::Register { stream },
            Watch::Wait { stream, token } => WatchView::Wait { stream, token },
            Watch::Read { stream, token, left } => WatchView::Read {
                stream,
                token,
                left: left as nat,
            },
            Watch::Print { stream, token, left, bytes } => WatchView::Print {
                stream,
                token,
                left: left as nat,
                bytes: bytes@,
            },
            Watch::Return(r) => WatchView::Return(r),
        }
    }
}

/// The state in which `due` reads are due.
pub open spec fn reads_due(stream: UnixStreamFd, token: u64, due: nat) -> WatchView {
    if due == 0 {
        WatchView::Wait { stream, token }
    } else {
        WatchView::Read { stream, token, left: (due - 1) as nat }
    }
}

/// Where the outcome `event` leads from `state`. An outcome that does not belong
/// to the state changes nothing.
pub open spec fn watch_next(state: WatchView, event: ClientEventView) -> WatchView {
    match (state, event) {
        (WatchView::Connect, ClientEventView::Dialed(dialed)) => match settled(dialed) {
            Ok(stream) => WatchView::OpenReactor { stream },
            Err(_) => WatchView::Return(Err(CommandError::NotRunning)),
        },
        (WatchView::OpenReactor { stream }, ClientEventView::Opened(opened)) => match opened {
            Ok(_) => WatchView::Register { stream },
            Err(e) => WatchView::Return(Err(CommandError::Core(e))),
        },
        (WatchView::Register { stream }, ClientEventView::Registered(registered)) =>
            match registered {
                Ok(token) => WatchView::Wait { stream, token },
                Err(e) => WatchView::Return(Err(CommandError::Core(e))),
            },
        (WatchView::Wait { stream, token }, ClientEventView::Woken(woken)) => match woken {
            Ok(tokens) => reads_due(stream, token, tokens.filter(|t: u64| t == token).len()),
            Err(e) => WatchView::Return(Err(CommandError::Core(e))),
        },
        (WatchView::Read { stream, token, left }, ClientEventView::Received(received)) =>
            match received {
                Ok(Some(bytes)) => if bytes.len() == 0 {
                    WatchView::Return(Ok(()))
                } else {
                    WatchView::Print { stream, token, left, bytes }
                },
                Ok(None) => WatchView::Return(Ok(())),
                Err(e) => WatchView::Return(Err(CommandError::Core(e))),
            },
        (WatchView::Print { stream, token, left, .. }, ClientEventView::Printed(printed)) =>
            match printed {
                Ok(_) => reads_due(stream, token, left),
                Err(e) => WatchView::Return(Err(CommandError::Output(e))),
            },
        _ => state,
    }
}

fn with_reads_due(stream: UnixStreamFd, token: u64, due: usize) -> (r: Watch)
    ensures
        r@ == reads_due(stream, token, due as nat),
{
    if due == 0 {
        Watch::Wait { stream, token }
    } else {
        Watch::Read { stream, token, left: due - 1 }
    }
}

fn count(tokens: &Vec<u64>, token: u64) -> (r: usize)
    ensures
        r == tokens@.filter(|t: u64| t == token).len(),
{
    let ghost mine = |t: u64| t == token;
    let mut r: usize = 0;
    let mut i: usize = 0;
    assert(tokens@.take(0).filter(mine).len() == 0) by {
        reveal(Seq::filter);
    }
    while i < tokens.len()
        invariant
            r <= i <= tokens.len(),
            mine == |t: u64| t == token,
            r == tokens@.take(i as int).filter(mine).len(),
        decreases tokens.len() - i,
    {
        assert(tokens@.take(i + 1) =~= tokens@.take(i as int).push(tokens@[i as int]));
        proof {
            tokens@.take(i as int).lemma_filter_len_push(mine, tokens@[i as int]);
        }
        if tokens[i] == token {
            r += 1;
        }
        i += 1;
    }
    assert(tokens@.take(tokens.len() as int) =~= tokens@);
    r
}

/// Takes the outcome of one call of watching to the next call.
pub fn cmd_watch(state: Watch, event: ClientEvent) -> (r: Watch)
    ensures
        r@ == watch_next(state@, event@),
{
    match (state, event) {
        (Watch::Connect, ClientEvent::Dialed(dialed)) => match connect_as_consumer(dialed) {
            Ok(stream) => Watch::OpenReactor { stream },
            Err(_) => Watch::Return(Err(CommandError::NotRunning)),
        },
        (Watch::OpenReactor { stream }, ClientEvent::Opened(opened)) => match opened {
            Ok(_) => Watch::Register { stream },
            Err(e) => Watch::Return(Err(CommandError::Core(e))),
        },
        (Watch::Register { stream }, ClientEvent::Registered(registered)) => match registered {
            Ok(token) => Watch::Wait { stream, token },
            Err(e) => Watch::Return(Err(CommandError::Core(e))),
        },
        (Watch::Wait { stream, token }, ClientEvent::Woken(woken)) => match woken {
            Ok(tokens) => with_reads_due(stream, token, count(&tokens, token)),
            Err(e) => Watch::Return(Err(CommandError::Core(e))),
        },
        (Watch::Read { stream, token, left }, ClientEvent::Received(received)) => match received {
            Ok(Some(bytes)) => if bytes.len() == 0 {
                Watch::Return(Ok(()))
            } else {
                Watch::Print { stream, token, left, bytes }
            },
            Ok(None) => Watch::Return(Ok(())),
            Err(e) => Watch::Return(Err(CommandError::Core(e))),
        },
        (Watch::Print { stream, token, left, .. }, ClientEvent::Printed(printed)) =>
            match printed {
                Ok(_) => with_reads_due(stream, token, left),
                Err(e) => Watch::Return(Err(CommandError::Output(e))),
            },
        (state, _) => state,
    }
}

/// The next call of asking for the level. It starts with [`Status::Connect`].
pub enum Status {
    /// Connect to the daemon.
    Connect,
    /// Read at most [`READ_LIMIT`] bytes.
    Read { stream: UnixStreamFd },
    /// Print the bytes.
    Print(Vec<u8>),
    /// Print the line.
    Report(&'static str),
    /// Return.
    Return(Result<(), CommandError>),
}

/// A [`Status`] with its texts as sequences.
#[verifier::ext_equal]
pub enum StatusView {
    Connect,
    Read { stream: UnixStreamFd },
    Print(Seq<u8>),
    Report(Seq<char>),
    Return(Result<(), CommandError>),
}

impl View for Status {
    type V = StatusView;

    open spec fn view(&self) -> StatusView {
        match *self {
            Status::Connect => StatusView::Connect,
            Status::Read { stream } => StatusView::Read { stream },
            Status::Print(bytes) => StatusView::Print(bytes@),
            Status::Report(line) => StatusView::Report(line@),
            Status::Return(r) => StatusView::Return(r),
        }
    }
}

/// Where the outcome `event` leads from `state`. An outcome that does not belong
/// to the state changes nothing.
pub open spec fn status_next(state: StatusView, event: ClientEventView) -> StatusView {
    match (state, event) {
        (StatusView::Connect, ClientEventView::Dialed(dialed)) => match settled(dialed) {
            Ok(stream) => StatusView::Read { stream },
            Err(_) => StatusView::Return(Err(CommandError::NotRunning)),
        },
        (StatusView::Read { .. }, ClientEventView::Received(received)) => match received {
            Ok(Some(bytes)) => if bytes.len() > 0 {
                StatusView::Print(bytes)
            } else {
                StatusView::Report("no data"@)
            },
            Ok(None) => StatusView::Report("no data"@),
            Err(e) => StatusView::Return(Err(CommandError::Core(e))),
        },
        (StatusView::Print(_), ClientEventView::Printed(printed)) => match printed {
            Ok(_) => StatusView::Return(Ok(())),
            Err(e) => StatusView::Return(Err(CommandError::Output(e))),
        },
        (StatusView::Report(_), ClientEventView::Performed) => StatusView::Return(Ok(())),
        _ => state,
    }
}

/// Takes the outcome of one call of asking for the level to the next call.
pub fn cmd_status(state: Status, event: ClientEvent) -> (r: Status)
    ensures
        r@ == status_next(state@, event@),
{
    match (state, event) {
        (Status::Connect, ClientEvent::Dialed(dialed)) => match connect(dialed) {
            Ok(stream) => Status::Read { stream },
            Err(_) => Status::Return(Err(CommandError::NotRunning)),
        },
        (Status::Read { .. }, ClientEvent::Received(received)) => match received {
            Ok(Some(bytes)) => if bytes.len() > 0 {
                Status::Print(bytes)
            } else {
                Status::Report("no data")
            },
            Ok(None) => Status::Report("no data"),
            Err(e) => Status::Return(Err(CommandError::Core(e))),
        },
        (Status::Print(_), ClientEvent::Printed(printed)) => match printed {
            Ok(_) => Status::Return(Ok(())),
            Err(e) => Status::Return(Err(CommandError::Output(e))),
        },
        (Status::Report(_), ClientEvent::Performed) => Status::Return(Ok(())),
        (state, _) => state,
    }
}

/// The next call of stopping the daemon. It starts with [`Stop::ReadPid`].
pub enum Stop {
    /// Read the PID file.
    ReadPid,
    /// Send [`crate::supervisor::TERM_SIGNAL`] to the process, then start a clock.
    Terminate { pid: i32 },
    /// Look whether the PID file exists, and at the clock.
    Look,
    /// Sleep.
    Pause { millis: u64 },
    /// Look whether the PID file exists.
    LookAgain,
    /// Print the line.
    Report(&'static str),
    /// Return.
    Return(Result<(), CommandError>),
}

/// A [`Stop`] with its text as characters.
#[verifier::ext_equal]
pub enum StopView {
    ReadPid,
    Terminate { pid: i32 },
    Look,
    Pause { millis: u64 },
    LookAgain,
    Report(Seq<char>),
    Return(Result<(), CommandError>),
}

impl View for Stop {
    type V = StopView;

    open spec fn view(&self) -> StopView {
        match *self {
            Stop::ReadPid => StopView::ReadPid,
            Stop::Terminate { pid } => StopView::Terminate { pid },
            Stop::Look => StopView::Look,
            Stop::Pause { millis } => StopView::Pause { millis },
            Stop::LookAgain => StopView::LookAgain,
            Stop::Report(line) => StopView::Report(line@),
            Stop::Return(r) => StopView::Return(r),
        }
    }
}

/// The outcome of a call of stopping the daemon.
pub enum StopEvent {
    /// Of [`Stop::ReadPid`]: what was there, if it could be read.
    Contents(Option<String>),
    /// Of [`Stop::Look`]: whether the file exists, and the clock.
    Looked { present: bool, nanos: u128 },
    /// Of [`Stop::LookAgain`]: whether the file exists.
    LookedAgain { present: bool },
    /// Of a call whose outcome does not matter.
    Performed,
}

/// A [`StopEvent`] with its text as characters.
#[verifier::ext_equal]
pub enum StopEventView {
    Contents(Option<Seq<char>>),
    Looked { present: bool, nanos: u128 },
    LookedAgain { present: bool },
    Performed,
}

impl View for StopEvent {
    type V = StopEventView;

    open spec fn view(&self) -> StopEventView {
        match *self {
            StopEvent::Contents(text) => StopEventView::Contents(chars_of(text)),
            StopEvent::Looked { present, nanos } => StopEventView::Looked { present, nanos },
            StopEvent::LookedAgain { present } => StopEventView::LookedAgain { present },
            StopEvent::Performed => StopEventView::Performed,
        }
    }
}

/// Where the outcome `event` leads from `state`. An outcome that does not belong
/// to the state changes nothing.
pub open spec fn stop_next(state: StopView, event: StopEventView) -> StopView {
    match (state, event) {
        (StopView::ReadPid, StopEventView::Contents(contents)) => match contents {
            None => StopView::Report("daemon not running (no PID file)"@),
            Some(text) => match int_of(trimmed(text), true, i32::MIN as int, i32::MAX as int) {
                Ok(pid) => StopView::Terminate { pid: pid as i32 },
                Err(e) => StopView::Return(Err(CommandError::Pid(e))),
            },
        },
        (StopView::Terminate { .. }, StopEventView::Performed) => StopView::Look,
        (StopView::Look, StopEventView::Looked { present, nanos }) => if present && nanos
            < STOP_LIMIT_NANOS {
            StopView::Pause { millis: STOP_PAUSE_MILLIS }
        } else {
            StopView::LookAgain
        },
        (StopView::Pause { .. }, StopEventView::Performed) => StopView::Look,
        (StopView::LookAgain, StopEventView::LookedAgain { present }) => if present {
            StopView::Report("warning: PID file still exists after SIGTERM"@)
        } else {
            StopView::Report("daemon stopped"@)
        },
        (StopView::Report(_), StopEventView::Performed) => StopView::Return(Ok(())),
        _ => state,
    }
}

/// Takes the outcome of one call of stopping the daemon to the next call.
pub fn cmd_stop(state: Stop, event: StopEvent) -> (r: Stop)
    ensures
        r@ == stop_next(state@, event@),
{
    match (state, event) {
        (Stop::ReadPid, StopEvent::Contents(contents)) => match contents {
            None => Stop::Report("daemon not running (no PID file)"),
            Some(text) => match parse_i32(trim(text.as_str())) {
                Ok(pid) => Stop::Terminate { pid },
                Err(e) => Stop::Return(Err(CommandError::Pid(e))),
            },
        },
        (Stop::Terminate { .. }, StopEvent::Performed) => Stop::Look,
        (Stop::Look, StopEvent::Looked { present, nanos }) => if present && nanos
            < STOP_LIMIT_NANOS {
            Stop::Pause { millis: STOP_PAUSE_MILLIS }
        } else {
            Stop::LookAgain
        },
        (Stop::Pause { .. }, StopEvent::Performed) => Stop::Look,
        (Stop::LookAgain, StopEvent::LookedAgain { present }) => if present {
            Stop::Report("warning: PID file still exists after SIGTERM")
        } else {
            Stop::Report("daemon stopped")
        },
        (Stop::Report(_), StopEvent::Performed) => Stop::Return(Ok(())),
        (state, _) => state,
    }
}

/// Where the outcomes `events`, one after the other, lead from `state`.
pub open spec fn watch_run(state: WatchView, events: Seq<ClientEventView>) -> WatchView
    decreases events.len(),
{
    if events.len() == 0 {
        state
    } else {
        watch_run(watch_next(state, events.first()), events.drop_first())
    }
}

/// The bytes that are printed on the way.
pub open spec fn watch_output(state: WatchView, events: Seq<ClientEventView>) -> Seq<u8>
    decreases events.len(),
{
    if events.len() == 0 {
        Seq::empty()
    } else {
        let printed = match (state, events.first()) {
            (WatchView::Print { bytes, .. }, ClientEventView::Printed(Ok(_))) => bytes,
            _ => Seq::empty(),
        };
        printed + watch_output(watch_next(state, events.first()), events.drop_first())
    }
}

/// The outcomes of the calls that the arrival of `chunk` takes.
pub open spec fn chunk_events(token: u64, chunk: Seq<u8>) -> Seq<ClientEventView> {
    seq![
        ClientEventView::Woken(Ok(seq![token])),
        ClientEventView::Received(Ok(Some(chunk))),
        ClientEventView::Printed(Ok(())),
    ]
}

/// The outcomes of the calls that the arrival of `chunks`, one after the other,
/// takes.
pub open spec fn chunks_events(token: u64, chunks: Seq<Seq<u8>>) -> Seq<ClientEventView>
    decreases chunks.len(),
{
    if chunks.len() == 0 {
        Seq::empty()
    } else {
        chunk_events(token, chunks.first()) + chunks_events(token, chunks.drop_first())
    }
}

proof fn lemma_woken(stream: UnixStreamFd, token: u64)
    ensures
        watch_next(
            WatchView::Wait { stream, token },
            ClientEventView::Woken(Ok(seq![token])),
        ) == (WatchView::Read { stream, token, left: 0 }),
{
    let mine = |t: u64| t == token;
    assert(seq![token].filter(mine).len() == 1) by {
        reveal(Seq::filter);
        assert(seq![token].drop_last() =~= Seq::<u64>::empty());
        assert(seq![token].drop_last().filter(mine).len() == 0);
    }
}

/// A watching consumer prints what the daemon sends, all of it, in order, and
/// nothing else, and goes on waiting.
pub proof fn law_watch_prints_what_is_sent(
    stream: UnixStreamFd,
    token: u64,
    chunks: Seq<Seq<u8>>,
)
    requires
        forall|i: int| 0 <= i < chunks.len() ==> (#[trigger] chunks[i]).len() > 0,
    ensures
        watch_output(WatchView::Wait { stream, token }, chunks_events(token, chunks))
            == chunks.flatten(),
        watch_run(WatchView::Wait { stream, token }, chunks_events(token, chunks)) == (
        WatchView::Wait { stream, token }),
    decreases chunks.len(),
{
    let wait = WatchView::Wait { stream, token };
    let events = chunks_events(token, chunks);
    if chunks.len() > 0 {
        let chunk = chunks.first();
        let rest = chunks_events(token, chunks.drop_first());
        assert forall|i: int| 0 <= i < chunks.drop_first().len() implies (
        #[trigger] chunks.drop_first()[i]).len() > 0 by {
            assert(chunks.drop_first()[i] == chunks[i + 1]);
        }
        law_watch_prints_what_is_sent(stream, token, chunks.drop_first());
        let e1 = events.drop_first();
        let e2 = e1.drop_first();
        assert(e2.drop_first() =~= rest);
        assert(chunks[0].len() > 0);
        lemma_woken(stream, token);
        let read = WatchView::Read { stream, token, left: 0 };
        let print = WatchView::Print { stream, token, left: 0, bytes: chunk };
        assert(watch_next(wait, events.first()) == read);
        assert(watch_next(read, e1.first()) == print);
        assert(watch_next(print, e2.first()) == wait);
        assert(watch_run(print, e2) == watch_run(wait, rest));
        assert(watch_run(read, e1) == watch_run(print, e2));
        assert(watch_output(print, e2) =~= chunk + watch_output(wait, rest));
        assert(watch_output(read, e1) =~= watch_output(print, e2));
        assert(watch_output(wait, events) =~= watch_output(read, e1));
    }
}

/// The end of the stream, like a read that would block, ends watching without an
/// error. Events of other descriptors change nothing.
pub proof fn law_watch_ends_with_the_stream(
    stream: UnixStreamFd,
    token: u64,
    left: nat,
    others: Seq<u64>,
)
    ensures
        watch_next(
            WatchView::Read { stream, token, left },
            ClientEventView::Received(Ok(None)),
        ) == WatchView::Return(Ok(())),
        watch_next(
            WatchView::Read { stream, token, left },
            ClientEventView::Received(Ok(Some(Seq::empty()))),
        ) == WatchView::Return(Ok(())),
        !others.contains(token) ==> watch_next(
            WatchView::Wait { stream, token },
            ClientEventView::Woken(Ok(others)),
        ) == (WatchView::Wait { stream, token }),
{
    let mine = |t: u64| t == token;
    let found = others.filter(mine);
    if found.len() > 0 {
        others.lemma_filter_pred(mine, 0);
        others.lemma_filter_contains_rev(mine, found[0]);
    }
}

proof fn lemma_level_line_length(level: u8)
    ensures
        2 <= level_line(level).len() <= 4,
        vstd::utf8::is_ascii_chars(level_line(level)),
{
    reveal_with_fuel(decimal, 3);
    assert forall|i: int| 0 <= i < level_line(level).len() implies 0 <= (
    #[trigger] level_line(level)[i]) as nat <= 127 by {}
}

/// The line about a level fits into one read, so that asking for the level prints
/// all of it.
pub proof fn law_status_prints_the_whole_line(stream: UnixStreamFd, level: u8)
    ensures
        ({
            let line = vstd::utf8::encode_utf8(level_line(level));
            &&& line.len() <= READ_LIMIT
            &&& status_next(
                StatusView::Read { stream },
                ClientEventView::Received(Ok(Some(line))),
            ) == StatusView::Print(line)
        }),
{
    lemma_level_line_length(level);
    vstd::utf8::is_ascii_chars_encode_utf8(level_line(level));
}

/// Whatever PID the supervisor recorded, stopping sends the signal to that
/// process, also where a line break follows the number.
pub proof fn law_stop_signals_the_recorded_process(pid: i32)
    ensures
        stop_next(
            StopView::ReadPid,
            StopEventView::Contents(Some(signed_decimal(pid as int))),
        ) == (StopView::Terminate { pid }),
        stop_next(
            StopView::ReadPid,
            StopEventView::Contents(Some(signed_decimal(pid as int).push('\n'))),
        ) == (StopView::Terminate { pid }),
{
    law_decimal_survives_trim(pid as int);
    law_decimal_reads_back(pid as int, true, i32::MIN as int, i32::MAX as int);
}

/// Stopping ends its wait as soon as the PID file is gone, and after three seconds
/// at the latest. It says that the daemon stopped exactly where the file is gone
/// in the end.
pub proof fn law_stop_waits_no_longer_than_needed(present: bool, nanos: u128)
    ensures
        (stop_next(StopView::Look, StopEventView::Looked { present, nanos }) is LookAgain) <==> (
        !present || nanos >= STOP_LIMIT_NANOS),
        stop_next(StopView::LookAgain, StopEventView::LookedAgain { present }) == StopView::Report(
            "daemon stopped"@,
        ) <==> !present,
{
    reveal_strlit("daemon stopped");
    reveal_strlit("warning: PID file still exists after SIGTERM");
    assert("daemon stopped"@.len() != "warning: PID file still exists after SIGTERM"@.len());
}

/// A connection gives its stream where it stands at once; one that is still being
/// made is an error of its own, and one that failed that of the system.
pub proof fn law_only_a_connection_that_stands_gives_a_stream(stream: UnixStreamFd, e: CoreError)
    ensures
        settled(Ok(Connection::Connected(stream))) == Ok::<UnixStreamFd, CommandError>(stream),
        settled(Ok(Connection::InProgress(stream))) == Err::<UnixStreamFd, CommandError>(
            CommandError::InProgress,
        ),
        settled(Err(e)) == Err::<UnixStreamFd, CommandError>(CommandError::Core(e)),
{
}

/// Watching connects, creates a reactor, registers the stream and then waits.
/// Without a connection that stands at once it says that the daemon is not
/// running; any other failure is handed on.
pub proof fn law_watching_begins(
    dialed: Result<Connection, CoreError>,
    stream: UnixStreamFd,
    opened: Result<(), CoreError>,
    registered: Result<u64, CoreError>,
    token: u64,
    e: CoreError,
)
    ensures
        watch_next(WatchView::Connect, ClientEventView::Dialed(dialed)) == (match dialed {
            Ok(Connection::Connected(stream)) => WatchView::OpenReactor { stream },
            _ => WatchView::Return(Err(CommandError::NotRunning)),
        }),
        watch_next(WatchView::OpenReactor { stream }, ClientEventView::Opened(opened)) == (
        match opened {
            Ok(_) => WatchView::Register { stream },
            Err(e) => WatchView::Return(Err(CommandError::Core(e))),
        }),
        watch_next(WatchView::Register { stream }, ClientEventView::Registered(registered)) == (
        match registered {
            Ok(token) => WatchView::Wait { stream, token },
            Err(e) => WatchView::Return(Err(CommandError::Core(e))),
        }),
        watch_next(WatchView::Wait { stream, token }, ClientEventView::Woken(Err(e)))
            == WatchView::Return(Err(CommandError::Core(e))),
{
}

/// A failure to read or to print ends watching and is handed on.
pub proof fn law_failures_end_watching(
    stream: UnixStreamFd,
    token: u64,
    left: nat,
    bytes: Seq<u8>,
    e: CoreError,
    output: std::io::Error,
)
    ensures
        watch_next(
            WatchView::Read { stream, token, left },
            ClientEventView::Received(Err(e)),
        ) == WatchView::Return(Err(CommandError::Core(e))),
        watch_next(
            WatchView::Print { stream, token, left, bytes },
            ClientEventView::Printed(Err(output)),
        ) == WatchView::Return(Err(CommandError::Output(output))),
{
}

/// The outcomes of the calls that read and print `chunks`, one after the other.
pub open spec fn reads_events(chunks: Seq<Seq<u8>>) -> Seq<ClientEventView>
    decreases chunks.len(),
{
    if chunks.len() == 0 {
        Seq::empty()
    } else {
        seq![
            ClientEventView::Received(Ok(Some(chunks.first()))),
            ClientEventView::Printed(Ok(())),
        ] + reads_events(chunks.drop_first())
    }
}

proof fn lemma_count_of(tokens: Seq<u64>, token: u64)
    ensures
        tokens.filter(|t: u64| t == token).len() == tokens.to_multiset().count(token),
    decreases tokens.len(),
{
    let mine = |t: u64| t == token;
    if tokens.len() == 0 {
        reveal(Seq::filter);
        tokens.to_multiset_ensures();
        assert(!tokens.contains(token));
    } else {
        let before = tokens.drop_last();
        lemma_count_of(before, token);
        before.lemma_filter_len_push(mine, tokens.last());
        before.to_multiset_ensures();
        assert(before.push(tokens.last()) =~= tokens);
    }
}

proof fn lemma_reads(stream: UnixStreamFd, token: u64, due: nat, chunks: Seq<Seq<u8>>)
    requires
        chunks.len() <= due,
        forall|i: int| 0 <= i < chunks.len() ==> (#[trigger] chunks[i]).len() > 0,
    ensures
        watch_run(reads_due(stream, token, due), reads_events(chunks)) == reads_due(
            stream,
            token,
            (due - chunks.len()) as nat,
        ),
        watch_output(reads_due(stream, token, due), reads_events(chunks)) == chunks.flatten(),
    decreases chunks.len(),
{
    if chunks.len() > 0 {
        let events = reads_events(chunks);
        let chunk = chunks.first();
        let left = (due - 1) as nat;
        let rest = reads_events(chunks.drop_first());
        assert forall|i: int| 0 <= i < chunks.drop_first().len() implies (
        #[trigger] chunks.drop_first()[i]).len() > 0 by {
            assert(chunks.drop_first()[i] == chunks[i + 1]);
        }
        lemma_reads(stream, token, left, chunks.drop_first());
        let e1 = events.drop_first();
        assert(e1.drop_first() =~= rest);
        assert(chunks[0].len() > 0);
        let read = reads_due(stream, token, due);
        let print = WatchView::Print { stream, token, left, bytes: chunk };
        assert(watch_next(read, events.first()) == print);
        assert(watch_next(print, e1.first()) == reads_due(stream, token, left));
        assert(watch_run(print, e1) == watch_run(reads_due(stream, token, left), rest));
        assert(watch_run(read, events) == watch_run(print, e1));
        assert(watch_output(print, e1) =~= chunk + watch_output(
            reads_due(stream, token, left),
            rest,
        ));
        assert(watch_output(read, events) =~= watch_output(print, e1));
    }
}

/// After a wakeup there is one read for each time that the stream is among the
/// ready, however many others are: what the reads give is printed, in order, and
/// only after the last of them does watching wait again.
pub proof fn law_one_read_for_each_own_event(
    stream: UnixStreamFd,
    token: u64,
    tokens: Seq<u64>,
    chunks: Seq<Seq<u8>>,
)
    requires
        chunks.len() <= tokens.to_multiset().count(token),
        forall|i: int| 0 <= i < chunks.len() ==> (#[trigger] chunks[i]).len() > 0,
    ensures
        ({
            let woken = watch_next(
                WatchView::Wait { stream, token },
                ClientEventView::Woken(Ok(tokens)),
            );
            let after = watch_run(woken, reads_events(chunks));
            &&& watch_output(woken, reads_events(chunks)) == chunks.flatten()
            &&& if chunks.len() == tokens.to_multiset().count(token) {
                after == (WatchView::Wait { stream, token })
            } else {
                after is Read && after->Read_stream == stream && after->Read_token == token
            }
        }),
{
    lemma_count_of(tokens, token);
    lemma_reads(stream, token, tokens.to_multiset().count(token), chunks);
}

/// An outcome of another call than the one that was due changes nothing.
pub proof fn law_stray_outcomes_leave_watching_alone(state: WatchView, event: ClientEventView)
    requires
        !(state is Connect && event is Dialed),
        !(state is OpenReactor && event is Opened),
        !(state is Register && event is Registered),
        !(state is Wait && event is Woken),
        !(state is Read && event is Received),
        !(state is Print && event is Printed),
    ensures
        watch_next(state, event) == state,
{
}

/// Asking for the level connects, reads once and prints what came, or that there
/// is no data where nothing did. Without a connection that stands at once it says
/// that the daemon is not running; any other failure is handed on.
pub proof fn law_asking_prints_what_came(
    dialed: Result<Connection, CoreError>,
    stream: UnixStreamFd,
    received: Result<Option<Seq<u8>>, CoreError>,
    bytes: Seq<u8>,
    printed: Result<(), std::io::Error>,
)
    ensures
        status_next(StatusView::Connect, ClientEventView::Dialed(dialed)) == (match dialed {
            Ok(Connection::Connected(stream)) => StatusView::Read { stream },
            _ => StatusView::Return(Err(CommandError::NotRunning)),
        }),
        ({
            let next = status_next(StatusView::Read { stream }, ClientEventView::Received(received));
            match received {
                Err(e) => next == StatusView::Return(Err(CommandError::Core(e))),
                Ok(None) => next == StatusView::Report("no data"@),
                Ok(Some(bytes)) => if bytes.len() == 0 {
                    next == StatusView::Report("no data"@)
                } else {
                    next == StatusView::Print(bytes)
                },
            }
        }),
        status_next(StatusView::Print(bytes), ClientEventView::Printed(printed)) == (
        match printed {
            Ok(_) => StatusView::Return(Ok(())),
            Err(e) => StatusView::Return(Err(CommandError::Output(e))),
        }),
        status_next(StatusView::Report("no data"@), ClientEventView::Performed)
            == StatusView::Return(Ok(())),
{
}

/// An outcome of another call than the one that was due changes nothing.
pub proof fn law_stray_outcomes_leave_asking_alone(state: StatusView, event: ClientEventView)
    requires
        !(state is Connect && event is Dialed),
        !(state is Read && event is Received),
        !(state is Print && event is Printed),
        !(state is Report && event is Performed),
    ensures
        status_next(state, event) == state,
{
}

/// What the PID file holds without the white space around it decides whom stopping
/// signals: the number it is, where it is one of 32 bits, with what is wrong with
/// it where it is none. Without the file nobody is signalled, and stopping says so.
/// Whatever it says, it returns without an error after it.
pub proof fn law_stop_signals_the_number_in_the_file(
    pre: Seq<char>,
    s: Seq<char>,
    post: Seq<char>,
    line: Seq<char>,
)
    requires
        forall|i: int| 0 <= i < pre.len() ==> is_white_space(#[trigger] pre[i]),
        forall|i: int| 0 <= i < post.len() ==> is_white_space(#[trigger] post[i]),
        s.len() > 0 ==> !is_white_space(s.first()) && !is_white_space(s.last()),
    ensures
        ({
            let next = stop_next(
                StopView::ReadPid,
                StopEventView::Contents(Some(pre + s + post)),
            );
            match int_of(s, true, -2147483648, 2147483647) {
                Ok(n) => next is Terminate && next->pid == n,
                Err(e) => next == StopView::Return(Err(CommandError::Pid(e))),
            }
        }),
        stop_next(StopView::ReadPid, StopEventView::Contents(None)) == StopView::Report(
            "daemon not running (no PID file)"@,
        ),
        stop_next(StopView::Report(line), StopEventView::Performed) == StopView::Return(Ok(())),
{
    law_trim_takes_the_surroundings(pre, s, post);
}

/// Where the outcomes `events`, one after the other, lead from `state`.
pub open spec fn stop_run(state: StopView, events: Seq<StopEventView>) -> StopView
    decreases events.len(),
{
    if events.len() == 0 {
        state
    } else {
        stop_run(stop_next(state, events.first()), events.drop_first())
    }
}

/// The outcomes of the calls while the PID file goes on being there: at each of the
/// `times` a look that finds it, and a pause.
pub open spec fn found_events(times: Seq<u128>) -> Seq<StopEventView>
    decreases times.len(),
{
    if times.len() == 0 {
        Seq::empty()
    } else {
        seq![
            StopEventView::Looked { present: true, nanos: times.first() },
            StopEventView::Performed,
        ] + found_events(times.drop_first())
    }
}

proof fn lemma_stop_runs_on(state: StopView, first: Seq<StopEventView>, rest: Seq<StopEventView>)
    ensures
        stop_run(state, first + rest) == stop_run(stop_run(state, first), rest),
    decreases first.len(),
{
    if first.len() == 0 {
        assert(first + rest =~= rest);
    } else {
        assert((first + rest).first() == first.first());
        assert((first + rest).drop_first() =~= first.drop_first() + rest);
        lemma_stop_runs_on(stop_next(state, first.first()), first.drop_first(), rest);
    }
}

proof fn lemma_stop_looks(times: Seq<u128>)
    requires
        forall|i: int| 0 <= i < times.len() ==> #[trigger] times[i] < 3_000_000_000,
    ensures
        stop_run(StopView::Look, found_events(times)) is Look,
    decreases times.len(),
{
    if times.len() > 0 {
        let events = found_events(times);
        let rest = found_events(times.drop_first());
        assert forall|i: int| 0 <= i < times.drop_first().len() implies
            #[trigger] times.drop_first()[i] < 3_000_000_000 by {
            assert(times.drop_first()[i] == times[i + 1]);
        }
        lemma_stop_looks(times.drop_first());
        let e1 = events.drop_first();
        assert(e1.drop_first() =~= rest);
        assert(times[0] < 3_000_000_000);
        let pause = StopView::Pause { millis: 100 };
        assert(stop_run(StopView::Look, events) == stop_run(pause, e1));
        assert(stop_run(pause, e1) == stop_run(StopView::Look, rest));
    }
}

/// Once the signal is sent, stopping looks at the PID file every tenth of a second,
/// however often, as long as the file is there and three seconds are not over. The
/// first look at which one of these fails is the last of them. Then it looks once
/// more, says that the daemon stopped where the file is gone and warns where it is
/// not, and returns without an error.
pub proof fn law_a_whole_stop(
    pid: i32,
    times: Seq<u128>,
    present: bool,
    nanos: u128,
    still: bool,
)
    requires
        forall|i: int| 0 <= i < times.len() ==> #[trigger] times[i] < 3_000_000_000,
        !present || nanos >= 3_000_000_000,
    ensures
        ({
            let looking = seq![StopEventView::Performed] + found_events(times);
            let done = looking + seq![StopEventView::Looked { present, nanos }];
            let told = done + seq![StopEventView::LookedAgain { present: still }];
            let start = StopView::Terminate { pid };
            &&& stop_run(start, looking) is Look
            &&& stop_run(start, done) is LookAgain
            &&& stop_run(start, told) == StopView::Report(
                if still {
                    "warning: PID file still exists after SIGTERM"@
                } else {
                    "daemon stopped"@
                },
            )
            &&& stop_run(start, told + seq![StopEventView::Performed]) == StopView::Return(Ok(()))
        }),
{
    let performed = seq![StopEventView::Performed];
    let looked = seq![StopEventView::Looked { present, nanos }];
    let again = seq![StopEventView::LookedAgain { present: still }];
    let looking = performed + found_events(times);
    let start = StopView::Terminate { pid };
    reveal_with_fuel(stop_run, 2);
    lemma_stop_looks(times);
    lemma_stop_runs_on(start, performed, found_events(times));
    assert(stop_run(start, performed) is Look);
    lemma_stop_runs_on(start, looking, looked);
    lemma_stop_runs_on(start, looking + looked, again);
    lemma_stop_runs_on(start, looking + looked + again, performed);
}

/// Stopping leaves its looks only for the last one, and enters that one only by a
/// look that did not find the file or came after three seconds. It pauses for a
/// tenth of a second, and only after a look that found the file before that.
pub proof fn law_stop_looks_until_done(state: StopView, event: StopEventView)
    ensures
        ({
            let next = stop_next(state, event);
            &&& next is LookAgain && state !is LookAgain ==> {
                &&& state is Look
                &&& event matches StopEventView::Looked { present, nanos } && (!present || nanos
                    >= 3_000_000_000)
            }
            &&& next is Pause && state !is Pause ==> {
                &&& next == (StopView::Pause { millis: 100 })
                &&& state is Look
                &&& event matches StopEventView::Looked { present, nanos } && present && nanos
                    < 3_000_000_000
            }
            &&& next is Terminate && state !is Terminate ==> state is ReadPid
            &&& next == StopView::Return(Ok(())) && state != next ==> state is Report
        }),
{
}

/// An outcome of another call than the one that was due changes nothing.
pub proof fn law_stray_outcomes_leave_stopping_alone(state: StopView, event: StopEventView)
    requires
        !(state is ReadPid && event is Contents),
        !((state is Terminate || state is Pause || state is Report) && event is Performed),
        !(state is Look && event is Looked),
        !(state is LookAgain && event is LookedAgain),
    ensures
        stop_next(state, event) == state,
{
}

/// A line is read with one read of 64 bytes; watching takes one event at a time and
/// waits without limit.
pub proof fn law_how_consumers_read()
    ensures
        READ_LIMIT == 64,
        WATCH_EVENTS == 1,
        WATCH_TIMEOUT == -1,
        STOP_LIMIT_NANOS == 3_000_000_000,
        STOP_PAUSE_MILLIS == 100,
{
}

/// An outcome of a consumer's call shows all that it holds.
pub proof fn law_client_events_show_everything(
    dialed: Result<Connection, CoreError>,
    opened: Result<(), CoreError>,
    registered: Result<u64, CoreError>,
    tokens: Vec<u64>,
    bytes: Vec<u8>,
    e: CoreError,
    printed: Result<(), std::io::Error>,
    text: Option<String>,
    present: bool,
    nanos: u128,
)
    ensures
        ClientEvent::Dialed(dialed)@ == ClientEventView::Dialed(dialed),
        ClientEvent::Opened(opened)@ == ClientEventView::Opened(opened),
        ClientEvent::Registered(registered)@ == ClientEventView::Registered(registered),
        ClientEvent::Woken(Ok(tokens))@ == ClientEventView::Woken(Ok(tokens@)),
        ClientEvent::Woken(Err(e))@ == ClientEventView::Woken(Err(e)),
        ClientEvent::Received(Ok(Some(bytes)))@ == ClientEventView::Received(Ok(Some(bytes@))),
        ClientEvent::Received(Ok(None))@ == ClientEventView::Received(Ok(None)),
        ClientEvent::Received(Err(e))@ == ClientEventView::Received(Err(e)),
        ClientEvent::Printed(printed)@ == ClientEventView::Printed(printed),
        ClientEvent::Performed@ is Performed,
        StopEvent::Contents(text)@ == StopEventView::Contents(chars_of(text)),
        (StopEvent::Looked { present, nanos })@ == (StopEventView::Looked { present, nanos }),
        (StopEvent::LookedAgain { present })@ == (StopEventView::LookedAgain { present }),
        StopEvent::Performed@ is Performed,
{
}

/// A state of a consumer's command shows all that it holds.
pub proof fn law_client_states_show_everything(
    stream: UnixStreamFd,
    token: u64,
    left: usize,
    bytes: Vec<u8>,
    line: &'static str,
    pid: i32,
    millis: u64,
    r: Result<(), CommandError>,
)
    ensures
        Watch::Connect@ is Connect,
        (Watch::OpenReactor { stream })@ == (WatchView::OpenReactor { stream }),
        (Watch::Register { stream })@ == (WatchView::Register { stream }),
        (Watch::Wait { stream, token })@ == (WatchView::Wait { stream, token }),
        (Watch::Read { stream, token, left })@ == (WatchView::Read {
            stream,
            token,
            left: left as nat,
        }),
        (Watch::Print { stream, token, left, bytes })@ == (WatchView::Print {
            stream,
            token,
            left: left as nat,
            bytes: bytes@,
        }),
        Watch::Return(r)@ == WatchView::Return(r),
        Status::Connect@ is Connect,
        (Status::Read { stream })@ == (StatusView::Read { stream }),
        Status::Print(bytes)@ == StatusView::Print(bytes@),
        Status::Report(line)@ == StatusView::Report(line@),
        Status::Return(r)@ == StatusView::Return(r),
        Stop::ReadPid@ is ReadPid,
        (Stop::Terminate { pid })@ == (StopView::Terminate { pid }),
        Stop::Look@ is Look,
        (Stop::Pause { millis })@ == (StopView::Pause { millis }),
        Stop::LookAgain@ is LookAgain,
        Stop::Report(line)@ == StopView::Report(line@),
        Stop::Return(r)@ == StopView::Return(r),
{
}

} // verus!
