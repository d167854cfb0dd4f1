//! The daemon: it waits for battery news and for consumers, tells every
//! consumer the level when it connects and whenever it changes, and publishes
//! the charge state as a system property.
//!
//! The daemon never makes a system call itself. A [`Phase`] names the call to
//! make next; [`run_daemon`] takes its outcome to the next phase.

use crate::battery::chars_of;
use crate::battery::level_line;
use crate::battery::level_message;
use crate::battery::level_of;
use crate::battery::read_level;
use crate::source::drain_next;
use crate::source::message_view;
use crate::source::BatterySource;
use crate::source::DrainEvent;
use crate::source::DrainEventView;
use crate::source::DrainStep;
use crate::source::DrainStepView;
use coreshift_core::reactor::Fd;
use coreshift_core::unix_socket::UnixStreamFd;
use coreshift_core::CoreError;
use std::collections::HashMap;
use vstd::prelude::*;
use vstd::std_specs::iter::IteratorSpec;

verus! {

broadcast use vstd::std_specs::hash::group_hash_axioms;

/// How many readiness events the daemon takes at once.
pub const WAIT_EVENTS: usize = 16;

/// The wait for readiness has no time limit.
pub const WAIT_TIMEOUT: i32 = -1;

/// What the daemon needs to know of a readiness event.
#[derive(Clone, Copy, Debug, PartialEq, Eq, Structural)]
pub struct Ready {
    /// Which descriptor is ready.
    pub token: u64,
    /// Its other end is gone.
    pub hangup: bool,
    /// It is in error.
    pub error: bool,
}

/// What announces battery news to the daemon.
pub enum Feed {
    /// A battery source; the charge state is read afresh with each news.
    Source(BatterySource),
    /// The uevent socket alone; the charge state is that of the message.
    Messages(Fd),
}

/// The state that the daemon keeps.
pub struct Daemon {
    /// What announces news.
    pub feed: Feed,
    /// The token under which the feed is registered.
    pub source_token: u64,
    /// The token under which the listening socket is registered.
    pub listener_token: u64,
    /// The level last heard of.
    pub last_level: Option<u8>,
    /// The connected consumers, each under the token of its stream.
    pub watchers: HashMap<u64, UnixStreamFd>,
}

/// A [`Daemon`] with its consumers as a mathematical map.
#[verifier::ext_equal]
pub struct DaemonView {
    pub feed: Feed,
    pub source_token: u64,
    pub listener_token: u64,
    pub last_level: Option<u8>,
    pub watchers: Map<u64, UnixStreamFd>,
}

impl View for Daemon {
    type V = DaemonView;

    open spec fn view(&self) -> DaemonView {
        DaemonView {
            feed: self.feed,
            source_token: self.source_token,
            listener_token: self.listener_token,
            last_level: self.last_level,
            watchers: self.watchers@,
        }
    }
}

/// The next call of the daemon. `accept` says that consumers wait to be accepted
/// once the battery news is dealt with.
pub enum Phase {
    /// Wait for at most [`WAIT_EVENTS`] readiness events.
    Wait,
    /// Deregister the streams of consumers that hung up, and close them.
    /// `source` says that the feed has news.
    Dismiss { streams: Vec<UnixStreamFd>, source: bool, accept: bool },
    /// Make the next call of draining the battery source.
    Drain { step: DrainStep, accept: bool },
    /// Drain the uevent socket.
    DrainMessages { accept: bool },
    /// Set the charge state property. `level` is the level heard of, if any.
    Publish { status: String, level: Option<u8>, accept: bool },
    /// Read the capacity file for the level that the message did not carry.
    FetchLevel { accept: bool },
    /// Write the message to each of the consumers `to`.
    Send { message: String, to: Vec<u64>, accept: bool },
    /// Deregister the streams that could not be written to, and close them.
    Discard { streams: Vec<UnixStreamFd>, accept: bool },
    /// Accept a consumer, without waiting.
    Accept,
    /// Read the capacity file for the level to greet the consumer with.
    FallbackLevel { stream: UnixStreamFd },
    /// Write the greeting to the consumer.
    Greet { stream: UnixStreamFd, message: String },
    /// Register the stream of the consumer for reading.
    Register { stream: UnixStreamFd },
}

/// A [`Phase`] with its texts and lists as mathematical values. The order in
/// which a message goes out is left open.
#[verifier::ext_equal]
pub enum PhaseView {
    Wait,
    Dismiss { streams: Seq<UnixStreamFd>, source: bool, accept: bool },
    Drain { step: DrainStepView, accept: bool },
    DrainMessages { accept: bool },
    Publish { status: Seq<char>, level: Option<u8>, accept: bool },
    FetchLevel { accept: bool },
    Send { message: Seq<char>, to: Set<u64>, accept: bool },
    Discard { streams: Seq<UnixStreamFd>, accept: bool },
    Accept,
    FallbackLevel { stream: UnixStreamFd },
    Greet { stream: UnixStreamFd, message: Seq<char> },
    Register { stream: UnixStreamFd },
}

impl View for Phase {
    type V = PhaseView;

    open spec fn view(&self) -> PhaseView {
        match *self {
            Phase::Wait => PhaseView::Wait,
            Phase::Dismiss { streams, source, accept } => PhaseView::Dismiss {
                streams: streams@,
                source,
                accept,
            },
            Phase::Drain { step, accept } => PhaseView::Drain { step: step@, accept },
            Phase::DrainMessages { accept } => PhaseView::DrainMessages { accept },
            Phase::Publish { status, level, accept } => PhaseView::Publish {
                status: status@,
                level,
                accept,
            },
            Phase::FetchLevel { accept } => PhaseView::FetchLevel { accept },
            Phase::Send { message, to, accept } => PhaseView::Send {
                message: message@,
                to: to@.to_set(),
                accept,
            },
            Phase::Discard { streams, accept } => PhaseView::Discard { streams: streams@, accept },
            Phase::Accept => PhaseView::Accept,
            Phase::FallbackLevel { stream } => PhaseView::FallbackLevel { stream },
            Phase::Greet { stream, message } => PhaseView::Greet { stream, message: message@ },
            Phase::Register { stream } => PhaseView::Register { stream },
        }
    }
}

/// What became of writing to a stream: how much was written, or nothing because
/// the stream was not ready for it; or why it failed.
pub type Written = Result<Option<usize>, CoreError>;

/// The outcome of a call of the daemon.
pub enum DaemonEvent {
    /// Of [`Phase::Wait`].
    Woken(Result<Vec<Ready>, CoreError>),
    /// Of a call whose outcome does not matter.
    Performed,
    /// Of [`Phase::Drain`].
    Drain(DrainEvent),
    /// Of [`Phase::DrainMessages`]: the last message about a power supply.
    Message(Option<(Option<u8>, String)>),
    /// Of reading a file: what was there, if it could be read.
    Text(Option<String>),
    /// Of [`Phase::Send`], for each consumer.
    Sent(Vec<(u64, Written)>),
    /// Of [`Phase::Accept`].
    Accepted(Result<Option<UnixStreamFd>, CoreError>),
    /// Of [`Phase::Greet`].
    Greeted(Written),
    /// Of [`Phase::Register`]: the new token.
    Registered(Result<u64, CoreError>),
}

/// A [`DaemonEvent`] with its texts and lists as mathematical values.
#[verifier::ext_equal]
pub enum DaemonEventView {
    Woken(Result<Seq<Ready>, CoreError>),
    Performed,
    Drain(DrainEventView),
    Message(Option<(Option<u8>, Seq<char>)>),
    Text(Option<Seq<char>>),
    Sent(Seq<(u64, Written)>),
    Accepted(Result<Option<UnixStreamFd>, CoreError>),
    Greeted(Written),
    Registered(Result<u64, CoreError>),
}

impl View for DaemonEvent {
    type V = DaemonEventView;

    open spec fn view(&self) -> DaemonEventView {
        match *self {
            DaemonEvent::Woken(Ok(events)) => DaemonEventView::Woken(Ok(events@)),
            DaemonEvent::Woken(Err(e)) => DaemonEventView::Woken(Err(e)),
            DaemonEvent::Performed => DaemonEventView::Performed,
            DaemonEvent::Drain(event) => DaemonEventView::Drain(event@),
            DaemonEvent::Message(m) => DaemonEventView::Message(message_view(m)),
            DaemonEvent::Text(text) => DaemonEventView::Text(chars_of(text)),
            DaemonEvent::Sent(outcomes) => DaemonEventView::Sent(outcomes@),
            DaemonEvent::Accepted(r) => DaemonEventView::Accepted(r),
            DaemonEvent::Greeted(r) => DaemonEventView::Greeted(r),
            DaemonEvent::Registered(r) => DaemonEventView::Registered(r),
        }
    }
}

/// The consumers that stay when those under the tokens `dead` leave.
pub open spec fn without(
    watchers: Map<u64, UnixStreamFd>,
    dead: Seq<u64>,
) -> Map<u64, UnixStreamFd> {
    watchers.remove_keys(dead.to_set())
}

/// The streams of the consumers that leave when those under the tokens `dead`
/// do: each once, in the order in which its token comes first. A token without
/// a consumer gives none.
pub open spec fn taken(watchers: Map<u64, UnixStreamFd>, dead: Seq<u64>) -> Seq<UnixStreamFd>
    decreases dead.len(),
{
    if dead.len() == 0 {
        Seq::empty()
    } else {
        let before = dead.drop_last();
        if watchers.contains_key(dead.last()) && !before.contains(dead.last()) {
            taken(watchers, before).push(watchers[dead.last()])
        } else {
            taken(watchers, before)
        }
    }
}

/// Removes the consumers under the tokens `dead` and hands out their streams.
fn remove_watchers(watchers: &mut HashMap<u64, UnixStreamFd>, dead: &Vec<u64>) -> (r: Vec<
    UnixStreamFd,
>)
    ensures
        final(watchers)@ == without(old(watchers)@, dead@),
        r@ == taken(old(watchers)@, dead@),
{
    let ghost before = watchers@;
    let mut r: Vec<UnixStreamFd> = Vec::new();
    let mut i: usize = 0;
    assert(dead@.take(0) =~= Seq::<u64>::empty());
    assert(watchers@ =~= without(before, dead@.take(0)));
    while i < dead.len()
        invariant
            i <= dead.len(),
            watchers@ == without(before, dead@.take(i as int)),
            r@ == taken(before, dead@.take(i as int)),
        decreases dead.len() - i,
    {
        let ghost seen = dead@.take(i as int);
        let ghost now = dead@.take(i + 1);
        let token: u64 = dead[i];
        proof {
            assert(now.drop_last() =~= seen);
            assert(now.last() == token);
            assert(now =~= seen.push(token));
            assert forall|t: u64| now.contains(t) <==> (seen.contains(t) || t == token) by {
                if seen.contains(t) {
                    let k = choose|k: int| 0 <= k < seen.len() && seen[k] == t;
                    assert(now[k] == t);
                }
                assert(now[i as int] == token);
                if now.contains(t) && t != token {
                    let k = choose|k: int| 0 <= k < now.len() && now[k] == t;
                    assert(seen[k] == t);
                }
            }
        }
        let removed = watchers.remove(&token);
        assert(watchers@ =~= without(before, now));
        match removed {
            Some(stream) => {
                r.push(stream);
            },
            None => {},
        }
        i += 1;
    }
    assert(dead@.take(dead.len() as int) =~= dead@);
    r
}

/// The tokens of the consumers that could not be written to.
pub open spec fn failed(outcomes: Seq<(u64, Written)>) -> Seq<u64> {
    outcomes.filter(|o: (u64, Written)| o.1 is Err).map_values(|o: (u64, Written)| o.0)
}

/// Ends a broadcast: given what became of writing the message to each consumer,
/// removes those that could not be written to and hands out their streams. A
/// consumer that was not ready to be written to stays.
pub fn broadcast(watchers: &mut HashMap<u64, UnixStreamFd>, outcomes: &Vec<(u64, Written)>) -> (r:
    Vec<UnixStreamFd>)
    ensures
        final(watchers)@ == without(old(watchers)@, failed(outcomes@)),
        r@ == taken(old(watchers)@, failed(outcomes@)),
{
    let mut dead: Vec<u64> = Vec::new();
    let mut i: usize = 0;
    assert(dead@ =~= failed(outcomes@.take(0))) by {
        reveal(Seq::filter);
    }
    while i < outcomes.len()
        invariant
            i <= outcomes.len(),
            dead@ == failed(outcomes@.take(i as int)),
        decreases outcomes.len() - i,
    {
        assert(outcomes@.take(i + 1).drop_last() =~= outcomes@.take(i as int));
        assert(outcomes@.take(i + 1).last() == outcomes@[i as int]);
        let ghost before = dead@;
        match &outcomes[i].1 {
            Err(_) => {
                dead.push(outcomes[i].0);
            },
            Ok(_) => {},
        }
        assert(dead@ =~= failed(outcomes@.take(i + 1))) by {
            reveal(Seq::filter);
        }
        i += 1;
    }
    assert(outcomes@.take(outcomes.len() as int) =~= outcomes@);
    remove_watchers(watchers, &dead)
}

/// The tokens of all consumers, in no particular order.
pub fn recipients(watchers: &HashMap<u64, UnixStreamFd>) -> (r: Vec<u64>)
    ensures
        r@.no_duplicates(),
        r@.to_set() == watchers@.dom(),
{
    let mut r: Vec<u64> = Vec::new();
    let keys = watchers.keys();
    let ghost all = keys.remaining().unref();
    for token in it: keys
        invariant
            it.seq().unref() == all,
            r@ == all.take(it.index()),
    {
        r.push(*token);
    }
    assert(all.take(all.len() as int) =~= all);
    r
}

impl DaemonView {
    /// A readiness event of a consumer that is gone: neither of the feed nor of
    /// the listening socket, and with a hangup or an error.
    pub open spec fn lost(self, ready: Ready) -> bool {
        ready.token != self.source_token && ready.token != self.listener_token && (ready.hangup
            || ready.error)
    }

    /// The tokens of the consumers that are gone.
    pub open spec fn lost_tokens(self, events: Seq<Ready>) -> Seq<u64> {
        events.filter(|ready: Ready| self.lost(ready)).map_values(|ready: Ready| ready.token)
    }

    /// The feed is among the ready.
    pub open spec fn has_news(self, events: Seq<Ready>) -> bool {
        exists|i: int| 0 <= i < events.len() && (#[trigger] events[i]).token == self.source_token
    }

    /// The listening socket is among the ready.
    pub open spec fn has_callers(self, events: Seq<Ready>) -> bool {
        exists|i: int|
            0 <= i < events.len() && (#[trigger] events[i]).token == self.listener_token
                && events[i].token != self.source_token
    }
}

/// The phase after the battery news is dealt with.
pub open spec fn after_news(accept: bool) -> PhaseView {
    if accept {
        PhaseView::Accept
    } else {
        PhaseView::Wait
    }
}

/// The wakeup with `events`: the consumers that are gone leave.
pub open spec fn wakeup(d: DaemonView, events: Seq<Ready>) -> (DaemonView, PhaseView) {
    let dead = d.lost_tokens(events);
    (
        DaemonView { watchers: without(d.watchers, dead), ..d },
        PhaseView::Dismiss {
            streams: taken(d.watchers, dead),
            source: d.has_news(events),
            accept: d.has_callers(events),
        },
    )
}

/// The news that the level is `level`: it goes out to every consumer where it is
/// not the level last heard of.
pub open spec fn heard(d: DaemonView, level: u8, accept: bool) -> (DaemonView, PhaseView) {
    if d.last_level == Some(level) {
        (d, after_news(accept))
    } else {
        (
            DaemonView { last_level: Some(level), ..d },
            PhaseView::Send { message: level_line(level), to: d.watchers.dom(), accept },
        )
    }
}

/// Where the outcome `event` leads from `phase`. An outcome that does not belong
/// to the phase changes nothing.
pub open spec fn daemon_next(d: DaemonView, phase: PhaseView, event: DaemonEventView) -> (
    DaemonView,
    PhaseView,
) {
    match (phase, event) {
        (PhaseView::Wait, DaemonEventView::Woken(Ok(events))) => if events.len() == 0 {
            (d, PhaseView::Wait)
        } else {
            wakeup(d, events)
        },
        (PhaseView::Dismiss { source, accept, .. }, DaemonEventView::Performed) => (
            d,
            if !source {
                after_news(accept)
            } else {
                match d.feed {
                    Feed::Source(_) => PhaseView::Drain { step: DrainStepView::Collect, accept },
                    Feed::Messages(_) => PhaseView::DrainMessages { accept },
                }
            },
        ),
        (PhaseView::Drain { step, accept }, DaemonEventView::Drain(event)) => (
            d,
            match d.feed {
                Feed::Source(source) => match drain_next(source, step, event) {
                    DrainStepView::Done(None) => after_news(accept),
                    DrainStepView::Done(Some((level, status))) => PhaseView::Publish {
                        status,
                        level: Some(level),
                        accept,
                    },
                    step => PhaseView::Drain { step, accept },
                },
                Feed::Messages(_) => phase,
            },
        ),
        (PhaseView::DrainMessages { accept }, DaemonEventView::Message(message)) => (
            d,
            match message {
                None => after_news(accept),
                Some((level, status)) => PhaseView::Publish { status, level, accept },
            },
        ),
        (PhaseView::Publish { level, accept, .. }, DaemonEventView::Performed) => match level {
            Some(level) => heard(d, level, accept),
            None => (d, PhaseView::FetchLevel { accept }),
        },
        (PhaseView::FetchLevel { accept }, DaemonEventView::Text(contents)) => match level_of(
            contents,
        ) {
            Some(level) => heard(d, level, accept),
            None => (d, after_news(accept)),
        },
        (PhaseView::Send { accept, .. }, DaemonEventView::Sent(outcomes)) => (
            DaemonView { watchers: without(d.watchers, failed(outcomes)), ..d },
            PhaseView::Discard { streams: taken(d.watchers, failed(outcomes)), accept },
        ),
        (PhaseView::Discard { accept, .. }, DaemonEventView::Performed) => (d, after_news(accept)),
        (PhaseView::Accept, DaemonEventView::Accepted(accepted)) => (
            d,
            match accepted {
                Ok(Some(stream)) => match d.last_level {
                    Some(level) => PhaseView::Greet { stream, message: level_line(level) },
                    None => PhaseView::FallbackLevel { stream },
                },
                _ => PhaseView::Wait,
            },
        ),
        (PhaseView::FallbackLevel { stream }, DaemonEventView::Text(contents)) => (
            d,
            PhaseView::Greet {
                stream,
                message: level_line(
                    match level_of(contents) {
                        Some(level) => level,
                        None => 0,
                    },
                ),
            },
        ),
        (PhaseView::Greet { stream, .. }, DaemonEventView::Greeted(written)) => (
            d,
            if written is Ok {
                PhaseView::Register { stream }
            } else {
                PhaseView::Accept
            },
        ),
        (PhaseView::Register { stream }, DaemonEventView::Registered(registered)) => (
            match registered {
                Ok(token) => DaemonView { watchers: d.watchers.insert(token, stream), ..d },
                Err(_) => d,
            },
            PhaseView::Accept,
        ),
        _ => (d, phase),
    }
}

fn next_after_news(accept: bool) -> (r: Phase)
    ensures
        r@ == after_news(accept),
{
    if accept {
        Phase::Accept
    } else {
        Phase::Wait
    }
}

fn wake(daemon: &mut Daemon, events: Vec<Ready>) -> (r: Phase)
    ensures
        (final(daemon)@, r@) == wakeup(old(daemon)@, events@),
{
    let ghost d = daemon@;
    let mut source = false;
    let mut accept = false;
    let mut dead: Vec<u64> = Vec::new();
    let mut i: usize = 0;
    assert(dead@ =~= d.lost_tokens(events@.take(0))) by {
        reveal(Seq::filter);
    }
    while i < events.len()
        invariant
            i <= events.len(),
            daemon@ == d,
            source == d.has_news(events@.take(i as int)),
            accept == d.has_callers(events@.take(i as int)),
            dead@ == d.lost_tokens(events@.take(i as int)),
        decreases events.len() - i,
    {
        let ghost seen = events@.take(i as int);
        let ghost now = events@.take(i + 1);
        let ready = events[i];
        proof {
            assert(now.drop_last() =~= seen);
            assert(now.last() == ready);
            assert forall|k: int| 0 <= k < i implies now[k] == seen[k] by {}
            assert(now[i as int] == ready);
        }
        if ready.token == daemon.source_token {
            source = true;
        } else if ready.token == daemon.listener_token {
            accept = true;
        } else if ready.hangup || ready.error {
            dead.push(ready.token);
        }
        proof {
            if d.has_news(seen) {
                let k = choose|k: int|
                    0 <= k < seen.len() && (#[trigger] seen[k]).token == d.source_token;
                assert(now[k].token == d.source_token);
            }
            if d.has_callers(seen) {
                let k = choose|k: int|
                    0 <= k < seen.len() && (#[trigger] seen[k]).token == d.listener_token
                        && seen[k].token != d.source_token;
                assert(now[k].token == d.listener_token);
            }
        }
        assert(dead@ =~= d.lost_tokens(now)) by {
            reveal(Seq::filter);
        }
        i += 1;
    }
    assert(events@.take(events.len() as int) =~= events@);
    let streams = remove_watchers(&mut daemon.watchers, &dead);
    Phase::Dismiss { streams, source, accept }
}

fn hear(daemon: &mut Daemon, level: u8, accept: bool) -> (r: Phase)
    ensures
        (final(daemon)@, r@) == heard(old(daemon)@, level, accept),
        r matches Phase::Send { to, .. } ==> to@.no_duplicates(),
{
    let unchanged = match daemon.last_level {
        Some(last) => last == level,
        None => false,
    };
    if unchanged {
        next_after_news(accept)
    } else {
        daemon.last_level = Some(level);
        let to = recipients(&daemon.watchers);
        Phase::Send { message: level_message(level), to, accept }
    }
}

fn level_in(contents: &Option<String>) -> (r: Option<u8>)
    ensures
        r == level_of(chars_of(*contents)),
{
    match contents {
        Some(s) => read_level(Some(s.as_str())),
        None => read_level(None),
    }
}

/// Takes the outcome of one call of the daemon to its next call. The daemon
/// starts with [`Phase::Wait`].
pub fn run_daemon(daemon: &mut Daemon, phase: Phase, event: DaemonEvent) -> (r: Phase)
    ensures
        (final(daemon)@, r@) == daemon_next(old(daemon)@, phase@, event@),
        phase !is Send ==> (r matches Phase::Send { to, .. } ==> to@.no_duplicates()),
{
    match (phase, event) {
        (Phase::Wait, DaemonEvent::Woken(woken)) => match woken {
            Ok(events) => if events.len() == 0 {
                Phase::Wait
            } else {
                wake(daemon, events)
            },
            Err(_) => Phase::Wait,
        },
        (Phase::Dismiss { source, accept, .. }, DaemonEvent::Performed) => if !source {
            next_after_news(accept)
        } else {
            match &daemon.feed {
                Feed::Source(_) => Phase::Drain { step: DrainStep::Collect, accept },
                Feed::Messages(_) => Phase::DrainMessages { accept },
            }
        },
        (Phase::Drain { step, accept }, DaemonEvent::Drain(event)) => match &daemon.feed {
            Feed::Source(source) => match source.drain(step, event) {
                DrainStep::Done(None) => next_after_news(accept),
                DrainStep::Done(Some((level, status))) => Phase::Publish {
                    status,
                    level: Some(level),
                    accept,
                },
                step => Phase::Drain { step, accept },
            },
            Feed::Messages(_) => Phase::Drain { step, accept },
        },
        (Phase::DrainMessages { accept }, DaemonEvent::Message(message)) => match message {
            None => next_after_news(accept),
            Some((level, status)) => Phase::Publish { status, level, accept },
        },
        (Phase::Publish { level, accept, .. }, DaemonEvent::Performed) => match level {
            Some(level) => hear(daemon, level, accept),
            None => Phase::FetchLevel { accept },
        },
        (Phase::FetchLevel { accept }, DaemonEvent::Text(contents)) => match level_in(&contents) {
            Some(level) => hear(daemon, level, accept),
            None => next_after_news(accept),
        },
        (Phase::Send { accept, .. }, DaemonEvent::Sent(outcomes)) => {
            let streams = broadcast(&mut daemon.watchers, &outcomes);
            Phase::Discard { streams, accept }
        },
        (Phase::Discard { accept, .. }, DaemonEvent::Performed) => next_after_news(accept),
        (Phase::Accept, DaemonEvent::Accepted(accepted)) => match accepted {
            Ok(Some(stream)) => match daemon.last_level {
                Some(level) => Phase::Greet { stream, message: level_message(level) },
                None => Phase::FallbackLevel { stream },
            },
            Ok(None) => Phase::Wait,
            Err(_) => Phase::Wait,
        },
        (Phase::FallbackLevel { stream }, DaemonEvent::Text(contents)) => {
            let level: u8 = match level_in(&contents) {
                Some(level) => level,
                None => 0,
            };
            Phase::Greet { stream, message: level_message(level) }
        },
        (Phase::Greet { stream, .. }, DaemonEvent::Greeted(written)) => match written {
            Ok(_) => Phase::Register { stream },
            Err(_) => Phase::Accept,
        },
        (Phase::Register { stream }, DaemonEvent::Registered(registered)) => match registered {
            Ok(token) => {
                daemon.watchers.insert(token, stream);
                Phase::Accept
            },
            Err(_) => Phase::Accept,
        },
        (phase, _) => phase,
    }
}

} // verus!
