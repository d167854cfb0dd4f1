//! What the daemon keeps to, whatever its calls answer.

use crate::battery::chars_of;
use crate::battery::law_level_line_reads_back;
use crate::battery::level_line;
use crate::battery::level_of;
use crate::client::law_status_prints_the_whole_line;
use crate::client::status_next;
use crate::client::watch_next;
use crate::client::ClientEventView;
use crate::client::StatusView;
use crate::client::WatchView;
use crate::daemon::after_news;
use crate::daemon::daemon_next;
use crate::daemon::failed;
use crate::daemon::heard;
use crate::daemon::taken;
use crate::daemon::wakeup;
use crate::daemon::without;
use crate::daemon::Daemon;
use crate::daemon::DaemonEvent;
use crate::daemon::DaemonEventView;
use crate::daemon::DaemonView;
use crate::daemon::Feed;
use crate::daemon::Phase;
use crate::daemon::PhaseView;
use crate::daemon::Ready;
use crate::daemon::Written;
use crate::daemon::WAIT_EVENTS;
use crate::daemon::WAIT_TIMEOUT;
use crate::source::drain_answer;
use crate::source::drain_next;
use crate::source::drained;
use crate::source::BatterySource;
use crate::source::DrainAnswers;
use crate::source::DrainEvent;
use crate::source::DrainEventView;
use crate::source::DrainStep;
use crate::source::DrainStepView;
use coreshift_core::unix_socket::UnixStreamFd;
use coreshift_core::CoreError;
use vstd::prelude::*;

verus! {

/// The level last heard of changes exactly when a message goes out. That message
/// is the line about the new level, and it goes to every consumer.
pub proof fn law_a_changed_level_is_sent_to_all(
    d: DaemonView,
    phase: PhaseView,
    event: DaemonEventView,
)
    requires
        phase !is Send,
    ensures
        ({
            let (after, next) = daemon_next(d, phase, event);
            &&& next is Send <==> after.last_level != d.last_level
            &&& next matches PhaseView::Send { message, to, .. } ==> {
                &&& after.last_level matches Some(level) && message == level_line(level)
                &&& to == after.watchers.dom()
            }
        }),
{
}

/// While a message goes out, the level last heard of stays.
pub proof fn law_sending_keeps_the_level(
    d: DaemonView,
    phase: PhaseView,
    event: DaemonEventView,
)
    requires
        phase is Send,
    ensures
        daemon_next(d, phase, event).0.last_level == d.last_level,
{
}

/// A level that is heard of again is not sent again.
pub proof fn law_a_repeated_level_is_silent(d: DaemonView, level: u8, accept: bool, again: bool)
    ensures
        ({
            let (after, _) = heard(d, level, accept);
            &&& after.last_level == Some(level)
            &&& heard(after, level, again) == (after, after_news(again))
        }),
{
}

/// The feed and the two tokens of the daemon never change. Where no consumer has
/// one of these tokens, that stays so as long as the reactor hands out neither of
/// them again.
pub proof fn law_tokens_stay_apart(d: DaemonView, phase: PhaseView, event: DaemonEventView)
    ensures
        ({
            let (after, _) = daemon_next(d, phase, event);
            &&& after.feed == d.feed
            &&& after.source_token == d.source_token
            &&& after.listener_token == d.listener_token
            &&& !d.watchers.contains_key(d.source_token) && !d.watchers.contains_key(
                d.listener_token,
            ) && event != DaemonEventView::Registered(Ok(d.source_token)) && event
                != DaemonEventView::Registered(Ok(d.listener_token))
                ==> !after.watchers.contains_key(d.source_token) && !after.watchers.contains_key(
                d.listener_token,
            )
        }),
{
}

proof fn lemma_taken_has(watchers: Map<u64, UnixStreamFd>, dead: Seq<u64>, token: u64)
    requires
        watchers.contains_key(token),
        dead.contains(token),
    ensures
        taken(watchers, dead).contains(watchers[token]),
    decreases dead.len(),
{
    let before = dead.drop_last();
    let k = choose|k: int| 0 <= k < dead.len() && dead[k] == token;
    if before.contains(token) {
        lemma_taken_has(watchers, before, token);
        let j = choose|j: int|
            0 <= j < taken(watchers, before).len() && taken(watchers, before)[j]
                == watchers[token];
        assert(taken(watchers, dead)[j] == watchers[token]);
    } else {
        assert(dead.last() == token) by {
            if k < before.len() {
                assert(before[k] == token);
            }
        }
        assert(taken(watchers, dead).last() == watchers[token]);
    }
}

/// A consumer leaves only when its stream hung up or is in error, or could not
/// be written to; and then its stream is handed out to be closed.
pub proof fn law_consumers_leave_for_a_reason(
    d: DaemonView,
    phase: PhaseView,
    event: DaemonEventView,
    token: u64,
)
    requires
        d.watchers.contains_key(token),
        !daemon_next(d, phase, event).0.watchers.contains_key(token),
    ensures
        ({
            let next = daemon_next(d, phase, event).1;
            ||| {
                &&& phase is Wait
                &&& event matches DaemonEventView::Woken(Ok(events)) && exists|i: int|
                    0 <= i < events.len() && (#[trigger] events[i]).token == token && d.lost(
                        events[i],
                    )
                &&& next matches PhaseView::Dismiss { streams, .. } && streams.contains(
                    d.watchers[token],
                )
            }
            ||| {
                &&& phase is Send
                &&& event matches DaemonEventView::Sent(outcomes) && exists|i: int|
                    0 <= i < outcomes.len() && (#[trigger] outcomes[i]).0 == token
                        && outcomes[i].1 is Err
                &&& next matches PhaseView::Discard { streams, .. } && streams.contains(
                    d.watchers[token],
                )
            }
        }),
{
    match (phase, event) {
        (PhaseView::Wait, DaemonEventView::Woken(Ok(events))) => {
            let p = |ready: Ready| d.lost(ready);
            let gone = events.filter(p);
            let dead = d.lost_tokens(events);
            assert(dead.contains(token));
            let k = choose|k: int| 0 <= k < dead.len() && dead[k] == token;
            assert(gone[k].token == token);
            events.lemma_filter_contains_rev(p, gone[k]);
            let i = choose|i: int| 0 <= i < events.len() && events[i] == gone[k];
            assert(events[i].token == token);
            events.lemma_filter_pred(p, k);
            lemma_taken_has(d.watchers, dead, token);
        },
        (PhaseView::Send { .. }, DaemonEventView::Sent(outcomes)) => {
            let p = |o: (u64, Written)| o.1 is Err;
            let bad = outcomes.filter(p);
            let dead = failed(outcomes);
            assert(dead.contains(token));
            let k = choose|k: int| 0 <= k < dead.len() && dead[k] == token;
            assert(bad[k].0 == token);
            outcomes.lemma_filter_contains_rev(p, bad[k]);
            let i = choose|i: int| 0 <= i < outcomes.len() && outcomes[i] == bad[k];
            assert(outcomes[i].0 == token);
            outcomes.lemma_filter_pred(p, k);
            lemma_taken_has(d.watchers, dead, token);
        },
        _ => {},
    }
}

/// A consumer whose stream hung up or is in error leaves at that wakeup, and one
/// that could not be written to leaves after that message.
pub proof fn law_gone_consumers_leave(
    d: DaemonView,
    events: Seq<Ready>,
    outcomes: Seq<(u64, Written)>,
    i: int,
)
    ensures
        0 <= i < events.len() && d.lost(events[i]) ==> !wakeup(
            d,
            events,
        ).0.watchers.contains_key(events[i].token),
        0 <= i < outcomes.len() && outcomes[i].1 is Err ==> !without(
            d.watchers,
            failed(outcomes),
        ).contains_key(outcomes[i].0),
{
    if 0 <= i < events.len() && d.lost(events[i]) {
        let p = |ready: Ready| d.lost(ready);
        events.lemma_filter_contains(p, i);
        let gone = events.filter(p);
        let k = choose|k: int| 0 <= k < gone.len() && gone[k] == events[i];
        assert(d.lost_tokens(events)[k] == events[i].token);
    }
    if 0 <= i < outcomes.len() && outcomes[i].1 is Err {
        let p = |o: (u64, Written)| o.1 is Err;
        outcomes.lemma_filter_contains(p, i);
        let bad = outcomes.filter(p);
        let k = choose|k: int| 0 <= k < bad.len() && bad[k] == outcomes[i];
        assert(failed(outcomes)[k] == outcomes[i].0);
    }
}

/// When consumers leave, every stream either stays or is handed out, and none is
/// handed out twice: the two numbers add up to the number of consumers before.
pub proof fn law_no_stream_is_lost(watchers: Map<u64, UnixStreamFd>, dead: Seq<u64>)
    requires
        watchers.dom().finite(),
    ensures
        without(watchers, dead).dom().finite(),
        taken(watchers, dead).len() + without(watchers, dead).dom().len() == watchers.dom().len(),
        forall|token: u64|
            watchers.contains_key(token) ==> if dead.contains(token) {
                taken(watchers, dead).contains(watchers[token])
            } else {
                without(watchers, dead).contains_key(token) && without(watchers, dead)[token]
                    == watchers[token]
            },
    decreases dead.len(),
{
    if dead.len() == 0 {
        assert(without(watchers, dead) =~= watchers);
    } else {
        let before = dead.drop_last();
        let last = dead.last();
        law_no_stream_is_lost(watchers, before);
        assert forall|t: u64| dead.contains(t) <==> (before.contains(t) || t == last) by {
            if before.contains(t) {
                let k = choose|k: int| 0 <= k < before.len() && before[k] == t;
                assert(dead[k] == t);
            }
            assert(dead[dead.len() - 1] == last);
            if dead.contains(t) && t != last {
                let k = choose|k: int| 0 <= k < dead.len() && dead[k] == t;
                assert(before[k] == t);
            }
        }
        assert(without(watchers, dead).dom() =~= without(watchers, before).dom().remove(last));
    }
    assert forall|token: u64| watchers.contains_key(token) && dead.contains(token) implies taken(
        watchers,
        dead,
    ).contains(watchers[token]) by {
        lemma_taken_has(watchers, dead, token);
    }
}

/// There is one outcome for each consumer.
pub open spec fn answered(
    watchers: Map<u64, UnixStreamFd>,
    outcomes: Seq<(u64, Written)>,
) -> bool {
    let tokens = outcomes.map_values(|o: (u64, Written)| o.0);
    tokens.no_duplicates() && tokens.to_set() == watchers.dom()
}

/// The tokens of the consumers that could be written to.
pub open spec fn reached(outcomes: Seq<(u64, Written)>) -> Set<u64> {
    Set::new(
        |token: u64|
            exists|i: int|
                0 <= i < outcomes.len() && (#[trigger] outcomes[i]).0 == token
                    && outcomes[i].1 is Ok,
    )
}

proof fn lemma_reached_stay(watchers: Map<u64, UnixStreamFd>, outcomes: Seq<(u64, Written)>)
    requires
        answered(watchers, outcomes),
    ensures
        without(watchers, failed(outcomes)).dom() == reached(outcomes),
{
    let left = without(watchers, failed(outcomes));
    let p = |o: (u64, Written)| o.1 is Err;
    let bad = outcomes.filter(p);
    let tokens = outcomes.map_values(|o: (u64, Written)| o.0);
    assert forall|token: u64| left.contains_key(token) <==> reached(outcomes).contains(token) by {
        if left.contains_key(token) {
            assert(tokens.to_set().contains(token));
            let i = choose|i: int| 0 <= i < tokens.len() && tokens[i] == token;
            assert(outcomes[i].0 == token);
            if outcomes[i].1 is Err {
                outcomes.lemma_filter_contains(p, i);
                let k = choose|k: int| 0 <= k < bad.len() && bad[k] == outcomes[i];
                assert(failed(outcomes)[k] == token);
                assert(failed(outcomes).to_set().contains(token));
            }
        }
        if reached(outcomes).contains(token) {
            let i = choose|i: int|
                0 <= i < outcomes.len() && (#[trigger] outcomes[i]).0 == token
                    && outcomes[i].1 is Ok;
            assert(tokens[i] == token);
            assert(tokens.to_set().contains(token));
            if failed(outcomes).contains(token) {
                let k = choose|k: int| 0 <= k < bad.len() && failed(outcomes)[k] == token;
                outcomes.lemma_filter_contains_rev(p, bad[k]);
                let j = choose|j: int| 0 <= j < outcomes.len() && outcomes[j] == bad[k];
                outcomes.lemma_filter_pred(p, k);
                assert(tokens[j] == token);
                assert(i == j);
            }
        }
    }
    assert(left.dom() =~= reached(outcomes));
}

/// A message goes exactly to the consumers whose write of the message before it
/// did not fail: a consumer that failed once is never written to again. From one
/// message to the next consumers only leave, and those who stay keep their
/// streams.
pub proof fn law_failed_consumers_hear_no_more(
    d: DaemonView,
    message: Seq<char>,
    accept: bool,
    outcomes: Seq<(u64, Written)>,
    level: u8,
    again: bool,
    later: Seq<(u64, Written)>,
)
    requires
        answered(d.watchers, outcomes),
    ensures
        ({
            let send = PhaseView::Send { message, to: d.watchers.dom(), accept };
            let after = daemon_next(d, send, DaemonEventView::Sent(outcomes)).0;
            let (told, next) = heard(after, level, again);
            let end = daemon_next(told, next, DaemonEventView::Sent(later)).0;
            &&& after.watchers.dom() == reached(outcomes)
            &&& after.watchers.submap_of(d.watchers)
            &&& next matches PhaseView::Send { to, .. } ==> to == reached(outcomes)
            &&& next is Send <==> d.last_level != Some(level)
            &&& end.watchers.submap_of(after.watchers)
        }),
{
    lemma_reached_stay(d.watchers, outcomes);
}

/// A consumer joins only once its stream is registered, and its stream is
/// registered only once it was greeted with a line about the level: the level
/// last heard of or, before any was, the level of the capacity file, or 0.
pub proof fn law_consumers_join_greeted(d: DaemonView, phase: PhaseView, event: DaemonEventView)
    ensures
        ({
            let (after, next) = daemon_next(d, phase, event);
            &&& forall|token: u64| #[trigger]
                after.watchers.contains_key(token) && !d.watchers.contains_key(token) ==> event
                    == DaemonEventView::Registered(Ok(token)) && phase == (PhaseView::Register {
                    stream: after.watchers[token],
                })
            &&& next is Register && phase !is Register ==> {
                &&& phase is Greet
                &&& event matches DaemonEventView::Greeted(written) && written is Ok
                &&& next->Register_stream == phase->Greet_stream
            }
            &&& next is Greet && phase !is Greet ==> {
                ||| {
                    &&& event == DaemonEventView::Accepted(Ok(Some(next->Greet_stream)))
                    &&& d.last_level matches Some(level) && next->Greet_message == level_line(level)
                }
                ||| {
                    &&& phase == (PhaseView::FallbackLevel { stream: next->Greet_stream })
                    &&& event matches DaemonEventView::Text(contents) && next->Greet_message
                        == level_line(
                        match level_of(contents) {
                            Some(level) => level,
                            None => 0,
                        },
                    )
                }
            }
            &&& next is FallbackLevel && phase !is FallbackLevel ==> d.last_level is None && event
                == DaemonEventView::Accepted(Ok(Some(next->FallbackLevel_stream)))
        }),
{
}

/// What the daemon writes about a level is what its consumers print, asking once
/// or watching, and it reads back as that level: the greeting of one who calls
/// while `level` is the level last heard of, and the message to all when `level`
/// is news.
pub proof fn law_consumers_learn_the_level(
    d: DaemonView,
    level: u8,
    caller: UnixStreamFd,
    accept: bool,
    end: UnixStreamFd,
    token: u64,
    left: nat,
)
    ensures
        ({
            let greeting = daemon_next(
                d,
                PhaseView::Accept,
                DaemonEventView::Accepted(Ok(Some(caller))),
            ).1;
            let telling = heard(d, level, accept).1;
            let message = level_line(level);
            let bytes = vstd::utf8::encode_utf8(message);
            let received = ClientEventView::Received(Ok(Some(bytes)));
            &&& d.last_level == Some(level) ==> greeting == (PhaseView::Greet {
                stream: caller,
                message,
            })
            &&& d.last_level != Some(level) ==> telling == (PhaseView::Send {
                message,
                to: d.watchers.dom(),
                accept,
            })
            &&& status_next(StatusView::Read { stream: end }, received) == StatusView::Print(bytes)
            &&& watch_next(WatchView::Read { stream: end, token, left }, received) == (
            WatchView::Print { stream: end, token, left, bytes })
            &&& level_of(Some(vstd::utf8::decode_utf8(bytes))) == Some(level)
        }),
{
    law_status_prints_the_whole_line(end, level);
    law_level_line_reads_back(level);
    vstd::utf8::encode_utf8_decode_utf8(level_line(level));
}

/// Where the outcomes `events`, one after the other, lead from `phase`.
pub open spec fn daemon_run(d: DaemonView, phase: PhaseView, events: Seq<DaemonEventView>) -> (
    DaemonView,
    PhaseView,
)
    decreases events.len(),
{
    if events.len() == 0 {
        (d, phase)
    } else {
        let (after, next) = daemon_next(d, phase, events.first());
        daemon_run(after, next, events.drop_first())
    }
}

proof fn lemma_daemon_runs_on(
    d: DaemonView,
    phase: PhaseView,
    first: Seq<DaemonEventView>,
    rest: Seq<DaemonEventView>,
)
    ensures
        daemon_run(d, phase, first + rest) == ({
            let (after, next) = daemon_run(d, phase, first);
            daemon_run(after, next, rest)
        }),
    decreases first.len(),
{
    if first.len() == 0 {
        assert(first + rest =~= rest);
    } else {
        let (after, next) = daemon_next(d, phase, first.first());
        assert((first + rest).first() == first.first());
        assert((first + rest).drop_first() =~= first.drop_first() + rest);
        lemma_daemon_runs_on(after, next, first.drop_first(), rest);
    }
}

proof fn lemma_daemon_run_one(d: DaemonView, phase: PhaseView, event: DaemonEventView)
    ensures
        daemon_run(d, phase, seq![event]) == daemon_next(d, phase, event),
{
    let (after, next) = daemon_next(d, phase, event);
    assert(seq![event].drop_first() =~= Seq::<DaemonEventView>::empty());
    assert(daemon_run(after, next, Seq::empty()) == (after, next));
}

/// A consumer that calls, and what its calls answer, for each that is made.
pub struct Arrival {
    pub stream: UnixStreamFd,
    pub level: Option<Seq<char>>,
    pub greeted: Written,
    pub registered: Result<u64, CoreError>,
}

/// The outcomes of the calls that one consumer takes.
pub open spec fn arrival_events(last_level: Option<u8>, a: Arrival) -> Seq<DaemonEventView> {
    let accepted = seq![DaemonEventView::Accepted(Ok(Some(a.stream)))];
    let level = if last_level is None {
        seq![DaemonEventView::Text(a.level)]
    } else {
        Seq::empty()
    };
    let greeted = seq![DaemonEventView::Greeted(a.greeted)];
    let registered = if a.greeted is Ok {
        seq![DaemonEventView::Registered(a.registered)]
    } else {
        Seq::empty()
    };
    accepted + level + greeted + registered
}

/// The outcomes of the calls that consumers take, one after the other.
pub open spec fn arrivals_events(last_level: Option<u8>, arrivals: Seq<Arrival>) -> Seq<
    DaemonEventView,
>
    decreases arrivals.len(),
{
    if arrivals.len() == 0 {
        Seq::empty()
    } else {
        arrivals_events(last_level, arrivals.drop_last()) + arrival_events(
            last_level,
            arrivals.last(),
        )
    }
}

/// The consumers after those that could be greeted and registered have joined.
pub open spec fn joined(
    watchers: Map<u64, UnixStreamFd>,
    arrivals: Seq<Arrival>,
) -> Map<u64, UnixStreamFd>
    decreases arrivals.len(),
{
    if arrivals.len() == 0 {
        watchers
    } else {
        let before = joined(watchers, arrivals.drop_last());
        let a = arrivals.last();
        match (a.greeted, a.registered) {
            (Ok(_), Ok(token)) => before.insert(token, a.stream),
            _ => before,
        }
    }
}

proof fn lemma_arrival(d: DaemonView, a: Arrival)
    ensures
        daemon_run(d, PhaseView::Accept, arrival_events(d.last_level, a)) == (
            DaemonView { watchers: joined(d.watchers, seq![a]), ..d },
            PhaseView::Accept,
        ),
{
    let accepted = DaemonEventView::Accepted(Ok(Some(a.stream)));
    let greeted = DaemonEventView::Greeted(a.greeted);
    let (d1, p1) = daemon_next(d, PhaseView::Accept, accepted);
    lemma_daemon_run_one(d, PhaseView::Accept, accepted);
    let level = if d.last_level is None {
        seq![DaemonEventView::Text(a.level)]
    } else {
        Seq::empty()
    };
    lemma_daemon_runs_on(d, PhaseView::Accept, seq![accepted], level);
    if d.last_level is None {
        lemma_daemon_run_one(d1, p1, DaemonEventView::Text(a.level));
    }
    let (d2, p2) = daemon_run(d1, p1, level);
    assert(d2 == d && p2 is Greet && p2->Greet_stream == a.stream);
    lemma_daemon_runs_on(d, PhaseView::Accept, seq![accepted] + level, seq![greeted]);
    lemma_daemon_run_one(d2, p2, greeted);
    let (d3, p3) = daemon_next(d2, p2, greeted);
    let registered = if a.greeted is Ok {
        seq![DaemonEventView::Registered(a.registered)]
    } else {
        Seq::empty()
    };
    lemma_daemon_runs_on(
        d,
        PhaseView::Accept,
        seq![accepted] + level + seq![greeted],
        registered,
    );
    if a.greeted is Ok {
        lemma_daemon_run_one(d3, p3, DaemonEventView::Registered(a.registered));
    }
    assert(seq![a].drop_last() =~= Seq::<Arrival>::empty());
    assert(joined(d.watchers, seq![a].drop_last()) == d.watchers);
}

/// Once it accepts, the daemon serves all who call, each in turn, until nobody is
/// left or accepting fails, and then waits again. Those who could be greeted and
/// registered have joined; nothing else has changed.
pub proof fn law_all_callers_are_served(
    d: DaemonView,
    arrivals: Seq<Arrival>,
    end: Result<Option<UnixStreamFd>, CoreError>,
)
    requires
        end is Err || end == Ok::<Option<UnixStreamFd>, CoreError>(None),
    ensures
        daemon_run(
            d,
            PhaseView::Accept,
            arrivals_events(d.last_level, arrivals) + seq![DaemonEventView::Accepted(end)],
        ) == (DaemonView { watchers: joined(d.watchers, arrivals), ..d }, PhaseView::Wait),
{
    lemma_arrivals(d, arrivals);
    let events = arrivals_events(d.last_level, arrivals);
    let last = DaemonEventView::Accepted(end);
    lemma_daemon_runs_on(d, PhaseView::Accept, events, seq![last]);
    let (after, next) = daemon_run(d, PhaseView::Accept, events);
    lemma_daemon_run_one(after, next, last);
}

proof fn lemma_arrivals(d: DaemonView, arrivals: Seq<Arrival>)
    ensures
        daemon_run(d, PhaseView::Accept, arrivals_events(d.last_level, arrivals)) == (
            DaemonView { watchers: joined(d.watchers, arrivals), ..d },
            PhaseView::Accept,
        ),
    decreases arrivals.len(),
{
    if arrivals.len() > 0 {
        let before = arrivals.drop_last();
        let a = arrivals.last();
        lemma_arrivals(d, before);
        let (after, next) = daemon_run(
            d,
            PhaseView::Accept,
            arrivals_events(d.last_level, before),
        );
        lemma_daemon_runs_on(
            d,
            PhaseView::Accept,
            arrivals_events(d.last_level, before),
            arrival_events(d.last_level, a),
        );
        lemma_arrival(after, a);
        assert(seq![a].drop_last() =~= Seq::<Arrival>::empty());
        assert(joined(after.watchers, seq![a].drop_last()) == after.watchers);
    }
}

/// The line that greets a caller.
pub open spec fn greeting(last_level: Option<u8>, a: Arrival) -> Seq<char> {
    level_line(
        match (last_level, level_of(a.level)) {
            (Some(level), _) => level,
            (None, Some(level)) => level,
            (None, None) => 0,
        },
    )
}

/// The messages that the daemon writes to the consumer under `token` from `phase`
/// on, as long as that consumer stays.
pub open spec fn letters(
    d: DaemonView,
    phase: PhaseView,
    events: Seq<DaemonEventView>,
    token: u64,
) -> Seq<Seq<char>>
    decreases events.len(),
{
    if events.len() == 0 || !d.watchers.contains_key(token) {
        Seq::empty()
    } else {
        let written = match (phase, events.first()) {
            (PhaseView::Send { message, to, .. }, DaemonEventView::Sent(_)) => if to.contains(
                token,
            ) {
                seq![message]
            } else {
                Seq::empty()
            },
            _ => Seq::empty(),
        };
        let (after, next) = daemon_next(d, phase, events.first());
        written + letters(after, next, events.drop_first(), token)
    }
}

/// A line about a level.
pub open spec fn is_level_line(message: Seq<char>) -> bool {
    exists|level: u8| message == level_line(level)
}

/// A message that is going out is about the level last heard of and goes to all.
/// Where `last` is what a consumer was told last, that message is another; where
/// none is going out, `last` is about the level last heard of.
spec fn up_to_date(d: DaemonView, phase: PhaseView, last: Option<Seq<char>>) -> bool {
    match phase {
        PhaseView::Send { message, to, .. } => {
            &&& d.last_level matches Some(level) && message == level_line(level)
            &&& to == d.watchers.dom()
            &&& last != Some(message)
        },
        _ => last matches Some(told) ==> (d.last_level matches Some(level) && told == level_line(
            level,
        )),
    }
}

proof fn lemma_letters(
    d: DaemonView,
    phase: PhaseView,
    events: Seq<DaemonEventView>,
    token: u64,
    last: Option<Seq<char>>,
)
    requires
        up_to_date(d, phase, last),
    ensures
        ({
            let all = letters(d, phase, events, token);
            &&& all.len() > 0 ==> last != Some(all[0])
            &&& forall|i: int| 0 <= i < all.len() ==> is_level_line(#[trigger] all[i])
            &&& forall|i: int, j: int|
                0 <= i && j == i + 1 && j < all.len() ==> #[trigger] all[i] != #[trigger] all[j]
        }),
    decreases events.len(),
{
    if events.len() > 0 && d.watchers.contains_key(token) {
        let event = events.first();
        let (after, next) = daemon_next(d, phase, event);
        let rest = letters(after, next, events.drop_first(), token);
        let all = letters(d, phase, events, token);
        match (phase, event) {
            (PhaseView::Send { message, .. }, DaemonEventView::Sent(_)) => {
                lemma_letters(after, next, events.drop_first(), token, Some(message));
                assert(all =~= seq![message] + rest);
                assert(is_level_line(message)) by {
                    assert(message == level_line(d.last_level->Some_0));
                }
                assert forall|i: int| 0 <= i < all.len() implies is_level_line(
                    #[trigger] all[i],
                ) by {
                    if i > 0 {
                        assert(all[i] == rest[i - 1]);
                    }
                }
                assert forall|i: int, j: int|
                    0 <= i && j == i + 1 && j < all.len() implies #[trigger] all[i]
                    != #[trigger] all[j] by {
                    assert(all[j] == rest[j - 1]);
                    if i > 0 {
                        assert(all[i] == rest[i - 1]);
                    }
                }
            },
            _ => {
                if phase !is Send {
                    law_a_changed_level_is_sent_to_all(d, phase, event);
                    if next is Send && last is Some {
                        law_level_line_reads_back(d.last_level->Some_0);
                        law_level_line_reads_back(after.last_level->Some_0);
                    }
                }
                lemma_letters(after, next, events.drop_first(), token, last);
                assert(all =~= rest);
            },
        }
    }
}

/// The whole life of a consumer. It joins once it is greeted with a line about a
/// level; every message that is written to it from then on, until it leaves, is a
/// line about a level, and no two in a row are equal. The first differs from the
/// greeting too, unless the greeting went out before the daemon had heard of any
/// level.
pub proof fn law_the_life_of_a_consumer(
    d: DaemonView,
    a: Arrival,
    token: u64,
    events: Seq<DaemonEventView>,
)
    requires
        a.greeted is Ok,
        a.registered == Ok::<u64, CoreError>(token),
    ensures
        ({
            let arrival = arrival_events(d.last_level, a);
            let called = arrival.take(arrival.len() - 2);
            let (after, next) = daemon_run(d, PhaseView::Accept, arrival);
            let all = letters(after, next, events, token);
            &&& daemon_run(d, PhaseView::Accept, called) == (
                d,
                PhaseView::Greet { stream: a.stream, message: greeting(d.last_level, a) },
            )
            &&& next is Accept
            &&& after.watchers == d.watchers.insert(token, a.stream)
            &&& is_level_line(greeting(d.last_level, a))
            &&& forall|i: int| 0 <= i < all.len() ==> is_level_line(#[trigger] all[i])
            &&& forall|i: int, j: int|
                0 <= i && j == i + 1 && j < all.len() ==> #[trigger] all[i] != #[trigger] all[j]
            &&& all.len() > 0 && d.last_level is Some ==> all[0] != greeting(d.last_level, a)
        }),
{
    let arrival = arrival_events(d.last_level, a);
    let accepted = DaemonEventView::Accepted(Ok(Some(a.stream)));
    let level = if d.last_level is None {
        seq![DaemonEventView::Text(a.level)]
    } else {
        Seq::empty()
    };
    assert(arrival.take(arrival.len() - 2) =~= seq![accepted] + level);
    let (d1, p1) = daemon_next(d, PhaseView::Accept, accepted);
    lemma_daemon_run_one(d, PhaseView::Accept, accepted);
    lemma_daemon_runs_on(d, PhaseView::Accept, seq![accepted], level);
    if d.last_level is None {
        lemma_daemon_run_one(d1, p1, DaemonEventView::Text(a.level));
    }
    lemma_arrival(d, a);
    assert(seq![a].drop_last() =~= Seq::<Arrival>::empty());
    assert(joined(d.watchers, seq![a].drop_last()) == d.watchers);
    let (after, next) = daemon_run(d, PhaseView::Accept, arrival);
    let last = if d.last_level is Some {
        Some(greeting(d.last_level, a))
    } else {
        None
    };
    lemma_letters(after, next, events, token, last);
}

/// The outcomes of the calls of draining `source` from `step` on, `calls` at most.
pub open spec fn drain_trace(
    source: BatterySource,
    step: DrainStepView,
    answers: DrainAnswers,
    calls: nat,
) -> Seq<DaemonEventView>
    decreases calls,
{
    if calls == 0 || step is Done {
        Seq::empty()
    } else {
        let event = drain_answer(source, step, answers);
        seq![DaemonEventView::Drain(event)] + drain_trace(
            source,
            drain_next(source, step, event),
            answers,
            (calls - 1) as nat,
        )
    }
}

/// The phase that drains the feed of `d`.
pub open spec fn draining(d: DaemonView, accept: bool) -> PhaseView {
    match d.feed {
        Feed::Source(_) => PhaseView::Drain { step: DrainStepView::Collect, accept },
        Feed::Messages(_) => PhaseView::DrainMessages { accept },
    }
}

/// The outcomes of the calls of draining the feed.
pub open spec fn drain_events(d: DaemonView, answers: DrainAnswers) -> Seq<DaemonEventView> {
    match d.feed {
        Feed::Source(source) => drain_trace(source, DrainStepView::Collect, answers, 4),
        Feed::Messages(_) => seq![DaemonEventView::Message(answers.message)],
    }
}

/// The charge state and the level that the feed gives, if it has news. A message
/// that carries no level has that of the capacity file; there may be none.
pub open spec fn news(feed: Feed, answers: DrainAnswers) -> Option<(Seq<char>, Option<u8>)> {
    match feed {
        Feed::Source(source) => match drained(source, answers) {
            Some((level, status)) => Some((status, Some(level))),
            None => None,
        },
        Feed::Messages(_) => match answers.message {
            Some((Some(level), status)) => Some((status, Some(level))),
            Some((None, status)) => Some((status, level_of(answers.level))),
            None => None,
        },
    }
}

/// The outcomes of the calls that follow draining: none without news, else
/// publishing the charge state, reading the level where it is not known yet, and
/// sending it where it changed.
pub open spec fn news_events(
    d: DaemonView,
    answers: DrainAnswers,
    sent: Seq<(u64, Written)>,
) -> Seq<DaemonEventView> {
    match news(d.feed, answers) {
        None => Seq::empty(),
        Some((_, level)) => {
            let published = seq![DaemonEventView::Performed];
            let fetched = match (d.feed, answers.message) {
                (Feed::Messages(_), Some((None, _))) => seq![DaemonEventView::Text(answers.level)],
                _ => Seq::empty(),
            };
            let told = if level is Some && d.last_level != level {
                seq![DaemonEventView::Sent(sent), DaemonEventView::Performed]
            } else {
                Seq::empty()
            };
            published + fetched + told
        },
    }
}

/// The daemon after the news: a new level is the one last heard of, and those who
/// could not be told it have left.
pub open spec fn informed(
    d: DaemonView,
    answers: DrainAnswers,
    sent: Seq<(u64, Written)>,
) -> DaemonView {
    match news(d.feed, answers) {
        Some((_, Some(level))) => if d.last_level == Some(level) {
            d
        } else {
            DaemonView {
                last_level: Some(level),
                watchers: without(d.watchers, failed(sent)),
                ..d
            }
        },
        _ => d,
    }
}

/// Draining the feed ends with the charge state being published, whether or not
/// the level changed; without news, with nothing.
pub proof fn law_news_publishes_the_charge_state(
    d: DaemonView,
    answers: DrainAnswers,
    accept: bool,
)
    ensures
        ({
            let (after, next) = daemon_run(d, draining(d, accept), drain_events(d, answers));
            &&& after == d
            &&& match news(d.feed, answers) {
                Some((status, _)) => next matches PhaseView::Publish { status: published, .. }
                    && published == status,
                None => next == after_news(accept),
            }
        }),
{
    lemma_drain(d, answers, accept);
}

proof fn lemma_drain(d: DaemonView, answers: DrainAnswers, accept: bool)
    ensures
        daemon_run(d, draining(d, accept), drain_events(d, answers)) == (
            d,
            match news(d.feed, answers) {
                Some((status, level)) => PhaseView::Publish {
                    status,
                    level: match d.feed {
                        Feed::Source(_) => level,
                        Feed::Messages(_) => answers.message->Some_0.0,
                    },
                    accept,
                },
                None => after_news(accept),
            },
        ),
{
    match d.feed {
        Feed::Source(source) => {
            lemma_drain_trace(d, source, DrainStepView::Collect, answers, 4, accept);
            crate::source::law_drain_gives_the_news(source, answers);
        },
        Feed::Messages(_) => {
            lemma_daemon_run_one(
                d,
                draining(d, accept),
                DaemonEventView::Message(answers.message),
            );
        },
    }
}

/// The phase of the daemon when draining stands at `step`.
spec fn drain_phase(step: DrainStepView, accept: bool) -> PhaseView {
    match step {
        DrainStepView::Done(None) => after_news(accept),
        DrainStepView::Done(Some((level, status))) => PhaseView::Publish {
            status,
            level: Some(level),
            accept,
        },
        step => PhaseView::Drain { step, accept },
    }
}

proof fn lemma_drain_trace(
    d: DaemonView,
    source: BatterySource,
    step: DrainStepView,
    answers: DrainAnswers,
    calls: nat,
    accept: bool,
)
    requires
        d.feed == Feed::Source(source),
    ensures
        daemon_run(d, drain_phase(step, accept), drain_trace(source, step, answers, calls)) == (
            d,
            drain_phase(crate::source::drain_run(source, step, answers, calls), accept),
        ),
    decreases calls,
{
    if calls == 0 {
    } else if step is Done {
        lemma_drain_rests(source, step, answers, calls);
    } else {
        let event = drain_answer(source, step, answers);
        let next = drain_next(source, step, event);
        let rest = drain_trace(source, next, answers, (calls - 1) as nat);
        let phase = drain_phase(step, accept);
        lemma_daemon_runs_on(d, phase, seq![DaemonEventView::Drain(event)], rest);
        lemma_daemon_run_one(d, phase, DaemonEventView::Drain(event));
        lemma_drain_trace(d, source, next, answers, (calls - 1) as nat, accept);
    }
}

proof fn lemma_drain_rests(
    source: BatterySource,
    step: DrainStepView,
    answers: DrainAnswers,
    calls: nat,
)
    requires
        step is Done,
    ensures
        crate::source::drain_run(source, step, answers, calls) == step,
    decreases calls,
{
    if calls > 0 {
        lemma_drain_rests(source, step, answers, (calls - 1) as nat);
    }
}

/// The news of the feed, once drained and dealt with, leaves the daemon informed,
/// and the daemon goes on to accept or to wait.
pub proof fn law_news_is_dealt_with(
    d: DaemonView,
    answers: DrainAnswers,
    sent: Seq<(u64, Written)>,
    accept: bool,
)
    ensures
        daemon_run(
            d,
            draining(d, accept),
            drain_events(d, answers) + news_events(d, answers, sent),
        ) == (informed(d, answers, sent), after_news(accept)),
{
    let start = draining(d, accept);
    let drain = drain_events(d, answers);
    lemma_drain(d, answers, accept);
    lemma_daemon_runs_on(d, start, drain, news_events(d, answers, sent));
    match news(d.feed, answers) {
        None => {},
        Some((status, level)) => {
            let p1 = daemon_run(d, start, drain).1;
            let performed = DaemonEventView::Performed;
            let published = seq![performed];
            let text = DaemonEventView::Text(answers.level);
            let asks = d.feed is Messages && answers.message->Some_0.0 is None;
            let fetched = if asks {
                seq![text]
            } else {
                Seq::empty()
            };
            let changed = level is Some && d.last_level != level;
            let told = if changed {
                seq![DaemonEventView::Sent(sent), performed]
            } else {
                Seq::empty()
            };
            assert(news_events(d, answers, sent) =~= published + fetched + told);
            lemma_daemon_run_one(d, p1, performed);
            lemma_daemon_runs_on(d, p1, published, fetched);
            let (d2, p2) = daemon_next(d, p1, performed);
            if asks {
                lemma_daemon_run_one(d2, p2, text);
            }
            let (d3, p3) = daemon_run(d2, p2, fetched);
            assert(changed ==> (d3, p3) == heard(d, level->0, accept));
            assert(!changed ==> d3 == d && p3 == after_news(accept));
            lemma_daemon_runs_on(d, p1, published + fetched, told);
            if changed {
                assert(told =~= seq![DaemonEventView::Sent(sent)] + seq![performed]);
                lemma_daemon_runs_on(d3, p3, seq![DaemonEventView::Sent(sent)], seq![performed]);
                lemma_daemon_run_one(d3, p3, DaemonEventView::Sent(sent));
                let (d4, p4) = daemon_next(d3, p3, DaemonEventView::Sent(sent));
                lemma_daemon_run_one(d4, p4, performed);
            }
        },
    }
}

/// One wakeup, from wait to wait. Those who are gone leave first; then, if the
/// feed is ready, the news is dealt with; then, if the listening socket is ready,
/// all who call are served.
pub proof fn law_one_wakeup(
    d: DaemonView,
    events: Seq<Ready>,
    answers: DrainAnswers,
    sent: Seq<(u64, Written)>,
    arrivals: Seq<Arrival>,
    end: Result<Option<UnixStreamFd>, CoreError>,
)
    requires
        events.len() > 0,
        end is Err || end == Ok::<Option<UnixStreamFd>, CoreError>(None),
    ensures
        ({
            let left = wakeup(d, events).0;
            let told = if d.has_news(events) {
                informed(left, answers, sent)
            } else {
                left
            };
            let calls = seq![DaemonEventView::Woken(Ok(events)), DaemonEventView::Performed] + (
            if d.has_news(events) {
                drain_events(left, answers) + news_events(left, answers, sent)
            } else {
                Seq::empty()
            }) + (if d.has_callers(events) {
                arrivals_events(told.last_level, arrivals) + seq![DaemonEventView::Accepted(end)]
            } else {
                Seq::empty()
            });
            daemon_run(d, PhaseView::Wait, calls) == (
                if d.has_callers(events) {
                    DaemonView { watchers: joined(told.watchers, arrivals), ..told }
                } else {
                    told
                },
                PhaseView::Wait,
            )
        }),
{
    let woken = DaemonEventView::Woken(Ok(events));
    let performed = DaemonEventView::Performed;
    let (left, p1) = wakeup(d, events);
    let accept = d.has_callers(events);
    let first = seq![woken, performed];
    assert(first =~= seq![woken] + seq![performed]);
    lemma_daemon_runs_on(d, PhaseView::Wait, seq![woken], seq![performed]);
    lemma_daemon_run_one(d, PhaseView::Wait, woken);
    lemma_daemon_run_one(left, p1, performed);
    let p2 = daemon_next(left, p1, performed).1;
    let middle = if d.has_news(events) {
        drain_events(left, answers) + news_events(left, answers, sent)
    } else {
        Seq::empty()
    };
    lemma_daemon_runs_on(d, PhaseView::Wait, first, middle);
    if d.has_news(events) {
        law_news_is_dealt_with(left, answers, sent, accept);
    }
    let (told, p3) = daemon_run(left, p2, middle);
    assert(p3 == after_news(accept));
    let last = if accept {
        arrivals_events(told.last_level, arrivals) + seq![DaemonEventView::Accepted(end)]
    } else {
        Seq::empty()
    };
    lemma_daemon_runs_on(d, PhaseView::Wait, first + middle, last);
    if accept {
        law_all_callers_are_served(told, arrivals, end);
    }
}

/// At place `i` of `dead` a consumer leaves: there is a token of a consumer, for the
/// first time.
pub open spec fn leaves_at(
    watchers: Map<u64, UnixStreamFd>,
    dead: Seq<Option<u64>>,
    i: int,
) -> bool {
    &&& 0 <= i < dead.len()
    &&& dead[i] matches Some(token) && watchers.contains_key(token)
    &&& forall|j: int| 0 <= j < i ==> #[trigger] dead[j] != dead[i]
}

/// `streams` are the streams of the consumers that leave, in the order of the places
/// `at` at which they do: of all of these places, and of no others.
pub open spec fn handed_out_at(
    watchers: Map<u64, UnixStreamFd>,
    dead: Seq<Option<u64>>,
    streams: Seq<UnixStreamFd>,
    at: Seq<int>,
) -> bool {
    &&& at.len() == streams.len()
    &&& forall|k: int, l: int| 0 <= k < l < at.len() ==> #[trigger] at[k] < #[trigger] at[l]
    &&& forall|k: int|
        0 <= k < at.len() ==> leaves_at(watchers, dead, #[trigger] at[k]) && streams[k]
            == watchers[dead[at[k]]->Some_0]
    &&& forall|i: int| #[trigger] leaves_at(watchers, dead, i) ==> at.contains(i)
}

/// The tokens in `dead`.
spec fn somes(dead: Seq<Option<u64>>) -> Seq<u64>
    decreases dead.len(),
{
    if dead.len() == 0 {
        Seq::empty()
    } else {
        match dead.last() {
            Some(token) => somes(dead.drop_last()).push(token),
            None => somes(dead.drop_last()),
        }
    }
}

proof fn lemma_somes(dead: Seq<Option<u64>>, token: u64)
    ensures
        somes(dead).contains(token) <==> dead.contains(Some(token)),
    decreases dead.len(),
{
    if dead.len() > 0 {
        let before = dead.drop_last();
        lemma_somes(before, token);
        let n = dead.len() - 1;
        if somes(before).contains(token) {
            let k = choose|k: int| 0 <= k < somes(before).len() && somes(before)[k] == token;
            assert(somes(dead)[k] == token);
        }
        if before.contains(Some(token)) {
            let k = choose|k: int| 0 <= k < before.len() && before[k] == Some(token);
            assert(dead[k] == Some(token));
        }
        if dead[n] == Some(token) {
            assert(somes(dead).last() == token);
        }
        if somes(dead).contains(token) && dead[n] != Some(token) {
            let k = choose|k: int| 0 <= k < somes(dead).len() && somes(dead)[k] == token;
            assert(somes(before)[k] == token);
        }
        if dead.contains(Some(token)) && dead[n] != Some(token) {
            let k = choose|k: int| 0 <= k < dead.len() && dead[k] == Some(token);
            assert(before[k] == Some(token));
        }
    }
}

proof fn lemma_handed_out(watchers: Map<u64, UnixStreamFd>, dead: Seq<Option<u64>>) -> (at: Seq<
    int,
>)
    ensures
        handed_out_at(watchers, dead, taken(watchers, somes(dead)), at),
    decreases dead.len(),
{
    if dead.len() == 0 {
        Seq::empty()
    } else {
        let front = dead.drop_last();
        let n = dead.len() - 1;
        let before = lemma_handed_out(watchers, front);
        assert forall|i: int| 0 <= i < n implies (leaves_at(watchers, dead, i) <==> leaves_at(
            watchers,
            front,
            i,
        )) by {
            assert forall|j: int| 0 <= j <= i implies dead[j] == front[j] by {}
            if leaves_at(watchers, dead, i) {
                assert forall|j: int| 0 <= j < i implies #[trigger] front[j] != front[i] by {
                    assert(dead[j] != dead[i]);
                }
            }
            if leaves_at(watchers, front, i) {
                assert forall|j: int| 0 <= j < i implies #[trigger] dead[j] != dead[i] by {
                    assert(front[j] != front[i]);
                }
            }
        }
        if dead[n] is Some {
            let token = dead[n]->Some_0;
            lemma_somes(front, token);
            assert(somes(dead).drop_last() =~= somes(front));
            assert(somes(dead).last() == token);
            assert(front.contains(Some(token)) <==> exists|j: int|
                0 <= j < n && #[trigger] dead[j] == dead[n]) by {
                if front.contains(Some(token)) {
                    let j = choose|j: int| 0 <= j < front.len() && front[j] == Some(token);
                    assert(dead[j] == dead[n]);
                }
                if exists|j: int| 0 <= j < n && #[trigger] dead[j] == dead[n] {
                    let j = choose|j: int| 0 <= j < n && #[trigger] dead[j] == dead[n];
                    assert(front[j] == Some(token));
                }
            }
        }
        let streams = taken(watchers, somes(dead));
        let at = if leaves_at(watchers, dead, n) {
            before.push(n)
        } else {
            before
        };
        assert forall|k: int| 0 <= k < at.len() implies leaves_at(
            watchers,
            dead,
            #[trigger] at[k],
        ) && streams[k] == watchers[dead[at[k]]->Some_0] by {
            if k < before.len() {
                assert(leaves_at(watchers, front, before[k]));
                assert(at[k] == before[k]);
            }
        }
        assert forall|i: int| #[trigger] leaves_at(watchers, dead, i) implies at.contains(i) by {
            if i < n {
                assert(leaves_at(watchers, front, i));
                let k = choose|k: int| 0 <= k < before.len() && before[k] == i;
                assert(at[k] == i);
            } else {
                assert(at[at.len() - 1] == i);
            }
        }
        assert forall|k: int, l: int| 0 <= k < l < at.len() implies #[trigger] at[k]
            < #[trigger] at[l] by {
            assert(leaves_at(watchers, front, before[k]));
        }
        at
    }
}

/// For each readiness event the token of the consumer that it says is gone: of one
/// that hung up or is in error and is neither the feed nor the listening socket.
pub open spec fn gone_tokens(d: DaemonView, events: Seq<Ready>) -> Seq<Option<u64>> {
    Seq::new(
        events.len(),
        |i: int|
            if events[i].token != d.source_token && events[i].token != d.listener_token && (
            events[i].hangup || events[i].error) {
                Some(events[i].token)
            } else {
                None
            },
    )
}

proof fn lemma_gone_tokens(d: DaemonView, events: Seq<Ready>)
    ensures
        d.lost_tokens(events) == somes(gone_tokens(d, events)),
    decreases events.len(),
{
    reveal(Seq::filter);
    if events.len() > 0 {
        let before = events.drop_last();
        lemma_gone_tokens(d, before);
        assert(gone_tokens(d, events).drop_last() =~= gone_tokens(d, before));
        assert(gone_tokens(d, events).last() == (if d.lost(events.last()) {
            Some(events.last().token)
        } else {
            None
        }));
        assert(d.lost_tokens(events) =~= (if d.lost(events.last()) {
            d.lost_tokens(before).push(events.last().token)
        } else {
            d.lost_tokens(before)
        }));
    } else {
        assert(d.lost_tokens(events) =~= Seq::<u64>::empty());
    }
}

/// What the ready say at a wakeup, whatever else is among them. The feed is drained
/// next exactly where it is among the ready, and consumers are accepted exactly
/// where the listening socket is. Exactly those consumers leave that hung up or are
/// in error; their streams are handed out, each once and in order. All else stays
/// as it is, and so does everything where the wait failed or nobody is ready.
pub proof fn law_what_a_wakeup_does(d: DaemonView, events: Seq<Ready>, e: CoreError)
    ensures
        daemon_next(d, PhaseView::Wait, DaemonEventView::Woken(Err(e))) == (d, PhaseView::Wait),
        events.len() == 0 ==> daemon_next(d, PhaseView::Wait, DaemonEventView::Woken(Ok(events)))
            == (d, PhaseView::Wait),
        events.len() > 0 ==> {
            let (after, next) = daemon_next(
                d,
                PhaseView::Wait,
                DaemonEventView::Woken(Ok(events)),
            );
            &&& next is Dismiss
            &&& next->Dismiss_source <==> exists|i: int|
                0 <= i < events.len() && (#[trigger] events[i]).token == d.source_token
            &&& d.source_token != d.listener_token ==> (next->Dismiss_accept <==> exists|i: int|
                0 <= i < events.len() && (#[trigger] events[i]).token == d.listener_token)
            &&& d.source_token == d.listener_token ==> !next->Dismiss_accept
            &&& after.feed == d.feed
            &&& after.source_token == d.source_token
            &&& after.listener_token == d.listener_token
            &&& after.last_level == d.last_level
            &&& forall|token: u64| #[trigger]
                after.watchers.contains_key(token) <==> d.watchers.contains_key(token) && !(
                exists|i: int|
                    0 <= i < events.len() && (#[trigger] events[i]).token == token && token
                        != d.source_token && token != d.listener_token && (events[i].hangup
                        || events[i].error))
            &&& after.watchers.submap_of(d.watchers)
            &&& exists|at: Seq<int>| #[trigger]
                handed_out_at(d.watchers, gone_tokens(d, events), next->Dismiss_streams, at)
        },
{
    if events.len() > 0 {
        let (after, next) = daemon_next(d, PhaseView::Wait, DaemonEventView::Woken(Ok(events)));
        let dead = gone_tokens(d, events);
        lemma_gone_tokens(d, events);
        let at = lemma_handed_out(d.watchers, dead);
        assert(next->Dismiss_streams == taken(d.watchers, somes(dead)));
        assert(handed_out_at(d.watchers, gone_tokens(d, events), next->Dismiss_streams, at));
        assert forall|token: u64| #[trigger]
            after.watchers.contains_key(token) <==> d.watchers.contains_key(token) && !(exists|
            i: int,
        |
            0 <= i < events.len() && (#[trigger] events[i]).token == token && token
                != d.source_token && token != d.listener_token && (events[i].hangup
                || events[i].error)) by {
            lemma_somes(dead, token);
            if dead.contains(Some(token)) {
                let i = choose|i: int| 0 <= i < dead.len() && dead[i] == Some(token);
                assert(events[i].token == token);
            }
            if exists|i: int|
                0 <= i < events.len() && (#[trigger] events[i]).token == token && token
                    != d.source_token && token != d.listener_token && (events[i].hangup
                    || events[i].error) {
                let i = choose|i: int|
                    0 <= i < events.len() && (#[trigger] events[i]).token == token && token
                        != d.source_token && token != d.listener_token && (events[i].hangup
                        || events[i].error);
                assert(dead[i] == Some(token));
            }
        }
    }
}

/// For each outcome of writing to a consumer its token, where writing failed.
pub open spec fn failed_tokens(outcomes: Seq<(u64, Written)>) -> Seq<Option<u64>> {
    Seq::new(
        outcomes.len(),
        |i: int|
            if outcomes[i].1 is Err {
                Some(outcomes[i].0)
            } else {
                None
            },
    )
}

proof fn lemma_failed_tokens(outcomes: Seq<(u64, Written)>)
    ensures
        failed(outcomes) == somes(failed_tokens(outcomes)),
    decreases outcomes.len(),
{
    reveal(Seq::filter);
    if outcomes.len() > 0 {
        let before = outcomes.drop_last();
        lemma_failed_tokens(before);
        assert(failed_tokens(outcomes).drop_last() =~= failed_tokens(before));
        assert(failed_tokens(outcomes).last() == (if outcomes.last().1 is Err {
            Some(outcomes.last().0)
        } else {
            None
        }));
        assert(failed(outcomes) =~= (if outcomes.last().1 is Err {
            failed(before).push(outcomes.last().0)
        } else {
            failed(before)
        }));
    } else {
        assert(failed(outcomes) =~= Seq::<u64>::empty());
    }
}

/// After a message exactly those consumers leave whose write failed, one that was
/// not ready to be written to not among them. Their streams are handed out, each
/// once and in order; all else stays as it is. A broadcast by itself does the same.
pub proof fn law_what_a_broadcast_does(
    d: DaemonView,
    message: Seq<char>,
    to: Set<u64>,
    accept: bool,
    outcomes: Seq<(u64, Written)>,
)
    ensures
        ({
            let (after, next) = daemon_next(
                d,
                PhaseView::Send { message, to, accept },
                DaemonEventView::Sent(outcomes),
            );
            &&& after.watchers == without(d.watchers, failed(outcomes))
            &&& next == (PhaseView::Discard {
                streams: taken(d.watchers, failed(outcomes)),
                accept,
            })
            &&& after.feed == d.feed
            &&& after.source_token == d.source_token
            &&& after.listener_token == d.listener_token
            &&& after.last_level == d.last_level
        }),
        forall|token: u64| #[trigger]
            without(d.watchers, failed(outcomes)).contains_key(token) <==> d.watchers.contains_key(
                token,
            ) && !(exists|i: int|
                0 <= i < outcomes.len() && (#[trigger] outcomes[i]).0 == token
                    && outcomes[i].1 is Err),
        without(d.watchers, failed(outcomes)).submap_of(d.watchers),
        exists|at: Seq<int>| #[trigger]
            handed_out_at(
                d.watchers,
                failed_tokens(outcomes),
                taken(d.watchers, failed(outcomes)),
                at,
            ),
{
    let dead = failed_tokens(outcomes);
    let left = without(d.watchers, failed(outcomes));
    lemma_failed_tokens(outcomes);
    let at = lemma_handed_out(d.watchers, dead);
    assert forall|token: u64| #[trigger]
        left.contains_key(token) <==> d.watchers.contains_key(token) && !(exists|i: int|
            0 <= i < outcomes.len() && (#[trigger] outcomes[i]).0 == token
                && outcomes[i].1 is Err) by {
        lemma_somes(dead, token);
        if dead.contains(Some(token)) {
            let i = choose|i: int| 0 <= i < dead.len() && dead[i] == Some(token);
            assert(outcomes[i].0 == token);
        }
        if exists|i: int|
            0 <= i < outcomes.len() && (#[trigger] outcomes[i]).0 == token
                && outcomes[i].1 is Err {
            let i = choose|i: int|
                0 <= i < outcomes.len() && (#[trigger] outcomes[i]).0 == token
                    && outcomes[i].1 is Err;
            assert(dead[i] == Some(token));
        }
    }
}

/// The news of a level, once its charge state is published. The level is then the
/// one last heard of, and nothing else of the daemon changes. It goes to every
/// consumer, as a line, exactly where it was not the one last heard of before; else
/// the daemon goes on to accept those who call, where somebody does, or to wait. A
/// message without a level takes that of the capacity file, and where there is none
/// nothing happens.
pub proof fn law_what_news_does(
    d: DaemonView,
    status: Seq<char>,
    level: u8,
    accept: bool,
    contents: Option<Seq<char>>,
)
    ensures
        ({
            let published = daemon_next(
                d,
                PhaseView::Publish { status, level: Some(level), accept },
                DaemonEventView::Performed,
            );
            let asked = daemon_next(
                d,
                PhaseView::Publish { status, level: None, accept },
                DaemonEventView::Performed,
            );
            let fetched = daemon_next(
                d,
                PhaseView::FetchLevel { accept },
                DaemonEventView::Text(contents),
            );
            let idle = if accept {
                PhaseView::Accept
            } else {
                PhaseView::Wait
            };
            &&& published.0 == (DaemonView { last_level: Some(level), ..d })
            &&& published.1 == (if d.last_level == Some(level) {
                idle
            } else {
                PhaseView::Send { message: level_line(level), to: d.watchers.dom(), accept }
            })
            &&& asked == (d, PhaseView::FetchLevel { accept })
            &&& level_of(contents) == Some(level) ==> fetched == published
            &&& level_of(contents) is None ==> fetched == (d, idle)
        }),
{
}

/// After a wakeup the daemon drains the feed that it has, where that was ready, and
/// goes on to accept or to wait where it was not; so it does too once the streams
/// that could not be written to are gone, and once a feed turns out to have no
/// news. News of a message is published with the charge state of the message, and
/// news of a source with the level and the charge state that draining it gave; as
/// long as draining goes on, the daemon makes its calls.
pub proof fn law_what_comes_next(
    d: DaemonView,
    drained_source: BatterySource,
    step: DrainStepView,
    answer: DrainEventView,
    streams: Seq<UnixStreamFd>,
    source: bool,
    accept: bool,
    level: Option<u8>,
    status: Seq<char>,
)
    ensures
        ({
            let idle = if accept {
                PhaseView::Accept
            } else {
                PhaseView::Wait
            };
            let performed = DaemonEventView::Performed;
            let dismissed = daemon_next(
                d,
                PhaseView::Dismiss { streams, source, accept },
                performed,
            );
            let messages = PhaseView::DrainMessages { accept };
            &&& dismissed.0 == d
            &&& dismissed.1 == (if !source {
                idle
            } else if d.feed is Source {
                PhaseView::Drain { step: DrainStepView::Collect, accept }
            } else {
                messages
            })
            &&& daemon_next(d, PhaseView::Discard { streams, accept }, performed) == (d, idle)
            &&& daemon_next(d, messages, DaemonEventView::Message(None)) == (d, idle)
            &&& daemon_next(d, messages, DaemonEventView::Message(Some((level, status)))) == (
                d,
                PhaseView::Publish { status, level, accept },
            )
            &&& d.feed == Feed::Source(drained_source) ==> {
                let next = drain_next(drained_source, step, answer);
                let (after, phase) = daemon_next(
                    d,
                    PhaseView::Drain { step, accept },
                    DaemonEventView::Drain(answer),
                );
                &&& after == d
                &&& next is Done && next->Done_0 is None ==> phase == idle
                &&& next is Done && next->Done_0 is Some ==> phase == (PhaseView::Publish {
                    status: next->Done_0->Some_0.1,
                    level: Some(next->Done_0->Some_0.0),
                    accept,
                })
                &&& next !is Done ==> phase == (PhaseView::Drain { step: next, accept })
            }
        }),
{
}

/// One consumer, call by call. It is greeted with the level last heard of; before
/// any was, with that of the capacity file, or 0. Where the greeting can be written,
/// even if not at once, its stream is registered, and where that succeeds it joins
/// under its token. Then the next is accepted. Where nobody calls, or accepting
/// fails, the daemon waits again.
pub proof fn law_what_a_caller_gets(
    d: DaemonView,
    stream: UnixStreamFd,
    contents: Option<Seq<char>>,
    message: Seq<char>,
    written: Option<usize>,
    token: u64,
    e: CoreError,
)
    ensures
        daemon_next(d, PhaseView::Accept, DaemonEventView::Accepted(Ok(Some(stream)))) == (
            d,
            match d.last_level {
                Some(level) => PhaseView::Greet { stream, message: level_line(level) },
                None => PhaseView::FallbackLevel { stream },
            },
        ),
        daemon_next(d, PhaseView::Accept, DaemonEventView::Accepted(Ok(None))) == (
            d,
            PhaseView::Wait,
        ),
        daemon_next(d, PhaseView::Accept, DaemonEventView::Accepted(Err(e))) == (
            d,
            PhaseView::Wait,
        ),
        ({
            let read = daemon_next(
                d,
                PhaseView::FallbackLevel { stream },
                DaemonEventView::Text(contents),
            );
            match level_of(contents) {
                Some(level) => read == (
                    d,
                    PhaseView::Greet { stream, message: level_line(level) },
                ),
                None => read == (d, PhaseView::Greet { stream, message: seq!['0', '\n'] }),
            }
        }),
        ({
            let greet = PhaseView::Greet { stream, message };
            let register = PhaseView::Register { stream };
            &&& daemon_next(d, greet, DaemonEventView::Greeted(Ok(written))) == (d, register)
            &&& daemon_next(d, greet, DaemonEventView::Greeted(Err(e))) == (d, PhaseView::Accept)
            &&& daemon_next(d, register, DaemonEventView::Registered(Ok(token))) == (
                DaemonView { watchers: d.watchers.insert(token, stream), ..d },
                PhaseView::Accept,
            )
            &&& daemon_next(d, register, DaemonEventView::Registered(Err(e))) == (
                d,
                PhaseView::Accept,
            )
        }),
{
    assert(level_line(0) =~= seq!['0', '\n']);
}

/// An outcome of another call than the one that was due changes nothing.
pub proof fn law_stray_outcomes_leave_the_daemon_alone(
    d: DaemonView,
    phase: PhaseView,
    event: DaemonEventView,
)
    requires
        !(phase is Wait && event is Woken),
        !((phase is Dismiss || phase is Publish || phase is Discard) && event is Performed),
        !(phase is Drain && event is Drain && d.feed is Source),
        !(phase is DrainMessages && event is Message),
        !((phase is FetchLevel || phase is FallbackLevel) && event is Text),
        !(phase is Send && event is Sent),
        !(phase is Accept && event is Accepted),
        !(phase is Greet && event is Greeted),
        !(phase is Register && event is Registered),
    ensures
        daemon_next(d, phase, event) == (d, phase),
{
}

/// Sixteen events are taken at once, after a wait without limit.
pub proof fn law_how_the_daemon_waits()
    ensures
        WAIT_EVENTS == 16,
        WAIT_TIMEOUT == -1,
{
}

/// The daemon and a phase show all that they hold; of those a message goes to, who
/// they are.
pub proof fn law_daemon_states_show_everything(
    d: Daemon,
    streams: Vec<UnixStreamFd>,
    source: bool,
    accept: bool,
    step: DrainStep,
    status: String,
    level: Option<u8>,
    to: Vec<u64>,
    stream: UnixStreamFd,
)
    ensures
        d@.feed == d.feed,
        d@.source_token == d.source_token,
        d@.listener_token == d.listener_token,
        d@.last_level == d.last_level,
        d@.watchers == d.watchers@,
        Phase::Wait@ is Wait,
        (Phase::Dismiss { streams, source, accept })@ == (PhaseView::Dismiss {
            streams: streams@,
            source,
            accept,
        }),
        (Phase::Drain { step, accept })@ == (PhaseView::Drain { step: step@, accept }),
        (Phase::DrainMessages { accept })@ == (PhaseView::DrainMessages { accept }),
        (Phase::Publish { status, level, accept })@ == (PhaseView::Publish {
            status: status@,
            level,
            accept,
        }),
        (Phase::FetchLevel { accept })@ == (PhaseView::FetchLevel { accept }),
        (Phase::Send { message: status, to, accept })@ == (PhaseView::Send {
            message: status@,
            to: to@.to_set(),
            accept,
        }),
        (Phase::Discard { streams, accept })@ == (PhaseView::Discard { streams: streams@, accept }),
        Phase::Accept@ is Accept,
        (Phase::FallbackLevel { stream })@ == (PhaseView::FallbackLevel { stream }),
        (Phase::Greet { stream, message: status })@ == (PhaseView::Greet {
            stream,
            message: status@,
        }),
        (Phase::Register { stream })@ == (PhaseView::Register { stream }),
{
}

/// An outcome of a call of the daemon shows all that it holds.
pub proof fn law_daemon_events_show_everything(
    events: Vec<Ready>,
    e: CoreError,
    drain: DrainEvent,
    level: Option<u8>,
    status: String,
    text: Option<String>,
    outcomes: Vec<(u64, Written)>,
    accepted: Result<Option<UnixStreamFd>, CoreError>,
    written: Written,
    registered: Result<u64, CoreError>,
)
    ensures
        DaemonEvent::Woken(Ok(events))@ == DaemonEventView::Woken(Ok(events@)),
        DaemonEvent::Woken(Err(e))@ == DaemonEventView::Woken(Err(e)),
        DaemonEvent::Performed@ is Performed,
        DaemonEvent::Drain(drain)@ == DaemonEventView::Drain(drain@),
        DaemonEvent::Message(Some((level, status)))@ == DaemonEventView::Message(
            Some((level, status@)),
        ),
        DaemonEvent::Message(None)@ == DaemonEventView::Message(None),
        DaemonEvent::Text(text)@ == DaemonEventView::Text(chars_of(text)),
        DaemonEvent::Sent(outcomes)@ == DaemonEventView::Sent(outcomes@),
        DaemonEvent::Accepted(accepted)@ == DaemonEventView::Accepted(accepted),
        DaemonEvent::Greeted(written)@ == DaemonEventView::Greeted(written),
        DaemonEvent::Registered(registered)@ == DaemonEventView::Registered(registered),
{
}

} // verus!
