//! The kernel interface that announces battery changes: an inotify watch on the
//! capacity file where that can be had, the uevent socket otherwise.
//!
//! Opening a source and draining it are sequences of system calls. Each is a
//! value that names the next call to make; the outcome of that call leads to
//! the next value.

use crate::battery::chars_of;
use crate::battery::level_of;
use crate::battery::read_level;
use crate::battery::read_status;
use crate::battery::status_of;
use coreshift_core::reactor::Fd;
use coreshift_core::CoreError;
use vstd::prelude::*;

verus! {

/// An open source of battery changes.
pub enum BatterySource {
    /// An inotify descriptor that watches the capacity and status files.
    Inotify(Fd),
    /// A socket that receives kernel uevents.
    Uevent(Fd),
}

/// The next call of opening a source.
pub enum OpenStep {
    /// Create an inotify descriptor.
    InitInotify,
    /// Watch the capacity file, then the status file, for modification.
    AddWatches { fd: Fd },
    /// Open the uevent socket.
    OpenUevent,
    /// Nothing is left to do.
    Opened(Result<BatterySource, CoreError>),
}

/// The outcome of a call of opening a source.
pub enum OpenEvent {
    /// Of [`OpenStep::InitInotify`].
    Inotify(Result<Fd, CoreError>),
    /// Of [`OpenStep::AddWatches`], for each of the two files.
    Watched { capacity: Result<i32, CoreError>, status: Result<i32, CoreError> },
    /// Of [`OpenStep::OpenUevent`].
    Uevent(Result<Fd, CoreError>),
}

/// The next call of draining a source.
pub enum DrainStep {
    /// Empty the source of what it has queued.
    Collect,
    /// Read the capacity file.
    ReadLevel,
    /// Read the status file.
    ReadStatus { level: u8 },
    /// Read the status property.
    ReadProperty { level: u8 },
    /// Nothing is left to do: the level and the charge state, if there is news.
    Done(Option<(u8, String)>),
}

/// The outcome of a call of draining a source.
pub enum DrainEvent {
    /// Of [`DrainStep::Collect`] on an inotify descriptor.
    Collected,
    /// Of [`DrainStep::Collect`] on a uevent socket: the last message about a
    /// power supply, with the level it carries, if any, and its charge state.
    Message(Option<(Option<u8>, String)>),
    /// Of a read: what was there, if it could be read.
    Text(Option<String>),
}

/// A [`DrainStep`] with its text as characters.
#[verifier::ext_equal]
pub enum DrainStepView {
    Collect,
    ReadLevel,
    ReadStatus { level: u8 },
    ReadProperty { level: u8 },
    Done(Option<(u8, Seq<char>)>),
}

/// A [`DrainEvent`] with its text as characters.
#[verifier::ext_equal]
pub enum DrainEventView {
    Collected,
    Message(Option<(Option<u8>, Seq<char>)>),
    Text(Option<Seq<char>>),
}

impl View for DrainStep {
    type V = DrainStepView;

    open spec fn view(&self) -> DrainStepView {
        match *self {
            DrainStep::Collect => DrainStepView::Collect,
            DrainStep::ReadLevel => DrainStepView::ReadLevel,
            DrainStep::ReadStatus { level } => DrainStepView::ReadStatus { level },
            DrainStep::ReadProperty { level } => DrainStepView::ReadProperty { level },
            DrainStep::Done(Some((level, status))) => DrainStepView::Done(Some((level, status@))),
            DrainStep::Done(None) => DrainStepView::Done(None),
        }
    }
}

/// A uevent message with its charge state as characters.
pub open spec fn message_view(m: Option<(Option<u8>, String)>) -> Option<
    (Option<u8>, Seq<char>),
> {
    match m {
        Some((level, status)) => Some((level, status@)),
        None => None,
    }
}

impl View for DrainEvent {
    type V = DrainEventView;

    open spec fn view(&self) -> DrainEventView {
        match *self {
            DrainEvent::Collected => DrainEventView::Collected,
            DrainEvent::Message(m) => DrainEventView::Message(message_view(m)),
            DrainEvent::Text(text) => DrainEventView::Text(chars_of(text)),
        }
    }
}

/// Where the outcome `event` leads from `step`. An outcome that does not belong
/// to the step changes nothing.
pub open spec fn open_next(step: OpenStep, event: OpenEvent) -> OpenStep {
    match (step, event) {
        (OpenStep::InitInotify, OpenEvent::Inotify(Ok(fd))) => OpenStep::AddWatches { fd },
        (OpenStep::InitInotify, OpenEvent::Inotify(Err(_))) => OpenStep::OpenUevent,
        (OpenStep::AddWatches { fd }, OpenEvent::Watched { capacity, .. }) => if capacity is Ok {
            OpenStep::Opened(Ok(BatterySource::Inotify(fd)))
        } else {
            OpenStep::OpenUevent
        },
        (OpenStep::OpenUevent, OpenEvent::Uevent(Ok(fd))) => OpenStep::Opened(
            Ok(BatterySource::Uevent(fd)),
        ),
        (OpenStep::OpenUevent, OpenEvent::Uevent(Err(e))) => OpenStep::Opened(Err(e)),
        _ => step,
    }
}

/// Where the outcome `event` leads from `step` when `source` is drained. An
/// outcome that does not belong to the step changes nothing.
pub open spec fn drain_next(
    source: BatterySource,
    step: DrainStepView,
    event: DrainEventView,
) -> DrainStepView {
    match (step, event) {
        (DrainStepView::Collect, DrainEventView::Collected) => if source is Inotify {
            DrainStepView::ReadLevel
        } else {
            step
        },
        (DrainStepView::Collect, DrainEventView::Message(m)) => if source is Uevent {
            match m {
                None => DrainStepView::Done(None),
                Some((Some(level), _)) => DrainStepView::ReadStatus { level },
                Some((None, _)) => DrainStepView::ReadLevel,
            }
        } else {
            step
        },
        (DrainStepView::ReadLevel, DrainEventView::Text(contents)) => match level_of(contents) {
            Some(level) => DrainStepView::ReadStatus { level },
            None => DrainStepView::Done(None),
        },
        (DrainStepView::ReadStatus { level }, DrainEventView::Text(contents)) => match contents {
            Some(_) => DrainStepView::Done(Some((level, status_of(contents, None)))),
            None => DrainStepView::ReadProperty { level },
        },
        (DrainStepView::ReadProperty { level }, DrainEventView::Text(property)) =>
            DrainStepView::Done(Some((level, status_of(None, property)))),
        _ => step,
    }
}

impl BatterySource {
    /// The descriptor of the source.
    pub open spec fn descriptor(self) -> Fd {
        match self {
            BatterySource::Inotify(fd) => fd,
            BatterySource::Uevent(fd) => fd,
        }
    }

    /// Takes the outcome of one call of opening a source to the next call.
    /// Opening starts with [`OpenStep::InitInotify`].
    pub fn open(step: OpenStep, event: OpenEvent) -> (r: OpenStep)
        ensures
            r == open_next(step, event),
    {
        match (step, event) {
            (OpenStep::InitInotify, OpenEvent::Inotify(inotify)) => match inotify {
                Ok(fd) => OpenStep::AddWatches { fd },
                Err(_) => OpenStep::OpenUevent,
            },
            (OpenStep::AddWatches { fd }, OpenEvent::Watched { capacity, .. }) => match capacity {
                Ok(_) => OpenStep::Opened(Ok(BatterySource::Inotify(fd))),
                Err(_) => OpenStep::OpenUevent,
            },
            (OpenStep::OpenUevent, OpenEvent::Uevent(uevent)) => match uevent {
                Ok(fd) => OpenStep::Opened(Ok(BatterySource::Uevent(fd))),
                Err(e) => OpenStep::Opened(Err(e)),
            },
            (step, _) => step,
        }
    }

    /// The descriptor to wait on.
    pub fn fd(&self) -> (r: &Fd)
        ensures
            *r == self.descriptor(),
    {
        match self {
            BatterySource::Inotify(fd) | BatterySource::Uevent(fd) => fd,
        }
    }

    /// What the source is called in messages.
    pub fn name(&self) -> (r: &'static str)
        ensures
            r@ == (match *self {
                BatterySource::Inotify(_) => "inotify"@,
                BatterySource::Uevent(_) => "uevent"@,
            }),
    {
        match self {
            BatterySource::Inotify(_) => "inotify",
            BatterySource::Uevent(_) => "uevent",
        }
    }

    /// Takes the outcome of one call of draining the source to the next call.
    /// Draining starts with [`DrainStep::Collect`].
    pub fn drain(&self, step: DrainStep, event: DrainEvent) -> (r: DrainStep)
        ensures
            r@ == drain_next(*self, step@, event@),
    {
        match (step, event) {
            (DrainStep::Collect, DrainEvent::Collected) => match self {
                BatterySource::Inotify(_) => DrainStep::ReadLevel,
                BatterySource::Uevent(_) => DrainStep::Collect,
            },
            (DrainStep::Collect, DrainEvent::Message(message)) => match self {
                BatterySource::Inotify(_) => DrainStep::Collect,
                BatterySource::Uevent(_) => match message {
                    None => DrainStep::Done(None),
                    Some((Some(level), _)) => DrainStep::ReadStatus { level },
                    Some((None, _)) => DrainStep::ReadLevel,
                },
            },
            (DrainStep::ReadLevel, DrainEvent::Text(contents)) => {
                let level = match &contents {
                    Some(s) => read_level(Some(s.as_str())),
                    None => read_level(None),
                };
                match level {
                    Some(level) => DrainStep::ReadStatus { level },
                    None => DrainStep::Done(None),
                }
            },
            (DrainStep::ReadStatus { level }, DrainEvent::Text(contents)) => match contents {
                Some(s) => DrainStep::Done(Some((level, read_status(Some(s.as_str()), None)))),
                None => DrainStep::ReadProperty { level },
            },
            (DrainStep::ReadProperty { level }, DrainEvent::Text(property)) => {
                let status = match &property {
                    Some(p) => read_status(None, Some(p.as_str())),
                    None => read_status(None, None),
                };
                DrainStep::Done(Some((level, status)))
            },
            (step, _) => step,
        }
    }
}

/// What the calls of opening a source answer, for each of them that is made.
pub struct OpenAnswers {
    pub inotify: Result<Fd, CoreError>,
    pub capacity: Result<i32, CoreError>,
    pub status: Result<i32, CoreError>,
    pub uevent: Result<Fd, CoreError>,
}

/// The answer to the call that `step` names.
pub open spec fn open_answer(step: OpenStep, answers: OpenAnswers) -> OpenEvent {
    match step {
        OpenStep::InitInotify => OpenEvent::Inotify(answers.inotify),
        OpenStep::AddWatches { .. } => OpenEvent::Watched {
            capacity: answers.capacity,
            status: answers.status,
        },
        _ => OpenEvent::Uevent(answers.uevent),
    }
}

/// Where `calls` calls lead from `step`.
pub open spec fn open_run(step: OpenStep, answers: OpenAnswers, calls: nat) -> OpenStep
    decreases calls,
{
    if calls == 0 {
        step
    } else {
        open_run(open_next(step, open_answer(step, answers)), answers, (calls - 1) as nat)
    }
}

/// Three calls at most open a source: inotify where its descriptor can be made
/// and the capacity file can be watched, whether or not the status file can;
/// the uevent socket, or its error, otherwise.
pub proof fn law_open_prefers_inotify(answers: OpenAnswers)
    ensures
        open_run(OpenStep::InitInotify, answers, 3) == OpenStep::Opened(
            if answers.inotify is Ok && answers.capacity is Ok {
                Ok(BatterySource::Inotify(answers.inotify->Ok_0))
            } else {
                match answers.uevent {
                    Ok(fd) => Ok(BatterySource::Uevent(fd)),
                    Err(e) => Err(e),
                }
            },
        ),
{
    reveal_with_fuel(open_run, 4);
}

/// What the calls of draining a source answer, for each of them that is made.
pub struct DrainAnswers {
    pub message: Option<(Option<u8>, Seq<char>)>,
    pub level: Option<Seq<char>>,
    pub status: Option<Seq<char>>,
    pub property: Option<Seq<char>>,
}

/// The answer to the call that `step` names.
pub open spec fn drain_answer(
    source: BatterySource,
    step: DrainStepView,
    answers: DrainAnswers,
) -> DrainEventView {
    match step {
        DrainStepView::Collect => if source is Inotify {
            DrainEventView::Collected
        } else {
            DrainEventView::Message(answers.message)
        },
        DrainStepView::ReadLevel => DrainEventView::Text(answers.level),
        DrainStepView::ReadStatus { .. } => DrainEventView::Text(answers.status),
        _ => DrainEventView::Text(answers.property),
    }
}

/// Where `calls` calls lead from `step`.
pub open spec fn drain_run(
    source: BatterySource,
    step: DrainStepView,
    answers: DrainAnswers,
    calls: nat,
) -> DrainStepView
    decreases calls,
{
    if calls == 0 {
        step
    } else {
        drain_run(
            source,
            drain_next(source, step, drain_answer(source, step, answers)),
            answers,
            (calls - 1) as nat,
        )
    }
}

/// The news that a drained source gives: none from a uevent socket without a
/// message about a power supply; else the level of the message or, where it
/// carries none or the source is inotify, of the capacity file, together with
/// the charge state; none where there is no level.
pub open spec fn drained(source: BatterySource, answers: DrainAnswers) -> Option<
    (u8, Seq<char>),
> {
    let level = match source {
        BatterySource::Inotify(_) => level_of(answers.level),
        BatterySource::Uevent(_) => match answers.message {
            None => None,
            Some((Some(level), _)) => Some(level),
            Some((None, _)) => level_of(answers.level),
        },
    };
    match level {
        Some(level) => Some((level, status_of(answers.status, answers.property))),
        None => None,
    }
}

/// Four calls at most drain a source, and give its news.
pub proof fn law_drain_gives_the_news(source: BatterySource, answers: DrainAnswers)
    ensures
        drain_run(source, DrainStepView::Collect, answers, 4) == DrainStepView::Done(
            drained(source, answers),
        ),
{
    reveal_with_fuel(drain_run, 5);
}

/// A source is drained and waited on at the descriptor that it was opened with.
pub proof fn law_a_source_keeps_its_descriptor(fd: Fd)
    ensures
        BatterySource::Inotify(fd).descriptor() == fd,
        BatterySource::Uevent(fd).descriptor() == fd,
{
}

/// Draining a source, said of what its calls answer. An inotify source has news
/// exactly where the capacity file holds a level: that level. A uevent socket has
/// none without a message about a power supply; with one it has the level of the
/// message or, where that carries none, the level that the capacity file holds, if
/// it holds one. The charge state of news is always that of the status file or,
/// where that cannot be read, of the property, and never that of the message.
pub proof fn law_where_news_comes_from(
    fd: Fd,
    level: u8,
    status: Seq<char>,
    answers: DrainAnswers,
)
    ensures
        ({
            let charge = status_of(answers.status, answers.property);
            let held = level_of(answers.level);
            let inotify = drain_run(
                BatterySource::Inotify(fd),
                DrainStepView::Collect,
                answers,
                4,
            );
            let uevent = drain_run(
                BatterySource::Uevent(fd),
                DrainStepView::Collect,
                answers,
                4,
            );
            &&& held is None ==> inotify == DrainStepView::Done(None)
            &&& held is Some ==> inotify == DrainStepView::Done(Some((held->Some_0, charge)))
            &&& answers.message is None ==> uevent == DrainStepView::Done(None)
            &&& answers.message == Some((Some(level), status)) ==> uevent == DrainStepView::Done(
                Some((level, charge)),
            )
            &&& answers.message == Some((None::<u8>, status)) ==> uevent == inotify
        }),
{
    law_drain_gives_the_news(BatterySource::Inotify(fd), answers);
    law_drain_gives_the_news(BatterySource::Uevent(fd), answers);
}

/// An outcome of another call than the one that was due changes nothing.
pub proof fn law_stray_outcomes_leave_the_source_alone(
    step: OpenStep,
    event: OpenEvent,
    source: BatterySource,
    drain: DrainStepView,
    drained: DrainEventView,
)
    ensures
        !(step is InitInotify && event is Inotify) && !(step is AddWatches && event is Watched)
            && !(step is OpenUevent && event is Uevent) ==> open_next(step, event) == step,
        !(drain is Collect && source is Inotify && drained is Collected) && !(drain is Collect
            && source is Uevent && drained is Message) && !((drain is ReadLevel
            || drain is ReadStatus || drain is ReadProperty) && drained is Text) ==> drain_next(
            source,
            drain,
            drained,
        ) == drain,
{
}

/// A step and an outcome show all that they hold.
pub proof fn law_drain_views_show_everything(
    level: u8,
    carried: Option<u8>,
    status: String,
    text: Option<String>,
)
    ensures
        DrainStep::Collect@ is Collect,
        DrainStep::ReadLevel@ is ReadLevel,
        (DrainStep::ReadStatus { level })@ == (DrainStepView::ReadStatus { level }),
        (DrainStep::ReadProperty { level })@ == (DrainStepView::ReadProperty { level }),
        DrainStep::Done(Some((level, status)))@ == DrainStepView::Done(Some((level, status@))),
        DrainStep::Done(None)@ == DrainStepView::Done(None),
        DrainEvent::Collected@ is Collected,
        DrainEvent::Message(Some((carried, status)))@ == DrainEventView::Message(
            Some((carried, status@)),
        ),
        DrainEvent::Message(None)@ == DrainEventView::Message(None),
        DrainEvent::Text(text)@ == DrainEventView::Text(chars_of(text)),
        message_view(Some((carried, status))) == Some((carried, status@)),
        message_view(None) is None,
{
}

} // verus!
