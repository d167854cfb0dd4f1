//! Raw kernel uevents, shown for debugging. A message is a row of texts with a
//! zero byte between any two.

use crate::errors::CommandError;
use crate::outside::from_utf8;
use crate::text::decimal;
use crate::text::decimal_text;
use coreshift_core::reactor::Fd;
use coreshift_core::CoreError;
use vstd::prelude::*;
use vstd::slice::slice_subrange;

verus! {

/// The largest message that is received whole.
pub const MESSAGE_LIMIT: usize = 4096;

/// The pause between two looks for a message, in milliseconds.
pub const DUMP_PAUSE_MILLIS: u64 = 10;

/// The parts of `message` between its zero bytes: one more than there are zero
/// bytes.
pub open spec fn pieces(message: Seq<u8>) -> Seq<Seq<u8>>
    decreases message.len(),
{
    if message.len() == 0 {
        seq![Seq::empty()]
    } else {
        let before = pieces(message.drop_last());
        if message.last() == 0 {
            before.push(Seq::empty())
        } else {
            before.update(before.len() - 1, before.last().push(message.last()))
        }
    }
}

/// A part that can be shown: a text, and not an empty one.
pub open spec fn is_field(piece: Seq<u8>) -> bool {
    piece.len() > 0 && vstd::utf8::valid_utf8(piece)
}

/// The texts among `pieces`.
pub open spec fn fields_of(pieces: Seq<Seq<u8>>) -> Seq<Seq<char>> {
    pieces.filter(|piece: Seq<u8>| is_field(piece)).map_values(
        |piece: Seq<u8>| vstd::utf8::decode_utf8(piece),
    )
}

/// The characters of each text of a list.
pub open spec fn views(texts: Seq<String>) -> Seq<Seq<char>> {
    texts.map_values(|text: String| text@)
}

proof fn lemma_pieces(message: Seq<u8>)
    ensures
        pieces(message).len() > 0,
    decreases message.len(),
{
    if message.len() > 0 {
        lemma_pieces(message.drop_last());
    }
}

fn add_field(fields: &mut Vec<String>, piece: &[u8])
    ensures
        views(final(fields)@) == (if is_field(piece@) {
            views(old(fields)@).push(vstd::utf8::decode_utf8(piece@))
        } else {
            views(old(fields)@)
        }),
{
    if piece.len() > 0 {
        match from_utf8(piece) {
            Some(text) => {
                proof {
                    vstd::utf8::encode_utf8_decode_utf8(text@);
                }
                fields.push(text.to_owned());
                assert(views(fields@) =~= views(old(fields)@).push(
                    vstd::utf8::decode_utf8(piece@),
                ));
            },
            None => {},
        }
    }
}

/// The texts of a message. Parts that are empty or no UTF-8 are left out.
pub fn uevent_fields(message: &[u8]) -> (r: Vec<String>)
    ensures
        views(r@) == fields_of(pieces(message@)),
{
    let mut r: Vec<String> = Vec::new();
    let mut start: usize = 0;
    let mut i: usize = 0;
    assert(message@.take(0) =~= Seq::<u8>::empty());
    assert(pieces(message@.take(0)) =~= seq![Seq::<u8>::empty()]);
    assert(views(r@) =~= fields_of(pieces(message@.take(0)).drop_last())) by {
        assert(pieces(message@.take(0)).drop_last() =~= Seq::<Seq<u8>>::empty());
        reveal(Seq::filter);
    }
    while i < message.len()
        invariant
            start <= i <= message.len(),
            pieces(message@.take(i as int)).len() > 0,
            pieces(message@.take(i as int)).last() == message@.subrange(start as int, i as int),
            views(r@) == fields_of(pieces(message@.take(i as int)).drop_last()),
        decreases message.len() - i,
    {
        let ghost before = pieces(message@.take(i as int));
        let ghost after = pieces(message@.take(i + 1));
        assert(message@.take(i + 1).drop_last() =~= message@.take(i as int));
        assert(message@.take(i + 1).last() == message@[i as int]);
        if message[i] == 0 {
            add_field(&mut r, slice_subrange(message, start, i));
            start = i + 1;
            proof {
                assert(after.drop_last() =~= before);
                assert(before =~= before.drop_last().push(before.last()));
                lemma_fields_push(before.drop_last(), before.last());
                assert(after.last() =~= message@.subrange(start as int, i + 1));
            }
        } else {
            assert(after.drop_last() =~= before.drop_last());
            assert(after.last() =~= message@.subrange(start as int, i + 1));
        }
        i += 1;
    }
    add_field(&mut r, slice_subrange(message, start, i));
    proof {
        assert(message@.take(message.len() as int) =~= message@);
        let all = pieces(message@);
        assert(all =~= all.drop_last().push(all.last()));
        lemma_fields_push(all.drop_last(), all.last());
    }
    r
}

proof fn lemma_fields_push(pieces: Seq<Seq<u8>>, piece: Seq<u8>)
    ensures
        fields_of(pieces.push(piece)) == (if is_field(piece) {
            fields_of(pieces).push(vstd::utf8::decode_utf8(piece))
        } else {
            fields_of(pieces)
        }),
{
    let shown = |piece: Seq<u8>| is_field(piece);
    pieces.lemma_filter_push(piece, shown);
    assert(fields_of(pieces.push(piece)) =~= (if is_field(piece) {
        fields_of(pieces).push(vstd::utf8::decode_utf8(piece))
    } else {
        fields_of(pieces)
    }));
}

/// The line above the texts of a message of `length` bytes.
pub open spec fn header(length: nat) -> Seq<char> {
    "--- uevent ("@ + decimal(length) + "b) ---"@
}

/// The line for a text.
pub open spec fn indented(field: Seq<char>) -> Seq<char> {
    "  "@ + field
}

/// The lines that show a message.
pub open spec fn dump_lines(message: Seq<u8>) -> Seq<Seq<char>> {
    seq![header(message.len())] + fields_of(pieces(message)).map_values(
        |field: Seq<char>| indented(field),
    )
}

/// Writes the lines that show a message.
pub fn dump(message: &[u8]) -> (r: Vec<String>)
    ensures
        views(r@) == dump_lines(message@),
{
    let mut first = "--- uevent (".to_owned();
    let length = decimal_text(message.len() as u64);
    first.append(length.as_str());
    first.append("b) ---");
    let fields = uevent_fields(message);
    let mut r: Vec<String> = Vec::new();
    r.push(first);
    let ghost shown = fields_of(pieces(message@)).map_values(|field: Seq<char>| indented(field));
    assert(views(r@) =~= seq![header(message@.len())] + shown.take(0));
    let mut i: usize = 0;
    while i < fields.len()
        invariant
            i <= fields.len(),
            views(fields@) == fields_of(pieces(message@)),
            shown == fields_of(pieces(message@)).map_values(|field: Seq<char>| indented(field)),
            views(r@) == seq![header(message@.len())] + shown.take(i as int),
        decreases fields.len() - i,
    {
        let mut line = "  ".to_owned();
        line.append(fields[i].as_str());
        assert(line@ == shown[i as int]) by {
            assert(views(fields@)[i as int] == fields@[i as int]@);
        }
        let ghost before = r@;
        r.push(line);
        assert(views(r@) =~= views(before).push(line@));
        assert(seq![header(message@.len())] + shown.take(i + 1) =~= (seq![header(message@.len())]
            + shown.take(i as int)).push(shown[i as int]));
        i += 1;
    }
    assert(fields.len() == shown.len()) by {
        assert(views(fields@).len() == fields@.len());
    }
    assert(shown.take(shown.len() as int) =~= shown);
    r
}

/// The next call of showing uevents. It starts with [`Dump::Open`].
pub enum Dump {
    /// Open the uevent socket.
    Open,
    /// Print the line to standard error.
    Announce { fd: Fd, line: &'static str },
    /// Receive a message of at most [`MESSAGE_LIMIT`] bytes, without waiting.
    Receive { fd: Fd },
    /// Sleep.
    Pause { fd: Fd, millis: u64 },
    /// Print the lines.
    Print { fd: Fd, lines: Vec<String> },
    /// Return.
    Return(Result<(), CommandError>),
}

/// A [`Dump`] with its texts as characters.
#[verifier::ext_equal]
pub enum DumpView {
    Open,
    Announce { fd: Fd, line: Seq<char> },
    Receive { fd: Fd },
    Pause { fd: Fd, millis: u64 },
    Print { fd: Fd, lines: Seq<Seq<char>> },
    Return(Result<(), CommandError>),
}

impl View for Dump {
    type V = DumpView;

    open spec fn view(&self) -> DumpView {
        match *self {
            Dump::Open => DumpView::Open,
            Dump::Announce { fd, line } => DumpView::Announce { fd, line: line@ },
            Dump::Receive { fd } => DumpView::Receive { fd },
            Dump::Pause { fd, millis } => DumpView::Pause { fd, millis },
            Dump::Print { fd, lines } => DumpView::Print { fd, lines: views(lines@) },
            Dump::Return(r) => DumpView::Return(r),
        }
    }
}

/// The outcome of a call of showing uevents.
pub enum DumpEvent {
    /// Of [`Dump::Open`].
    Opened(Result<Fd, CoreError>),
    /// Of [`Dump::Receive`]: a message, if one was there.
    Received(Option<Vec<u8>>),
    /// Of a call whose outcome does not matter.
    Performed,
}

/// A [`DumpEvent`] with its bytes as a sequence.
#[verifier::ext_equal]
pub enum DumpEventView {
    Opened(Result<Fd, CoreError>),
    Received(Option<Seq<u8>>),
    Performed,
}

impl View for DumpEvent {
    type V = DumpEventView;

    open spec fn view(&self) -> DumpEventView {
        match *self {
            DumpEvent::Opened(r) => DumpEventView::Opened(r),
            DumpEvent::Received(Some(message)) => DumpEventView::Received(Some(message@)),
            DumpEvent::Received(None) => DumpEventView::Received(None),
            DumpEvent::Performed => DumpEventView::Performed,
        }
    }
}

/// Where the outcome `event` leads from `state`. An outcome that does not belong
/// to the state changes nothing.
pub open spec fn dump_next(state: DumpView, event: DumpEventView) -> DumpView {
    match (state, event) {
        (DumpView::Open, DumpEventView::Opened(opened)) => match opened {
            Ok(fd) => DumpView::Announce {
                fd,
                line: "listening for uevents (Ctrl-C to stop)..."@,
            },
            Err(e) => DumpView::Return(Err(CommandError::Core(e))),
        },
        (DumpView::Announce { fd, .. }, DumpEventView::Performed) => DumpView::Receive { fd },
        (DumpView::Receive { fd }, DumpEventView::Received(received)) => match received {
            Some(message) => DumpView::Print { fd, lines: dump_lines(message) },
            None => DumpView::Pause { fd, millis: DUMP_PAUSE_MILLIS },
        },
        (DumpView::Pause { fd, .. }, DumpEventView::Performed) => DumpView::Receive { fd },
        (DumpView::Print { fd, .. }, DumpEventView::Performed) => DumpView::Receive { fd },
        _ => state,
    }
}

/// Takes the outcome of one call of showing uevents to the next call.
pub fn cmd_uevent_dump(state: Dump, event: DumpEvent) -> (r: Dump)
    ensures
        r@ == dump_next(state@, event@),
{
    match (state, event) {
        (Dump::Open, DumpEvent::Opened(opened)) => match opened {
            Ok(fd) => Dump::Announce { fd, line: "listening for uevents (Ctrl-C to stop)..." },
            Err(e) => Dump::Return(Err(CommandError::Core(e))),
        },
        (Dump::Announce { fd, .. }, DumpEvent::Performed) => Dump::Receive { fd },
        (Dump::Receive { fd }, DumpEvent::Received(received)) => match received {
            Some(message) => {
                let lines = dump(message.as_slice());
                Dump::Print { fd, lines }
            },
            None => Dump::Pause { fd, millis: DUMP_PAUSE_MILLIS },
        },
        (Dump::Pause { fd, .. }, DumpEvent::Performed) => Dump::Receive { fd },
        (Dump::Print { fd, .. }, DumpEvent::Performed) => Dump::Receive { fd },
        (state, _) => state,
    }
}

/// `pieces` with a zero byte between any two.
pub open spec fn with_zeros(pieces: Seq<Seq<u8>>) -> Seq<u8>
    decreases pieces.len(),
{
    if pieces.len() == 0 {
        Seq::empty()
    } else if pieces.len() == 1 {
        pieces[0]
    } else {
        with_zeros(pieces.drop_last()).push(0) + pieces.last()
    }
}

/// The parts of a message hold no zero byte, and put together again with a zero
/// byte between any two they are the message.
pub proof fn law_pieces_make_up_the_message(message: Seq<u8>)
    ensures
        with_zeros(pieces(message)) == message,
        forall|i: int, j: int|
            0 <= i < pieces(message).len() && 0 <= j < pieces(message)[i].len() ==> (
            #[trigger] pieces(message)[i][j]) != 0,
    decreases message.len(),
{
    let all = pieces(message);
    lemma_pieces(message);
    if message.len() == 0 {
        assert(with_zeros(all) =~= message);
    } else {
        let front = message.drop_last();
        let before = pieces(front);
        law_pieces_make_up_the_message(front);
        lemma_pieces(front);
        if message.last() == 0 {
            assert(all.drop_last() =~= before);
            assert(with_zeros(all) =~= front.push(0));
        } else {
            assert(all.drop_last() =~= before.drop_last());
            assert(with_zeros(all) =~= front.push(message.last())) by {
                if before.len() > 1 {
                    assert(with_zeros(before) == with_zeros(before.drop_last()).push(0)
                        + before.last());
                }
            }
        }
        assert(message =~= front.push(message.last()));
        assert forall|i: int, j: int|
            0 <= i < all.len() && 0 <= j < all[i].len() implies (#[trigger] all[i][j]) != 0 by {
            if message.last() == 0 {
                if i < before.len() {
                    assert(all[i] == before[i]);
                    assert(before[i][j] != 0);
                }
            } else if i < before.len() - 1 {
                assert(all[i] == before[i]);
                assert(before[i][j] != 0);
            } else if j < before.last().len() {
                assert(before[i][j] != 0);
            }
        }
    }
}

proof fn lemma_pieces_grow(message: Seq<u8>, part: Seq<u8>)
    requires
        forall|j: int| 0 <= j < part.len() ==> #[trigger] part[j] != 0,
    ensures
        pieces(message.push(0) + part) == pieces(message).push(part),
    decreases part.len(),
{
    let all = message.push(0) + part;
    if part.len() == 0 {
        assert(all =~= message.push(0));
        assert(all.drop_last() =~= message);
        assert(part =~= Seq::<u8>::empty());
    } else {
        assert(part[part.len() - 1] != 0);
        assert(all.drop_last() =~= message.push(0) + part.drop_last());
        assert(all.last() == part.last());
        lemma_pieces_grow(message, part.drop_last());
        assert(part.drop_last().push(part.last()) =~= part);
        assert(pieces(all) =~= pieces(message).push(part));
    }
}

proof fn lemma_one_piece(part: Seq<u8>)
    requires
        forall|j: int| 0 <= j < part.len() ==> #[trigger] part[j] != 0,
    ensures
        pieces(part) == seq![part],
    decreases part.len(),
{
    if part.len() == 0 {
        assert(part =~= Seq::<u8>::empty());
    } else {
        assert(part[part.len() - 1] != 0);
        lemma_one_piece(part.drop_last());
        assert(part.drop_last().push(part.last()) =~= part);
    }
    assert(pieces(part) =~= seq![part]);
}

/// Parts that hold no zero byte, put together with a zero byte between any two,
/// come apart again as they were.
pub proof fn law_a_message_comes_apart_into_its_parts(parts: Seq<Seq<u8>>)
    requires
        parts.len() > 0,
        forall|i: int, j: int|
            0 <= i < parts.len() && 0 <= j < parts[i].len() ==> (#[trigger] parts[i][j]) != 0,
    ensures
        pieces(with_zeros(parts)) == parts,
    decreases parts.len(),
{
    if parts.len() == 1 {
        assert forall|j: int| 0 <= j < parts[0].len() implies #[trigger] parts[0][j] != 0 by {}
        lemma_one_piece(parts[0]);
        assert(parts =~= seq![parts[0]]);
    } else {
        let front = parts.drop_last();
        assert forall|i: int, j: int|
            0 <= i < front.len() && 0 <= j < front[i].len() implies (#[trigger] front[i][j])
            != 0 by {
            assert(parts[i][j] != 0);
        }
        law_a_message_comes_apart_into_its_parts(front);
        assert forall|j: int| 0 <= j < parts.last().len() implies #[trigger] parts.last()[j]
            != 0 by {
            assert(parts[parts.len() - 1][j] != 0);
        }
        lemma_pieces_grow(with_zeros(front), parts.last());
        assert(parts =~= front.push(parts.last()));
    }
}

/// `at` are the places, in order, of the parts that are not empty and are UTF-8:
/// of all of these, and of no others.
pub open spec fn picks(parts: Seq<Seq<u8>>, at: Seq<int>) -> bool {
    &&& forall|k: int, l: int| 0 <= k < l < at.len() ==> #[trigger] at[k] < #[trigger] at[l]
    &&& forall|k: int|
        0 <= k < at.len() ==> {
            &&& 0 <= #[trigger] at[k] < parts.len()
            &&& parts[at[k]].len() > 0
            &&& vstd::utf8::valid_utf8(parts[at[k]])
        }
    &&& forall|i: int|
        0 <= i < parts.len() && (#[trigger] parts[i]).len() > 0 && vstd::utf8::valid_utf8(
            parts[i],
        ) ==> at.contains(i)
}

proof fn lemma_picks(parts: Seq<Seq<u8>>) -> (at: Seq<int>)
    ensures
        picks(parts, at),
        fields_of(parts).len() == at.len(),
        forall|k: int|
            0 <= k < at.len() ==> fields_of(parts)[k] == vstd::utf8::decode_utf8(
                parts[#[trigger] at[k]],
            ),
    decreases parts.len(),
{
    if parts.len() == 0 {
        assert(fields_of(parts).len() == 0) by {
            reveal(Seq::filter);
        }
        Seq::empty()
    } else {
        let front = parts.drop_last();
        let last = parts.last();
        let before = lemma_picks(front);
        lemma_fields_push(front, last);
        assert(parts =~= front.push(last));
        let at = if is_field(last) {
            before.push(parts.len() - 1)
        } else {
            before
        };
        assert forall|i: int|
            0 <= i < parts.len() && (#[trigger] parts[i]).len() > 0 && vstd::utf8::valid_utf8(
                parts[i],
            ) implies at.contains(i) by {
            if i < front.len() {
                assert(front[i] == parts[i]);
                assert(before.contains(i));
                let k = choose|k: int| 0 <= k < before.len() && before[k] == i;
                assert(at[k] == i);
            } else {
                assert(at[at.len() - 1] == i);
            }
        }
        assert forall|k: int| 0 <= k < at.len() implies {
            &&& 0 <= #[trigger] at[k] < parts.len()
            &&& parts[at[k]].len() > 0
            &&& vstd::utf8::valid_utf8(parts[at[k]])
            &&& fields_of(parts)[k] == vstd::utf8::decode_utf8(parts[at[k]])
        } by {
            if k < before.len() {
                assert(at[k] == before[k]);
                assert(front[before[k]] == parts[before[k]]);
            }
        }
        at
    }
}

/// A message is shown whole. Below a line with its length there is one line for
/// each of its parts that is not empty and is UTF-8, in order: two spaces and the
/// part.
pub proof fn law_every_text_is_shown(message: Seq<u8>)
    ensures
        exists|at: Seq<int>|
            {
                &&& #[trigger] picks(pieces(message), at)
                &&& fields_of(pieces(message)).len() == at.len()
                &&& dump_lines(message).len() == at.len() + 1
                &&& forall|k: int|
                    0 <= k < at.len() ==> {
                        let text = vstd::utf8::decode_utf8(pieces(message)[#[trigger] at[k]]);
                        &&& fields_of(pieces(message))[k] == text
                        &&& dump_lines(message)[k + 1] == seq![' ', ' '] + text
                    }
            },
        dump_lines(message)[0] == "--- uevent ("@ + decimal(message.len()) + "b) ---"@,
{
    let at = lemma_picks(pieces(message));
    reveal_strlit("  ");
    assert("  "@ =~= seq![' ', ' ']);
    assert(picks(pieces(message), at));
}

/// The characters of a list of texts are those of each text.
pub proof fn law_views_show_each_text(texts: Seq<String>)
    ensures
        views(texts).len() == texts.len(),
        forall|i: int| 0 <= i < texts.len() ==> #[trigger] views(texts)[i] == texts[i]@,
{
}

/// Where the outcomes `events`, one after the other, lead from `state`.
pub open spec fn dump_run(state: DumpView, events: Seq<DumpEventView>) -> DumpView
    decreases events.len(),
{
    if events.len() == 0 {
        state
    } else {
        dump_run(dump_next(state, events.first()), events.drop_first())
    }
}

/// The lines that are printed on the way.
pub open spec fn dump_output(state: DumpView, events: Seq<DumpEventView>) -> Seq<Seq<char>>
    decreases events.len(),
{
    if events.len() == 0 {
        Seq::empty()
    } else {
        let printed = match (state, events.first()) {
            (DumpView::Print { lines, .. }, DumpEventView::Performed) => lines,
            _ => Seq::empty(),
        };
        printed + dump_output(dump_next(state, events.first()), events.drop_first())
    }
}

/// The outcomes of the calls that looking for messages takes, time after time.
pub open spec fn looks_events(looks: Seq<Option<Seq<u8>>>) -> Seq<DumpEventView>
    decreases looks.len(),
{
    if looks.len() == 0 {
        Seq::empty()
    } else {
        seq![DumpEventView::Received(looks.first()), DumpEventView::Performed] + looks_events(
            looks.drop_first(),
        )
    }
}

/// The lines that show what is found, message after message.
pub open spec fn lines_of(looks: Seq<Option<Seq<u8>>>) -> Seq<Seq<char>>
    decreases looks.len(),
{
    if looks.len() == 0 {
        Seq::empty()
    } else {
        (match looks.first() {
            Some(message) => dump_lines(message),
            None => Seq::empty(),
        }) + lines_of(looks.drop_first())
    }
}

/// Showing uevents opens the socket, says that it listens, and then looks for
/// messages without end: whatever is found, all of it is printed, in order, and
/// the next look follows; where nothing is found, after a hundredth of a second.
/// It returns only where the socket cannot be opened.
pub proof fn law_all_messages_are_shown(fd: Fd, e: CoreError, looks: Seq<Option<Seq<u8>>>)
    ensures
        ({
            let listening = dump_next(DumpView::Open, DumpEventView::Opened(Ok(fd)));
            &&& listening == (DumpView::Announce {
                fd,
                line: "listening for uevents (Ctrl-C to stop)..."@,
            })
            &&& dump_next(listening, DumpEventView::Performed) == (DumpView::Receive { fd })
        }),
        dump_next(DumpView::Open, DumpEventView::Opened(Err(e))) == DumpView::Return(
            Err(CommandError::Core(e)),
        ),
        dump_next(DumpView::Receive { fd }, DumpEventView::Received(None)) == (DumpView::Pause {
            fd,
            millis: 10,
        }),
        dump_run(DumpView::Receive { fd }, looks_events(looks)) == (DumpView::Receive { fd }),
        dump_output(DumpView::Receive { fd }, looks_events(looks)) == lines_of(looks),
    decreases looks.len(),
{
    let receive = DumpView::Receive { fd };
    let events = looks_events(looks);
    if looks.len() > 0 {
        law_all_messages_are_shown(fd, e, looks.drop_first());
        let rest = looks_events(looks.drop_first());
        let e1 = events.drop_first();
        assert(e1.drop_first() =~= rest);
        let found = dump_next(receive, events.first());
        assert(events.first() == DumpEventView::Received(looks.first()));
        assert(e1.first() == DumpEventView::Performed);
        assert(dump_next(found, e1.first()) == receive);
        assert(dump_run(found, e1) == dump_run(receive, rest));
        assert(dump_run(receive, events) == dump_run(found, e1));
        let printed = match looks.first() {
            Some(message) => dump_lines(message),
            None => Seq::empty(),
        };
        assert(dump_output(found, e1) =~= printed + dump_output(receive, rest));
        assert(dump_output(receive, events) =~= dump_output(found, e1));
    }
}

/// An outcome of another call than the one that was due changes nothing.
pub proof fn law_stray_outcomes_leave_the_dump_alone(state: DumpView, event: DumpEventView)
    requires
        !(state is Open && event is Opened),
        !(state is Receive && event is Received),
        !((state is Announce || state is Pause || state is Print) && event is Performed),
    ensures
        dump_next(state, event) == state,
{
}

/// A message of up to 4096 bytes is received whole.
pub proof fn law_messages_are_received_whole()
    ensures
        MESSAGE_LIMIT == 4096,
{
}

/// A state and an outcome show all that they hold.
pub proof fn law_dump_views_show_everything(
    fd: Fd,
    line: &'static str,
    millis: u64,
    lines: Vec<String>,
    r: Result<(), CommandError>,
    opened: Result<Fd, CoreError>,
    message: Vec<u8>,
)
    ensures
        Dump::Open@ is Open,
        (Dump::Announce { fd, line })@ == (DumpView::Announce { fd, line: line@ }),
        (Dump::Receive { fd })@ == (DumpView::Receive { fd }),
        (Dump::Pause { fd, millis })@ == (DumpView::Pause { fd, millis }),
        (Dump::Print { fd, lines })@ == (DumpView::Print { fd, lines: views(lines@) }),
        Dump::Return(r)@ == DumpView::Return(r),
        DumpEvent::Opened(opened)@ == DumpEventView::Opened(opened),
        DumpEvent::Received(Some(message))@ == DumpEventView::Received(Some(message@)),
        DumpEvent::Received(None)@ == DumpEventView::Received(None),
        DumpEvent::Performed@ is Performed,
{
}

} // verus!
