//! What holds of the server as a whole: every request is answered in its turn, and a client
//! learns from the answer what the server found.

use vstd::prelude::*;
use vstd::utf8::{encode_utf8, valid_utf8};

use crate::error::Error;
use crate::reply::{
    parse_block_reply, parse_data_reply, parse_dir_reply, parse_stat_reply, range_reply, Listing,
};
use crate::reply_laws::{
    law_data_reply_round_trip, law_dir_reply_round_trip, law_failure_is_one_byte,
    law_link_reply_round_trip, law_range_reply_layout, law_range_reply_round_trip,
    law_stat_reply_layout, law_stat_reply_round_trip, sendable_listing,
};
use crate::request::{
    law_cut_request_is_awaited, law_request_extends, law_request_round_trip,
    law_request_with_a_bad_path_is_refused, parse_request, stream_bytes, Asked,
};
use crate::server::{
    dir_answer, failure_status, link_answer, read_answer, readable, stat_answer,
    stat_failure_status, stat_of, type_bits, DirItem, Failure, FileKind, Metadata, Move, RangeRead,
    RangeStage, ReadOutcome, ReadStep, SessionState, Turn,
};
use crate::text::name_text;
use crate::wire::{le32, u32_at, u64_at, StatResponse, STATUS_ERROR};
use crate::wire_laws::law_stat_layout;

verus! {

/// What the server does next does not depend on how the bytes arrive: unless it waits for more,
/// it does the same once more bytes are there, and those stay pending.
pub proof fn law_turn_is_kept(state: SessionState, more: Seq<u8>)
    requires
        state.turn().0 != Move::Await,
    ensures
        state.received(more).turn() == (state.turn().0, state.turn().1.received(more)),
{
    if state.open {
        law_request_extends(state.pending, more);
    }
}

/// What a server sends on a connection on which no more bytes arrive. `answer` is the answer to a
/// request, where there is one.
pub open spec fn responses(
    state: SessionState,
    answer: spec_fn(Asked) -> Option<Seq<u8>>,
) -> Seq<u8>
    decreases state.pending.len(),
    when state.turn().0 is Perform || state.turn().0 is Refuse ==> state.turn().1.pending.len()
        < state.pending.len()
{
    match state.turn() {
        (Move::Perform(asked), next) => match answer(asked) {
            Some(bytes) => bytes + responses(next.after_answer(true), answer),
            None => Seq::empty(),
        },
        (Move::Refuse(bytes), next) => bytes + responses(next, answer),
        _ => Seq::empty(),
    }
}

/// What is sent for a request: `STATUS_ERROR` where the operation is unknown, else the answer.
pub open spec fn response_to(asked: Asked, answer: spec_fn(Asked) -> Option<Seq<u8>>) -> Option<
    Seq<u8>,
> {
    if asked.is_known() {
        answer(asked)
    } else {
        Some(seq![STATUS_ERROR])
    }
}

/// What is sent for requests, one after the other.
pub open spec fn answers(asked: Seq<Asked>, answer: spec_fn(Asked) -> Option<Seq<u8>>) -> Seq<u8>
    decreases asked.len(),
{
    if asked.len() == 0 {
        Seq::empty()
    } else {
        response_to(asked[0], answer)->Some_0 + answers(asked.drop_first(), answer)
    }
}

/// What is sent for the first request, and for those behind it.
proof fn lemma_responses_first(
    first: Asked,
    rest: Seq<u8>,
    answer: spec_fn(Asked) -> Option<Seq<u8>>,
)
    requires
        first.sendable(),
    ensures
        responses(SessionState::holding(first.bytes() + rest), answer)
            == match response_to(first, answer) {
            Some(bytes) => bytes + responses(SessionState::holding(rest), answer),
            None => Seq::empty(),
        },
{
    law_request_round_trip(first, rest);
    assert(first.bytes().len() > 0);
    assert((first.bytes() + rest).len() > rest.len());
    let state = SessionState::holding(first.bytes() + rest);
    assert(state.turn().1 == SessionState::holding(rest));
}

/// A server answers the requests on a connection one by one, each once and in their order, and
/// those of an unknown operation with `STATUS_ERROR`, as long as it has an answer to the others.
/// What follows them and is no whole request, or one with a bad path, changes nothing.
pub proof fn law_answers_before_a_broken_request(
    asked: Seq<Asked>,
    tail: Seq<u8>,
    answer: spec_fn(Asked) -> Option<Seq<u8>>,
)
    requires
        forall|i: int|
            0 <= i < asked.len() ==> (#[trigger] asked[i]).sendable() && response_to(
                asked[i],
                answer,
            ) is Some,
        parse_request(tail).0 is Err,
    ensures
        responses(SessionState::holding(stream_bytes(asked) + tail), answer) == answers(
            asked,
            answer,
        ),
    decreases asked.len(),
{
    if asked.len() > 0 {
        let others = asked.drop_first();
        assert forall|i: int| 0 <= i < others.len() implies (#[trigger] others[i]).sendable()
            && response_to(others[i], answer) is Some by {
            assert(others[i] == asked[i + 1]);
        }
        law_answers_before_a_broken_request(others, tail, answer);
        let rest = stream_bytes(others) + tail;
        lemma_responses_first(asked[0], rest, answer);
        lemma_assoc(asked[0].bytes(), stream_bytes(others), tail);
    } else {
        assert(stream_bytes(asked) + tail =~= tail);
    }
}

/// Laying pieces end to end is associative.
proof fn lemma_assoc(a: Seq<u8>, b: Seq<u8>, c: Seq<u8>)
    ensures
        (a + b) + c == a + (b + c),
{
    assert((a + b) + c =~= a + (b + c));
}

/// The same of a connection on which nothing follows the requests.
pub proof fn law_answers_in_order(
    asked: Seq<Asked>,
    answer: spec_fn(Asked) -> Option<Seq<u8>>,
)
    requires
        forall|i: int|
            0 <= i < asked.len() ==> (#[trigger] asked[i]).sendable() && response_to(
                asked[i],
                answer,
            ) is Some,
    ensures
        responses(SessionState::holding(stream_bytes(asked)), answer) == answers(asked, answer),
{
    law_answers_before_a_broken_request(asked, Seq::empty(), answer);
    assert(stream_bytes(asked) + Seq::<u8>::empty() =~= stream_bytes(asked));
}

/// An operation that the server does not know is refused, and the requests behind it are served
/// as if it had not been there.
pub proof fn law_unknown_op_is_refused(
    asked: Asked,
    rest: Seq<u8>,
    answer: spec_fn(Asked) -> Option<Seq<u8>>,
)
    requires
        !asked.is_known(),
        asked.sendable(),
    ensures
        responses(SessionState::holding(asked.bytes() + rest), answer) == seq![
            STATUS_ERROR,
        ] + responses(SessionState::holding(rest), answer),
{
    lemma_responses_first(asked, rest, answer);
}

/// A request that cannot be answered ends the connection: nothing is sent for it, nor for
/// anything behind it.
pub proof fn law_no_answer_ends_the_connection(
    asked: Asked,
    rest: Seq<u8>,
    answer: spec_fn(Asked) -> Option<Seq<u8>>,
)
    requires
        asked.is_known(),
        asked.sendable(),
        answer(asked) is None,
    ensures
        responses(SessionState::holding(asked.bytes() + rest), answer)
            == Seq::<u8>::empty(),
        SessionState::holding(rest).after_answer(false).turn().0 == Move::Hangup,
{
    lemma_responses_first(asked, rest, answer);
}

/// The client learns from a STAT what the server found: the metadata, or that there is none to
/// be had.
pub proof fn law_stat_dialogue(outcome: Result<Metadata, Failure>, rest: Seq<u8>)
    ensures
        parse_stat_reply(stat_answer(outcome) + rest) == (
            Ok::<Option<StatResponse>, Error>(
                match outcome {
                    Ok(meta) => Some(stat_of(meta)),
                    Err(_) => None,
                },
            ),
            rest,
        ),
{
    match outcome {
        Ok(meta) => law_stat_reply_round_trip(stat_of(meta), rest),
        Err(failure) => law_failure_is_one_byte(stat_failure_status(failure), rest),
    }
}

/// The client learns from a READ what the server found: the contents, or that there are none to
/// be had.
pub proof fn law_read_dialogue(outcome: Result<Seq<u8>, Failure>, rest: Seq<u8>)
    requires
        outcome matches Ok(data) ==> data.len() <= u64::MAX,
    ensures
        parse_data_reply(read_answer(outcome) + rest) == (
            Ok::<Option<Seq<u8>>, Error>(outcome.ok()),
            rest,
        ),
{
    match outcome {
        Ok(data) => law_data_reply_round_trip(data, rest),
        Err(failure) => law_failure_is_one_byte(failure_status(failure), rest),
    }
}

/// The client learns from a READDIR what the server found: the entries in their order, or that
/// there are none to be had.
pub proof fn law_readdir_dialogue(outcome: Result<Listing, Failure>, rest: Seq<u8>)
    requires
        outcome matches Ok(entries) ==> sendable_listing(entries),
    ensures
        parse_dir_reply(dir_answer(outcome) + rest) == (
            Ok::<Option<Listing>, Error>(outcome.ok()),
            rest,
        ),
{
    match outcome {
        Ok(entries) => law_dir_reply_round_trip(entries, rest),
        Err(failure) => law_failure_is_one_byte(failure_status(failure), rest),
    }
}

/// The client learns from a READLINK what the server found: the encoding of the target, or that
/// there is none to be had.
pub proof fn law_readlink_dialogue(outcome: Result<Seq<char>, Failure>, rest: Seq<u8>)
    requires
        outcome matches Ok(target) ==> encode_utf8(target).len() < 0x1_0000_0000,
    ensures
        parse_block_reply(link_answer(outcome) + rest) == (
            Ok::<Option<Seq<u8>>, Error>(
                match outcome {
                    Ok(target) => Some(encode_utf8(target)),
                    Err(_) => None,
                },
            ),
            rest,
        ),
{
    match outcome {
        Ok(target) => law_link_reply_round_trip(target, rest),
        Err(failure) => law_failure_is_one_byte(failure_status(failure), rest),
    }
}

/// The bytes of `file` that a range read gives.
pub open spec fn range_of(file: Seq<u8>, offset: u64, size: u32) -> Seq<u8> {
    if offset >= file.len() {
        Seq::empty()
    } else if file.len() - offset < size {
        file.skip(offset as int)
    } else {
        file.subrange(offset as int, offset + size)
    }
}

/// Whether a range read of `file` is on its way to the right answer: what has been read is what
/// the file holds, and an answer holds the whole range.
pub open spec fn on_course(stage: RangeStage, file: Seq<u8>, offset: u64, size: u32) -> bool {
    let range = range_of(file, offset, size);
    match stage {
        RangeStage::Seek { offset: at, want } => at == offset && want == range.len(),
        RangeStage::Read { want, data } => {
            &&& want == range.len()
            &&& data.len() < want
            &&& data == range.take(data.len() as int)
        },
        RangeStage::Reply { bytes } => bytes == range_reply(range),
        RangeStage::Failed => false,
    }
}

/// Whether an attempt to read gave what `file` holds behind `data`: at least a byte of it, and no
/// more than is wanted.
pub open spec fn honest_step(
    stage: RangeStage,
    step: ReadStep,
    file: Seq<u8>,
    offset: u64,
    size: u32,
) -> bool {
    let range = range_of(file, offset, size);
    match (stage, step) {
        (RangeStage::Read { data, .. }, ReadStep::Bytes(bytes)) => {
            &&& 0 < bytes.len() <= range.len() - data.len()
            &&& bytes == range.subrange(data.len() as int, (data.len() + bytes.len()) as int)
        },
        (RangeStage::Read { .. }, ReadStep::Interrupted) => true,
        _ => false,
    }
}

/// A range read of an opened file starts on the way to the right answer, and positioning the file
/// keeps it there.
pub proof fn law_range_read_starts(file: Seq<u8>, offset: u64, size: u32)
    requires
        file.len() <= u64::MAX,
    ensures
        ({
            let stage = RangeStage::opened(Ok(Some(file.len() as u64)), offset, size);
            &&& on_course(stage, file, offset, size)
            &&& stage is Seek ==> on_course(stage.after_seek(true), file, offset, size)
        }),
{
    let range = range_of(file, offset, size);
    assert(range.take(0) =~= Seq::empty());
    if range.len() == 0 {
        assert(range =~= Seq::empty());
    }
}

/// However the reads cut the file into pieces, and however often they are interrupted, the range
/// read stays on the way to the right answer, which holds the whole range.
pub proof fn law_range_read_goes_on(
    stage: RangeStage,
    step: ReadStep,
    file: Seq<u8>,
    offset: u64,
    size: u32,
)
    requires
        on_course(stage, file, offset, size),
        honest_step(stage, step, file, offset, size),
    ensures
        on_course(stage.after_read(step), file, offset, size),
{
    let range = range_of(file, offset, size);
    if let (RangeStage::Read { want, data }, ReadStep::Bytes(bytes)) = (stage, step) {
        let all = data + bytes;
        assert(all =~= range.take(all.len() as int));
        if all.len() == want {
            assert(all =~= range);
        }
    }
}

/// A range read whose reads all give what the file holds stays on the way to the right answer
/// from its start to its end.
pub proof fn law_range_read(
    steps: Seq<ReadStep>,
    stage: RangeStage,
    file: Seq<u8>,
    offset: u64,
    size: u32,
)
    requires
        on_course(stage, file, offset, size),
        forall|i: int|
            0 <= i < steps.len() ==> honest_step(
                stage.after_reads(steps.take(i)),
                #[trigger] steps[i],
                file,
                offset,
                size,
            ),
    ensures
        on_course(stage.after_reads(steps), file, offset, size),
    decreases steps.len(),
{
    if steps.len() > 0 {
        let front = steps.drop_last();
        assert(front =~= steps.take(steps.len() - 1));
        assert forall|i: int| 0 <= i < front.len() implies honest_step(
            stage.after_reads(front.take(i)),
            #[trigger] front[i],
            file,
            offset,
            size,
        ) by {
            assert(front.take(i) =~= steps.take(i));
            assert(front[i] == steps[i]);
        }
        law_range_read(front, stage, file, offset, size);
        assert(honest_step(stage.after_reads(front), steps.last(), file, offset, size)) by {
            assert(steps.last() == steps[steps.len() - 1]);
        }
        law_range_read_goes_on(stage.after_reads(front), steps.last(), file, offset, size);
    }
}

/// The client gets the bytes that the server's answer to a range read holds.
pub proof fn law_range_dialogue(file: Seq<u8>, offset: u64, size: u32, rest: Seq<u8>)
    ensures
        parse_block_reply(range_reply(range_of(file, offset, size)) + rest) == (
            Ok::<Option<Seq<u8>>, Error>(Some(range_of(file, offset, size))),
            rest,
        ),
{
    law_range_reply_round_trip(range_of(file, offset, size), rest);
}

/// The answer to a STAT holds what the operating system reported, field by field: behind the
/// status 0 the mode, the size, the owner, the group, the time of last modification, the number of
/// links and the inode number. A time before the epoch is counted from two to the power of 64.
pub proof fn law_metadata_is_sent(meta: Metadata)
    ensures
        ({
            let answer = stat_answer(Ok(meta));
            let body = answer.skip(1);
            let mtime = u64_at(body.skip(20));
            &&& answer.len() == 45
            &&& answer[0] == 0
            &&& u32_at(body) == meta.mode
            &&& u64_at(body.skip(4)) == meta.size
            &&& u32_at(body.skip(12)) == meta.uid
            &&& u32_at(body.skip(16)) == meta.gid
            &&& mtime == meta.mtime || mtime == meta.mtime + 0x1_0000_0000_0000_0000
            &&& u64_at(body.skip(28)) == meta.nlink
            &&& u64_at(body.skip(36)) == meta.ino
        }),
{
    law_stat_reply_layout(stat_of(meta));
    law_stat_layout(stat_of(meta));
}

/// What a client is told of a failure: 1 where the file does not exist, 2 where its metadata may
/// not be read, and 255 in every other case. A range read of a file that could not be opened is
/// answered at once; where only its length could not be found out, there is no answer.
pub proof fn law_failures_are_told(failure: Failure, offset: u64, size: u32)
    ensures
        ({
            let status: u8 = if failure == Failure::NotFound {
                1
            } else {
                255
            };
            &&& read_answer(Err(failure)) == seq![status]
            &&& dir_answer(Err(failure)) == seq![status]
            &&& link_answer(Err(failure)) == seq![status]
            &&& RangeStage::opened(Err(failure), offset, size) == (RangeStage::Reply {
                bytes: seq![status],
            })
            &&& RangeStage::opened(Ok(None), offset, size) == RangeStage::Failed
            &&& stat_answer(Err(failure)) == seq![
                if failure == Failure::PermissionDenied {
                    2u8
                } else {
                    status
                },
            ]
        }),
{
}

/// How many of the first `n` items of a directory could be read.
pub open spec fn readable_before(items: Seq<Option<DirItem>>, n: int) -> nat
    decreases n,
{
    if n <= 0 {
        0
    } else if items[n - 1] is Some {
        readable_before(items, n - 1) + 1
    } else {
        readable_before(items, n - 1)
    }
}

proof fn lemma_readable_before(items: Seq<Option<DirItem>>, more: Option<DirItem>, n: int)
    requires
        0 <= n <= items.len(),
    ensures
        readable_before(items.push(more), n) == readable_before(items, n),
    decreases n,
{
    if n > 0 {
        lemma_readable_before(items, more, n - 1);
    }
}

proof fn lemma_readable_before_grows(items: Seq<Option<DirItem>>, i: int, n: int)
    requires
        0 <= i <= n <= items.len(),
    ensures
        readable_before(items, i) <= readable_before(items, n),
        i < n && items[i] is Some ==> readable_before(items, i) < readable_before(items, n),
    decreases n,
{
    if i < n {
        lemma_readable_before_grows(items, i, n - 1);
    }
}

/// No entry that could be read is left out, and none is added: a listing has as many entries as
/// there are items that could be read, and each of these stands behind those before it, with the
/// text of its name and the type bits of a directory, a link or a regular file.
pub proof fn law_every_readable_item_is_listed(items: Seq<Option<DirItem>>)
    ensures
        readable(items).len() == readable_before(items, items.len() as int),
        forall|i: int|
            0 <= i < items.len() ==> ((#[trigger] items[i]) matches Some(item) ==> {
                let (name, bits) = readable(items)[readable_before(items, i) as int];
                &&& readable_before(items, i) < readable(items).len()
                &&& name == name_text(item.name@)
                &&& bits == match item.kind {
                    Some(FileKind::Directory) => 0o040000u32,
                    Some(FileKind::Symlink) => 0o120000u32,
                    _ => 0o100000u32,
                }
            }),
    decreases items.len(),
{
    if items.len() > 0 {
        let front = items.drop_last();
        let n = front.len() as int;
        law_every_readable_item_is_listed(front);
        assert(front.push(items.last()) =~= items);
        lemma_readable_before(front, items.last(), n);
        assert forall|i: int| 0 <= i < items.len() implies ((#[trigger] items[i]) matches Some(
            item,
        ) ==> {
            let (name, bits) = readable(items)[readable_before(items, i) as int];
            &&& readable_before(items, i) < readable(items).len()
            &&& name == name_text(item.name@)
            &&& bits == match item.kind {
                Some(FileKind::Directory) => 0o040000u32,
                Some(FileKind::Symlink) => 0o120000u32,
                _ => 0o100000u32,
            }
        }) by {
            lemma_readable_before(front, items.last(), i);
            if i < n {
                assert(front[i] == items[i]);
                lemma_readable_before_grows(front, i, n);
            }
        }
    }
}

/// The type bits of a directory entry: a regular file where nothing else is known.
pub proof fn law_type_bits(kind: Option<FileKind>)
    ensures
        type_bits(kind) == match kind {
            Some(FileKind::Directory) => 0o040000u32,
            Some(FileKind::Symlink) => 0o120000u32,
            _ => 0o100000u32,
        },
{
}

/// The range of a file is cut out of it where it stands: as many bytes as were asked for, or those
/// up to the end of the file.
pub proof fn law_range_is_cut_out(file: Seq<u8>, offset: u64, size: u32)
    ensures
        ({
            let range = range_of(file, offset, size);
            &&& range.len() <= size
            &&& offset <= file.len() ==> offset + range.len() <= file.len()
            &&& range.len() < size ==> offset + range.len() >= file.len()
            &&& forall|i: int| 0 <= i < range.len() ==> #[trigger] range[i] == file[offset + i]
        }),
{
}

/// A range read of which the file turns out to be shorter is answered with what is there; an
/// interrupted read is tried again; and a read or a positioning that fails leaves no answer.
pub proof fn law_range_read_is_cut_short(offset: u64, want: u32, data: Seq<u8>)
    requires
        data.len() < 0x1_0000_0000,
    ensures
        ({
            let stage = RangeStage::Read { want, data };
            &&& stage.after_read(ReadStep::Bytes(Seq::empty())) matches RangeStage::Reply { bytes }
                && bytes.len() == 5 + data.len() && bytes[0] == 0 && u32_at(bytes.skip(1))
                == data.len() && bytes.skip(5) == data
            &&& stage.after_read(ReadStep::Interrupted) == stage
            &&& stage.after_read(ReadStep::Failed) == RangeStage::Failed
            &&& (RangeStage::Seek { offset, want }).after_seek(false) == RangeStage::Failed
        }),
{
    law_range_reply_layout(data);
}

/// The server performs what it was asked for where it knows the operation, refuses it with 255
/// where it does not, and goes on with the bytes behind the request.
pub proof fn law_turn_serves_the_request(asked: Asked, rest: Seq<u8>)
    requires
        asked.sendable(),
    ensures
        SessionState::holding(asked.bytes() + rest).turn() == (
            if asked.is_known() {
                Move::Perform(asked)
            } else {
                Move::Refuse(seq![255u8])
            },
            SessionState::holding(rest),
        ),
{
    law_request_round_trip(asked, rest);
}

/// The server waits as long as a request is cut off, and loses nothing of it.
pub proof fn law_turn_awaits_the_request(asked: Asked, n: int)
    requires
        asked.sendable(),
        0 <= n < asked.bytes().len(),
    ensures
        SessionState::holding(asked.bytes().take(n)).turn() == (
            Move::Await,
            SessionState::holding(asked.bytes().take(n)),
        ),
{
    law_cut_request_is_awaited(asked, n);
}

/// A path that is no valid text ends the connection, whatever was asked for.
pub proof fn law_bad_path_ends_the_connection(op: u8, path: Seq<u8>, rest: Seq<u8>)
    requires
        path.len() < 0x1_0000_0000,
        !valid_utf8(path),
    ensures
        ({
            let input = seq![op] + le32(path.len() as u32) + path + rest;
            let (done, next) = SessionState::holding(input).turn();
            done == Move::Hangup && !next.open
        }),
{
    law_request_with_a_bad_path_is_refused(op, path, rest);
}

/// A connection that has ended stays ended, and does nothing more; one goes on only as long as
/// every request was answered. Bytes are kept in the order in which they arrive.
pub proof fn law_connection_state(state: SessionState, bytes: Seq<u8>, ok: bool)
    ensures
        SessionState::connected() == SessionState::holding(Seq::empty()),
        SessionState::holding(bytes).pending == bytes && SessionState::holding(bytes).open,
        state.received(bytes).pending == state.pending + bytes,
        state.received(bytes).open == state.open,
        state.after_answer(ok).open == (state.open && ok),
        state.after_answer(ok).pending == state.pending,
        !state.open ==> state.turn() == (Move::Hangup, state),
{
}

/// What the server is told to do is what it says.
pub proof fn law_turn_meaning(turn: Turn)
    ensures
        match turn {
            Turn::Await => turn@ == Move::Await,
            Turn::Perform(req) => turn@ == Move::Perform(req@),
            Turn::Refuse(bytes) => turn@ == Move::Refuse(bytes@),
            Turn::Hangup => turn@ == Move::Hangup,
        },
{
}

/// How far a range read has come, and what a read gave, is what they say.
pub proof fn law_range_read_meaning(read: RangeRead, outcome: ReadOutcome)
    ensures
        match read {
            RangeRead::Seek { offset, want } => read@ == (RangeStage::Seek { offset, want }),
            RangeRead::Read { want, data } => read@ == (RangeStage::Read { want, data: data@ }),
            RangeRead::Reply { bytes } => read@ == (RangeStage::Reply { bytes: bytes@ }),
            RangeRead::Failed => read@ == RangeStage::Failed,
        },
        match outcome {
            ReadOutcome::Bytes(bytes) => outcome@ == ReadStep::Bytes(bytes@),
            ReadOutcome::Interrupted => outcome@ == ReadStep::Interrupted,
            ReadOutcome::Failed => outcome@ == ReadStep::Failed,
        },
{
}

} // verus!
