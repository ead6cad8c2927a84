//! An extraction task run over a stream that is held in memory.

use crate::headers::{announced_interval, header_values};
use crate::metadata::{block_title, lemma_short_block_is_silent};
use crate::task::{
    advance, audio_skipped, block_read, length_read, pending, start, stopped, Command, Event,
    Step, Task, Transition, BLOCK_UNIT,
};
use http::header::{HeaderMap, HeaderValue};
use vstd::prelude::*;
use vstd::slice::{slice_subrange, slice_to_vec};

verus! {

/// The titles, none or one, that a metadata block makes a task announce.
pub open spec fn announced(block: Seq<u8>) -> Seq<Seq<char>> {
    match block_title(block) {
        Some(title) => seq![title],
        None => seq![],
    }
}

/// The length of the metadata block that the length byte `length` announces.
pub open spec fn block_len(length: u8) -> nat {
    length as nat * BLOCK_UNIT as nat
}

/// The titles that a task announces, in order, while it reads `stream` as
/// the body of a response whose metadata interval is `interval`.
///
/// The stream is a run of frames: `interval` bytes of audio, a length byte,
/// and the metadata block it announces. The task ends at the first frame
/// that the stream does not hold in full.
pub open spec fn stream_titles(interval: nat, stream: Seq<u8>) -> Seq<Seq<char>>
    decreases stream.len(),
{
    if interval == 0 || stream.len() <= interval {
        seq![]
    } else {
        let start = interval as int + 1;
        let end = start + block_len(stream[interval as int]);
        if stream.len() < end {
            seq![]
        } else {
            announced(stream.subrange(start, end)) + stream_titles(interval, stream.skip(end))
        }
    }
}

/// One frame of a stream.
pub struct Frame {
    /// The audio that the frame starts with.
    pub audio: Seq<u8>,
    /// The metadata block that follows the length byte.
    pub block: Seq<u8>,
}

impl Frame {
    /// The frame is one of a stream whose metadata interval is `interval`:
    /// it holds that much audio, and a block whose length a length byte can
    /// announce.
    pub open spec fn fits(self, interval: nat) -> bool {
        &&& self.audio.len() == interval
        &&& self.block.len() % BLOCK_UNIT as nat == 0
        &&& self.block.len() <= 255 * BLOCK_UNIT
    }

    /// The bytes of the frame: the audio, the length byte, the block.
    pub open spec fn bytes(self) -> Seq<u8> {
        self.audio.push((self.block.len() / BLOCK_UNIT as nat) as u8) + self.block
    }
}

/// The stream made of `frames`.
pub open spec fn frames_bytes(frames: Seq<Frame>) -> Seq<u8>
    decreases frames.len(),
{
    if frames.len() == 0 {
        seq![]
    } else {
        frames[0].bytes() + frames_bytes(frames.drop_first())
    }
}

/// The titles that the blocks of `frames` carry, in order.
pub open spec fn frames_titles(frames: Seq<Frame>) -> Seq<Seq<char>>
    decreases frames.len(),
{
    if frames.len() == 0 {
        seq![]
    } else {
        announced(frames[0].block) + frames_titles(frames.drop_first())
    }
}

/// A task that reads a stream made of frames announces the titles that the
/// blocks of the frames carry, each once and in the order of the frames, and
/// nothing else.
pub proof fn frames_round_trip(interval: nat, frames: Seq<Frame>)
    requires
        interval > 0,
        forall|i: int| 0 <= i < frames.len() ==> (#[trigger] frames[i]).fits(interval),
    ensures
        stream_titles(interval, frames_bytes(frames)) == frames_titles(frames),
    decreases frames.len(),
{
    if frames.len() > 0 {
        let first = frames[0];
        let others = frames.drop_first();
        let stream = frames_bytes(frames);
        let start = interval as int + 1;
        let end = start + first.block.len();
        assert(first.fits(interval));
        assert forall|i: int| 0 <= i < others.len() implies (#[trigger] others[i]).fits(
            interval,
        ) by {
            assert(others[i] == frames[i + 1]);
        }
        frames_round_trip(interval, others);
        assert(stream[interval as int] == (first.block.len() / BLOCK_UNIT as nat) as u8);
        assert(block_len(stream[interval as int]) == first.block.len());
        assert(stream.subrange(start, end) =~= first.block);
        assert(stream.skip(end) =~= frames_bytes(others));
    }
}

/// Without a metadata interval a stream yields no title, whatever its body
/// holds.
pub proof fn no_interval_no_titles(body: Seq<u8>)
    ensures
        stream_titles(0, body) == Seq::<Seq<char>>::empty(),
{
}

/// The views of the titles in `titles`.
pub open spec fn title_views(titles: Seq<String>) -> Seq<Seq<char>> {
    titles.map_values(|title: String| title@)
}

/// The titles still to come from `rest` once a length byte has announced a
/// block of `len` bytes.
spec fn after_length(interval: nat, len: nat, rest: Seq<u8>) -> Seq<Seq<char>> {
    if rest.len() < len {
        seq![]
    } else {
        announced(rest.take(len as int)) + stream_titles(interval, rest.skip(len as int))
    }
}

/// The titles still to come from `rest` once the audio of a frame is skipped.
spec fn after_audio(interval: nat, rest: Seq<u8>) -> Seq<Seq<char>> {
    if rest.len() < 1 {
        seq![]
    } else {
        after_length(interval, block_len(rest[0]), rest.skip(1))
    }
}

/// The titles still to come from `rest`, the part of the stream that a task
/// in state `task` has not read yet.
spec fn titles_ahead(task: Task, rest: Seq<u8>) -> Seq<Seq<char>> {
    match task {
        Task::SkippingAudio { interval, remaining } => if rest.len() < remaining {
            seq![]
        } else {
            after_audio(interval as nat, rest.skip(remaining as int))
        },
        Task::ReadingLength { interval } => after_audio(interval as nat, rest),
        Task::ReadingBlock { interval, len } => after_length(interval as nat, len as nat, rest),
        Task::CheckingCancel { interval } => stream_titles(interval as nat, rest),
        _ => seq![],
    }
}

/// At the start of a cycle the titles to come are those of the stream.
proof fn lemma_cycle_start(interval: usize, rest: Seq<u8>)
    requires
        interval > 0,
    ensures
        titles_ahead(Task::SkippingAudio { interval, remaining: interval }, rest) == stream_titles(
            interval as nat,
            rest,
        ),
{
    if rest.len() > interval {
        let tail = rest.skip(interval as int);
        let len = block_len(rest[interval as int]);
        let start = interval as int + 1;
        let end = start + len;
        assert(tail[0] == rest[interval as int]);
        if rest.len() >= end {
            assert(tail.skip(1).take(len as int) =~= rest.subrange(start, end));
            assert(tail.skip(1).skip(len as int) =~= rest.skip(end));
        }
    }
}

/// What a task in state `task` answers to a read that delivered `data`.
spec fn read_answer(task: Task, data: Seq<u8>) -> Transition {
    match task {
        Task::SkippingAudio { interval, remaining } => audio_skipped(
            interval,
            remaining,
            data.len(),
        ),
        Task::ReadingLength { interval } => length_read(interval, data),
        Task::ReadingBlock { interval, len } => block_read(interval, len, data),
        _ => stopped(),
    }
}

/// The titles, none or one, that a transition announces.
spec fn announced_by(title: Option<Seq<char>>) -> Seq<Seq<char>> {
    match title {
        Some(title) => seq![title],
        None => seq![],
    }
}

/// A read that the stream can serve takes nothing from the titles to come
/// but the one it announces.
proof fn lemma_read_served(task: Task, rest: Seq<u8>, len: usize)
    requires
        task.wf(),
        pending(task) == (Command::Read { len }),
        len <= rest.len(),
    ensures
        titles_ahead(task, rest) == announced_by(read_answer(task, rest.take(len as int)).title)
            + titles_ahead(read_answer(task, rest.take(len as int)).task, rest.skip(len as int)),
{
    let data = rest.take(len as int);
    let after = rest.skip(len as int);
    let answer = read_answer(task, data);
    match task {
        Task::SkippingAudio { remaining, .. } => {
            if len < remaining <= rest.len() {
                assert(after.skip(remaining - len) =~= rest.skip(remaining as int));
            }
            assert(titles_ahead(task, rest) =~= titles_ahead(answer.task, after));
        },
        Task::ReadingLength { .. } => {
            assert(data[0] == rest[0]);
            if data[0] == 0 {
                assert(after.take(0) =~= Seq::<u8>::empty());
                assert(after.skip(0) =~= after);
                lemma_short_block_is_silent(Seq::<u8>::empty());
            }
            assert(titles_ahead(task, rest) =~= titles_ahead(answer.task, after));
        },
        _ => {},
    }
    assert(Seq::<Seq<char>>::empty() + titles_ahead(answer.task, after) =~= titles_ahead(
        answer.task,
        after,
    ));
}

/// A read that the stream cannot serve leaves no title to come.
proof fn lemma_read_failed(task: Task, rest: Seq<u8>, len: usize)
    requires
        task.wf(),
        pending(task) == (Command::Read { len }),
        len > rest.len(),
    ensures
        titles_ahead(task, rest) == Seq::<Seq<char>>::empty(),
{
}

/// The views of a list of titles with one more title at its end.
proof fn lemma_title_pushed(titles: Seq<String>, title: String, ahead: Seq<Seq<char>>)
    ensures
        title_views(titles.push(title)) + ahead == title_views(titles) + (seq![title@] + ahead),
{
    assert(title_views(titles.push(title)) =~= title_views(titles).push(title@));
    assert(title_views(titles).push(title@) + ahead =~= title_views(titles) + (seq![title@]
        + ahead));
}

/// How far a task that waits for `command` is from its end, while the
/// stream is not read any further.
spec fn steps_left(command: Command) -> int {
    match command {
        Command::Stop => 0,
        Command::CheckCancel => 2,
        _ => 1,
    }
}

/// Runs an extraction task over a response that is held in memory, with the
/// headers `headers` and the body `body`, and returns the titles it
/// announces, in order. The connection succeeds, a read is served from
/// `body` where `body` still holds as many bytes as the read asks for and
/// fails where it does not, and nobody cancels the task.
pub fn replay(headers: HeaderMap<HeaderValue>, body: &[u8]) -> (titles: Vec<String>)
    ensures
        title_views(titles@) == stream_titles(
            announced_interval(header_values(headers)),
            body@,
        ),
{
    let ghost interval = announced_interval(header_values(headers));
    let mut titles: Vec<String> = Vec::new();
    let begun = start();
    let connected = advance(begun.task, Event::Connected);
    let mut step = advance(connected.task, Event::Headers { headers });
    let mut pos: usize = 0;
    proof {
        assert(body@.skip(0) =~= body@);
        if interval != 0 {
            lemma_cycle_start(interval as usize, body@);
        }
        assert(title_views(titles@) =~= Seq::<Seq<char>>::empty());
        assert(Seq::<Seq<char>>::empty() + stream_titles(interval, body@) =~= stream_titles(
            interval,
            body@,
        ));
    }
    loop
        invariant
            pos <= body@.len(),
            step.task.wf(),
            step.task != Task::Connecting,
            step.task != Task::Negotiating,
            step.command == pending(step.task),
            step.title is None,
            interval == announced_interval(header_values(headers)),
            title_views(titles@) + titles_ahead(step.task, body@.skip(pos as int))
                == stream_titles(interval, body@),
        decreases body@.len() - pos, steps_left(step.command),
    {
        let ghost rest = body@.skip(pos as int);
        let ghost before = title_views(titles@);
        let task = step.task;
        let event = match step.command {
            Command::Read { len } => {
                if len <= body.len() - pos {
                    let data = slice_to_vec(slice_subrange(body, pos, pos + len));
                    pos = pos + len;
                    proof {
                        assert(data@ =~= rest.take(len as int));
                        assert(body@.skip(pos as int) =~= rest.skip(len as int));
                        lemma_read_served(task, rest, len);
                    }
                    Event::Read { data }
                } else {
                    proof {
                        lemma_read_failed(task, rest, len);
                    }
                    Event::ReadFailed
                }
            },
            Command::CheckCancel => {
                proof {
                    lemma_cycle_start(task->CheckingCancel_interval, rest);
                }
                Event::CancelChecked { cancelled: false }
            },
            _ => {
                assert(before + Seq::<Seq<char>>::empty() =~= before);
                return titles;
            },
        };
        let answer = advance(task, event);
        let ghost ahead = titles_ahead(answer.task, body@.skip(pos as int));
        assert(before + (announced_by(answer@.title) + ahead) == stream_titles(interval, body@));
        let Step { task: reached, title, command } = answer;
        match title {
            Some(title) => {
                proof {
                    lemma_title_pushed(titles@, title, ahead);
                }
                titles.push(title);
            },
            None => {
                assert(Seq::<Seq<char>>::empty() + ahead =~= ahead);
            },
        }
        step = Step { task: reached, title: None, command };
    }
}

} // verus!
