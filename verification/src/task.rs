//! The metadata extraction task as a state machine.
//!
//! The task itself performs no I/O. It tells its driver what to do next (a
//! [`Command`]), the driver does it and reports what happened (an [`Event`]),
//! and [`advance`] answers with the next state, the title to announce, if
//! any, and the next command.

use crate::headers::{announced_interval, header_values, negotiate};
use crate::metadata::{block_title, extract_title, FIELD_CLOSE, TITLE_OPEN};
use crate::search::find;
use http::header::{HeaderMap, HeaderValue};
use vstd::prelude::*;
use vstd::utf8::valid_utf8;

verus! {

/// The largest number of audio bytes that the task asks for in one read.
pub const AUDIO_CHUNK: usize = 4096;

/// The number of bytes of metadata that each unit of the length byte stands for.
pub const BLOCK_UNIT: usize = 16;

/// The state of an extraction task.
#[derive(Clone, Copy, Debug, PartialEq, Eq, Structural)]
pub enum Task {
    /// The connection to the stream is being opened.
    Connecting,
    /// The connection is open and the response headers are awaited.
    Negotiating,
    /// Audio is being skipped; `remaining` bytes are left before the length byte.
    SkippingAudio { interval: usize, remaining: usize },
    /// The length byte of a metadata block is awaited.
    ReadingLength { interval: usize },
    /// A metadata block of `len` bytes is awaited.
    ReadingBlock { interval: usize, len: usize },
    /// A cycle is complete and the cancellation signal is being looked at.
    CheckingCancel { interval: usize },
    /// The task has ended and has released its connection.
    Terminated,
}

/// What the driver reports to the task.
#[derive(Debug)]
pub enum Event {
    /// The connection could not be opened.
    ConnectFailed,
    /// The connection is open.
    Connected,
    /// The response headers have arrived.
    Headers { headers: HeaderMap<HeaderValue> },
    /// A read did not deliver the bytes asked for: an error, or the end of the stream.
    ReadFailed,
    /// A read delivered `data`.
    Read { data: Vec<u8> },
    /// The cancellation signal was looked at.
    CancelChecked { cancelled: bool },
}

/// What the task asks its driver to do next.
#[derive(Clone, Copy, Debug, PartialEq, Eq, Structural)]
pub enum Command {
    /// Open the connection, asking the server for metadata.
    Connect,
    /// Hand over the response headers.
    ReadHeaders,
    /// Read exactly `len` bytes from the body of the response.
    Read { len: usize },
    /// Look at the cancellation signal.
    CheckCancel,
    /// Release the connection; the task has ended.
    Stop,
}

/// The answer of the task to an event.
#[derive(Debug)]
pub struct Step {
    /// The state the task is in now.
    pub task: Task,
    /// The title to announce, if the event completed a block that carries one.
    pub title: Option<String>,
    /// What the driver has to do next.
    pub command: Command,
}

/// The view of a [`Step`]: the title it carries is held by its characters.
pub struct Transition {
    pub task: Task,
    pub title: Option<Seq<char>>,
    pub command: Command,
}

impl View for Step {
    type V = Transition;

    open spec fn view(&self) -> Transition {
        Transition {
            task: self.task,
            title: match self.title {
                Some(title) => Some(title@),
                None => None,
            },
            command: self.command,
        }
    }
}

impl Task {
    /// The metadata interval of the stream, once it is negotiated.
    pub open spec fn interval(self) -> Option<usize> {
        match self {
            Task::Connecting | Task::Negotiating | Task::Terminated => None,
            Task::SkippingAudio { interval, .. } => Some(interval),
            Task::ReadingLength { interval } => Some(interval),
            Task::ReadingBlock { interval, .. } => Some(interval),
            Task::CheckingCancel { interval } => Some(interval),
        }
    }

    /// What holds of every state that a task started by [`start`] can reach.
    pub open spec fn wf(self) -> bool {
        match self {
            Task::Connecting | Task::Negotiating | Task::Terminated => true,
            Task::SkippingAudio { interval, remaining } => 0 < remaining <= interval,
            Task::ReadingLength { interval } => 0 < interval,
            Task::ReadingBlock { interval, len } => {
                &&& 0 < interval
                &&& 0 < len <= 255 * BLOCK_UNIT
                &&& len % BLOCK_UNIT == 0
            },
            Task::CheckingCancel { interval } => 0 < interval,
        }
    }
}

/// The command that a task in state `task` waits to see carried out.
pub open spec fn pending(task: Task) -> Command {
    match task {
        Task::Connecting => Command::Connect,
        Task::Negotiating => Command::ReadHeaders,
        Task::SkippingAudio { remaining, .. } => Command::Read { len: chunk_of(remaining) },
        Task::ReadingLength { .. } => Command::Read { len: 1 },
        Task::ReadingBlock { len, .. } => Command::Read { len },
        Task::CheckingCancel { .. } => Command::CheckCancel,
        Task::Terminated => Command::Stop,
    }
}

/// The number of audio bytes to ask for when `remaining` are left to skip.
pub open spec fn chunk_of(remaining: usize) -> usize {
    if remaining < AUDIO_CHUNK {
        remaining
    } else {
        AUDIO_CHUNK
    }
}

/// The end of a task: no title, and nothing left to do but to stop.
pub open spec fn stopped() -> Transition {
    Transition { task: Task::Terminated, title: None, command: Command::Stop }
}

/// The start of a cycle: `interval` bytes of audio are to be skipped.
pub open spec fn cycle_start(interval: usize) -> Transition {
    Transition {
        task: Task::SkippingAudio { interval, remaining: interval },
        title: None,
        command: Command::Read { len: chunk_of(interval) },
    }
}

/// A task that is skipping audio has read `read` bytes of it.
pub open spec fn audio_skipped(interval: usize, remaining: usize, read: nat) -> Transition {
    if read != chunk_of(remaining) {
        stopped()
    } else if read == remaining {
        Transition {
            task: Task::ReadingLength { interval },
            title: None,
            command: Command::Read { len: 1 },
        }
    } else {
        let left = (remaining - read) as usize;
        Transition {
            task: Task::SkippingAudio { interval, remaining: left },
            title: None,
            command: Command::Read { len: chunk_of(left) },
        }
    }
}

/// A task that awaits a length byte has read `data`.
pub open spec fn length_read(interval: usize, data: Seq<u8>) -> Transition {
    if data.len() != 1 {
        stopped()
    } else if data[0] == 0 {
        Transition {
            task: Task::CheckingCancel { interval },
            title: None,
            command: Command::CheckCancel,
        }
    } else {
        let len = (data[0] * BLOCK_UNIT) as usize;
        Transition {
            task: Task::ReadingBlock { interval, len },
            title: None,
            command: Command::Read { len },
        }
    }
}

/// A task that awaits a metadata block of `len` bytes has read `data`.
pub open spec fn block_read(interval: usize, len: usize, data: Seq<u8>) -> Transition {
    if data.len() != len {
        stopped()
    } else {
        Transition {
            task: Task::CheckingCancel { interval },
            title: block_title(data),
            command: Command::CheckCancel,
        }
    }
}

/// What a task in state `task` answers to `event`.
///
/// An event that the task did not ask for, and a read that delivered
/// another number of bytes than asked for, end the task like a failure.
pub open spec fn next(task: Task, event: Event) -> Transition {
    match (task, event) {
        (Task::Connecting, Event::Connected) => Transition {
            task: Task::Negotiating,
            title: None,
            command: Command::ReadHeaders,
        },
        (Task::Negotiating, Event::Headers { headers }) => {
            let interval = announced_interval(header_values(headers)) as usize;
            if interval == 0 {
                stopped()
            } else {
                cycle_start(interval)
            }
        },
        (Task::SkippingAudio { interval, remaining }, Event::Read { data }) => audio_skipped(
            interval,
            remaining,
            data@.len(),
        ),
        (Task::ReadingLength { interval }, Event::Read { data }) => length_read(interval, data@),
        (Task::ReadingBlock { interval, len }, Event::Read { data }) => block_read(
            interval,
            len,
            data@,
        ),
        (Task::CheckingCancel { interval }, Event::CancelChecked { cancelled }) => if cancelled {
            stopped()
        } else {
            cycle_start(interval)
        },
        _ => stopped(),
    }
}

/// A new task, and the command that sets it going.
pub fn start() -> (step: Step)
    ensures
        step@ == (Transition { task: Task::Connecting, title: None, command: Command::Connect }),
{
    Step { task: Task::Connecting, title: None, command: Command::Connect }
}

fn stop() -> (step: Step)
    ensures
        step@ == stopped(),
{
    Step { task: Task::Terminated, title: None, command: Command::Stop }
}

fn chunk(remaining: usize) -> (len: usize)
    ensures
        len == chunk_of(remaining),
{
    if remaining < AUDIO_CHUNK {
        remaining
    } else {
        AUDIO_CHUNK
    }
}

fn begin_cycle(interval: usize) -> (step: Step)
    ensures
        step@ == cycle_start(interval),
{
    Step {
        task: Task::SkippingAudio { interval, remaining: interval },
        title: None,
        command: Command::Read { len: chunk(interval) },
    }
}

/// Takes the task from `task` to its next state on `event`.
pub fn advance(task: Task, event: Event) -> (step: Step)
    ensures
        step@ == next(task, event),
        step.command == pending(step.task),
        task.wf() ==> step.task.wf(),
        task.wf() ==> (step.command matches Command::Read { len } ==> 0 < len <= AUDIO_CHUNK),
{
    match (task, event) {
        (Task::Connecting, Event::Connected) => Step {
            task: Task::Negotiating,
            title: None,
            command: Command::ReadHeaders,
        },
        (Task::Negotiating, Event::Headers { headers }) => {
            let interval = negotiate(&headers);
            if interval == 0 {
                stop()
            } else {
                begin_cycle(interval)
            }
        },
        (Task::SkippingAudio { interval, remaining }, Event::Read { data }) => {
            let read = data.len();
            if read != chunk(remaining) {
                stop()
            } else if read == remaining {
                Step {
                    task: Task::ReadingLength { interval },
                    title: None,
                    command: Command::Read { len: 1 },
                }
            } else {
                let left = remaining - read;
                Step {
                    task: Task::SkippingAudio { interval, remaining: left },
                    title: None,
                    command: Command::Read { len: chunk(left) },
                }
            }
        },
        (Task::ReadingLength { interval }, Event::Read { data }) => {
            if data.len() != 1 {
                stop()
            } else if data[0] == 0 {
                Step {
                    task: Task::CheckingCancel { interval },
                    title: None,
                    command: Command::CheckCancel,
                }
            } else {
                let len = data[0] as usize * BLOCK_UNIT;
                Step {
                    task: Task::ReadingBlock { interval, len },
                    title: None,
                    command: Command::Read { len },
                }
            }
        },
        (Task::ReadingBlock { interval, len }, Event::Read { data }) => {
            if data.len() != len {
                stop()
            } else {
                Step {
                    task: Task::CheckingCancel { interval },
                    title: extract_title(data),
                    command: Command::CheckCancel,
                }
            }
        },
        (Task::CheckingCancel { interval }, Event::CancelChecked { cancelled }) => {
            if cancelled {
                stop()
            } else {
                begin_cycle(interval)
            }
        },
        _ => stop(),
    }
}

/// The metadata interval is fixed once it is negotiated: a task keeps it
/// until it ends.
pub proof fn interval_is_fixed(task: Task, event: Event)
    requires
        task.interval() is Some,
    ensures
        next(task, event).task == Task::Terminated || next(task, event).task.interval()
            == task.interval(),
{
}

/// A title is announced on the read of a metadata block that carries it, and
/// on nothing else.
pub proof fn titles_come_from_blocks(task: Task, event: Event)
    requires
        next(task, event).title is Some,
    ensures
        task is ReadingBlock,
        event matches Event::Read { data } && next(task, event).title == block_title(data@),
{
}

/// A stream without a metadata interval has its task end as soon as the
/// headers are read: the task announces nothing and asks for no read of the
/// body.
pub proof fn zero_interval_ends_task(headers: HeaderMap<HeaderValue>)
    requires
        announced_interval(header_values(headers)) == 0,
    ensures
        next(Task::Negotiating, Event::Headers { headers }) == stopped(),
{
}

/// A task that has ended stays so whatever it is told, a cancellation too:
/// it announces nothing and asks for nothing more.
pub proof fn terminated_is_final(event: Event)
    ensures
        next(Task::Terminated, event) == stopped(),
{
}

/// A task that finds itself cancelled ends before it starts another cycle.
pub proof fn cancelled_task_ends(interval: usize)
    ensures
        next(Task::CheckingCancel { interval }, Event::CancelChecked { cancelled: true })
            == stopped(),
{
}

/// A block that is not valid UTF-8, that has no opening marker, or whose
/// title is not closed announces nothing and does not end the task: the
/// task goes on to look at the cancellation signal and, unless cancelled,
/// starts the next cycle.
pub proof fn malformed_block_is_skipped(interval: usize, len: usize, data: Vec<u8>)
    requires
        data@.len() == len,
        ({
            ||| !valid_utf8(data@)
            ||| find(data@, TITLE_OPEN@) is None
            ||| (find(data@, TITLE_OPEN@) matches Some(open) && find(
                data@.skip(open + TITLE_OPEN@.len()),
                FIELD_CLOSE@,
            ) is None)
        }),
    ensures
        next(Task::ReadingBlock { interval, len }, Event::Read { data }) == (Transition {
            task: Task::CheckingCancel { interval },
            title: None,
            command: Command::CheckCancel,
        }),
        next(Task::CheckingCancel { interval }, Event::CancelChecked { cancelled: false })
            == cycle_start(interval),
{
}

} // verus!
