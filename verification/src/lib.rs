//! Track titles out of ICY (SHOUTcast/Icecast) streams.
//!
//! A server that speaks ICY interleaves the audio it streams with blocks of
//! metadata: after every `interval` bytes of audio comes one length byte and
//! a block of sixteen times as many bytes of text, in which
//! `StreamTitle='...';` carries the title of the track that is playing.
//!
//! This crate holds what there is to decide in listening for those titles,
//! and performs no I/O itself:
//!
//! - [`task`] is the listener as a state machine: it says what to read next
//!   and what to announce, and is told what was read;
//! - [`headers`] and [`interval`] obtain the metadata interval from the
//!   headers of the response;
//! - [`metadata`], with [`search`] and [`text`], extracts the title from a
//!   metadata block;
//! - [`stream`] runs a task over a stream held in memory, and states what a
//!   task makes of a stream of frames;
//! - [`supervisor`] keeps the handle of the one listener that may be running
//!   while the station is switched.

pub mod headers;
pub mod interval;
pub mod metadata;
pub mod search;
pub mod stream;
pub mod supervisor;
pub mod task;
pub mod text;
