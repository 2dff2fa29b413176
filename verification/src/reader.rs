//! The inbound side of one connection: what to do with the outcome of each
//! attempt to read a frame.
//!
//! Whoever owns the socket tries to read one whole frame, tells the reader
//! what came of it, and does what the reader answers: hand a message on, wait
//! for the next turn, or stop reading for good.

use vstd::prelude::*;

use crate::frame::{decode, spec_decode, DecodeError, Frame};

verus! {

/// What one attempt to read a whole frame from a connection gave.
#[derive(Clone, Copy, Debug, PartialEq, Eq)]
pub enum ReadEvent {
    /// A whole frame arrived.
    Frame(Frame),
    /// Nothing was there to read yet. The connection is still open.
    WouldBlock,
    /// The read failed: the peer closed or reset the connection, or the
    /// frame broke off.
    Failed,
}

/// Why a reader stopped.
#[derive(Clone, Copy, Debug, PartialEq, Eq)]
pub enum CloseReason {
    /// A read failed.
    ReadFailed,
    /// A frame held a payload that is no valid UTF-8.
    InvalidEncoding,
}

/// What the owner of the connection is to do after a read.
#[derive(Debug, PartialEq, Eq)]
pub enum ReaderAction {
    /// Hand this message on.
    Forward(String),
    /// Nothing to do this turn.
    Idle,
    /// Stop reading: the connection is dead from the read side.
    Close(CloseReason),
}

/// A [`ReaderAction`] with the message as a sequence of characters.
pub enum ReaderStep {
    Forward(Seq<char>),
    Idle,
    Close(CloseReason),
}

impl View for ReaderAction {
    type V = ReaderStep;

    open spec fn view(&self) -> ReaderStep {
        match self {
            ReaderAction::Forward(text) => ReaderStep::Forward(text@),
            ReaderAction::Idle => ReaderStep::Idle,
            ReaderAction::Close(reason) => ReaderStep::Close(*reason),
        }
    }
}

/// The reader of one connection. Its view is `None` while it reads, and the
/// reason why it stopped after that.
#[derive(Debug)]
pub struct Reader {
    closed: Option<CloseReason>,
}

impl View for Reader {
    type V = Option<CloseReason>;

    closed spec fn view(&self) -> Option<CloseReason> {
        self.closed
    }
}

/// The reader's step: the state after a read, and what to do.
///
/// An open reader forwards the message of a frame that decodes, and stops on
/// one that does not; it idles when the read would have blocked, and stops
/// when the read failed. A reader that has stopped stays so, whatever comes.
pub open spec fn spec_on_read(state: Option<CloseReason>, event: ReadEvent) -> (
    Option<CloseReason>,
    ReaderStep,
) {
    match state {
        Some(reason) => (Some(reason), ReaderStep::Close(reason)),
        None => match event {
            ReadEvent::Frame(frame) => match spec_decode(frame@) {
                Ok(text) => (None, ReaderStep::Forward(text)),
                Err(DecodeError::InvalidEncoding) => (
                    Some(CloseReason::InvalidEncoding),
                    ReaderStep::Close(CloseReason::InvalidEncoding),
                ),
            },
            ReadEvent::WouldBlock => (None, ReaderStep::Idle),
            ReadEvent::Failed => (
                Some(CloseReason::ReadFailed),
                ReaderStep::Close(CloseReason::ReadFailed),
            ),
        },
    }
}

impl Reader {
    /// The reader of a connection that was just opened.
    pub fn new() -> (reader: Reader)
        ensures
            reader@ is None,
    {
        Reader { closed: None }
    }

    /// Whether the reader still reads.
    pub fn is_open(&self) -> (open: bool)
        ensures
            open == (self@ is None),
    {
        self.closed.is_none()
    }

    /// Why the reader stopped, if it has.
    pub fn close_reason(&self) -> (reason: Option<CloseReason>)
        ensures
            reason == self@,
    {
        self.closed
    }

    /// Takes the outcome of one read and says what to do.
    pub fn on_read(&mut self, event: ReadEvent) -> (action: ReaderAction)
        ensures
            (final(self)@, action@) == spec_on_read(old(self)@, event),
    {
        if let Some(reason) = self.closed {
            return ReaderAction::Close(reason);
        }
        match event {
            ReadEvent::Frame(frame) => match decode(&frame) {
                Ok(text) => ReaderAction::Forward(text),
                Err(_) => {
                    self.closed = Some(CloseReason::InvalidEncoding);
                    ReaderAction::Close(CloseReason::InvalidEncoding)
                },
            },
            ReadEvent::WouldBlock => ReaderAction::Idle,
            ReadEvent::Failed => {
                self.closed = Some(CloseReason::ReadFailed);
                ReaderAction::Close(CloseReason::ReadFailed)
            },
        }
    }
}

} // verus!
