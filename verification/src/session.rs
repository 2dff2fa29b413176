//! The client's side of a connection: what to do with each line the user
//! types, with each frame the relay sends, and with the outcome of each write.
//!
//! A session runs until the user types the line [`QUIT`], or until the
//! connection is lost. A session that has ended sends and shows nothing more.

use vstd::prelude::*;
use vstd::string::*;
use vstd::utf8::*;

use crate::frame::{encode_text, lemma_empty_payload, spec_encode, Frame, MSG_SIZE};
use crate::reader::{spec_on_read, CloseReason, ReadEvent, Reader, ReaderAction, ReaderStep};
use crate::registry::WriteOutcome;

verus! {

/// The line that ends the session. It is never sent.
pub const QUIT: &'static str = ":quit";

/// Why a session ended.
#[derive(Clone, Copy, Debug, PartialEq, Eq)]
pub enum SessionEnd {
    /// The user asked for it.
    Quit,
    /// The inbound side of the connection stopped.
    Closed(CloseReason),
    /// A write to the connection failed.
    WriteFailed,
}

/// What to do with a line that the user typed.
#[derive(Clone, Copy, Debug, PartialEq, Eq)]
pub enum InputAction {
    /// Write this frame to the connection.
    Send(Frame),
    /// Send nothing: the session is over.
    Stop(SessionEnd),
}

/// An [`InputAction`] with the frame as a sequence of bytes.
pub enum InputStep {
    Send(Seq<u8>),
    Stop(SessionEnd),
}

impl View for InputAction {
    type V = InputStep;

    open spec fn view(&self) -> InputStep {
        match self {
            InputAction::Send(frame) => InputStep::Send(frame@),
            InputAction::Stop(end) => InputStep::Stop(*end),
        }
    }
}

/// What to do after a read from the connection.
#[derive(Debug, PartialEq, Eq)]
pub enum InboundAction {
    /// Show this message to the user.
    Show(String),
    /// Nothing to do this turn.
    Idle,
    /// Read no more: the session is over.
    Stop(SessionEnd),
}

/// An [`InboundAction`] with the message as a sequence of characters.
pub enum InboundStep {
    Show(Seq<char>),
    Idle,
    Stop(SessionEnd),
}

impl View for InboundAction {
    type V = InboundStep;

    open spec fn view(&self) -> InboundStep {
        match self {
            InboundAction::Show(text) => InboundStep::Show(text@),
            InboundAction::Idle => InboundStep::Idle,
            InboundAction::Stop(end) => InboundStep::Stop(*end),
        }
    }
}

/// One client session. Its view is `None` while it runs, and the reason why
/// it ended after that.
#[derive(Debug)]
pub struct Session {
    ended: Option<SessionEnd>,
}

impl View for Session {
    type V = Option<SessionEnd>;

    closed spec fn view(&self) -> Option<SessionEnd> {
        self.ended
    }
}

/// A line without its line ending: without one `\n` at its end, and without
/// the `\r` that may stand before that.
pub open spec fn spec_strip_newline(line: Seq<char>) -> Seq<char> {
    if line.len() > 0 && line.last() == '\n' {
        let body = line.drop_last();
        if body.len() > 0 && body.last() == '\r' {
            body.drop_last()
        } else {
            body
        }
    } else {
        line
    }
}

/// The session's step on a line from the user.
///
/// In a running session the line [`QUIT`], with or without its line ending,
/// ends the session and sends nothing. Any other line, the empty one too,
/// goes out without its line ending as one frame. A session that has ended
/// stays so and sends nothing.
pub open spec fn spec_on_line(state: Option<SessionEnd>, line: Seq<char>) -> (
    Option<SessionEnd>,
    InputStep,
) {
    match state {
        Some(end) => (Some(end), InputStep::Stop(end)),
        None => if spec_strip_newline(line) == QUIT@ {
            (Some(SessionEnd::Quit), InputStep::Stop(SessionEnd::Quit))
        } else {
            (None, InputStep::Send(spec_encode(encode_utf8(spec_strip_newline(line)))))
        },
    }
}

/// The session's step on the outcome of a read.
///
/// A running session treats it as an open [`Reader`] does: it shows the
/// message of a frame that decodes, idles when the read would have blocked,
/// and ends on a failed read or a frame that does not decode. A session that
/// has ended stays so and shows nothing.
pub open spec fn spec_on_inbound(state: Option<SessionEnd>, event: ReadEvent) -> (
    Option<SessionEnd>,
    InboundStep,
) {
    match state {
        Some(end) => (Some(end), InboundStep::Stop(end)),
        None => match spec_on_read(None, event).1 {
            ReaderStep::Forward(text) => (None, InboundStep::Show(text)),
            ReaderStep::Idle => (None, InboundStep::Idle),
            ReaderStep::Close(reason) => (
                Some(SessionEnd::Closed(reason)),
                InboundStep::Stop(SessionEnd::Closed(reason)),
            ),
        },
    }
}

/// The session's state after a write: a failed write ends a running session,
/// any other outcome changes nothing.
pub open spec fn spec_on_write(state: Option<SessionEnd>, outcome: WriteOutcome) -> Option<
    SessionEnd,
> {
    match state {
        Some(end) => Some(end),
        None => if outcome == WriteOutcome::Failed {
            Some(SessionEnd::WriteFailed)
        } else {
            None
        },
    }
}

/// Quitting sends nothing: the line [`QUIT`], with or without its line
/// ending, is never turned into a frame, it ends a running session, and no
/// line that follows it is sent either.
pub proof fn lemma_quit_sends_nothing(
    state: Option<SessionEnd>,
    line: Seq<char>,
    later: Seq<char>,
)
    requires
        spec_strip_newline(line) == QUIT@,
    ensures
        spec_on_line(state, line).1 is Stop,
        spec_on_line(state, line).0 is Some,
        spec_on_line(None, line) == (Some(SessionEnd::Quit), InputStep::Stop(SessionEnd::Quit)),
        spec_on_line(spec_on_line(state, line).0, later).1 is Stop,
{
}

/// An empty line is a message like any other: it goes out as a frame of
/// zero bytes only, and a reader that gets this frame hands on the empty
/// message.
pub proof fn lemma_empty_line(line: Seq<char>, frame: Frame)
    requires
        spec_strip_newline(line).len() == 0,
        spec_on_line(None, line).1 == InputStep::Send(frame@),
    ensures
        spec_on_line(None, line) == (
            None::<SessionEnd>,
            InputStep::Send(Seq::new(MSG_SIZE as nat, |i: int| 0u8)),
        ),
        spec_on_read(None, ReadEvent::Frame(frame)) == (
            None::<CloseReason>,
            ReaderStep::Forward(Seq::<char>::empty()),
        ),
{
    reveal_strlit(":quit");
    lemma_empty_payload();
    assert(spec_strip_newline(line) =~= Seq::<char>::empty());
    assert(encode_utf8(Seq::<char>::empty()) =~= Seq::<u8>::empty());
}

/// Cuts the line ending off a line.
pub fn strip_newline(line: &str) -> (body: &str)
    ensures
        body@ == spec_strip_newline(line@),
{
    let n: usize = line.unicode_len();
    let mut end: usize = n;
    if end > 0 && line.get_char(end - 1) == '\n' {
        end = end - 1;
        if end > 0 && line.get_char(end - 1) == '\r' {
            end = end - 1;
        }
    }
    let body = line.substring_char(0, end);
    proof {
        if end == n {
            assert(line@.subrange(0, n as int) =~= line@);
        } else if end + 1 == n {
            assert(line@.drop_last() =~= line@.subrange(0, n - 1));
        } else {
            assert(line@.drop_last().drop_last() =~= line@.subrange(0, n - 2));
        }
    }
    body
}

/// Whether `text` is the line [`QUIT`].
pub fn is_quit(text: &str) -> (res: bool)
    ensures
        res == (text@ == QUIT@),
{
    proof {
        reveal_strlit(":quit");
    }
    let res: bool = text.unicode_len() == 5 && text.get_char(0) == ':' && text.get_char(1) == 'q'
        && text.get_char(2) == 'u' && text.get_char(3) == 'i' && text.get_char(4) == 't';
    proof {
        if res {
            assert(text@ =~= QUIT@);
        }
    }
    res
}

impl Session {
    /// A session on a connection that was just opened.
    pub fn new() -> (session: Session)
        ensures
            session@ is None,
    {
        Session { ended: None }
    }

    /// Whether the session still runs.
    pub fn is_active(&self) -> (active: bool)
        ensures
            active == (self@ is None),
    {
        self.ended.is_none()
    }

    /// Why the session ended, if it has.
    pub fn end(&self) -> (end: Option<SessionEnd>)
        ensures
            end == self@,
    {
        self.ended
    }

    /// Takes a line that the user typed and says what to do with it.
    pub fn on_line(&mut self, line: &str) -> (action: InputAction)
        ensures
            (final(self)@, action@) == spec_on_line(old(self)@, line@),
    {
        if let Some(end) = self.ended {
            return InputAction::Stop(end);
        }
        let body = strip_newline(line);
        if is_quit(body) {
            self.ended = Some(SessionEnd::Quit);
            InputAction::Stop(SessionEnd::Quit)
        } else {
            InputAction::Send(encode_text(body))
        }
    }

    /// Takes the outcome of one read from the connection and says what to do.
    pub fn on_inbound(&mut self, event: ReadEvent) -> (action: InboundAction)
        ensures
            (final(self)@, action@) == spec_on_inbound(old(self)@, event),
    {
        if let Some(end) = self.ended {
            return InboundAction::Stop(end);
        }
        // A running session reads as a reader that is open.
        let mut reader = Reader::new();
        match reader.on_read(event) {
            ReaderAction::Forward(text) => InboundAction::Show(text),
            ReaderAction::Idle => InboundAction::Idle,
            ReaderAction::Close(reason) => {
                self.ended = Some(SessionEnd::Closed(reason));
                InboundAction::Stop(SessionEnd::Closed(reason))
            },
        }
    }

    /// Takes the outcome of one write to the connection. The result says
    /// whether the session still runs.
    pub fn on_write(&mut self, outcome: WriteOutcome) -> (active: bool)
        ensures
            final(self)@ == spec_on_write(old(self)@, outcome),
            active == (final(self)@ is None),
    {
        if self.ended.is_none() {
            match outcome {
                WriteOutcome::Failed => {
                    self.ended = Some(SessionEnd::WriteFailed);
                },
                _ => {},
            }
        }
        self.ended.is_none()
    }
}

} // verus!
