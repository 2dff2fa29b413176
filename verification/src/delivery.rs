//! What becomes of a message on its way from one client through the relay to
//! every client: the steps of session, reader and registry put together.

use vstd::prelude::*;

use crate::frame::{fits, lemma_decoded_text_fits, lemma_text_roundtrip, Frame};
use crate::reader::{spec_on_read, CloseReason, ReadEvent, ReaderStep};
use crate::registry::{
    lemma_no_failure_keeps_all, spec_broadcast, survivors, ConnId, Delivery, WriteOutcome,
};
use crate::session::{
    spec_on_inbound, spec_on_line, spec_strip_newline, InboundStep, InputStep, SessionEnd, QUIT,
};

verus! {

/// From the keyboard to the relay: a line that is not the quit line and whose
/// text fits into a frame is sent as a frame from which the relay's reader
/// hands on that very text.
pub proof fn lemma_line_reaches_relay(line: Seq<char>, sent: Frame)
    requires
        spec_strip_newline(line) != QUIT@,
        fits(spec_strip_newline(line)),
        spec_on_line(None, line).1 == InputStep::Send(sent@),
    ensures
        spec_on_line(None, line).0 is None,
        spec_on_read(None, ReadEvent::Frame(sent)) == (
            None::<CloseReason>,
            ReaderStep::Forward(spec_strip_newline(line)),
        ),
{
    lemma_text_roundtrip(spec_strip_newline(line));
}

/// Through the relay: the text that the relay's reader hands on from a frame
/// is shown by every client that reads the frame of its broadcast, whatever
/// the first frame held behind its payload.
pub proof fn lemma_relayed_as_read(
    received: Frame,
    text: Seq<char>,
    ids: Seq<ConnId>,
    relayed: Frame,
)
    requires
        spec_on_read(None, ReadEvent::Frame(received)).1 == ReaderStep::Forward(text),
        relayed@ == spec_broadcast(ids, text).frame,
    ensures
        spec_on_inbound(None, ReadEvent::Frame(relayed)) == (
            None::<SessionEnd>,
            InboundStep::Show(text),
        ),
{
    lemma_decoded_text_fits(received, text);
    lemma_text_roundtrip(text);
}

/// From the relay to every client: the broadcast of a text that fits into a
/// frame goes to every registered connection, the sender's among them; every
/// client that reads the frame shows that very text; and as long as no write
/// fails, every connection stays registered.
pub proof fn lemma_broadcast_reaches_everyone(
    ids: Seq<ConnId>,
    sender: ConnId,
    text: Seq<char>,
    frame: Frame,
    reports: Seq<Delivery>,
)
    requires
        ids.contains(sender),
        fits(text),
        frame@ == spec_broadcast(ids, text).frame,
        forall|i: int| 0 <= i < reports.len() ==> (#[trigger] reports[i]).outcome
            != WriteOutcome::Failed,
    ensures
        spec_broadcast(ids, text).targets == ids,
        spec_broadcast(ids, text).targets.contains(sender),
        spec_on_inbound(None, ReadEvent::Frame(frame)) == (
            None::<SessionEnd>,
            InboundStep::Show(text),
        ),
        survivors(ids, reports) == ids,
{
    lemma_text_roundtrip(text);
    lemma_no_failure_keeps_all(ids, reports);
}

} // verus!
