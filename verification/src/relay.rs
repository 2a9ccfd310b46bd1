//! The read side of a session: every chunk read from the pseudo-terminal is
//! passed on untouched, and what the tracker makes of it goes along.

use vstd::prelude::*;
use vstd::slice::slice_to_vec;
use crate::events::{event_views, TrackerEvent};
use crate::interpreter::{trace, EscapeSequenceInterpreter};
use crate::tracker::{CommandBoundaryTracker, TrackerView};

verus! {

/// A relay's state as a mathematical value: the bytes read so far, and the
/// state of its tracker.
pub struct RelayView {
    pub history: Seq<u8>,
    pub tracker: TrackerView,
}

/// What one chunk of the stream gives rise to.
#[derive(Debug, Clone, PartialEq, Eq)]
pub struct Delivery {
    /// The bytes for the raw pass-through channel: the chunk as it was read.
    pub raw: Vec<u8>,
    /// What the tracker reports for the chunk, in order.
    pub events: Vec<TrackerEvent>,
}

/// The interpreter and the tracker of one session, fed chunk by chunk.
pub struct Relay {
    interpreter: EscapeSequenceInterpreter,
    tracker: CommandBoundaryTracker,
}

impl View for Relay {
    type V = RelayView;

    closed spec fn view(&self) -> RelayView {
        RelayView { history: self.interpreter.history(), tracker: self.tracker@ }
    }
}

impl RelayView {
    /// The state after `chunk` was read at clock reading `now`.
    pub open spec fn after_read(self, chunk: Seq<u8>, now: u64) -> RelayView {
        RelayView {
            history: self.history + chunk,
            tracker: self.tracker.chunk(trace(self.history, chunk), now).0,
        }
    }

    /// What the tracker reports when `chunk` is read at clock reading `now`.
    pub open spec fn reported(self, chunk: Seq<u8>, now: u64) -> Seq<
        crate::events::TrackerEventView,
    > {
        self.tracker.chunk(trace(self.history, chunk), now).1
    }
}

impl Relay {
    /// A relay at the start of a stream, with an idle tracker that listens on
    /// `channel`.
    pub fn new(channel: Vec<u8>) -> (relay: Relay)
        ensures
            relay@ == (RelayView {
                history: Seq::empty(),
                tracker: TrackerView { channel: channel@, record: None },
            }),
    {
        Relay {
            interpreter: EscapeSequenceInterpreter::new(),
            tracker: CommandBoundaryTracker::new(channel),
        }
    }

    /// The tracker, to look at.
    pub fn tracker(&self) -> (tracker: &CommandBoundaryTracker)
        ensures
            tracker@ == self@.tracker,
    {
        &self.tracker
    }

    /// Takes one chunk read from the pseudo-terminal at clock reading `now`.
    ///
    /// The raw bytes handed back are the chunk itself, unchanged and in
    /// order, whatever the chunk holds. The events are those that the tracker
    /// reports for the terminal events completed within the chunk, followed by
    /// a flush. A sequence cut off by the end of the chunk stays pending and
    /// is completed by the chunks that follow.
    ///
    /// Bytes that are not UTF-8 never stop the relay. What becomes of them in
    /// the captured output is first the parser's matter, which decodes the
    /// stream before anything is captured: for a character that is cut short
    /// it prints U+FFFD, and a byte that can start no character it passes
    /// over. A control byte beyond ASCII is captured as it is and becomes
    /// U+FFFD where the output is rendered as text.
    pub fn on_read(&mut self, chunk: &[u8], now: u64) -> (delivery: Delivery)
        ensures
            delivery.raw@ == chunk@,
            final(self)@ == old(self)@.after_read(chunk@, now),
            event_views(delivery.events@) == old(self)@.reported(chunk@, now),
    {
        let raw = slice_to_vec(chunk);
        let completed = self.interpreter.feed(chunk);
        let events = self.tracker.handle_chunk(completed.as_slice(), now);
        Delivery { raw, events }
    }
}

} // verus!
