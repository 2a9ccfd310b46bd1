//! The command-boundary tracker: a two-state machine, idle or capturing,
//! that is driven by terminal events and reports each command's lifecycle.
//!
//! What it captures it keeps as bytes, without carriage returns, so that the
//! captured text does not depend on how a display would show it. The bytes
//! become text only where an event is rendered.

use vstd::prelude::*;
use vstd::string::StringSliceAdditionalSpecFns;
use vstd::utf8::encode_utf8;
use crate::events::{event_views, TrackerEvent, TrackerEventView};
use crate::marker::{marker_of, read_marker, Marker, MarkerView};
use crate::term::{param_bytes, term_event_views, TermEvent, TermEventView};

verus! {

/// A command in flight, as a mathematical value.
pub struct CommandRecordView {
    pub command: Seq<char>,
    pub start_time: u64,
    pub output: Seq<u8>,
}

/// The command in flight: its text, the clock reading at its start, and the
/// output captured since the last flush.
#[derive(Debug, Clone, PartialEq, Eq)]
pub struct CommandRecord {
    command: String,
    start_time: u64,
    output: Vec<u8>,
}

impl View for CommandRecord {
    type V = CommandRecordView;

    closed spec fn view(&self) -> CommandRecordView {
        CommandRecordView {
            command: self.command@,
            start_time: self.start_time,
            output: self.output@,
        }
    }
}

impl CommandRecord {
    /// The command's text, empty where the marker named none.
    pub fn command(&self) -> (command: &String)
        ensures
            command@ == self@.command,
    {
        &self.command
    }

    /// The clock reading at the command's start.
    pub fn start_time(&self) -> (start_time: u64)
        ensures
            start_time == self@.start_time,
    {
        self.start_time
    }

    /// The output captured and not yet flushed.
    pub fn output(&self) -> (output: &Vec<u8>)
        ensures
            output@ == self@.output,
    {
        &self.output
    }
}

/// The tracker's state as a mathematical value. It is capturing exactly when
/// it holds a record.
pub struct TrackerView {
    pub channel: Seq<u8>,
    pub record: Option<CommandRecordView>,
}

/// The clock's advance from `start` to `now`; 0 if the clock went back.
pub open spec fn elapsed(start: u64, now: u64) -> u64 {
    if now >= start {
        (now - start) as u64
    } else {
        0
    }
}

/// The bytes of `data` in their order, without the carriage returns among
/// them.
pub open spec fn without_cr(data: Seq<u8>) -> Seq<u8>
    decreases data.len(),
{
    if data.len() == 0 {
        Seq::empty()
    } else if data.last() == 0x0d {
        without_cr(data.drop_last())
    } else {
        without_cr(data.drop_last()).push(data.last())
    }
}

impl TrackerView {
    /// Whether a command is in flight.
    pub open spec fn capturing(self) -> bool {
        self.record is Some
    }

    /// The state after `data` was offered for capture. With a command in
    /// flight its bytes are appended to the captured output in their order,
    /// newline and tab among them, but for the carriage returns, which are
    /// dropped. In the idle state nothing changes.
    pub open spec fn captured(self, data: Seq<u8>) -> TrackerView {
        match self.record {
            Some(r) => TrackerView {
                record: Some(CommandRecordView { output: r.output + without_cr(data), ..r }),
                ..self
            },
            None => self,
        }
    }

    /// The state after a character was printed: its UTF-8 encoding is offered
    /// for capture.
    pub open spec fn printed(self, c: char) -> TrackerView {
        self.captured(encode_utf8(seq![c]))
    }

    /// The state after a control byte was executed: the byte is offered for
    /// capture.
    pub open spec fn executed(self, byte: u8) -> TrackerView {
        self.captured(seq![byte])
    }

    /// The state after a flush, and what the flush reports: the captured
    /// output as one `Output` event, if there is any.
    pub open spec fn flushed(self) -> (TrackerView, Seq<TrackerEventView>) {
        match self.record {
            Some(r) if r.output.len() > 0 => (
                TrackerView {
                    record: Some(CommandRecordView { output: Seq::empty(), ..r }),
                    ..self
                },
                seq![TrackerEventView::Output { data: r.output }],
            ),
            _ => (self, Seq::empty()),
        }
    }

    /// The state after a marker arrived at clock reading `now`, and what is
    /// reported for it.
    ///
    /// `Start` begins a capture with nothing captured yet; a command that was
    /// still in flight is replaced, and what it had captured since the last
    /// flush is dropped. `End` flushes, reports the end and returns to idle; in
    /// the idle state it does nothing. `Pwd` reports the directory and leaves
    /// the state as it is.
    pub open spec fn marked(self, marker: MarkerView, now: u64) -> (
        TrackerView,
        Seq<TrackerEventView>,
    ) {
        match marker {
            MarkerView::Start { command } => (
                TrackerView {
                    record: Some(
                        CommandRecordView { command, start_time: now, output: Seq::empty() },
                    ),
                    ..self
                },
                seq![TrackerEventView::Started { command, at: now }],
            ),
            MarkerView::End { exit_code } => match self.record {
                Some(r) => (
                    TrackerView { record: None, ..self },
                    self.flushed().1.push(
                        TrackerEventView::Ended {
                            exit_code,
                            duration: elapsed(r.start_time, now),
                        },
                    ),
                ),
                None => (self, Seq::empty()),
            },
            MarkerView::Pwd { path } => (self, seq![TrackerEventView::WorkingDir { path }]),
        }
    }

    /// The state after a completed operating-system-command sequence, and
    /// what is reported for it. A sequence that carries no marker on this
    /// tracker's channel changes nothing.
    pub open spec fn on_osc(self, params: Seq<Seq<u8>>, now: u64) -> (
        TrackerView,
        Seq<TrackerEventView>,
    ) {
        match marker_of(self.channel, params) {
            Some(marker) => self.marked(marker, now),
            None => (self, Seq::empty()),
        }
    }

    /// The state after one terminal event, and what is reported for it.
    pub open spec fn step(self, signal: TermEventView, now: u64) -> (
        TrackerView,
        Seq<TrackerEventView>,
    ) {
        match signal {
            TermEventView::Print(c) => (self.printed(c), Seq::empty()),
            TermEventView::Execute(byte) => (self.executed(byte), Seq::empty()),
            TermEventView::Osc { params, .. } => self.on_osc(params, now),
        }
    }

    /// The state after a run of terminal events, all at clock reading `now`,
    /// and what is reported on the way.
    pub open spec fn run(self, signals: Seq<TermEventView>, now: u64) -> (
        TrackerView,
        Seq<TrackerEventView>,
    )
        decreases signals.len(),
    {
        if signals.len() == 0 {
            (self, Seq::empty())
        } else {
            let (before, reported) = self.run(signals.drop_last(), now);
            let (after, more) = before.step(signals.last(), now);
            (after, reported + more)
        }
    }

    /// The state after the terminal events of one chunk of the stream, and
    /// what is reported for the chunk: the run of its events, then a flush.
    pub open spec fn chunk(self, signals: Seq<TermEventView>, now: u64) -> (
        TrackerView,
        Seq<TrackerEventView>,
    ) {
        let (before, reported) = self.run(signals, now);
        let (after, more) = before.flushed();
        (after, reported + more)
    }
}

/// The command-boundary tracker.
///
/// It listens on one marker channel. Between a `START` and the matching `END`
/// it captures what the terminal prints, and it reports the command's
/// lifecycle as [`TrackerEvent`]s.
#[derive(Debug)]
pub struct CommandBoundaryTracker {
    channel: Vec<u8>,
    record: Option<CommandRecord>,
}

impl View for CommandBoundaryTracker {
    type V = TrackerView;

    closed spec fn view(&self) -> TrackerView {
        TrackerView {
            channel: self.channel@,
            record: match self.record {
                Some(r) => Some(r@),
                None => None,
            },
        }
    }
}

impl CommandBoundaryTracker {
    /// An idle tracker that listens on `channel`, the private identifier
    /// agreed with the shell.
    pub fn new(channel: Vec<u8>) -> (tracker: CommandBoundaryTracker)
        ensures
            tracker@ == (TrackerView { channel: channel@, record: None }),
    {
        CommandBoundaryTracker { channel, record: None }
    }

    /// Whether a command is in flight.
    pub fn is_capturing(&self) -> (capturing: bool)
        ensures
            capturing == self@.capturing(),
    {
        self.record.is_some()
    }

    /// The command in flight, if there is one.
    pub fn record(&self) -> (record: Option<&CommandRecord>)
        ensures
            match record {
                Some(r) => self@.record == Some(r@),
                None => self@.record is None,
            },
    {
        self.record.as_ref()
    }

    /// Offers `data` for capture. With a command in flight its bytes are
    /// appended to the captured output, all but the carriage returns; in the
    /// idle state nothing happens. The bytes need not be valid UTF-8: they are
    /// kept as they are, and what is not UTF-8 is replaced only where the
    /// output is rendered as text.
    pub fn capture_output(&mut self, data: &[u8])
        ensures
            final(self)@ == old(self)@.captured(data@),
    {
        let mut kept: Vec<u8> = Vec::new();
        let mut i: usize = 0;
        while i < data.len()
            invariant
                i <= data.len(),
                kept@ == without_cr(data@.take(i as int)),
            decreases data.len() - i,
        {
            assert(data@.take(i + 1).drop_last() =~= data@.take(i as int));
            if data[i] != 0x0d {
                kept.push(data[i]);
            }
            i += 1;
        }
        assert(data@.take(i as int) =~= data@);
        match &mut self.record {
            Some(record) => {
                record.output.append(&mut kept);
            },
            None => {},
        }
    }

    /// A character was printed.
    pub fn print(&mut self, c: char)
        ensures
            final(self)@ == old(self)@.printed(c),
    {
        let mut text = String::new();
        text.push(c);
        assert(text@ =~= seq![c]);
        self.capture_output(text.as_str().as_bytes());
    }

    /// A control byte was executed.
    pub fn execute(&mut self, byte: u8)
        ensures
            final(self)@ == old(self)@.executed(byte),
    {
        let mut data: Vec<u8> = Vec::new();
        data.push(byte);
        assert(data@ =~= seq![byte]);
        self.capture_output(data.as_slice());
    }

    /// Hands out what was captured since the last flush, as one `Output`
    /// event. With nothing captured, or no command in flight, nothing is
    /// reported and nothing changes.
    pub fn flush(&mut self) -> (events: Vec<TrackerEvent>)
        ensures
            final(self)@ == old(self)@.flushed().0,
            event_views(events@) == old(self)@.flushed().1,
    {
        let mut events: Vec<TrackerEvent> = Vec::new();
        match &mut self.record {
            Some(record) => {
                if record.output.len() > 0 {
                    let mut data: Vec<u8> = Vec::new();
                    core::mem::swap(&mut record.output, &mut data);
                    events.push(TrackerEvent::Output { data });
                }
            },
            None => {},
        }
        events
    }

    /// A marker arrived at clock reading `now`.
    pub fn on_marker(&mut self, marker: Marker, now: u64) -> (events: Vec<TrackerEvent>)
        ensures
            final(self)@ == old(self)@.marked(marker@, now).0,
            event_views(events@) == old(self)@.marked(marker@, now).1,
    {
        match marker {
            Marker::Start { command } => {
                let announced = command.clone();
                self.record = Some(
                    CommandRecord { command, start_time: now, output: Vec::new() },
                );
                let mut events: Vec<TrackerEvent> = Vec::new();
                events.push(TrackerEvent::Started { command: announced, at: now });
                events
            },
            Marker::End { exit_code } => {
                let mut events = self.flush();
                match self.record.take() {
                    Some(record) => {
                        let duration = if now >= record.start_time {
                            now - record.start_time
                        } else {
                            0
                        };
                        events.push(TrackerEvent::Ended { exit_code, duration });
                    },
                    None => {},
                }
                events
            },
            Marker::Pwd { path } => {
                let mut events: Vec<TrackerEvent> = Vec::new();
                events.push(TrackerEvent::WorkingDir { path });
                events
            },
        }
    }

    /// The one entry point for operating-system-command sequences: called for
    /// every completed sequence, with its parameters in order. A sequence that
    /// carries no marker on this tracker's channel has no effect.
    pub fn on_osc(&mut self, params: &[Vec<u8>], now: u64) -> (events: Vec<TrackerEvent>)
        ensures
            final(self)@ == old(self)@.on_osc(param_bytes(params@), now).0,
            event_views(events@) == old(self)@.on_osc(param_bytes(params@), now).1,
    {
        match read_marker(self.channel.as_slice(), params) {
            Some(marker) => self.on_marker(marker, now),
            None => Vec::new(),
        }
    }

    /// Takes one terminal event, at clock reading `now`.
    pub fn handle(&mut self, event: &TermEvent, now: u64) -> (events: Vec<TrackerEvent>)
        ensures
            final(self)@ == old(self)@.step(event@, now).0,
            event_views(events@) == old(self)@.step(event@, now).1,
    {
        match event {
            TermEvent::Print(c) => {
                self.print(*c);
                Vec::new()
            },
            TermEvent::Execute(byte) => {
                self.execute(*byte);
                Vec::new()
            },
            TermEvent::Osc { params, bell_terminated: _ } => self.on_osc(params.as_slice(), now),
        }
    }

    /// Takes the terminal events of one chunk of the stream, in order, and
    /// flushes at its end, so that output reaches the consumer chunk by chunk
    /// and not only when the command ends.
    pub fn handle_chunk(&mut self, chunk: &[TermEvent], now: u64) -> (events: Vec<TrackerEvent>)
        ensures
            final(self)@ == old(self)@.chunk(term_event_views(chunk@), now).0,
            event_views(events@) == old(self)@.chunk(term_event_views(chunk@), now).1,
    {
        let mut events: Vec<TrackerEvent> = Vec::new();
        let mut i: usize = 0;
        while i < chunk.len()
            invariant
                i <= chunk.len(),
                self@ == old(self)@.run(term_event_views(chunk@.take(i as int)), now).0,
                event_views(events@) == old(self)@.run(
                    term_event_views(chunk@.take(i as int)),
                    now,
                ).1,
            decreases chunk.len() - i,
        {
            let mut more = self.handle(&chunk[i], now);
            assert(term_event_views(chunk@.take(i + 1)).drop_last() =~= term_event_views(
                chunk@.take(i as int),
            ));
            events.append(&mut more);
            i += 1;
        }
        assert(chunk@.take(i as int) =~= chunk@);
        let mut more = self.flush();
        events.append(&mut more);
        events
    }
}

} // verus!
