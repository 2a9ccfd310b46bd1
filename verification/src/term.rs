//! Terminal events: what the escape-sequence parser dispatches while it
//! consumes the shell's byte stream.

use vstd::prelude::*;
use vstd::slice::slice_to_vec;

verus! {

/// One event of the terminal stream, as a mathematical value.
pub enum TermEventView {
    /// A character to draw.
    Print(char),
    /// A control byte.
    Execute(u8),
    /// A completed operating-system-command sequence.
    Osc { params: Seq<Seq<u8>>, bell_terminated: bool },
}

/// One event of the terminal stream.
#[derive(Debug, Clone, PartialEq, Eq)]
pub enum TermEvent {
    /// A character to draw.
    Print(char),
    /// A control byte.
    Execute(u8),
    /// A completed operating-system-command sequence, its parameters in order.
    Osc { params: Vec<Vec<u8>>, bell_terminated: bool },
}

/// The parameters of a sequence, each as the bytes it holds.
pub open spec fn param_bytes(params: Seq<Vec<u8>>) -> Seq<Seq<u8>> {
    params.map_values(|p: Vec<u8>| p@)
}

/// The parameters of a borrowed list, each as the bytes it holds.
pub open spec fn borrowed_param_bytes(params: Seq<&[u8]>) -> Seq<Seq<u8>> {
    params.map_values(|p: &[u8]| p@)
}

impl View for TermEvent {
    type V = TermEventView;

    open spec fn view(&self) -> TermEventView {
        match self {
            TermEvent::Print(c) => TermEventView::Print(*c),
            TermEvent::Execute(b) => TermEventView::Execute(*b),
            TermEvent::Osc { params, bell_terminated } => TermEventView::Osc {
                params: param_bytes(params@),
                bell_terminated: *bell_terminated,
            },
        }
    }
}

/// The events of a list, each as its mathematical value.
pub open spec fn term_event_views(events: Seq<TermEvent>) -> Seq<TermEventView> {
    events.map_values(|e: TermEvent| e@)
}

/// The performer handed to the parser: it collects the print, execute and
/// operating-system-command events in the order of dispatch, and lets every
/// other kind of event pass.
pub struct EventSink {
    events: Vec<TermEvent>,
}

impl EventSink {
    /// The events collected so far.
    pub closed spec fn collected(&self) -> Seq<TermEventView> {
        term_event_views(self.events@)
    }

    /// A sink that has collected nothing.
    pub fn new() -> (sink: EventSink)
        ensures
            sink.collected() == Seq::<TermEventView>::empty(),
    {
        EventSink { events: Vec::new() }
    }

    /// Gives up the events collected.
    pub fn into_events(self) -> (events: Vec<TermEvent>)
        ensures
            term_event_views(events@) == self.collected(),
    {
        self.events
    }
}

impl vte::Perform for EventSink {
    fn print(&mut self, c: char)
        ensures
            final(self).collected() == old(self).collected().push(TermEventView::Print(c)),
    {
        self.events.push(TermEvent::Print(c));
    }

    fn execute(&mut self, byte: u8)
        ensures
            final(self).collected() == old(self).collected().push(TermEventView::Execute(byte)),
    {
        self.events.push(TermEvent::Execute(byte));
    }

    fn osc_dispatch(&mut self, params: &[&[u8]], bell_terminated: bool)
        ensures
            final(self).collected() == old(self).collected().push(
                TermEventView::Osc { params: borrowed_param_bytes(params@), bell_terminated },
            ),
    {
        let mut copied: Vec<Vec<u8>> = Vec::new();
        let mut i: usize = 0;
        while i < params.len()
            invariant
                i <= params.len(),
                copied@.len() == i,
                param_bytes(copied@) == borrowed_param_bytes(params@).take(i as int),
            decreases params.len() - i,
        {
            copied.push(slice_to_vec(params[i]));
            i += 1;
        }
        assert(borrowed_param_bytes(params@).take(i as int) =~= borrowed_param_bytes(params@));
        self.events.push(TermEvent::Osc { params: copied, bell_terminated });
    }
}

} // verus!
