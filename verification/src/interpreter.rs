//! The escape-sequence interpreter: a streaming automaton over the shell's
//! bytes that dispatches print, execute and operating-system-command events.
//!
//! The automaton itself is `vte::Parser`. Verus does not see inside it, so
//! what it dispatches is given a name, [`dispatched`], and the functions here
//! are proved against that name: they say how the events of a stream are put
//! together, not which event a given byte completes.

use vstd::prelude::*;
use crate::term::{term_event_views, EventSink, TermEvent, TermEventView};

verus! {

/// `vte::Parser`, declared so that it can be held and passed on. Nothing is
/// known of its fields. Its parameter is the size of the buffer in which it
/// keeps a pending operating-system-command sequence; `vte::Parser` without a
/// parameter has 1024 bytes.
#[verifier::external_type_specification]
#[verifier::external_body]
pub struct ExParser<const OSC_RAW_BUF_SIZE: usize>(vte::Parser<OSC_RAW_BUF_SIZE>);

/// The bytes that a parser has consumed since it was made, oldest first. A
/// parser does not keep them: they stand for its state, which they determine.
/// That reading rests on how parsers come about here: one is made by
/// [`new_parser`] and changed by [`advance_parser`] and in no other way. A
/// parser is given no contract for copying, comparing or a default value.
pub uninterp spec fn consumed(parser: vte::Parser<1024>) -> Seq<u8>;

/// The print, execute and operating-system-command events that a parser
/// dispatches on consuming `byte`, in order, when `history` is what it has
/// consumed before.
pub uninterp spec fn dispatched(history: Seq<u8>, byte: u8) -> Seq<TermEventView>;

/// `vte::Parser::new`: a parser in its initial state, which has consumed
/// nothing.
#[verifier::external_body]
fn new_parser() -> (parser: vte::Parser<1024>)
    ensures
        consumed(parser) == Seq::<u8>::empty(),
{
    vte::Parser::new()
}

/// `vte::Parser::advance` with an [`EventSink`] as its performer: the parser
/// consumes one byte. The parser is deterministic and reads nothing but its
/// input, so what it dispatches is a function of the bytes it has consumed,
/// the last one included. The sink receives the events in the order of
/// dispatch, after those it holds.
#[verifier::external_body]
fn advance_parser(parser: &mut vte::Parser<1024>, sink: &mut EventSink, byte: u8)
    ensures
        consumed(*final(parser)) == consumed(*old(parser)).push(byte),
        final(sink).collected() == old(sink).collected() + dispatched(
            consumed(*old(parser)),
            byte,
        ),
{
    parser.advance(sink, byte);
}

/// The events dispatched while `bytes` are consumed one after another by a
/// parser that has consumed `history` before.
pub open spec fn trace(history: Seq<u8>, bytes: Seq<u8>) -> Seq<TermEventView>
    decreases bytes.len(),
{
    if bytes.len() == 0 {
        Seq::empty()
    } else {
        trace(history, bytes.drop_last()) + dispatched(
            history + bytes.drop_last(),
            bytes.last(),
        )
    }
}

/// A streaming escape-sequence interpreter. It holds no output of its own:
/// every event is handed to the caller as soon as the byte that completes it
/// has been consumed. A sequence that is malformed or cut off is no error: it
/// stays pending until more bytes arrive.
pub struct EscapeSequenceInterpreter {
    parser: vte::Parser<1024>,
}

impl EscapeSequenceInterpreter {
    /// Every byte consumed so far, oldest first.
    pub closed spec fn history(&self) -> Seq<u8> {
        consumed(self.parser)
    }

    /// An interpreter at the start of a stream.
    pub fn new() -> (interpreter: EscapeSequenceInterpreter)
        ensures
            interpreter.history() == Seq::<u8>::empty(),
    {
        EscapeSequenceInterpreter { parser: new_parser() }
    }

    /// Consumes a chunk of the stream and returns the events it completed, in
    /// order.
    pub fn feed(&mut self, bytes: &[u8]) -> (events: Vec<TermEvent>)
        ensures
            final(self).history() == old(self).history() + bytes@,
            term_event_views(events@) == trace(old(self).history(), bytes@),
    {
        let mut sink = EventSink::new();
        let mut i: usize = 0;
        while i < bytes.len()
            invariant
                i <= bytes.len(),
                self.history() == old(self).history() + bytes@.take(i as int),
                sink.collected() == trace(old(self).history(), bytes@.take(i as int)),
            decreases bytes.len() - i,
        {
            advance_parser(&mut self.parser, &mut sink, bytes[i]);
            assert(bytes@.take(i + 1).drop_last() =~= bytes@.take(i as int));
            i += 1;
        }
        assert(bytes@.take(i as int) =~= bytes@);
        sink.into_events()
    }
}

} // verus!
