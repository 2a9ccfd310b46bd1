//! Command-lifecycle tracking for an interactive shell behind a pseudo-terminal.
//!
//! The shell's byte stream is relayed untouched, and a private marker channel
//! embedded in it as operating-system-command sequences is turned into
//! structured command events: which command ran, what it wrote, how it ended.
//!
//! A host reads chunks from the pseudo-terminal and hands each to a
//! [`relay::Relay`], which gives back the raw bytes to pass on and the events
//! of the chunk. Inside, an [`interpreter::EscapeSequenceInterpreter`] cuts the
//! stream into terminal events and a [`tracker::CommandBoundaryTracker`]
//! follows the markers among them. [`client::dispatch`] turns what a remote
//! client sends into requests to the pseudo-terminal, and [`laws`] holds what is
//! proved of all this.

pub mod client;
pub mod decimal;
pub mod events;
pub mod interpreter;
pub mod launch;
pub mod laws;
pub mod marker;
pub mod relay;
pub mod term;
pub mod text;
pub mod tracker;
