//! The events that tracking produces, and their two renderings: the log
//! events sent to a log viewer, and the text blocks of a local log file.

use vstd::prelude::*;
use vstd::string::StringExecFns;
use crate::decimal::{decimal_text, push_decimal, push_signed_decimal, signed_decimal_text};
use crate::text::{from_utf8_lossy, lossy_text};

verus! {

/// A log event as a mathematical value.
pub enum LogEventView {
    Start { user: Seq<char>, host: Seq<char>, cwd: Seq<char> },
    Output { data: Seq<char> },
    End { exit_code: i32 },
}

/// A structured log event, in the form a log viewer receives.
#[derive(Debug, Clone, PartialEq, Eq)]
pub enum LogEvent {
    /// A command begins, run by `user` on `host` in directory `cwd`.
    Start { user: String, host: String, cwd: String },
    /// Text that the running command has written.
    Output { data: String },
    /// The command has ended with this exit code.
    End { exit_code: i32 },
}

impl View for LogEvent {
    type V = LogEventView;

    open spec fn view(&self) -> LogEventView {
        match self {
            LogEvent::Start { user, host, cwd } => LogEventView::Start {
                user: user@,
                host: host@,
                cwd: cwd@,
            },
            LogEvent::Output { data } => LogEventView::Output { data: data@ },
            LogEvent::End { exit_code } => LogEventView::End { exit_code: *exit_code },
        }
    }
}

/// The log events of a list, each as its mathematical value.
pub open spec fn log_event_views(events: Seq<LogEvent>) -> Seq<LogEventView> {
    events.map_values(|e: LogEvent| e@)
}

/// A tracker event as a mathematical value.
pub enum TrackerEventView {
    Started { command: Seq<char>, at: u64 },
    Output { data: Seq<u8> },
    Ended { exit_code: i32, duration: u64 },
    WorkingDir { path: Seq<char> },
}

/// What the command tracker reports, in the order in which it happened.
///
/// `Output` and `Ended` are the command's log events. `Started` and
/// `WorkingDir` are informational: they travel beside the log events and have
/// no log-event form.
#[derive(Debug, Clone, PartialEq, Eq)]
pub enum TrackerEvent {
    /// Capture began at clock reading `at`, for the command `command` (empty
    /// where the marker named none).
    Started { command: String, at: u64 },
    /// Captured output, as the bytes that were captured. The tracker reports
    /// none that is empty.
    Output { data: Vec<u8> },
    /// Capture ended; `duration` is the clock's advance since it began.
    Ended { exit_code: i32, duration: u64 },
    /// The shell announced its working directory.
    WorkingDir { path: String },
}

impl View for TrackerEvent {
    type V = TrackerEventView;

    open spec fn view(&self) -> TrackerEventView {
        match self {
            TrackerEvent::Started { command, at } => TrackerEventView::Started {
                command: command@,
                at: *at,
            },
            TrackerEvent::Output { data } => TrackerEventView::Output { data: data@ },
            TrackerEvent::Ended { exit_code, duration } => TrackerEventView::Ended {
                exit_code: *exit_code,
                duration: *duration,
            },
            TrackerEvent::WorkingDir { path } => TrackerEventView::WorkingDir { path: path@ },
        }
    }
}

/// The events of a list, each as its mathematical value.
pub open spec fn event_views(events: Seq<TrackerEvent>) -> Seq<TrackerEventView> {
    events.map_values(|e: TrackerEvent| e@)
}

impl TrackerEventView {
    /// The log event that stands for this event, if it has one. Captured
    /// output becomes text by a lossy conversion: what is not UTF-8 in it is
    /// replaced, never refused.
    pub open spec fn log_event(self) -> Option<LogEventView> {
        match self {
            TrackerEventView::Output { data } => Some(
                LogEventView::Output { data: lossy_text(data) },
            ),
            TrackerEventView::Ended { exit_code, .. } => Some(LogEventView::End { exit_code }),
            _ => None,
        }
    }

    /// The text that a local log file shows for this event.
    pub open spec fn text(self) -> Seq<char> {
        match self {
            TrackerEventView::Started { command, at } => "\n=== Command Started ===\nCommand: "@
                + command + "\nTime: "@ + decimal_text(at as nat) + "\n--- Output ---\n"@,
            TrackerEventView::Output { data } => lossy_text(data),
            TrackerEventView::Ended { exit_code, duration } => "\n--- End Output ---\nExit Code: "@
                + signed_decimal_text(exit_code as int) + "\nDuration: "@ + decimal_text(
                duration as nat,
            ) + " ms\n=== Command Ended ===\n\n"@,
            TrackerEventView::WorkingDir { path } => "[PWD] "@ + path + "\n"@,
        }
    }
}

/// The log events among `events`, in order.
pub open spec fn log_events(events: Seq<TrackerEventView>) -> Seq<LogEventView>
    decreases events.len(),
{
    if events.len() == 0 {
        Seq::empty()
    } else {
        match events.last().log_event() {
            Some(e) => log_events(events.drop_last()).push(e),
            None => log_events(events.drop_last()),
        }
    }
}

impl TrackerEvent {
    /// The log event to send for this event, if it has one.
    pub fn log_event(&self) -> (event: Option<LogEvent>)
        ensures
            match event {
                Some(e) => self@.log_event() == Some(e@),
                None => self@.log_event() is None,
            },
    {
        match self {
            TrackerEvent::Output { data } => Some(
                LogEvent::Output { data: from_utf8_lossy(data.as_slice()) },
            ),
            TrackerEvent::Ended { exit_code, duration: _ } => Some(
                LogEvent::End { exit_code: *exit_code },
            ),
            _ => None,
        }
    }

    /// The text to append to a local log file for this event: a banner with
    /// the command and the time when it starts, its output as it comes, and a
    /// banner with the exit code and the duration in milliseconds when it
    /// ends.
    pub fn text(&self) -> (text: String)
        ensures
            text@ == self@.text(),
    {
        let mut text = String::new();
        match self {
            TrackerEvent::Started { command, at } => {
                text.append("\n=== Command Started ===\nCommand: ");
                text.append(command.as_str());
                text.append("\nTime: ");
                push_decimal(&mut text, *at);
                text.append("\n--- Output ---\n");
            },
            TrackerEvent::Output { data } => {
                text.append(from_utf8_lossy(data.as_slice()).as_str());
            },
            TrackerEvent::Ended { exit_code, duration } => {
                text.append("\n--- End Output ---\nExit Code: ");
                push_signed_decimal(&mut text, *exit_code);
                text.append("\nDuration: ");
                push_decimal(&mut text, *duration);
                text.append(" ms\n=== Command Ended ===\n\n");
            },
            TrackerEvent::WorkingDir { path } => {
                text.append("[PWD] ");
                text.append(path.as_str());
                text.append("\n");
            },
        }
        text
    }
}

/// The log events to send for a list of tracker events, in order.
pub fn to_log_events(events: &[TrackerEvent]) -> (log: Vec<LogEvent>)
    ensures
        log_event_views(log@) == log_events(event_views(events@)),
{
    let mut log: Vec<LogEvent> = Vec::new();
    let mut i: usize = 0;
    while i < events.len()
        invariant
            i <= events.len(),
            log_event_views(log@) == log_events(event_views(events@.take(i as int))),
        decreases events.len() - i,
    {
        assert(event_views(events@.take(i + 1)).drop_last() =~= event_views(
            events@.take(i as int),
        ));
        match events[i].log_event() {
            Some(e) => {
                log.push(e);
            },
            None => {},
        }
        i += 1;
    }
    assert(events@.take(i as int) =~= events@);
    log
}

} // verus!
