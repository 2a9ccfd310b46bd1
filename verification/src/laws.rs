//! Laws of the tracker and the relay, stated over their mathematical models
//! and proved.

use vstd::prelude::*;
use crate::events::{log_events, LogEventView, TrackerEventView};
use crate::interpreter::trace;
use crate::marker::{marker_of, MarkerView};
use crate::relay::RelayView;
use crate::term::TermEventView;
use crate::text::lossy_text;
use crate::tracker::{elapsed, without_cr, CommandRecordView, TrackerView};
use vstd::utf8::encode_utf8;

verus! {

/// The events of a command's lifecycle among `events`, in order: all but the
/// `Output` events.
pub open spec fn lifecycle(events: Seq<TrackerEventView>) -> Seq<TrackerEventView>
    decreases events.len(),
{
    if events.len() == 0 {
        Seq::empty()
    } else if events.last() is Output {
        lifecycle(events.drop_last())
    } else {
        lifecycle(events.drop_last()).push(events.last())
    }
}

/// The output that is captured and not yet flushed; none in the idle state.
pub open spec fn pending(t: TrackerView) -> Seq<u8> {
    match t.record {
        Some(r) => r.output,
        None => Seq::empty(),
    }
}

/// Whether `signal` is a sequence that carries a `START` marker on `channel`.
pub open spec fn carries_start(channel: Seq<u8>, signal: TermEventView) -> bool {
    signal matches TermEventView::Osc { params, .. } && marker_of(channel, params) matches Some(
        MarkerView::Start { .. },
    )
}

/// Whether `signal` is a sequence that carries an `END` marker on `channel`.
pub open spec fn carries_end(channel: Seq<u8>, signal: TermEventView) -> bool {
    signal matches TermEventView::Osc { params, .. } && marker_of(channel, params) matches Some(
        MarkerView::End { .. },
    )
}

/// Whether a `START` or an `END` marker on `channel` is among `signals`.
pub open spec fn has_boundary(channel: Seq<u8>, signals: Seq<TermEventView>) -> bool
    decreases signals.len(),
{
    signals.len() > 0 && (has_boundary(channel, signals.drop_last()) || carries_start(
        channel,
        signals.last(),
    ) || carries_end(channel, signals.last()))
}

/// Whether the first `START` or `END` marker on `channel` among `signals` is
/// a `START`.
pub open spec fn first_boundary_is_start(channel: Seq<u8>, signals: Seq<TermEventView>) -> bool
    decreases signals.len(),
{
    signals.len() > 0 && (first_boundary_is_start(channel, signals.drop_last()) || (!has_boundary(
        channel,
        signals.drop_last(),
    ) && carries_start(channel, signals.last())))
}

/// One entry of a log as its reader is meant to see it: a stretch of output,
/// or the end of a command.
pub enum LogItem {
    Output { data: Seq<u8> },
    End { exit_code: i32 },
}

/// The log after one more event. Output joins the output before it, so that
/// it does not show in how many pieces the output was reported; an end takes
/// its place with its exit code; the informational events leave no entry.
pub open spec fn logged(log: Seq<LogItem>, event: TrackerEventView) -> Seq<LogItem> {
    match event {
        TrackerEventView::Output { data } => if log.len() > 0 && log.last() is Output {
            log.drop_last().push(LogItem::Output { data: log.last()->data + data })
        } else {
            log.push(LogItem::Output { data })
        },
        TrackerEventView::Ended { exit_code, .. } => log.push(LogItem::End { exit_code }),
        _ => log,
    }
}

/// The log after more events.
pub open spec fn extended(log: Seq<LogItem>, events: Seq<TrackerEventView>) -> Seq<LogItem>
    decreases events.len(),
{
    if events.len() == 0 {
        log
    } else {
        logged(extended(log, events.drop_last()), events.last())
    }
}

/// The log that `events` make: for each command its output, joined, and its
/// exit code.
pub open spec fn log_of(events: Seq<TrackerEventView>) -> Seq<LogItem> {
    extended(Seq::empty(), events)
}

/// The log with output that is still pending taken in.
spec fn with_pending(log: Seq<LogItem>, data: Seq<u8>) -> Seq<LogItem> {
    if data.len() > 0 {
        logged(log, TrackerEventView::Output { data })
    } else {
        log
    }
}

/// The markers that `events` tell of, in order: the lifecycle events without
/// the clock readings in them.
pub open spec fn markers(events: Seq<TrackerEventView>) -> Seq<TrackerEventView>
    decreases events.len(),
{
    if events.len() == 0 {
        Seq::empty()
    } else {
        let before = markers(events.drop_last());
        match events.last() {
            TrackerEventView::Started { command, .. } => before.push(
                TrackerEventView::Started { command, at: 0 },
            ),
            TrackerEventView::Ended { exit_code, .. } => before.push(
                TrackerEventView::Ended { exit_code, duration: 0 },
            ),
            TrackerEventView::WorkingDir { path } => before.push(
                TrackerEventView::WorkingDir { path },
            ),
            TrackerEventView::Output { .. } => before,
        }
    }
}

/// Whether two tracker states hold the same command, whatever they have
/// pending and whenever the command started.
pub open spec fn same_text(a: TrackerView, b: TrackerView) -> bool {
    &&& a.channel == b.channel
    &&& match (a.record, b.record) {
        (Some(ra), Some(rb)) => ra.command == rb.command,
        (None, None) => true,
        _ => false,
    }
}

/// Two runs have come to the same point: the same output pending, the same
/// log so far.
spec fn in_sync(x: TrackerView, y: TrackerView, lx: Seq<LogItem>, ly: Seq<LogItem>) -> bool {
    pending(x) == pending(y) && lx == ly
}

/// The second run has reported output that the first still holds pending,
/// and nothing else sets them apart.
spec fn behind(x: TrackerView, y: TrackerView, lx: Seq<LogItem>, ly: Seq<LogItem>) -> bool {
    x.capturing() && with_pending(lx, pending(x)) == with_pending(ly, pending(y))
}

/// Whether two tracker states differ at most in the output that is captured
/// and not yet flushed.
spec fn same_command(a: TrackerView, b: TrackerView) -> bool {
    &&& a.channel == b.channel
    &&& match (a.record, b.record) {
        (Some(ra), Some(rb)) => ra.command == rb.command && ra.start_time == rb.start_time,
        (None, None) => true,
        _ => false,
    }
}

proof fn lemma_lifecycle_concat(a: Seq<TrackerEventView>, b: Seq<TrackerEventView>)
    ensures
        lifecycle(a + b) == lifecycle(a) + lifecycle(b),
    decreases b.len(),
{
    if b.len() > 0 {
        lemma_lifecycle_concat(a, b.drop_last());
        assert((a + b).drop_last() =~= a + b.drop_last());
    }
}

proof fn lemma_lifecycle_of_flush(t: TrackerView)
    ensures
        lifecycle(t.flushed().1) == Seq::<TrackerEventView>::empty(),
{
    reveal_with_fuel(lifecycle, 2);
}

proof fn lemma_same_command_step(a: TrackerView, b: TrackerView, signal: TermEventView, now: u64)
    requires
        same_command(a, b),
    ensures
        same_command(a.step(signal, now).0, b.step(signal, now).0),
        lifecycle(a.step(signal, now).1) == lifecycle(b.step(signal, now).1),
{
    match signal {
        TermEventView::Osc { params, .. } => {
            match marker_of(a.channel, params) {
                Some(MarkerView::End { exit_code }) => {
                    match (a.record, b.record) {
                        (Some(ra), Some(rb)) => {
                            let ended = TrackerEventView::Ended {
                                exit_code,
                                duration: elapsed(ra.start_time, now),
                            };
                            lemma_lifecycle_of_flush(a);
                            lemma_lifecycle_of_flush(b);
                            assert(a.flushed().1.push(ended).drop_last() =~= a.flushed().1);
                            assert(b.flushed().1.push(ended).drop_last() =~= b.flushed().1);
                        },
                        _ => {},
                    }
                },
                _ => {},
            }
        },
        _ => {},
    }
}

proof fn lemma_same_command_run(
    a: TrackerView,
    b: TrackerView,
    signals: Seq<TermEventView>,
    now: u64,
)
    requires
        same_command(a, b),
    ensures
        same_command(a.run(signals, now).0, b.run(signals, now).0),
        lifecycle(a.run(signals, now).1) == lifecycle(b.run(signals, now).1),
    decreases signals.len(),
{
    if signals.len() > 0 {
        lemma_same_command_run(a, b, signals.drop_last(), now);
        let (a1, ea) = a.run(signals.drop_last(), now);
        let (b1, eb) = b.run(signals.drop_last(), now);
        lemma_same_command_step(a1, b1, signals.last(), now);
        lemma_lifecycle_concat(ea, a1.step(signals.last(), now).1);
        lemma_lifecycle_concat(eb, b1.step(signals.last(), now).1);
    }
}

proof fn lemma_same_command_flushed(a: TrackerView, b: TrackerView)
    requires
        same_command(a, b),
    ensures
        a.flushed().0 == b.flushed().0,
{
    match (a.record, b.record) {
        (Some(ra), Some(rb)) => {
            let (fa, fb) = (a.flushed().0.record->0, b.flushed().0.record->0);
            assert(fa.output =~= fb.output);
        },
        _ => {},
    }
}

proof fn lemma_markers_concat(a: Seq<TrackerEventView>, b: Seq<TrackerEventView>)
    ensures
        markers(a + b) == markers(a) + markers(b),
    decreases b.len(),
{
    if b.len() > 0 {
        lemma_markers_concat(a, b.drop_last());
        assert((a + b).drop_last() =~= a + b.drop_last());
        assert(markers(a + b) =~= markers(a) + markers(b));
    } else {
        assert(a + b =~= a);
        assert(markers(a) + markers(b) =~= markers(a));
    }
}

proof fn lemma_markers_of_flush(t: TrackerView)
    ensures
        markers(t.flushed().1) == Seq::<TrackerEventView>::empty(),
{
    reveal_with_fuel(markers, 2);
}

/// Two runs over the same terminal events, from states that hold the same
/// command, come to states that hold the same command and tell of the same
/// markers, whatever the clocks and whatever is pending.
proof fn lemma_markers_run(
    x: TrackerView,
    y: TrackerView,
    signals: Seq<TermEventView>,
    nx: u64,
    ny: u64,
)
    requires
        same_text(x, y),
    ensures
        same_text(x.run(signals, nx).0, y.run(signals, ny).0),
        markers(x.run(signals, nx).1) == markers(y.run(signals, ny).1),
    decreases signals.len(),
{
    if signals.len() > 0 {
        let before = signals.drop_last();
        lemma_markers_run(x, y, before, nx, ny);
        let (x1, ex1) = x.run(before, nx);
        let (y1, ey1) = y.run(before, ny);
        let (x2, ex2) = x1.step(signals.last(), nx);
        let (y2, ey2) = y1.step(signals.last(), ny);
        lemma_markers_concat(ex1, ex2);
        lemma_markers_concat(ey1, ey2);
        assert(same_text(x2, y2) && markers(ex2) == markers(ey2)) by {
            reveal_with_fuel(markers, 3);
            match signals.last() {
                TermEventView::Osc { params, .. } => {
                    match marker_of(x1.channel, params) {
                        Some(MarkerView::End { exit_code }) => {
                            if x1.capturing() {
                                lemma_markers_of_flush(x1);
                                lemma_markers_of_flush(y1);
                                assert(ex2.drop_last() =~= x1.flushed().1);
                                assert(ey2.drop_last() =~= y1.flushed().1);
                            }
                        },
                        _ => {},
                    }
                },
                _ => {},
            }
        }
    }
}

proof fn lemma_extended_concat(
    log: Seq<LogItem>,
    a: Seq<TrackerEventView>,
    b: Seq<TrackerEventView>,
)
    ensures
        extended(log, a + b) == extended(extended(log, a), b),
    decreases b.len(),
{
    if b.len() > 0 {
        lemma_extended_concat(log, a, b.drop_last());
        assert((a + b).drop_last() =~= a + b.drop_last());
    } else {
        assert(a + b =~= a);
    }
}

proof fn lemma_with_pending_more(log: Seq<LogItem>, p: Seq<u8>, q: Seq<u8>)
    ensures
        with_pending(with_pending(log, p), q) == with_pending(log, p + q),
{
    if p.len() == 0 {
        assert(p + q =~= q);
    } else if q.len() == 0 {
        assert(p + q =~= p);
    } else {
        let first = logged(log, TrackerEventView::Output { data: p });
        if log.len() > 0 && log.last() is Output {
            assert(first.drop_last() =~= log.drop_last());
            assert((log.last()->data + p) + q =~= log.last()->data + (p + q));
        } else {
            assert(first.drop_last() =~= log);
        }
    }
}

proof fn lemma_extended_by_flush(log: Seq<LogItem>, t: TrackerView)
    ensures
        extended(log, t.flushed().1) == with_pending(log, pending(t)),
        pending(t.flushed().0) == Seq::<u8>::empty(),
        same_text(t.flushed().0, t),
{
    reveal_with_fuel(extended, 2);
    let events = t.flushed().1;
    if events.len() > 0 {
        assert(events.drop_last() =~= Seq::<TrackerEventView>::empty());
    }
    assert(pending(t.flushed().0) =~= Seq::<u8>::empty());
}

/// One step of two runs that are in sync, or of which the second is behind
/// and the step no `START`, leaves them in sync or the second behind, and in
/// sync if they were or if the step is an `END`.
proof fn lemma_log_step(
    x: TrackerView,
    y: TrackerView,
    lx: Seq<LogItem>,
    ly: Seq<LogItem>,
    signal: TermEventView,
    nx: u64,
    ny: u64,
)
    requires
        same_text(x, y),
        in_sync(x, y, lx, ly) || (behind(x, y, lx, ly) && !carries_start(x.channel, signal)),
    ensures
        ({
            let (x2, ex) = x.step(signal, nx);
            let (y2, ey) = y.step(signal, ny);
            let (lx2, ly2) = (extended(lx, ex), extended(ly, ey));
            &&& same_text(x2, y2)
            &&& x2.channel == x.channel
            &&& in_sync(x, y, lx, ly) || carries_end(x.channel, signal) ==> in_sync(
                x2,
                y2,
                lx2,
                ly2,
            )
            &&& in_sync(x2, y2, lx2, ly2) || behind(x2, y2, lx2, ly2)
        }),
{
    let (x2, ex) = x.step(signal, nx);
    let (y2, ey) = y.step(signal, ny);
    reveal_with_fuel(extended, 3);
    match signal {
        TermEventView::Print(c) => {
            let more = without_cr(encode_utf8(seq![c]));
            lemma_with_pending_more(lx, pending(x), more);
            lemma_with_pending_more(ly, pending(y), more);
        },
        TermEventView::Execute(byte) => {
            let more = without_cr(seq![byte]);
            lemma_with_pending_more(lx, pending(x), more);
            lemma_with_pending_more(ly, pending(y), more);
        },
        TermEventView::Osc { params, .. } => {
            match marker_of(x.channel, params) {
                Some(MarkerView::End { exit_code }) => {
                    if x.capturing() {
                        lemma_extended_by_flush(lx, x);
                        lemma_extended_by_flush(ly, y);
                        let ended_x = TrackerEventView::Ended {
                            exit_code,
                            duration: elapsed(x.record->0.start_time, nx),
                        };
                        let ended_y = TrackerEventView::Ended {
                            exit_code,
                            duration: elapsed(y.record->0.start_time, ny),
                        };
                        assert(ex =~= x.flushed().1 + seq![ended_x]);
                        assert(ey =~= y.flushed().1 + seq![ended_y]);
                        lemma_extended_concat(lx, x.flushed().1, seq![ended_x]);
                        lemma_extended_concat(ly, y.flushed().1, seq![ended_y]);
                        assert(pending(x2) =~= pending(y2));
                    }
                },
                Some(MarkerView::Start { command }) => {
                    assert(pending(x2) =~= pending(y2));
                },
                _ => {},
            }
        },
    }
}

/// The same over a run: two runs that are in sync, or of which the second is
/// behind while the first boundary to come is no `START`, end in sync or with
/// the second behind.
proof fn lemma_log_run(
    x: TrackerView,
    y: TrackerView,
    lx: Seq<LogItem>,
    ly: Seq<LogItem>,
    signals: Seq<TermEventView>,
    nx: u64,
    ny: u64,
)
    requires
        same_text(x, y),
        in_sync(x, y, lx, ly) || (behind(x, y, lx, ly) && !first_boundary_is_start(
            x.channel,
            signals,
        )),
    ensures
        ({
            let (x2, ex) = x.run(signals, nx);
            let (y2, ey) = y.run(signals, ny);
            let (lx2, ly2) = (extended(lx, ex), extended(ly, ey));
            &&& same_text(x2, y2)
            &&& x2.channel == x.channel
            &&& in_sync(x, y, lx, ly) || has_boundary(x.channel, signals) ==> in_sync(
                x2,
                y2,
                lx2,
                ly2,
            )
            &&& in_sync(x2, y2, lx2, ly2) || behind(x2, y2, lx2, ly2)
        }),
    decreases signals.len(),
{
    if signals.len() > 0 {
        let before = signals.drop_last();
        lemma_log_run(x, y, lx, ly, before, nx, ny);
        let (x1, ex1) = x.run(before, nx);
        let (y1, ey1) = y.run(before, ny);
        let (lx1, ly1) = (extended(lx, ex1), extended(ly, ey1));
        lemma_log_step(x1, y1, lx1, ly1, signals.last(), nx, ny);
        lemma_extended_concat(lx, ex1, x1.step(signals.last(), nx).1);
        lemma_extended_concat(ly, ey1, y1.step(signals.last(), ny).1);
    }
}

/// Running over two lists of terminal events one after the other is running
/// over their concatenation.
pub proof fn lemma_run_concat(
    t: TrackerView,
    x: Seq<TermEventView>,
    y: Seq<TermEventView>,
    now: u64,
)
    ensures
        t.run(x + y, now).0 == t.run(x, now).0.run(y, now).0,
        t.run(x + y, now).1 == t.run(x, now).1 + t.run(x, now).0.run(y, now).1,
    decreases y.len(),
{
    if y.len() > 0 {
        lemma_run_concat(t, x, y.drop_last(), now);
        assert((x + y).drop_last() =~= x + y.drop_last());
    }
}

/// Fragmentation, at the interpreter: the terminal events that a stream
/// completes do not depend on where the stream is cut. Whatever the parser
/// has consumed before, consuming `a` and then `b` completes the events that
/// consuming `a + b` completes.
pub proof fn law_trace_splits(history: Seq<u8>, a: Seq<u8>, b: Seq<u8>)
    ensures
        trace(history, a + b) == trace(history, a) + trace(history + a, b),
    decreases b.len(),
{
    if b.len() > 0 {
        law_trace_splits(history, a, b.drop_last());
        assert((a + b).drop_last() =~= a + b.drop_last());
        assert(history + (a + b.drop_last()) =~= (history + a) + b.drop_last());
    }
}

/// Fragmentation, at the relay: a stream that arrives in two reads, cut at
/// any byte, leaves the relay in the state in which the same stream leaves it
/// in one read, and every marker in it is recognised once, as the same marker:
/// the lifecycle events reported are the same. (The clock reading is taken
/// to be the same for the reads.)
pub proof fn law_split_read(relay: RelayView, a: Seq<u8>, b: Seq<u8>, now: u64)
    ensures
        relay.after_read(a, now).after_read(b, now) == relay.after_read(a + b, now),
        lifecycle(relay.reported(a, now) + relay.after_read(a, now).reported(b, now))
            == lifecycle(relay.reported(a + b, now)),
{
    let t = relay.tracker;
    let sa = trace(relay.history, a);
    let sb = trace(relay.history + a, b);
    law_trace_splits(relay.history, a, b);
    lemma_run_concat(t, sa, sb, now);
    let (t1, e1) = t.run(sa, now);
    let (t1f, f1) = t1.flushed();
    // The second read starts from the flushed state; the single read runs on
    // from the unflushed one.
    lemma_same_command_run(t1f, t1, sb, now);
    lemma_same_command_flushed(t1f.run(sb, now).0, t1.run(sb, now).0);
    assert(relay.history + a + b =~= relay.history + (a + b));
    let (t2, e2) = t1f.run(sb, now);
    let f2 = t2.flushed().1;
    let joined = t1.run(sb, now);
    let fj = joined.0.flushed().1;
    lemma_lifecycle_of_flush(t1);
    lemma_lifecycle_of_flush(t2);
    lemma_lifecycle_of_flush(joined.0);
    lemma_lifecycle_concat(e1, f1);
    lemma_lifecycle_concat(e2, f2);
    lemma_lifecycle_concat(e1 + f1, e2 + f2);
    lemma_lifecycle_concat(e1, joined.1);
    lemma_lifecycle_concat(e1 + joined.1, fj);
}

/// Fragmentation, at the relay and at any clock readings: two reads of a
/// stream, cut at any byte, and one read of it leave the relay with the same
/// history, the same command in flight or none, and nothing pending; and they
/// tell of the same markers, each recognised once. Only the clock readings
/// kept and reported may differ.
pub proof fn law_split_read_at_any_clock(
    relay: RelayView,
    a: Seq<u8>,
    b: Seq<u8>,
    first: u64,
    second: u64,
    once: u64,
)
    ensures
        ({
            let twice = relay.after_read(a, first).after_read(b, second);
            let whole = relay.after_read(a + b, once);
            &&& twice.history == whole.history
            &&& same_text(twice.tracker, whole.tracker)
            &&& pending(twice.tracker) == Seq::<u8>::empty()
            &&& pending(whole.tracker) == Seq::<u8>::empty()
        }),
        markers(relay.reported(a, first) + relay.after_read(a, first).reported(b, second))
            == markers(relay.reported(a + b, once)),
{
    let t = relay.tracker;
    let sa = trace(relay.history, a);
    let sb = trace(relay.history + a, b);
    law_trace_splits(relay.history, a, b);
    lemma_run_concat(t, sa, sb, once);
    assert(relay.history + a + b =~= relay.history + (a + b));
    lemma_markers_run(t, t, sa, first, once);
    let (y1, ey1) = t.run(sa, first);
    let (x1, ex1) = t.run(sa, once);
    let (y1f, f1) = y1.flushed();
    lemma_extended_by_flush(Seq::empty(), y1);
    lemma_markers_run(y1f, x1, sb, second, once);
    let (y2, ey2) = y1f.run(sb, second);
    let (x2, ex2) = x1.run(sb, once);
    lemma_extended_by_flush(Seq::empty(), y2);
    lemma_extended_by_flush(Seq::empty(), x2);
    lemma_markers_of_flush(y1);
    lemma_markers_of_flush(y2);
    lemma_markers_of_flush(x2);
    lemma_markers_concat(ey1, f1);
    lemma_markers_concat(ey2, y2.flushed().1);
    lemma_markers_concat(ey1 + f1, ey2 + y2.flushed().1);
    lemma_markers_concat(ex1, ex2);
    lemma_markers_concat(ex1 + ex2, x2.flushed().1);
    assert(markers(ey1) + Seq::<TrackerEventView>::empty() + (markers(ey2) + Seq::<
        TrackerEventView,
    >::empty()) =~= markers(ex1) + markers(ex2) + Seq::<TrackerEventView>::empty());
}

/// Fragmentation and the log: a stream that arrives in two reads, cut at any
/// byte and read at any clock readings, makes the log that the same stream
/// makes in one read: for each command the same output, joined, and the same
/// exit code.
///
/// One case is left out, in which the two cannot agree: the first read ends
/// with output pending, which its flush reports, and the first marker of the
/// second read is a `START`, before which one read would have dropped that
/// output unreported.
pub proof fn law_split_read_makes_the_same_log(
    relay: RelayView,
    a: Seq<u8>,
    b: Seq<u8>,
    first: u64,
    second: u64,
    once: u64,
)
    requires
        !(pending(relay.tracker.run(trace(relay.history, a), first).0).len() > 0
            && first_boundary_is_start(relay.tracker.channel, trace(relay.history + a, b))),
    ensures
        log_of(relay.reported(a, first) + relay.after_read(a, first).reported(b, second))
            == log_of(relay.reported(a + b, once)),
{
    let t = relay.tracker;
    let none = Seq::<LogItem>::empty();
    let sa = trace(relay.history, a);
    let sb = trace(relay.history + a, b);
    law_trace_splits(relay.history, a, b);
    lemma_run_concat(t, sa, sb, once);
    // Up to the cut the two runs differ in their clocks only.
    lemma_log_run(t, t, none, none, sa, once, first);
    let (x1, ex1) = t.run(sa, once);
    let (y1, ey1) = t.run(sa, first);
    let (y1f, f1) = y1.flushed();
    lemma_extended_by_flush(extended(none, ey1), y1);
    lemma_extended_concat(none, ey1, f1);
    let lx1 = extended(none, ex1);
    let ly1 = extended(none, ey1 + f1);
    assert(with_pending(ly1, pending(y1f)) == ly1);
    // After it the second run has reported what the first holds pending.
    lemma_log_run(x1, y1f, lx1, ly1, sb, once, second);
    let (x2, ex2) = x1.run(sb, once);
    let (y2, ey2) = y1f.run(sb, second);
    lemma_extended_by_flush(extended(lx1, ex2), x2);
    lemma_extended_by_flush(extended(ly1, ey2), y2);
    lemma_extended_concat(none, ex1, ex2);
    lemma_extended_concat(none, ex1 + ex2, x2.flushed().1);
    lemma_extended_concat(none, ey1 + f1, ey2 + y2.flushed().1);
    lemma_extended_concat(ly1, ey2, y2.flushed().1);
    assert(relay.history + a + b =~= relay.history + (a + b));
}

/// A `START` marker followed at once by an `END` marker gives exactly one
/// `End` log event, with the exit code of the `END` marker, and no `Output`
/// event, whatever the tracker's state was; the tracker is idle afterwards.
pub proof fn law_start_then_end(
    t: TrackerView,
    start: Seq<Seq<u8>>,
    end: Seq<Seq<u8>>,
    now: u64,
    later: u64,
)
    requires
        marker_of(t.channel, start) matches Some(MarkerView::Start { .. }),
        marker_of(t.channel, end) matches Some(MarkerView::End { .. }),
    ensures
        ({
            let (started, first) = t.on_osc(start, now);
            let (ended, second) = started.on_osc(end, later);
            &&& log_events(first + second) == seq![
                LogEventView::End { exit_code: marker_of(t.channel, end)->0->exit_code },
            ]
            &&& !ended.capturing()
        }),
{
    reveal_with_fuel(log_events, 3);
}

/// The same at the relay: a read that completes a `START` sequence and an
/// `END` sequence and nothing else gives exactly one `End` log event and no
/// `Output` event, and leaves the tracker idle.
pub proof fn law_start_then_end_in_one_read(
    relay: RelayView,
    chunk: Seq<u8>,
    start: TermEventView,
    end: TermEventView,
    now: u64,
)
    requires
        trace(relay.history, chunk) == seq![start, end],
        start matches TermEventView::Osc { params, .. } && marker_of(
            relay.tracker.channel,
            params,
        ) matches Some(MarkerView::Start { .. }),
        end matches TermEventView::Osc { params, .. } && marker_of(relay.tracker.channel, params)
            matches Some(MarkerView::End { .. }),
    ensures
        log_events(relay.reported(chunk, now)) == seq![
            LogEventView::End {
                exit_code: marker_of(relay.tracker.channel, end->params)->0->exit_code,
            },
        ],
        !relay.after_read(chunk, now).tracker.capturing(),
{
    reveal_with_fuel(TrackerView::run, 3);
    law_start_then_end(relay.tracker, start->params, end->params, now, now);
}

/// An `END` marker that no `START` preceded reports nothing and leaves the
/// tracker as it was.
pub proof fn law_stray_end(t: TrackerView, params: Seq<Seq<u8>>, now: u64)
    requires
        !t.capturing(),
        marker_of(t.channel, params) matches Some(MarkerView::End { .. }),
    ensures
        t.on_osc(params, now) == (t, Seq::<TrackerEventView>::empty()),
{
}

/// The same at the relay: a read that completes a stray `END` sequence and
/// nothing else reports nothing and leaves the tracker as it was, so that what
/// follows is tracked as if the `END` had not been there.
pub proof fn law_stray_end_in_one_read(
    relay: RelayView,
    chunk: Seq<u8>,
    end: TermEventView,
    now: u64,
)
    requires
        !relay.tracker.capturing(),
        trace(relay.history, chunk) == seq![end],
        end matches TermEventView::Osc { params, .. } && marker_of(relay.tracker.channel, params)
            matches Some(MarkerView::End { .. }),
    ensures
        relay.reported(chunk, now) == Seq::<TrackerEventView>::empty(),
        relay.after_read(chunk, now).tracker == relay.tracker,
{
    reveal_with_fuel(TrackerView::run, 2);
}

/// A flush right after a flush reports nothing and changes nothing, and no
/// flush ever reports more than one `Output` event or an empty one.
pub proof fn law_flush_is_idempotent(t: TrackerView)
    ensures
        t.flushed().0.flushed() == (t.flushed().0, Seq::<TrackerEventView>::empty()),
        t.flushed().1.len() <= 1,
        forall|i: int|
            0 <= i < t.flushed().1.len() ==> (#[trigger] t.flushed().1[i]
                matches TrackerEventView::Output { data } && data.len() > 0),
{
}

/// A `START` marker while a command is in flight replaces that command
/// silently: capture begins anew with nothing captured, and nothing is
/// reported for the command that was replaced, neither output nor an end.
pub proof fn law_second_start_replaces(t: TrackerView, params: Seq<Seq<u8>>, now: u64)
    requires
        t.capturing(),
        marker_of(t.channel, params) matches Some(MarkerView::Start { .. }),
    ensures
        ({
            let (after, events) = t.on_osc(params, now);
            let command = marker_of(t.channel, params)->0->command;
            &&& after.record == Some(
                CommandRecordView { command, start_time: now, output: Seq::empty() },
            )
            &&& events == seq![TrackerEventView::Started { command, at: now }]
            &&& log_events(events) == Seq::<LogEventView>::empty()
        }),
{
    reveal_with_fuel(log_events, 2);
}

/// When a command ends, whatever is still captured is reported before the end
/// is: the events of an `END` are the events of a flush, then one `Ended`.
pub proof fn law_end_flushes_first(t: TrackerView, params: Seq<Seq<u8>>, now: u64)
    requires
        t.capturing(),
        marker_of(t.channel, params) matches Some(MarkerView::End { .. }),
    ensures
        ({
            let (after, events) = t.on_osc(params, now);
            &&& !after.capturing()
            &&& events.len() == t.flushed().1.len() + 1
            &&& events.drop_last() == t.flushed().1
            &&& events.last() == (TrackerEventView::Ended {
                exit_code: marker_of(t.channel, params)->0->exit_code,
                duration: elapsed(t.record->0.start_time, now),
            })
        }),
{
}

/// No carriage return enters the captured output, by whatever way: the
/// output grows by the bytes offered, in their order, without the carriage
/// returns among them, and command and start time stay as they are.
pub proof fn law_no_carriage_return_is_captured(t: TrackerView, data: Seq<u8>)
    requires
        t.capturing(),
    ensures
        t.captured(data).record == Some(
            CommandRecordView { output: t.record->0.output + without_cr(data), ..t.record->0 },
        ),
        forall|i: int| 0 <= i < without_cr(data).len() ==> #[trigger] without_cr(data)[i] != 0x0d,
        t.executed(0x0d) == t,
        t.printed('\r') == t,
    decreases data.len(),
{
    if data.len() > 0 {
        law_no_carriage_return_is_captured(t, data.drop_last());
    }
    reveal_with_fuel(without_cr, 2);
    assert(seq![0x0du8].drop_last() =~= Seq::<u8>::empty());
    assert(t.record->0.output + without_cr(seq![0x0du8]) =~= t.record->0.output);
    assert(encode_utf8(seq!['\r']) =~= seq![0x0du8]) by {
        lemma_encoding_of_carriage_return();
    }
}

proof fn lemma_encoding_of_carriage_return()
    ensures
        encode_utf8(seq!['\r']) =~= seq![0x0du8],
{
    let cs = seq!['\r'];
    reveal_with_fuel(encode_utf8, 2);
    assert(cs.drop_first() =~= Seq::<char>::empty());
    assert(('\r' as u32) == 0x0d);
    assert(0x0du32 & 0x7f == 0x0d) by (bit_vector);
}

/// Bytes without a carriage return among them are captured as they are, and
/// capture goes piece by piece: offering `a + b` is offering `a` and then `b`.
pub proof fn law_capture_keeps_the_rest(a: Seq<u8>, b: Seq<u8>)
    ensures
        without_cr(a + b) == without_cr(a) + without_cr(b),
        (forall|i: int| 0 <= i < b.len() ==> b[i] != 0x0d) ==> without_cr(b) == b,
    decreases b.len(),
{
    if b.len() > 0 {
        law_capture_keeps_the_rest(a, b.drop_last());
        assert((a + b).drop_last() =~= a + b.drop_last());
        if forall|i: int| 0 <= i < b.len() ==> b[i] != 0x0d {
            assert(forall|i: int| 0 <= i < b.drop_last().len() ==> b.drop_last()[i] == b[i]);
            assert(without_cr(b) =~= b);
        }
        assert(without_cr(a + b) =~= without_cr(a) + without_cr(b));
    } else {
        assert(a + b =~= a);
        assert(without_cr(a) + without_cr(b) =~= without_cr(a));
        assert(without_cr(b) =~= b);
    }
}

/// Captured output that is valid UTF-8 is rendered as the text it encodes:
/// the lossy conversion changes nothing in it.
pub proof fn law_text_survives_rendering(chars: Seq<char>)
    ensures
        lossy_text(encode_utf8(chars)) == chars,
        (TrackerEventView::Output { data: encode_utf8(chars) }).log_event() == Some(
            LogEventView::Output { data: chars },
        ),
{
    vstd::utf8::encode_utf8_valid_utf8(chars);
    vstd::utf8::encode_utf8_decode_utf8(chars);
}

/// The capture state changes on `START` and `END` markers and on nothing
/// else: printing, control bytes, `PWD` and sequences that carry no marker
/// leave it as it is.
pub proof fn law_state_changes_on_markers_only(t: TrackerView, signal: TermEventView, now: u64)
    ensures
        t.step(signal, now).0.capturing() != t.capturing() ==> (signal matches TermEventView::Osc {
            params,
            ..
        } && (marker_of(t.channel, params) matches Some(MarkerView::Start { .. }) || marker_of(
            t.channel,
            params,
        ) matches Some(MarkerView::End { .. }))),
        t.step(signal, now).0.channel == t.channel,
{
}

/// Between reads the tracker keeps no captured output: what a chunk captured
/// has been reported by the time the chunk is done.
pub proof fn law_nothing_pending_between_reads(
    t: TrackerView,
    signals: Seq<TermEventView>,
    now: u64,
)
    ensures
        t.chunk(signals, now).0.record matches Some(r) ==> r.output.len() == 0,
{
}

} // verus!
