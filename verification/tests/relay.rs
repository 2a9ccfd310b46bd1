use pty_bash_hook::events::TrackerEvent::{Ended, Output, Started, WorkingDir};
use pty_bash_hook::events::{to_log_events, LogEvent, TrackerEvent};
use pty_bash_hook::relay::Relay;

fn channel() -> Vec<u8> {
    b"6973".to_vec()
}

fn started(command: &str, at: u64) -> TrackerEvent {
    Started { command: command.to_string(), at }
}

fn output(data: &str) -> TrackerEvent {
    Output { data: data.as_bytes().to_vec() }
}

fn ended(exit_code: i32, duration: u64) -> TrackerEvent {
    Ended { exit_code, duration }
}

fn log_output(data: &str) -> LogEvent {
    LogEvent::Output { data: data.to_string() }
}

fn log_end(exit_code: i32) -> LogEvent {
    LogEvent::End { exit_code }
}

#[test]
fn end_to_end_ls() {
    let mut relay = Relay::new(channel());
    let mut events = Vec::new();
    let a = relay.on_read(b"\x1b]6973;START;ls\x07", 1000);
    assert_eq!(a.raw, b"\x1b]6973;START;ls\x07".to_vec());
    assert_eq!(relay.tracker().record().unwrap().command(), "ls");
    events.extend(a.events);
    let b = relay.on_read(b"file1\nfile2\n", 1001);
    events.extend(b.events);
    let c = relay.on_read(b"\x1b]6973;END;0\x07", 1005);
    events.extend(c.events);
    assert_eq!(events, vec![started("ls", 1000), output("file1\nfile2\n"), ended(0, 5)]);
    assert_eq!(to_log_events(&events), vec![log_output("file1\nfile2\n"), log_end(0)]);
    assert!(!relay.tracker().is_capturing());
}

fn lifecycle(events: &[TrackerEvent]) -> Vec<TrackerEvent> {
    events.iter().filter(|e| !matches!(e, Output { .. })).cloned().collect()
}

fn output_text(events: &[TrackerEvent]) -> String {
    to_log_events(events)
        .into_iter()
        .filter_map(|e| match e {
            LogEvent::Output { data } => Some(data),
            _ => None,
        })
        .collect()
}

#[test]
fn a_new_relay_is_idle() {
    let relay = Relay::new(channel());
    assert!(!relay.tracker().is_capturing());
}

#[test]
fn raw_bytes_are_the_chunk_unchanged() {
    let mut relay = Relay::new(channel());
    let chunks: Vec<Vec<u8>> = vec![
        b"plain text\r\n".to_vec(),
        b"\x1b[1;31mred\x1b[0m".to_vec(),
        b"\x1b]6973;START;ls\x07".to_vec(),
        vec![0x00, 0xff, 0xfe, 0x80, 0x1b, 0x07],
        b"\x1b]6973;EN".to_vec(),
        b"D;0\x07".to_vec(),
        Vec::new(),
        (0..=255u8).collect(),
    ];
    let mut sent: Vec<u8> = Vec::new();
    let mut received: Vec<u8> = Vec::new();
    for (i, chunk) in chunks.iter().enumerate() {
        let delivery = relay.on_read(chunk, i as u64);
        assert_eq!(&delivery.raw, chunk);
        sent.extend_from_slice(chunk);
        received.extend_from_slice(&delivery.raw);
    }
    assert_eq!(sent, received);
}

#[test]
fn start_then_end_in_one_chunk() {
    let mut relay = Relay::new(channel());
    let delivery = relay.on_read(b"\x1b]6973;START\x07\x1b]6973;END;137\x07", 7);
    assert_eq!(to_log_events(&delivery.events), vec![log_end(137)]);
    assert_eq!(delivery.events, vec![started("", 7), ended(137, 0)]);
}

#[test]
fn a_bare_end_reports_nothing_and_parsing_goes_on() {
    let mut relay = Relay::new(channel());
    let stray = relay.on_read(b"\x1b]6973;END;1\x07", 0);
    assert!(stray.events.is_empty());
    assert!(!relay.tracker().is_capturing());
    let after = relay.on_read(b"\x1b]6973;START;ls\x07out\x1b]6973;END;0\x07", 1);
    assert_eq!(after.events, vec![started("ls", 1), output("out"), ended(0, 0)]);
}

#[test]
fn exit_codes_from_the_stream() {
    let cases: Vec<(&[u8], i32)> = vec![
        (b"\x1b]6973;END;0\x07", 0),
        (b"\x1b]6973;END;137\x07", 137),
        (b"\x1b]6973;END\x07", 0),
        (b"\x1b]6973;END;abc\x07", 0),
        (b"\x1b]6973;END;\x07", 0),
        (b"\x1b]6973;END;255\x1b\\", 255),
    ];
    for (end, code) in cases {
        let mut relay = Relay::new(channel());
        relay.on_read(b"\x1b]6973;START;x\x07", 0);
        let delivery = relay.on_read(end, 0);
        assert_eq!(to_log_events(&delivery.events), vec![log_end(code)]);
    }
}

#[test]
fn a_marker_split_at_any_byte_is_one_marker() {
    let stream: &[u8] = b"$ \x1b]6973;START;ls\x07file1\r\nfile2\r\n\x1b]6973;END;0\x07$ ";
    let mut whole = Relay::new(channel());
    let expected = whole.on_read(stream, 3).events;
    assert_eq!(lifecycle(&expected), vec![started("ls", 3), ended(0, 0)]);
    for cut in 0..=stream.len() {
        let mut relay = Relay::new(channel());
        let mut events = relay.on_read(&stream[..cut], 3).events;
        events.extend(relay.on_read(&stream[cut..], 3).events);
        assert_eq!(lifecycle(&events), lifecycle(&expected), "cut at {}", cut);
        assert_eq!(output_text(&events), "file1\nfile2\n", "cut at {}", cut);
        assert!(!relay.tracker().is_capturing());
    }
}

#[test]
fn a_stream_fed_byte_by_byte() {
    let stream: &[u8] = b"\x1b]6973;START;ls\x07ab\x1b]6973;END;2\x1b\\";
    let mut relay = Relay::new(channel());
    let mut events = Vec::new();
    for byte in stream {
        events.extend(relay.on_read(&[*byte], 0).events);
    }
    assert_eq!(events, vec![started("ls", 0), output("a"), output("b"), ended(2, 0)]);
}

#[test]
fn output_is_flushed_once_per_chunk() {
    let mut relay = Relay::new(channel());
    relay.on_read(b"\x1b]6973;START;cat\x07", 0);
    let first = relay.on_read(b"one\n", 1);
    assert_eq!(first.events, vec![output("one\n")]);
    let nothing = relay.on_read(b"", 2);
    assert!(nothing.events.is_empty());
    let second = relay.on_read(b"two\n", 3);
    assert_eq!(second.events, vec![output("two\n")]);
    assert_eq!(relay.tracker().record().unwrap().output().as_slice(), "".as_bytes());
}

#[test]
fn escape_sequences_are_left_out_of_the_captured_text() {
    let mut relay = Relay::new(channel());
    let delivery = relay.on_read(
        b"\x1b]6973;START;ls\x07\x1b[1;34mdir\x1b[0m\r\n\x1b]0;title\x07file\r\n\x1b]6973;END;0\x07",
        0,
    );
    assert_eq!(output_text(&delivery.events), "dir\nfile\n");
}

#[test]
fn text_outside_a_command_is_not_captured() {
    let mut relay = Relay::new(channel());
    let delivery = relay.on_read(b"prompt$ \x1b]6973;START;ls\x07x\x1b]6973;END;0\x07prompt$ ", 0);
    assert_eq!(output_text(&delivery.events), "x");
}

#[test]
fn multibyte_output_survives_a_split() {
    let stream = "\u{1b}]6973;START;echo\u{7}h\u{e9}llo \u{20ac}\n\u{1b}]6973;END;0\u{7}".as_bytes();
    for cut in 0..=stream.len() {
        let mut relay = Relay::new(channel());
        let mut events = relay.on_read(&stream[..cut], 0).events;
        events.extend(relay.on_read(&stream[cut..], 0).events);
        assert_eq!(output_text(&events), "h\u{e9}llo \u{20ac}\n", "cut at {}", cut);
    }
}

#[test]
fn a_broken_character_in_the_stream_is_printed_as_one_replacement_character() {
    let mut relay = Relay::new(channel());
    let delivery = relay.on_read(b"\x1b]6973;START;x\x07a\xc3\x28b\x1b]6973;END;0\x07", 0);
    assert_eq!(delivery.raw, b"\x1b]6973;START;x\x07a\xc3\x28b\x1b]6973;END;0\x07".to_vec());
    assert_eq!(
        to_log_events(&delivery.events),
        vec![log_output("a\u{fffd}b"), log_end(0)]
    );
}

#[test]
fn a_byte_that_starts_no_character_is_passed_over_by_the_parser() {
    let mut relay = Relay::new(channel());
    let delivery = relay.on_read(b"\x1b]6973;START;x\x07f\xffo\x1b]6973;END;0\x07", 0);
    assert_eq!(delivery.raw, b"\x1b]6973;START;x\x07f\xffo\x1b]6973;END;0\x07".to_vec());
    assert_eq!(to_log_events(&delivery.events), vec![log_output("fo"), log_end(0)]);
}

#[test]
fn a_control_byte_above_ascii_in_the_stream_becomes_a_replacement_character() {
    let mut relay = Relay::new(channel());
    let delivery = relay.on_read(b"\x1b]6973;START;x\x07a\x85b\x1b]6973;END;0\x07", 0);
    assert_eq!(delivery.events, vec![
        started("x", 0),
        Output { data: vec![b'a', 0x85, b'b'] },
        ended(0, 0),
    ]);
    assert_eq!(
        to_log_events(&delivery.events),
        vec![log_output("a\u{fffd}b"), log_end(0)]
    );
}

#[test]
fn pwd_travels_beside_the_log_events() {
    let mut relay = Relay::new(channel());
    let delivery = relay.on_read(b"\x1b]6973;PWD;/home/me\x07", 0);
    assert_eq!(delivery.events, vec![WorkingDir { path: "/home/me".to_string() }]);
    assert!(to_log_events(&delivery.events).is_empty());
}

#[test]
fn the_duration_is_the_clocks_advance() {
    let mut relay = Relay::new(channel());
    relay.on_read(b"\x1b]6973;START;sleep 1\x07", 1_000);
    let delivery = relay.on_read(b"\x1b]6973;END;0\x07", 2_005);
    assert_eq!(delivery.events, vec![ended(0, 1005)]);
}

#[test]
fn two_commands_in_a_row() {
    let mut relay = Relay::new(channel());
    let delivery = relay.on_read(
        b"\x1b]6973;START;a\x07A\x1b]6973;END;1\x07\x1b]6973;START;b\x07B\x1b]6973;END;2\x07",
        0,
    );
    assert_eq!(
        to_log_events(&delivery.events),
        vec![log_output("A"), log_end(1), log_output("B"), log_end(2)]
    );
}

#[test]
fn relays_are_independent() {
    let mut one = Relay::new(channel());
    let mut two = Relay::new(b"666".to_vec());
    one.on_read(b"\x1b]6973;START;ls\x07", 0);
    two.on_read(b"\x1b]6973;START;ls\x07", 0);
    assert!(one.tracker().is_capturing());
    assert!(!two.tracker().is_capturing());
    two.on_read(b"\x1b]666;START;ls\x07", 0);
    assert!(two.tracker().is_capturing());
}

#[test]
fn a_restart_drops_only_what_is_pending() {
    let stream: &[u8] = b"\x1b]6973;START;a\x07text\x1b]6973;START;b\x07\x1b]6973;END;0\x07";
    let mut whole = Relay::new(channel());
    let joined = whole.on_read(stream, 0).events;
    assert_eq!(joined, vec![started("a", 0), started("b", 0), ended(0, 0)]);

    let cut = stream.iter().position(|b| *b == b'x').unwrap() + 2;
    let mut relay = Relay::new(channel());
    let mut events = relay.on_read(&stream[..cut], 0).events;
    events.extend(relay.on_read(&stream[cut..], 0).events);
    assert_eq!(events, vec![started("a", 0), output("text"), started("b", 0), ended(0, 0)]);
    assert_eq!(lifecycle(&events), lifecycle(&joined));
}

/// A fixed pseudo-random stream that is rich in escape bytes and markers.
fn noisy_stream(len: usize) -> Vec<u8> {
    let pieces: [&[u8]; 12] = [
        b"\x1b]6973;START;make\x07",
        b"\x1b]6973;END;2\x1b\\",
        b"\x1b]6973;END\x07",
        b"\x1b]6973;PWD;/tmp\x07",
        b"\x1b]6973;START",
        b"\x1b]0;title",
        b"\x07",
        b"\x1b",
        b";",
        b"\x1b[1;31m",
        b"\r\n",
        b"output",
    ];
    let mut state: u32 = 0x2545_f491;
    let mut stream = Vec::new();
    while stream.len() < len {
        state = state.wrapping_mul(1_664_525).wrapping_add(1_013_904_223);
        let pick = (state >> 24) as usize;
        if pick % 4 == 0 {
            stream.push((state >> 8) as u8);
        } else {
            stream.extend_from_slice(pieces[pick % pieces.len()]);
        }
    }
    stream
}

#[test]
fn any_bytes_are_relayed_and_tracked_the_same_however_they_are_cut() {
    let stream = noisy_stream(4000);
    let mut whole = Relay::new(channel());
    let expected = whole.on_read(&stream, 9);
    assert_eq!(expected.raw, stream);
    assert!(lifecycle(&expected.events).len() > 10);

    for size in [1usize, 2, 3, 7, 64, 1000] {
        let mut relay = Relay::new(channel());
        let mut raw = Vec::new();
        let mut events = Vec::new();
        for chunk in stream.chunks(size) {
            let delivery = relay.on_read(chunk, 9);
            raw.extend(delivery.raw);
            events.extend(delivery.events);
        }
        assert_eq!(raw, stream, "chunks of {}", size);
        assert_eq!(lifecycle(&events), lifecycle(&expected.events), "chunks of {}", size);
        assert_eq!(
            relay.tracker().is_capturing(),
            whole.tracker().is_capturing(),
            "chunks of {}",
            size
        );
    }
}

/// The log as its reader sees it: for each command its output, joined, and
/// its exit code.
fn log(events: &[TrackerEvent]) -> Vec<Result<Vec<u8>, i32>> {
    let mut log: Vec<Result<Vec<u8>, i32>> = Vec::new();
    for event in events {
        match event {
            Output { data } => match log.last_mut() {
                Some(Ok(before)) => before.extend_from_slice(data),
                _ => log.push(Ok(data.clone())),
            },
            Ended { exit_code, .. } => log.push(Err(*exit_code)),
            _ => {}
        }
    }
    log
}

#[test]
fn two_reads_make_the_same_log_at_any_clock() {
    let stream: &[u8] = b"$ \x1b]6973;START;one\x07a\r\n\x1b]6973;PWD;/tmp\x07b\x1b]6973;END;1\x07\
        $ \x1b]6973;START;two\x07c\x1b]6973;END;2\x07\x1b]6973;START;three\x07\
        \x1b]6973;START;four\x07d\xe2\x82\xac\x1b]6973;END\x07";
    let mut whole = Relay::new(channel());
    let expected = log(&whole.on_read(stream, 50).events);
    assert_eq!(
        expected,
        vec![
            Ok(b"a\nb".to_vec()),
            Err(1),
            Ok(b"c".to_vec()),
            Err(2),
            Ok("d\u{20ac}".as_bytes().to_vec()),
            Err(0),
        ]
    );
    for cut in 0..=stream.len() {
        let mut relay = Relay::new(channel());
        let mut events = relay.on_read(&stream[..cut], 7).events;
        events.extend(relay.on_read(&stream[cut..], 900).events);
        assert_eq!(log(&events), expected, "cut at {}", cut);
        assert_eq!(relay.tracker().is_capturing(), whole.tracker().is_capturing());
    }
}

#[test]
fn a_start_right_after_the_cut_is_the_one_case_in_which_the_logs_differ() {
    let stream: &[u8] = b"\x1b]6973;START;a\x07text\x1b]6973;START;b\x07\x1b]6973;END;0\x07";
    let cut = stream.iter().position(|b| *b == b'x').unwrap() + 2;
    let mut whole = Relay::new(channel());
    assert_eq!(log(&whole.on_read(stream, 0).events), vec![Err(0)]);
    let mut relay = Relay::new(channel());
    let mut events = relay.on_read(&stream[..cut], 0).events;
    events.extend(relay.on_read(&stream[cut..], 0).events);
    assert_eq!(log(&events), vec![Ok(b"text".to_vec()), Err(0)]);
}
