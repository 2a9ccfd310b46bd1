use pty_bash_hook::events::{to_log_events, LogEvent, TrackerEvent};

#[test]
fn output_and_ended_have_log_events() {
    let output = TrackerEvent::Output { data: b"hi\n".to_vec() };
    assert_eq!(output.log_event(), Some(LogEvent::Output { data: "hi\n".to_string() }));
    let ended = TrackerEvent::Ended { exit_code: 137, duration: 12 };
    assert_eq!(ended.log_event(), Some(LogEvent::End { exit_code: 137 }));
}

#[test]
fn started_and_working_dir_have_no_log_event() {
    assert_eq!(TrackerEvent::Started { command: "ls".to_string(), at: 1 }.log_event(), None);
    assert_eq!(TrackerEvent::WorkingDir { path: "/".to_string() }.log_event(), None);
}

#[test]
fn to_log_events_keeps_the_order() {
    let events = vec![
        TrackerEvent::WorkingDir { path: "/".to_string() },
        TrackerEvent::Started { command: "ls".to_string(), at: 1 },
        TrackerEvent::Output { data: b"a".to_vec() },
        TrackerEvent::Output { data: b"b".to_vec() },
        TrackerEvent::Ended { exit_code: 1, duration: 2 },
        TrackerEvent::Started { command: "pwd".to_string(), at: 3 },
        TrackerEvent::Ended { exit_code: 0, duration: 0 },
    ];
    assert_eq!(
        to_log_events(&events),
        vec![
            LogEvent::Output { data: "a".to_string() },
            LogEvent::Output { data: "b".to_string() },
            LogEvent::End { exit_code: 1 },
            LogEvent::End { exit_code: 0 },
        ]
    );
    assert!(to_log_events(&[]).is_empty());
}

#[test]
fn text_of_started() {
    let event = TrackerEvent::Started { command: "ls -la".to_string(), at: 1700000000123 };
    assert_eq!(
        event.text(),
        "\n=== Command Started ===\nCommand: ls -la\nTime: 1700000000123\n--- Output ---\n"
    );
}

#[test]
fn text_of_output_is_the_output() {
    let event = TrackerEvent::Output { data: b"file1\nfile2\n".to_vec() };
    assert_eq!(event.text(), "file1\nfile2\n");
}

#[test]
fn text_of_ended() {
    let event = TrackerEvent::Ended { exit_code: 137, duration: 2500 };
    assert_eq!(
        event.text(),
        "\n--- End Output ---\nExit Code: 137\nDuration: 2500 ms\n=== Command Ended ===\n\n"
    );
    let negative = TrackerEvent::Ended { exit_code: -1, duration: 0 };
    assert_eq!(
        negative.text(),
        "\n--- End Output ---\nExit Code: -1\nDuration: 0 ms\n=== Command Ended ===\n\n"
    );
}

#[test]
fn text_of_working_dir() {
    let event = TrackerEvent::WorkingDir { path: "/home/me".to_string() };
    assert_eq!(event.text(), "[PWD] /home/me\n");
}

#[test]
fn text_of_a_whole_command() {
    let events = vec![
        TrackerEvent::Started { command: "ls".to_string(), at: 5 },
        TrackerEvent::Output { data: b"a\nb\n".to_vec() },
        TrackerEvent::Ended { exit_code: 0, duration: 3 },
    ];
    let text: String = events.iter().map(|e| e.text()).collect();
    assert_eq!(
        text,
        "\n=== Command Started ===\nCommand: ls\nTime: 5\n--- Output ---\na\nb\n\n--- End Output ---\nExit Code: 0\nDuration: 3 ms\n=== Command Ended ===\n\n"
    );
}

#[test]
fn output_text_is_decoded_lossily() {
    let valid = TrackerEvent::Output { data: "h\u{e9}llo \u{20ac}".as_bytes().to_vec() };
    assert_eq!(valid.text(), "h\u{e9}llo \u{20ac}");
    assert_eq!(
        valid.log_event(),
        Some(LogEvent::Output { data: "h\u{e9}llo \u{20ac}".to_string() })
    );
    let invalid = TrackerEvent::Output { data: vec![0x66, 0xff, 0x6f] };
    assert_eq!(invalid.text(), "f\u{fffd}o");
    assert_eq!(invalid.log_event(), Some(LogEvent::Output { data: "f\u{fffd}o".to_string() }));
    let two = TrackerEvent::Output { data: vec![0xff, 0xfe] };
    assert_eq!(two.text(), "\u{fffd}\u{fffd}");
}
