use pty_bash_hook::term::{EventSink, TermEvent};
use vte::Perform;

#[test]
fn a_new_sink_is_empty() {
    assert!(EventSink::new().into_events().is_empty());
}

#[test]
fn the_sink_collects_in_the_order_of_dispatch() {
    let mut sink = EventSink::new();
    sink.print('a');
    sink.execute(b'\n');
    sink.osc_dispatch(&[b"6973", b"END", b"0"], true);
    sink.osc_dispatch(&[], false);
    sink.print('€');
    assert_eq!(
        sink.into_events(),
        vec![
            TermEvent::Print('a'),
            TermEvent::Execute(10),
            TermEvent::Osc {
                params: vec![b"6973".to_vec(), b"END".to_vec(), b"0".to_vec()],
                bell_terminated: true,
            },
            TermEvent::Osc { params: vec![], bell_terminated: false },
            TermEvent::Print('€'),
        ]
    );
}

#[test]
fn the_sink_lets_other_events_pass() {
    let mut sink = EventSink::new();
    sink.esc_dispatch(&[], false, b'c');
    sink.put(b'x');
    sink.unhook();
    assert!(sink.into_events().is_empty());
}

#[test]
fn the_sink_copies_the_parameters() {
    let mut sink = EventSink::new();
    {
        let buffer = vec![b'a', b';', b'b'];
        sink.osc_dispatch(&[&buffer[0..1], &buffer[2..3]], false);
    }
    assert_eq!(
        sink.into_events(),
        vec![TermEvent::Osc { params: vec![b"a".to_vec(), b"b".to_vec()], bell_terminated: false }]
    );
}
