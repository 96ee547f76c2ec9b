use rayforce::queue::EvalRequest;
use rayforce::runtime::Rayforce;
use rayforce::service::{EvalService, ServiceEvent, ServiceOutcome};
use rayforce::session::{classify_line, session_requests, LineAction};

#[test]
fn exit_terminates_exactly_this_session_with_zero_requests() {
    assert!(matches!(classify_line(b"exit"), LineAction::Exit));
    assert!(matches!(classify_line(b"exit\n"), LineAction::Exit));
    assert!(matches!(classify_line(b"exit\r\n"), LineAction::Exit));
    // A session that opens with `exit` submits nothing at all.
    let lines = vec![b"exit".to_vec(), b"1+1".to_vec()];
    assert_eq!(session_requests(&lines), Vec::<Vec<u8>>::new());
    // Lines after `exit` are never submitted; lines before it are.
    let lines = vec![b"1+1\n".to_vec(), b"exit\n".to_vec(), b"2+2\n".to_vec()];
    assert_eq!(session_requests(&lines), vec![b"1+1".to_vec()]);
}

#[test]
fn line_terminators_are_stripped_and_blanks_reprompt() {
    match classify_line(b"1+1\r\n") {
        LineAction::Submit(text) => assert_eq!(text, b"1+1".to_vec()),
        _ => panic!("a plain line must become a request"),
    }
    match classify_line(b"exits\n") {
        LineAction::Submit(text) => assert_eq!(text, b"exits".to_vec()),
        _ => panic!("only the exact token `exit` terminates"),
    }
    assert!(matches!(classify_line(b""), LineAction::Blank));
    assert!(matches!(classify_line(b"\n"), LineAction::Blank));
    assert!(matches!(classify_line(b"\r\n"), LineAction::Blank));
    let lines = vec![b"\n".to_vec(), b"7\n".to_vec(), b"\n".to_vec()];
    assert_eq!(session_requests(&lines), vec![b"7".to_vec()]);
}

#[test]
fn console_scenario_one_plus_one_prints_two() {
    // Console session: `1+1` yields the rendered line `2`; an assignment
    // yields no printed line, only a fresh prompt.
    let mut service = EvalService::new(Rayforce::new().unwrap());
    let console = 0usize;

    let action = classify_line(b"1+1\n");
    let text = match action {
        LineAction::Submit(text) => text,
        _ => panic!("expected a request"),
    };
    let out = service.handle(ServiceEvent::Incoming(EvalRequest { text, sink: console }));
    match out {
        ServiceOutcome::Replied { sink, text } => {
            assert_eq!(sink, console);
            assert_eq!(text, b"2".to_vec());
        },
        _ => panic!("expected a reply"),
    }

    let action = classify_line(b"total:41\n");
    let text = match action {
        LineAction::Submit(text) => text,
        _ => panic!("expected a request"),
    };
    let out = service.handle(ServiceEvent::Incoming(EvalRequest { text, sink: console }));
    assert!(matches!(out, ServiceOutcome::Completed { sink: 0 }));
}

#[test]
fn sessions_submit_in_line_order() {
    let lines = vec![
        b"1+1\n".to_vec(),
        b"\n".to_vec(),
        b"2+2\n".to_vec(),
        b"9\n".to_vec(),
        b"exit\n".to_vec(),
        b"3+3\n".to_vec(),
    ];
    assert_eq!(
        session_requests(&lines),
        vec![b"1+1".to_vec(), b"2+2".to_vec(), b"9".to_vec()]
    );
}
