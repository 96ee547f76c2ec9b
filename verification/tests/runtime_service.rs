use rayforce::error::RayforceError;
use rayforce::queue::{EvalRequest, IntakeQueue};
use rayforce::runtime::{Rayforce, RayforceBuilder};
use rayforce::service::{EvalService, ServiceEvent, ServiceOutcome, ServiceState};

fn request(text: &str, sink: usize) -> ServiceEvent {
    ServiceEvent::Incoming(EvalRequest { text: text.as_bytes().to_vec(), sink })
}

fn reply_of(out: &ServiceOutcome) -> Option<(usize, Vec<u8>)> {
    match out {
        ServiceOutcome::Replied { sink, text } => Some((*sink, text.clone())),
        _ => None,
    }
}

#[test]
fn create_then_destroy_does_not_fail() {
    let runtime = Rayforce::new().unwrap();
    assert!(runtime.get_version() > 0);
    drop(runtime);
}

#[test]
fn builder_accepts_valid_argument_lists() {
    assert!(RayforceBuilder::new().build().is_ok());
    assert!(RayforceBuilder::new().with_arg("-r").with_arg("0").build().is_ok());
    assert!(RayforceBuilder::new().with_arg("-r").with_arg("31").build().is_ok());
}

#[test]
fn builder_rejects_invalid_argument_lists() {
    // The run-mode flag without its value.
    assert_eq!(
        RayforceBuilder::new().with_arg("-r").build().err().unwrap(),
        RayforceError::RuntimeCreationFailed
    );
    // A value that is not a decimal literal.
    assert_eq!(
        RayforceBuilder::new().with_arg("-r").with_arg("x").build().err().unwrap(),
        RayforceError::RuntimeCreationFailed
    );
    // An unrecognized flag in place of the run-mode flag.
    assert_eq!(
        RayforceBuilder::new().with_arg("-q").with_arg("0").build().err().unwrap(),
        RayforceError::RuntimeCreationFailed
    );
    // A token with an interior zero byte cannot cross the boundary.
    assert_eq!(
        RayforceBuilder::new().with_arg("-r").with_arg("0\u{0}0").build().err().unwrap(),
        RayforceError::RuntimeCreationFailed
    );
}

#[test]
fn evaluation_of_expressions_and_statements() {
    let runtime = Rayforce::new().unwrap();
    assert_eq!(runtime.eval_str(b"1+1").render(), b"2".to_vec());
    assert_eq!(runtime.eval_str(b"41+1").render(), b"42".to_vec());
    assert_eq!(runtime.eval_str(b"123").render(), b"123".to_vec());
    assert!(runtime.eval_str(b"x:1").is_nil());
    assert_eq!(runtime.eval_str(b"nonsense").render(), b"error".to_vec());
}

#[test]
fn evaluation_edge_cases() {
    let runtime = Rayforce::new().unwrap();
    // The largest literal: eighteen digits.
    assert_eq!(
        runtime.eval_str(b"999999999999999999").render(),
        b"999999999999999999".to_vec()
    );
    // Nineteen digits are not a literal of the dialect.
    assert_eq!(runtime.eval_str(b"9999999999999999999").render(), b"error".to_vec());
    // The largest sum still fits a 64-bit integer.
    assert_eq!(
        runtime.eval_str(b"999999999999999999+999999999999999999").render(),
        b"1999999999999999998".to_vec()
    );
    assert_eq!(runtime.eval_str(b"0+0").render(), b"0".to_vec());
    // Leading zeros are digits; the value is what they denote.
    assert_eq!(runtime.eval_str(b"007").render(), b"7".to_vec());
    // A second `+` makes neither side a literal.
    assert_eq!(runtime.eval_str(b"1+1+1").render(), b"error".to_vec());
    // The empty line is not a literal.
    assert_eq!(runtime.eval_str(b"").render(), b"error".to_vec());
    // Any colon anywhere makes the line an assignment statement.
    assert!(runtime.eval_str(b"a:1+1").is_nil());
}

#[test]
fn evaluation_of_code_values() {
    let runtime = Rayforce::new().unwrap();
    let code = rayforce::value::RayObj::from_text("2+3");
    let name = rayforce::value::RayObj::from_text("console");
    assert_eq!(runtime.eval_obj_str(&code, &name).render(), b"5".to_vec());
    let not_text = rayforce::value::RayObj::from(9i64);
    assert_eq!(runtime.eval_obj_str(&not_text, &name).render(), b"error".to_vec());
}

#[test]
fn n_requests_yield_n_replies_in_order() {
    let mut service = EvalService::new(Rayforce::new().unwrap());
    let events = vec![request("1+1", 1), request("2+2", 1), request("3+3", 1)];
    let outs = service.run_events(events);
    assert_eq!(outs.len(), 3);
    let replies: Vec<(usize, Vec<u8>)> = outs.iter().filter_map(reply_of).collect();
    assert_eq!(
        replies,
        vec![(1, b"2".to_vec()), (1, b"4".to_vec()), (1, b"6".to_vec())]
    );
}

#[test]
fn nil_result_yields_no_reply_and_keeps_the_session_alive() {
    let mut service = EvalService::new(Rayforce::new().unwrap());
    let first = service.handle(request("x:1", 4));
    assert!(matches!(first, ServiceOutcome::Completed { sink: 4 }));
    assert_eq!(service.state(), ServiceState::Idle);
    // The session's next request is still answered.
    let second = service.handle(request("1+1", 4));
    assert_eq!(reply_of(&second), Some((4, b"2".to_vec())));
}

#[test]
fn two_sessions_interleaved_keep_their_own_order() {
    let mut service = EvalService::new(Rayforce::new().unwrap());
    let events = vec![
        request("1+1", 1),
        request("10+10", 2),
        request("2+2", 1),
        request("20+20", 2),
    ];
    let outs = service.run_events(events);
    assert_eq!(outs.len(), 4);
    // Global order is the enqueue order.
    let all: Vec<(usize, Vec<u8>)> = outs.iter().filter_map(reply_of).collect();
    assert_eq!(
        all,
        vec![
            (1, b"2".to_vec()),
            (2, b"20".to_vec()),
            (1, b"4".to_vec()),
            (2, b"40".to_vec()),
        ]
    );
    // Each session sees its own first-in, first-out order.
    let session1: Vec<Vec<u8>> =
        all.iter().filter(|(s, _)| *s == 1).map(|(_, t)| t.clone()).collect();
    assert_eq!(session1, vec![b"2".to_vec(), b"4".to_vec()]);
    let session2: Vec<Vec<u8>> =
        all.iter().filter(|(s, _)| *s == 2).map(|(_, t)| t.clone()).collect();
    assert_eq!(session2, vec![b"20".to_vec(), b"40".to_vec()]);
}

#[test]
fn interrupt_stops_the_service_before_the_rest_of_the_queue() {
    let mut service = EvalService::new(Rayforce::new().unwrap());
    let events = vec![
        request("1+1", 1),
        ServiceEvent::Interrupt,
        request("2+2", 1),
        request("3+3", 2),
    ];
    let outs = service.run_events(events);
    assert_eq!(outs.len(), 4);
    assert_eq!(reply_of(&outs[0]), Some((1, b"2".to_vec())));
    assert!(matches!(outs[1], ServiceOutcome::Stopped));
    assert!(matches!(outs[2], ServiceOutcome::Dropped { sink: 1 }));
    assert!(matches!(outs[3], ServiceOutcome::Dropped { sink: 2 }));
    assert_eq!(service.state(), ServiceState::Stopped);
}

#[test]
fn queue_closure_stops_the_service() {
    let mut service = EvalService::new(Rayforce::new().unwrap());
    let out = service.handle(ServiceEvent::Closed);
    assert!(matches!(out, ServiceOutcome::Stopped));
    assert_eq!(service.state(), ServiceState::Stopped);
}

#[test]
fn intake_queue_is_fifo_and_bounded() {
    let mut q = IntakeQueue::new(2);
    assert_eq!(q.capacity(), 2);
    assert!(q.try_submit(EvalRequest { text: b"a".to_vec(), sink: 1 }));
    assert!(q.try_submit(EvalRequest { text: b"b".to_vec(), sink: 2 }));
    // Full: the submitter must suspend and retry, nothing is dropped.
    assert!(!q.try_submit(EvalRequest { text: b"c".to_vec(), sink: 3 }));
    assert_eq!(q.len(), 2);
    let first = q.dequeue().unwrap();
    assert_eq!(first.text, b"a".to_vec());
    assert_eq!(first.sink, 1);
    let second = q.dequeue().unwrap();
    assert_eq!(second.text, b"b".to_vec());
    assert!(q.dequeue().is_none());
}

#[test]
fn drain_processes_the_whole_queue_in_arrival_order() {
    let mut q = IntakeQueue::new(8);
    assert!(q.try_submit(EvalRequest { text: b"1+1".to_vec(), sink: 1 }));
    assert!(q.try_submit(EvalRequest { text: b"x:1".to_vec(), sink: 2 }));
    assert!(q.try_submit(EvalRequest { text: b"2+2".to_vec(), sink: 1 }));
    let mut service = EvalService::new(Rayforce::new().unwrap());
    let outs = service.drain_queue(&mut q);
    assert_eq!(q.len(), 0);
    assert_eq!(outs.len(), 3);
    assert_eq!(reply_of(&outs[0]), Some((1, b"2".to_vec())));
    assert!(matches!(outs[1], ServiceOutcome::Completed { sink: 2 }));
    assert_eq!(reply_of(&outs[2]), Some((1, b"4".to_vec())));
}

#[test]
fn runtime_state_is_reachable_through_the_raw_handle() {
    let runtime = Rayforce::new().unwrap();
    let state = runtime.as_ptr();
    assert_eq!(state.version, runtime.get_version());
    assert_eq!(state.args.len(), 3);
    assert_eq!(state.args[0].as_slice(), b"rayforce");
    assert_eq!(state.args[1].as_slice(), b"-r");
    assert_eq!(state.args[2].as_slice(), b"0");
}
