use sidecar_rpc::correlator::outcome_to_result;
use sidecar_rpc::correlator::CallFailure;
use sidecar_rpc::correlator::CallOutcome;
use sidecar_rpc::correlator::Correlator;
use sidecar_rpc::correlator::Dispatch;
use sidecar_rpc::demux::LineBuffer;
use sidecar_rpc::wire::ChatMessage;
use sidecar_rpc::wire::SendMessageParams;
use tokio::sync::oneshot::error::TryRecvError;

fn bytes(s: &str) -> Vec<u8> {
    s.as_bytes().to_vec()
}

fn sample_params() -> SendMessageParams {
    SendMessageParams {
        provider: None,
        api_key: bytes("k"),
        model: bytes("m"),
        base_url: None,
        messages: vec![ChatMessage { role: bytes("user"), content: bytes("hi") }],
        workspace_path: None,
        request_id: None,
    }
}

fn expect_success(outcome: CallOutcome, want: &str) {
    match outcome {
        CallOutcome::Success { result } => assert_eq!(result, bytes(want)),
        CallOutcome::WorkerError { .. } => panic!("expected success"),
    }
}

#[test]
fn ids_are_monotone_from_one() {
    let mut c = Correlator::new();
    let (id1, _rx1) = c.issue();
    let (id2, _rx2) = c.issue();
    let (id3, _rx3) = c.issue();
    assert_eq!((id1, id2, id3), (1, 2, 3));
}

#[test]
fn correlation_exclusivity_out_of_order() {
    let mut c = Correlator::new();
    let (id1, mut rx1) = c.issue();
    let (id2, mut rx2) = c.issue();
    assert_eq!((id1, id2), (1, 2));

    match c.handle_line(&bytes("{\"id\":2,\"result\":\"two\"}")) {
        Dispatch::Delivered { id } => assert_eq!(id, 2),
        _ => panic!("expected delivery"),
    }
    expect_success(rx2.try_recv().unwrap(), "two");
    assert!(matches!(rx1.try_recv(), Err(TryRecvError::Empty)));

    match c.handle_line(&bytes("{\"id\":1,\"result\":\"one\"}")) {
        Dispatch::Delivered { id } => assert_eq!(id, 1),
        _ => panic!("expected delivery"),
    }
    expect_success(rx1.try_recv().unwrap(), "one");
}

#[test]
fn absent_id_resolves_nothing() {
    let mut c = Correlator::new();
    let (_id, mut rx) = c.issue();
    match c.handle_line(&bytes("{\"result\":\"ok\"}")) {
        Dispatch::Ignored => {},
        _ => panic!("expected the id-less response to be ignored"),
    }
    match c.handle_line(&bytes("{\"ready\":true}")) {
        Dispatch::Ignored => {},
        _ => panic!("expected the readiness signal to be ignored"),
    }
    assert!(matches!(rx.try_recv(), Err(TryRecvError::Empty)));
}

#[test]
fn timeout_then_late_response_is_noop() {
    let mut c = Correlator::new();
    let (id, mut rx) = c.issue();
    c.on_timeout(id);
    match c.handle_line(&bytes("{\"id\":1,\"result\":\"late\"}")) {
        Dispatch::Ignored => {},
        _ => panic!("expected the late response to be ignored"),
    }
    assert!(matches!(rx.try_recv(), Err(TryRecvError::Closed)));
}

#[test]
fn duplicate_response_delivered_once() {
    let mut c = Correlator::new();
    let (_id, mut rx) = c.issue();
    assert!(matches!(
        c.handle_line(&bytes("{\"id\":1,\"result\":\"first\"}")),
        Dispatch::Delivered { id: 1 }
    ));
    assert!(matches!(
        c.handle_line(&bytes("{\"id\":1,\"result\":\"second\"}")),
        Dispatch::Ignored
    ));
    expect_success(rx.try_recv().unwrap(), "first");
}

#[test]
fn unknown_id_is_ignored() {
    let mut c = Correlator::new();
    assert!(matches!(c.handle_line(&bytes("{\"id\":99,\"result\":\"x\"}")), Dispatch::Ignored));
}

#[test]
fn resolve_tolerates_abandoned_caller() {
    let mut c = Correlator::new();
    let (id, rx) = c.issue();
    drop(rx);
    let was_pending = c.resolve(id, CallOutcome::Success { result: bytes("x") });
    assert!(was_pending);
}

#[test]
fn events_do_not_touch_pending_calls() {
    let mut c = Correlator::new();
    let (_id, mut rx) = c.issue();
    match c.handle_line(&bytes("{\"event\":\"agent_status\",\"state\":\"thinking\"}")) {
        Dispatch::Forward { tag } => assert_eq!(tag, bytes("agent_status")),
        _ => panic!("expected the event to be forwarded"),
    }
    assert!(matches!(rx.try_recv(), Err(TryRecvError::Empty)));
    assert!(matches!(
        c.handle_line(&bytes("{\"id\":1,\"result\":\"ok\"}")),
        Dispatch::Delivered { id: 1 }
    ));
}

#[test]
fn sweep_on_close_fails_all_pending_calls() {
    let mut c = Correlator::new();
    let (_a, mut rx_a) = c.issue();
    let (_b, mut rx_b) = c.issue();
    c.sweep_on_close();
    assert!(matches!(rx_a.try_recv(), Err(TryRecvError::Closed)));
    assert!(matches!(rx_b.try_recv(), Err(TryRecvError::Closed)));
}

#[test]
fn worker_error_surfaced_verbatim() {
    let mut c = Correlator::new();
    let (_id, mut rx) = c.issue();
    c.handle_line(&bytes("{\"id\":1,\"error\":{\"code\":-32000,\"message\":\"model overloaded\"}}"));
    match rx.try_recv().unwrap() {
        CallOutcome::WorkerError { code, message } => {
            assert_eq!(code, -32000);
            assert_eq!(message, bytes("model overloaded"));
            match outcome_to_result(CallOutcome::WorkerError { code, message }) {
                Err(CallFailure::Worker { code: c2, message: m2 }) => {
                    assert_eq!(c2, -32000);
                    assert_eq!(m2, bytes("model overloaded"));
                },
                _ => panic!("expected a worker failure"),
            }
        },
        CallOutcome::Success { .. } => panic!("expected a worker error"),
    }
}

#[test]
fn round_trip_request_and_response() {
    let mut c = Correlator::new();
    let mut receivers = Vec::new();
    for _ in 0..6 {
        receivers.push(c.issue());
    }
    let (id, frame, mut rx) = c.issue_request(bytes("sendMessage"), sample_params());
    assert_eq!(id, 7);
    let text = String::from_utf8(frame.clone()).unwrap();
    assert!(text.starts_with("{\"id\":7,\"method\":\"sendMessage\","));
    assert!(text.ends_with("\n"));

    let mut buf = LineBuffer::new();
    let mut lines = buf.push_chunk(&bytes("{\"id\":7,\"re"));
    lines.extend(buf.push_chunk(&bytes("sult\":\"ok\"}\n")));
    assert_eq!(lines.len(), 1);
    assert!(matches!(c.handle_line(&lines[0]), Dispatch::Delivered { id: 7 }));
    expect_success(rx.try_recv().unwrap(), "ok");

    match outcome_to_result(CallOutcome::Success { result: bytes("ok") }) {
        Ok(v) => assert_eq!(v, bytes("ok")),
        Err(_) => panic!("expected success"),
    }
}

#[test]
fn empty_response_is_success_with_empty_result() {
    let mut c = Correlator::new();
    let (_id, mut rx) = c.issue();
    assert!(matches!(c.handle_line(&bytes("{\"id\":1}")), Dispatch::Delivered { id: 1 }));
    expect_success(rx.try_recv().unwrap(), "");
}
