use sidecar_rpc::classify::classify_line;
use sidecar_rpc::classify::Classified;
use sidecar_rpc::wire::encode_request;
use sidecar_rpc::wire::frame_request;
use sidecar_rpc::wire::ChatMessage;
use sidecar_rpc::wire::RpcRequest;
use sidecar_rpc::wire::SendMessageParams;

fn bytes(s: &str) -> Vec<u8> {
    s.as_bytes().to_vec()
}

fn sample_params() -> SendMessageParams {
    SendMessageParams {
        provider: None,
        api_key: bytes("k"),
        model: bytes("m"),
        base_url: None,
        messages: vec![ChatMessage { role: bytes("user"), content: bytes("hi") }],
        workspace_path: None,
        request_id: None,
    }
}

#[test]
fn encode_request_exact_wire_form() {
    let req = RpcRequest { id: 7, method: bytes("sendMessage"), params: sample_params() };
    let out = encode_request(&req);
    let expected = "{\"id\":7,\"method\":\"sendMessage\",\"params\":{\"provider\":null,\"apiKey\":\"k\",\"model\":\"m\",\"baseUrl\":null,\"messages\":[{\"role\":\"user\",\"content\":\"hi\"}],\"workspacePath\":null,\"requestId\":null}}";
    assert_eq!(out, bytes(expected));
}

#[test]
fn encode_all_fields_present_and_large_id() {
    let params = SendMessageParams {
        provider: Some(bytes("anthropic")),
        api_key: bytes("key"),
        model: bytes("model"),
        base_url: Some(bytes("http://localhost:1")),
        messages: vec![
            ChatMessage { role: bytes("user"), content: bytes("a") },
            ChatMessage { role: bytes("assistant"), content: bytes("b") },
        ],
        workspace_path: Some(bytes("/tmp/w")),
        request_id: Some(bytes("r-1")),
    };
    let req = RpcRequest { id: u64::MAX, method: bytes("sendMessage"), params };
    let out = encode_request(&req);
    let expected = "{\"id\":18446744073709551615,\"method\":\"sendMessage\",\"params\":{\"provider\":\"anthropic\",\"apiKey\":\"key\",\"model\":\"model\",\"baseUrl\":\"http://localhost:1\",\"messages\":[{\"role\":\"user\",\"content\":\"a\"},{\"role\":\"assistant\",\"content\":\"b\"}],\"workspacePath\":\"/tmp/w\",\"requestId\":\"r-1\"}}";
    assert_eq!(out, bytes(expected));
}

#[test]
fn encode_escapes_strings() {
    let mut params = sample_params();
    params.messages = vec![ChatMessage {
        role: bytes("user"),
        content: bytes("say \"hi\\\"\nplease\ttwice\r\u{1}"),
    }];
    let req = RpcRequest { id: 1, method: bytes("sendMessage"), params };
    let out = encode_request(&req);
    let text = String::from_utf8(out.clone()).unwrap();
    assert!(text.contains("say \\\"hi\\\\\\\"\\nplease\\ttwice\\r\\u0001"));
    assert!(!out.contains(&b'\n'));
    let parsed: serde_json::Value = serde_json::from_slice(&out).unwrap();
    assert_eq!(
        parsed["params"]["messages"][0]["content"],
        serde_json::Value::String("say \"hi\\\"\nplease\ttwice\r\u{1}".to_string())
    );
}

#[test]
fn frame_is_document_plus_line_feed() {
    let req = RpcRequest { id: 3, method: bytes("sendMessage"), params: sample_params() };
    let doc = encode_request(&req);
    let frame = frame_request(&req);
    let mut expected = doc.clone();
    expected.push(b'\n');
    assert_eq!(frame, expected);
    assert_eq!(frame.iter().filter(|b| **b == b'\n').count(), 1);
}

#[test]
fn event_line_is_event_not_response() {
    let line = bytes("{\"event\":\"agent_status\",\"state\":\"thinking\"}");
    match classify_line(&line) {
        Classified::Event { tag } => assert_eq!(tag, bytes("agent_status")),
        _ => panic!("expected an event"),
    }
}

#[test]
fn event_tag_wins_over_response_shape() {
    let line = bytes("{\"event\":\"assistant_delta\",\"id\":3,\"result\":\"x\"}");
    match classify_line(&line) {
        Classified::Event { tag } => assert_eq!(tag, bytes("assistant_delta")),
        _ => panic!("expected an event"),
    }
}

#[test]
fn unknown_event_tag_still_forwarded() {
    let line = bytes("{\"event\":\"totally_new\",\"x\":1}");
    match classify_line(&line) {
        Classified::Event { tag } => assert_eq!(tag, bytes("totally_new")),
        _ => panic!("expected an event"),
    }
}

#[test]
fn response_with_id_and_result() {
    let line = bytes("{\"id\":7,\"result\":\"ok\"}");
    match classify_line(&line) {
        Classified::Response { resp } => {
            assert_eq!(resp.id, Some(7));
            assert_eq!(resp.result, Some(bytes("ok")));
            assert!(resp.error.is_none());
        },
        _ => panic!("expected a response"),
    }
}

#[test]
fn response_with_error_object() {
    let line = bytes("{\"id\":2,\"error\":{\"code\":-32000,\"message\":\"boom\"}}");
    match classify_line(&line) {
        Classified::Response { resp } => {
            assert_eq!(resp.id, Some(2));
            assert!(resp.result.is_none());
            let err = resp.error.unwrap();
            assert_eq!(err.code, -32000);
            assert_eq!(err.message, bytes("boom"));
        },
        _ => panic!("expected a response"),
    }
}

#[test]
fn readiness_signal_has_no_id() {
    let line = bytes("{\"ready\":true}");
    match classify_line(&line) {
        Classified::Response { resp } => {
            assert_eq!(resp.id, None);
            assert_eq!(resp.result, None);
            assert!(resp.error.is_none());
        },
        _ => panic!("expected a response shape"),
    }
}

#[test]
fn malformed_lines_discarded() {
    for raw in [
        "not json{{{",
        "[1,2,3]",
        "42",
        "\"just a string\"",
        "",
        "   \t  ",
        "{\"id\":1,\"error\":{\"code\":\"high\",\"message\":\"x\"}}",
        "{\"id\":1,\"error\":{\"code\":3}}",
    ] {
        match classify_line(&bytes(raw)) {
            Classified::Unrecognized => {},
            _ => panic!("expected line {:?} to be discarded", raw),
        }
    }
}
