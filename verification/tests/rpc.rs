use ql_link_lab::event::{BackendEvent, ChatDirection, ChatEntry, StatusSnapshot};
use ql_link_lab::rpc::{
    chat_pushed, echoed, error_value, read_message, respond, sampling_reply, sampling_request,
    tool_call, tool_result, ClientMessage, ToolStep,
};
use serde_json::Value;

fn parsed(s: &str) -> Value {
    serde_json::from_str(s).unwrap()
}

fn history(n: usize) -> Vec<ChatEntry> {
    (0..n)
        .map(|i| ChatEntry {
            direction: ChatDirection::DeviceToBackend,
            text: i.to_string(),
        })
        .collect()
}

fn call(params: &str) -> ToolStep {
    tool_call(
        true,
        &history(600),
        &StatusSnapshot::default(),
        &parsed(params),
    )
}

fn failed(words: &str) -> ToolStep {
    ToolStep::Done(Err(words.to_string()))
}

#[test]
fn requests_and_replies_are_told_apart() {
    match read_message(&parsed(
        r#"{"jsonrpc":"2.0","id":"x1","method":"tools/list","params":{"a":1}}"#,
    )) {
        ClientMessage::Request(r) => {
            assert_eq!(r.id, parsed(r#""x1""#));
            assert_eq!(r.method, "tools/list");
            assert_eq!(r.params, parsed(r#"{"a":1}"#));
        }
        other => panic!("{other:?}"),
    }
    match read_message(&parsed(r#"{"method":"ping"}"#)) {
        ClientMessage::Request(r) => {
            assert_eq!(r.id, Value::Null);
            assert_eq!(r.params, Value::Null);
        }
        other => panic!("{other:?}"),
    }
    assert!(matches!(
        read_message(&parsed(r#"{"id":-7,"result":{}}"#)),
        ClientMessage::Reply(-7)
    ));
    assert!(matches!(
        read_message(&parsed(r#"{"id":9223372036854775807}"#)),
        ClientMessage::Reply(i64::MAX)
    ));
    for neither in [
        "{}",
        "null",
        "[1]",
        "\"id\"",
        r#"{"id":"1"}"#,
        r#"{"id":1.5}"#,
        r#"{"id":9223372036854775808}"#,
    ] {
        assert!(matches!(
            read_message(&parsed(neither)),
            ClientMessage::Neither
        ));
    }
}

#[test]
fn a_method_has_to_be_a_string() {
    match read_message(&parsed(r#"{"id":1,"method":5}"#)) {
        ClientMessage::Malformed(e) => {
            assert_eq!(e, "invalid type: integer `5`, expected a string")
        }
        other => panic!("{other:?}"),
    }
    match read_message(&parsed(r#"{"id":1,"method":null}"#)) {
        ClientMessage::Malformed(e) => assert_eq!(e, "invalid type: null, expected a string"),
        other => panic!("{other:?}"),
    }
}

#[test]
fn a_response_carries_the_id_of_its_request() {
    let frame = respond(&parsed(r#""x1""#), parsed(r#"{"ok":true}"#));
    assert_eq!(frame.event, "message");
    assert_eq!(
        frame.data,
        r#"{"id":"x1","jsonrpc":"2.0","result":{"ok":true}}"#
    );
}

#[test]
fn an_error_object() {
    assert_eq!(error_value("no"), parsed(r#"{"error":"no"}"#));
}

#[test]
fn chat_send() {
    assert_eq!(
        call(r#"{"name":"chat_send","arguments":{"text":"hi"}}"#),
        ToolStep::ChatPush {
            text: "hi".to_string()
        }
    );
    assert_eq!(
        call(r#"{"name":"chat_send","arguments":{"text":1}}"#),
        failed("missing 'text' argument")
    );
    assert_eq!(
        call(r#"{"name":"chat_send"}"#),
        failed("missing 'text' argument")
    );
    assert_eq!(
        tool_call(
            false,
            &[],
            &StatusSnapshot::default(),
            &parsed(r#"{"name":"chat_send","arguments":{"text":"hi"}}"#)
        ),
        failed("backend built without the 'chat' feature")
    );
}

#[test]
fn session_status() {
    let status = StatusSnapshot {
        peer_status: Some("Connected".to_string()),
        bt_connected: true,
        peer_known: false,
    };
    assert_eq!(
        tool_call(true, &[], &status, &parsed(r#"{"name":"session_status"}"#)),
        ToolStep::Done(Ok(
            "{\n  \"bt_connected\": true,\n  \"peer_known\": false,\n  \"peer_status\": \"Connected\"\n}"
                .to_string()
        ))
    );
}

fn rows(step: ToolStep) -> Vec<String> {
    match step {
        ToolStep::Done(Ok(text)) => parsed(&text)
            .as_array()
            .unwrap()
            .iter()
            .map(|r| r["text"].as_str().unwrap().to_string())
            .collect(),
        other => panic!("{other:?}"),
    }
}

#[test]
fn chat_history_gives_the_last_entries() {
    let last = |n: usize| (600 - n..600).map(|i| i.to_string()).collect::<Vec<_>>();
    assert_eq!(
        rows(call(r#"{"name":"chat_history","arguments":{"limit":3}}"#)),
        last(3)
    );
    assert_eq!(rows(call(r#"{"name":"chat_history"}"#)), last(50));
    assert_eq!(
        rows(call(r#"{"name":"chat_history","arguments":{"limit":-1}}"#)),
        last(50)
    );
    assert_eq!(
        rows(call(r#"{"name":"chat_history","arguments":{"limit":5000}}"#)),
        last(512)
    );
    assert!(rows(call(r#"{"name":"chat_history","arguments":{"limit":0}}"#)).is_empty());
    let few = tool_call(
        true,
        &history(2),
        &StatusSnapshot::default(),
        &parsed(r#"{"name":"chat_history","arguments":{"limit":3}}"#),
    );
    assert_eq!(
        few,
        ToolStep::Done(Ok("[\n  {\n    \"direction\": \"devicetobackend\",\n    \"text\": \"0\"\n  },\n  {\n    \"direction\": \"devicetobackend\",\n    \"text\": \"1\"\n  }\n]".to_string()))
    );
}

#[test]
fn send_echo() {
    assert_eq!(
        call(r#"{"name":"send_echo","arguments":{"text":"hi"}}"#),
        ToolStep::Echo {
            text: "hi".to_string()
        }
    );
    assert_eq!(
        call(r#"{"name":"send_echo","arguments":[]}"#),
        failed("missing 'text' argument")
    );
}

#[test]
fn sample() {
    assert_eq!(
        call(r#"{"name":"sample","arguments":{"prompt":"p"}}"#),
        ToolStep::Sample {
            prompt: "p".to_string(),
            system_prompt: None,
            max_tokens: 200
        }
    );
    assert_eq!(
        call(r#"{"name":"sample","arguments":{"prompt":"p","system_prompt":"s","max_tokens":4294967297}}"#),
        ToolStep::Sample {
            prompt: "p".to_string(),
            system_prompt: Some("s".to_string()),
            max_tokens: 1
        }
    );
    assert_eq!(
        call(r#"{"name":"sample","arguments":{}}"#),
        failed("missing 'prompt' argument")
    );
}

#[test]
fn an_unknown_tool() {
    assert_eq!(call(r#"{"name":"reboot"}"#), failed("unknown tool: reboot"));
    assert_eq!(call("null"), failed("unknown tool: "));
}

#[test]
fn a_tool_result_says_whether_it_failed() {
    assert_eq!(
        tool_result(Ok("done".to_string())),
        parsed(r#"{"content":[{"type":"text","text":"done"}],"isError":false}"#)
    );
    assert_eq!(
        tool_result(Err("no".to_string())),
        parsed(r#"{"content":[{"type":"text","text":"no"}],"isError":true}"#)
    );
}

#[test]
fn a_push_is_reported() {
    let (result, event) = chat_pushed("say \"hi\"\n".to_string(), Ok(()));
    assert_eq!(result, Ok("pushed: \"say \\\"hi\\\"\\n\"".to_string()));
    match event {
        Some(BackendEvent::ChatPushed { text }) => assert_eq!(text, "say \"hi\"\n"),
        other => panic!("{other:?}"),
    }
    let (result, event) = chat_pushed("x".to_string(), Err("Closed".to_string()));
    assert_eq!(result, Err("chat push failed: Closed".to_string()));
    assert!(event.is_none());
}

#[test]
fn an_echo_is_reported() {
    let (result, event) = echoed("a".to_string(), Ok("b\t".to_string()), 1234);
    assert_eq!(result, Ok("echo \"a\" → \"b\\t\"  (1234 ms)".to_string()));
    match event {
        Some(BackendEvent::EchoHandled {
            request,
            response,
            ms,
        }) => {
            assert_eq!((request.as_str(), response.as_str(), ms), ("a", "b\t", 1234));
        }
        other => panic!("{other:?}"),
    }
    let (result, event) = echoed("a".to_string(), Err("Timeout".to_string()), 0);
    assert_eq!(result, Err("echo failed: Timeout".to_string()));
    assert!(event.is_none());
}

#[test]
fn a_sampling_request() {
    assert_eq!(
        sampling_request(7, "why?", None, 200),
        parsed(
            r#"{"jsonrpc":"2.0","id":7,"method":"sampling/createMessage","params":{"messages":[{"role":"user","content":{"type":"text","text":"why?"}}],"maxTokens":200}}"#
        )
    );
    assert_eq!(
        sampling_request(-1, "why?", Some("be brief"), u32::MAX)["params"],
        parsed(
            r#"{"messages":[{"role":"user","content":{"type":"text","text":"why?"}}],"maxTokens":4294967295,"systemPrompt":"be brief"}"#
        )
    );
}

#[test]
fn a_sampling_reply() {
    assert_eq!(
        sampling_reply(&parsed(
            r#"{"id":7,"result":{"role":"assistant","content":{"type":"text","text":"because"}}}"#
        )),
        Ok("because".to_string())
    );
    assert_eq!(
        sampling_reply(&parsed(
            r#"{"id":7,"error":{"code":-1,"message":"no"},"result":{"content":{"text":"x"}}}"#
        )),
        Err(r#"sampling client error: {"code":-1,"message":"no"}"#.to_string())
    );
    assert_eq!(
        sampling_reply(&parsed(r#"{"id":7,"result":{"content":{"text":5}}}"#)),
        Err(
            r#"unexpected sampling response shape: {"id":7,"result":{"content":{"text":5}}}"#
                .to_string()
        )
    );
    assert_eq!(
        sampling_reply(&parsed(r#"{"id":7,"error":null}"#)),
        Err("sampling client error: null".to_string())
    );
    assert_eq!(
        sampling_reply(&parsed(r#"{"id":7}"#)),
        Err(r#"unexpected sampling response shape: {"id":7}"#.to_string())
    );
}
