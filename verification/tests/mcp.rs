use ql_link_lab::event::{BackendEvent, ChatDirection, ChatEntry};
use ql_link_lab::mcp::{Dispatch, McpState, Post, SampleEnd};
use ql_link_lab::rpc::{JsonRpcRequest, ToolStep};
use serde_json::Value;

fn parsed(s: &str) -> Value {
    serde_json::from_str(s).unwrap()
}

fn fresh() -> McpState<&'static str, &'static str> {
    McpState::new(true, "0.1.0".to_string())
}

fn row(direction: ChatDirection, text: &str) -> ChatEntry {
    ChatEntry {
        direction,
        text: text.to_string(),
    }
}

fn reply(id: i64, text: &str) -> Value {
    parsed(&format!(
        r#"{{"id":{id},"result":{{"content":{{"type":"text","text":"{text}"}}}}}}"#
    ))
}

fn request(method: &str, params: &str) -> JsonRpcRequest {
    JsonRpcRequest {
        id: Value::from(1),
        method: method.to_string(),
        params: parsed(params),
    }
}

#[test]
fn the_transcript_keeps_the_last_entries() {
    let mut state = fresh();
    for i in 0..513 {
        state.record_chat(row(ChatDirection::DeviceToBackend, &i.to_string()));
    }
    assert_eq!(state.history.len(), 512);
    assert_eq!(state.history[0].text, "1");
    assert_eq!(state.history[511].text, "512");
}

#[test]
fn chat_of_both_directions_is_recorded() {
    let mut state = fresh();
    state.record_event(&BackendEvent::ChatReceived {
        text: "q".to_string(),
    });
    state.record_event(&BackendEvent::ChatPushed {
        text: "a".to_string(),
    });
    state.record_event(&BackendEvent::EchoHandled {
        request: "x".to_string(),
        response: "x".to_string(),
        ms: 1,
    });
    assert_eq!(
        state.history,
        vec![
            row(ChatDirection::DeviceToBackend, "q"),
            row(ChatDirection::BackendToDevice, "a")
        ]
    );
}

#[test]
fn a_status_change_rewrites_the_snapshot() {
    let mut state = fresh();
    assert_eq!(state.status.peer_status, None);
    state.record_event(&BackendEvent::StatusChanged {
        state: "Connected".to_string(),
        bt_connected: true,
        peer_known: true,
    });
    state.record_event(&BackendEvent::StatusChanged {
        state: "Disconnected".to_string(),
        bt_connected: false,
        peer_known: true,
    });
    assert_eq!(state.status.peer_status, Some("Disconnected".to_string()));
    assert!(!state.status.bt_connected);
    assert!(state.status.peer_known);
    assert!(state.history.is_empty());
}

#[test]
fn an_unknown_session_is_refused() {
    let mut state = fresh();
    state.open_session(1, "one");
    let post = state.messages_handler(2, parsed(r#"{"method":"tools/list"}"#));
    assert!(matches!(post, Post::UnknownSession));
    assert_eq!(post.code(), 404);
    assert_eq!(
        post.refusal(),
        Some(parsed(r#"{"error":"unknown session id"}"#))
    );
}

#[test]
fn a_malformed_request_is_refused() {
    let mut state = fresh();
    state.open_session(1, "one");
    let post = state.messages_handler(1, parsed(r#"{"method":5}"#));
    assert_eq!(post.code(), 400);
    assert_eq!(
        post.refusal(),
        Some(parsed(
            r#"{"error":"malformed JSON-RPC request: invalid type: integer `5`, expected a string"}"#
        ))
    );
}

#[test]
fn a_request_is_answered_on_its_own_stream() {
    let mut state = fresh();
    state.open_session(1, "one");
    state.open_session(2, "two");
    let post = state.messages_handler(1, parsed(r#"{"id":4,"method":"tools/list"}"#));
    assert_eq!(post.code(), 202);
    assert_eq!(post.refusal(), None);
    match post {
        Post::Request { to, request } => {
            assert_eq!(*to, "one");
            assert_eq!(request.id, Value::from(4));
            assert_eq!(request.method, "tools/list");
        }
        other => panic!("{other:?}"),
    }
}

#[test]
fn what_is_neither_is_acknowledged() {
    let mut state = fresh();
    state.open_session(1, "one");
    let post = state.messages_handler(1, parsed(r#"{"result":1}"#));
    assert!(matches!(post, Post::Neither));
    assert_eq!(post.code(), 202);
}

#[test]
fn sampling_needs_a_client() {
    let mut state = fresh();
    assert_eq!(
        state.sample("p", None, 200, "w").map(|q| q.id),
        Err("no MCP client connected".to_string())
    );
    // No id was used up.
    state.open_session(1, "one");
    assert_eq!(state.sample("p", None, 200, "w").map(|q| q.id), Ok(1));
}

#[test]
fn server_requests_go_to_the_session_that_was_opened_last() {
    let mut state = fresh();
    state.open_session(1, "one");
    state.open_session(2, "two");
    let q = state.sample("why?", Some("be brief"), 9, "w").unwrap();
    assert_eq!(q.id, 1);
    assert_eq!(*q.to, "two");
    assert_eq!(q.frame.event, "message");
    assert_eq!(
        q.frame.data,
        r#"{"id":1,"jsonrpc":"2.0","method":"sampling/createMessage","params":{"maxTokens":9,"messages":[{"content":{"text":"why?","type":"text"},"role":"user"}],"systemPrompt":"be brief"}}"#
    );
    // It stays the last one when another one ends, and even when it ends itself.
    state.close_session(1);
    state.close_session(2);
    assert_eq!(*state.sample("p", None, 9, "v").unwrap().to, "two");
}

#[test]
fn replies_reach_their_waiters_in_any_order() {
    let mut state = fresh();
    state.open_session(1, "one");
    state.open_session(2, "two");
    for (n, waiter) in ["a", "b", "c"].into_iter().enumerate() {
        assert_eq!(state.sample("p", None, 9, waiter).unwrap().id, n as i64 + 1);
    }
    for (id, expected) in [(2, "b"), (3, "c"), (1, "a")] {
        match state.messages_handler(1, reply(id, expected)) {
            Post::Reply { waiter, body } => {
                assert_eq!(waiter, expected);
                assert_eq!(body, reply(id, expected));
            }
            other => panic!("{other:?}"),
        }
    }
}

#[test]
fn a_reply_counts_once() {
    let mut state = fresh();
    state.open_session(1, "one");
    state.sample("p", None, 9, "w").unwrap();
    assert!(matches!(
        state.messages_handler(1, reply(1, "x")),
        Post::Reply { .. }
    ));
    let again = state.messages_handler(1, reply(1, "x"));
    assert!(matches!(again, Post::UnknownReply(1)));
    assert_eq!(again.code(), 202);
}

#[test]
fn a_request_that_was_given_up_is_forgotten() {
    let mut state = fresh();
    state.open_session(1, "one");
    for end in [SampleEnd::Unsent, SampleEnd::TimedOut] {
        let id = state.sample("p", None, 9, "w").unwrap().id;
        assert!(state.finish_sample(id, end).is_err());
        assert!(matches!(
            state.messages_handler(1, reply(id, "x")),
            Post::UnknownReply(_)
        ));
    }
}

#[test]
fn what_a_sampling_request_comes_to() {
    let mut state = fresh();
    assert_eq!(
        state.finish_sample(1, SampleEnd::Unsent),
        Err("SSE session closed before sampling request sent".to_string())
    );
    assert_eq!(
        state.finish_sample(1, SampleEnd::TimedOut),
        Err("sampling timed out (60s)".to_string())
    );
    assert_eq!(
        state.finish_sample(1, SampleEnd::Dropped),
        Err("sampling response channel closed".to_string())
    );
    assert_eq!(
        state.finish_sample(1, SampleEnd::Answered(reply(1, "because"))),
        Ok("because".to_string())
    );
}

#[test]
fn an_ended_session_is_refused_and_others_are_not() {
    let mut state = fresh();
    state.open_session(1, "one");
    state.open_session(2, "two");
    state.close_session(1);
    assert_eq!(state.messages_handler(1, parsed("{}")).code(), 404);
    assert_eq!(state.messages_handler(2, parsed("{}")).code(), 202);
}

#[test]
fn methods_are_dispatched_by_name() {
    let mut state = fresh();
    state.record_chat(row(ChatDirection::BackendToDevice, "hi"));
    match state.dispatch(&request("initialize", "null")) {
        Dispatch::Now(v) => assert_eq!(v["serverInfo"]["version"], Value::from("0.1.0")),
        other => panic!("{other:?}"),
    }
    match state.dispatch(&request("tools/list", "{}")) {
        Dispatch::Now(v) => assert_eq!(v["tools"].as_array().unwrap().len(), 5),
        other => panic!("{other:?}"),
    }
    match state.dispatch(&request("resources/list", "{}")) {
        Dispatch::Now(v) => {
            assert_eq!(v, parsed(r#"{"error":"unknown method: resources/list"}"#))
        }
        other => panic!("{other:?}"),
    }
    match state.dispatch(&request("tools/call", r#"{"name":"chat_history"}"#)) {
        Dispatch::Now(v) => {
            assert_eq!(v["isError"], Value::from(false));
            assert_eq!(
                parsed(v["content"][0]["text"].as_str().unwrap()),
                parsed(r#"[{"direction":"backendtodevice","text":"hi"}]"#)
            );
        }
        other => panic!("{other:?}"),
    }
    match state.dispatch(&request("tools/call", r#"{"name":"nope"}"#)) {
        Dispatch::Now(v) => assert_eq!(
            v,
            parsed(r#"{"content":[{"type":"text","text":"unknown tool: nope"}],"isError":true}"#)
        ),
        other => panic!("{other:?}"),
    }
    match state.dispatch(&request(
        "tools/call",
        r#"{"name":"send_echo","arguments":{"text":"x"}}"#,
    )) {
        Dispatch::After(step) => assert_eq!(
            step,
            ToolStep::Echo {
                text: "x".to_string()
            }
        ),
        other => panic!("{other:?}"),
    }
}

#[test]
fn tools_tell_what_happened() {
    let mut state = fresh();
    for i in 0..700 {
        state.record_event(&BackendEvent::ChatReceived {
            text: i.to_string(),
        });
        state.record_event(&BackendEvent::StatusChanged {
            state: format!("S{i}"),
            bt_connected: i % 2 == 0,
            peer_known: true,
        });
    }
    let text = |d: Dispatch| match d {
        Dispatch::Now(v) => parsed(v["content"][0]["text"].as_str().unwrap()),
        other => panic!("{other:?}"),
    };
    let rows = text(state.dispatch(&request(
        "tools/call",
        r#"{"name":"chat_history","arguments":{"limit":512}}"#,
    )));
    let rows = rows.as_array().unwrap();
    assert_eq!(rows.len(), 512);
    assert_eq!(rows[0]["text"], Value::from("188"));
    assert_eq!(rows[511]["text"], Value::from("699"));
    let status = text(state.dispatch(&request("tools/call", r#"{"name":"session_status"}"#)));
    assert_eq!(
        status,
        parsed(r#"{"peer_status":"S699","bt_connected":false,"peer_known":true}"#)
    );
}

#[test]
fn tools_go_on_from_an_old_transcript() {
    let mut state = fresh();
    for i in 0..511 {
        state.record_chat(row(ChatDirection::BackendToDevice, &format!("old{i}")));
    }
    for i in 0..2 {
        state.record_event(&BackendEvent::ChatReceived {
            text: format!("new{i}"),
        });
    }
    assert_eq!(state.history().len(), 512);
    assert_eq!(state.history()[0].text, "old1");
    assert_eq!(state.history()[510].text, "new0");
    assert_eq!(state.history()[511].text, "new1");
    assert_eq!(state.history(), state.history.as_slice());
    assert_eq!(state.status(), &state.status);
    assert_eq!(state.status().peer_status, None);
}
