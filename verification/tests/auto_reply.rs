use ql_link_lab::auto_reply::{auto_reply, reply_to_push};
use ql_link_lab::event::{BackendEvent, ChatDirection};
use ql_link_lab::mcp::McpState;
use ql_link_lab::rpc::ToolStep;

#[test]
fn a_chat_line_asks_the_model() {
    let line = BackendEvent::ChatReceived {
        text: "hello?".to_string(),
    };
    assert_eq!(
        auto_reply(&line),
        Some(ToolStep::Sample {
            prompt: "hello?".to_string(),
            system_prompt: Some(
                "You are an AI assistant chatting with a KeyOS Passport Prime hardware wallet user. \
                 Keep replies short (one or two sentences), warm, and informational. \
                 You are bridged via QL v2 → relay → ql-link-lab backend → MCP sampling."
                    .to_string()
            ),
            max_tokens: 200
        })
    );
}

#[test]
fn other_events_do_not() {
    assert_eq!(
        auto_reply(&BackendEvent::ChatPushed {
            text: "hello?".to_string()
        }),
        None
    );
    assert_eq!(
        auto_reply(&BackendEvent::StatusChanged {
            state: "Connected".to_string(),
            bt_connected: true,
            peer_known: true
        }),
        None
    );
}

#[test]
fn a_reply_is_pushed_where_chat_is_on() {
    assert_eq!(
        reply_to_push(true, Ok("hi".to_string())),
        Some("hi".to_string())
    );
    assert_eq!(reply_to_push(false, Ok("hi".to_string())), None);
    assert_eq!(reply_to_push(true, Err("no".to_string())), None);
}

#[test]
fn line_and_reply_stand_side_by_side() {
    let mut state: McpState<u8, u8> = McpState::new(true, String::new());
    for i in 0..600 {
        state.record_event(&BackendEvent::ChatReceived {
            text: i.to_string(),
        });
    }
    state.record_event(&BackendEvent::ChatReceived {
        text: "q".to_string(),
    });
    state.record_event(&BackendEvent::ChatPushed {
        text: "a".to_string(),
    });
    let n = state.history.len();
    assert_eq!(n, 512);
    assert_eq!(state.history[n - 2].text, "q");
    assert_eq!(state.history[n - 2].direction, ChatDirection::DeviceToBackend);
    assert_eq!(state.history[n - 1].text, "a");
    assert_eq!(state.history[n - 1].direction, ChatDirection::BackendToDevice);
}
