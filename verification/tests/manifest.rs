use ql_link_lab::event::StatusSnapshot;
use ql_link_lab::manifest::{initialize, tools_list};
use ql_link_lab::rpc::{tool_call, ToolStep};
use serde_json::Value;

#[test]
fn the_handshake() {
    let expected: Value = serde_json::from_str(
        r#"{
            "protocolVersion": "2024-11-05",
            "capabilities": {"tools": {}, "resources": {}, "logging": {}},
            "serverInfo": {"name": "ql-link-lab", "version": "0.1.0"}
        }"#,
    )
    .unwrap();
    assert_eq!(initialize("0.1.0"), expected);
}

#[test]
fn the_tools() {
    let expected: Value = serde_json::from_str(
        r#"{
            "tools": [
                {
                    "name": "chat_send",
                    "description": "Push a one-line chat message from the backend to the paired KeyOS device (route 101 / ChatPush).",
                    "inputSchema": {
                        "type": "object",
                        "properties": {
                            "text": {"type": "string", "description": "Message body"}
                        },
                        "required": ["text"]
                    }
                },
                {
                    "name": "session_status",
                    "description": "Return the current QL v2 session status (peer state, bt link, peer known).",
                    "inputSchema": {"type": "object", "properties": {}}
                },
                {
                    "name": "chat_history",
                    "description": "Return the last N chat messages (both directions) the backend has seen since startup.",
                    "inputSchema": {
                        "type": "object",
                        "properties": {
                            "limit": {"type": "integer", "minimum": 1, "maximum": 512, "default": 50}
                        }
                    }
                },
                {
                    "name": "send_echo",
                    "description": "Drive the device's Echo RPC (route 1). Useful to verify round-trip.",
                    "inputSchema": {
                        "type": "object",
                        "properties": {
                            "text": {"type": "string"}
                        },
                        "required": ["text"]
                    }
                },
                {
                    "name": "sample",
                    "description": "Issue a sampling/createMessage request back to the connected MCP client and return its reply. Requires a sampling-capable client (MCP Inspector, Cline, etc).",
                    "inputSchema": {
                        "type": "object",
                        "properties": {
                            "prompt": {"type": "string"},
                            "system_prompt": {"type": "string"},
                            "max_tokens": {"type": "integer", "minimum": 1, "maximum": 4096, "default": 200}
                        },
                        "required": ["prompt"]
                    }
                }
            ]
        }"#,
    )
    .unwrap();
    assert_eq!(tools_list(), expected);
}

#[test]
fn listed_tools_are_known() {
    let list = tools_list();
    for tool in list["tools"].as_array().unwrap() {
        let name = tool["name"].as_str().unwrap();
        let params = serde_json::from_str(&format!(r#"{{"name":"{name}"}}"#)).unwrap();
        let step = tool_call(true, &[], &StatusSnapshot::default(), &params);
        assert_ne!(step, ToolStep::Done(Err(format!("unknown tool: {name}"))));
    }
}
