use ql_link_lab::event::{
    entries_to_json, frame_message, notification, BackendEvent, ChatDirection, ChatEntry,
    StatusSnapshot,
};
use serde_json::Value;

fn parsed(s: &str) -> Value {
    serde_json::from_str(s).unwrap()
}

#[test]
fn chat_events() {
    assert_eq!(
        BackendEvent::ChatReceived {
            text: "hi \"there\"".to_string()
        }
        .to_json(),
        parsed(r#"{"event":"chat.received","text":"hi \"there\""}"#)
    );
    assert_eq!(
        BackendEvent::ChatPushed {
            text: "→".to_string()
        }
        .to_json(),
        parsed(r#"{"event":"chat.pushed","text":"→"}"#)
    );
}

#[test]
fn an_echo_event() {
    assert_eq!(
        BackendEvent::EchoHandled {
            request: "a".to_string(),
            response: "b".to_string(),
            ms: u64::MAX as u128
        }
        .to_json(),
        parsed(
            r#"{"event":"echo.handled","request":"a","response":"b","ms":18446744073709551615}"#
        )
    );
}

#[test]
fn a_status_event() {
    assert_eq!(
        BackendEvent::StatusChanged {
            state: "Connected".to_string(),
            bt_connected: true,
            peer_known: false
        }
        .to_json(),
        parsed(
            r#"{"event":"session.status_changed","state":"Connected","bt_connected":true,"peer_known":false}"#
        )
    );
}

#[test]
fn benchmark_events() {
    assert_eq!(
        BackendEvent::BenchmarkCompleted {
            bytes: 2048,
            secs: Value::from(0.5),
            kibs: Value::from(4.0)
        }
        .to_json(),
        parsed(r#"{"event":"benchmark.completed","bytes":2048,"secs":0.5,"kibs":4.0}"#)
    );
    assert_eq!(
        BackendEvent::DownloadCompleted {
            bytes: 1,
            secs: Value::from(2.0),
            sha256_hex: "ab".to_string()
        }
        .to_json(),
        parsed(r#"{"event":"download.completed","bytes":1,"secs":2.0,"sha256":"ab"}"#)
    );
}

#[test]
fn a_notification_carries_an_event() {
    let frame = notification(&BackendEvent::ChatReceived {
        text: "hi".to_string(),
    });
    assert_eq!(frame.event, "message");
    assert_eq!(
        frame.data,
        r#"{"jsonrpc":"2.0","method":"notifications/message","params":{"data":{"event":"chat.received","text":"hi"},"level":"info"}}"#
    );
}

#[test]
fn a_framed_message_is_compact() {
    let frame = frame_message(&parsed(r#"{ "b" : [1, -2, null], "a" : true }"#));
    assert_eq!(frame.event, "message");
    assert_eq!(frame.data, r#"{"a":true,"b":[1,-2,null]}"#);
}

#[test]
fn rows_of_the_history() {
    let rows = [
        ChatEntry {
            direction: ChatDirection::DeviceToBackend,
            text: "q".to_string(),
        },
        ChatEntry {
            direction: ChatDirection::BackendToDevice,
            text: "a".to_string(),
        },
    ];
    assert_eq!(
        entries_to_json(&rows),
        parsed(
            r#"[{"direction":"devicetobackend","text":"q"},{"direction":"backendtodevice","text":"a"}]"#
        )
    );
    assert_eq!(entries_to_json(&[]), parsed("[]"));
}

#[test]
fn a_status() {
    assert_eq!(
        StatusSnapshot::default().to_json(),
        parsed(r#"{"peer_status":null,"bt_connected":false,"peer_known":false}"#)
    );
    assert_eq!(
        StatusSnapshot {
            peer_status: Some("Connected".to_string()),
            bt_connected: true,
            peer_known: true
        }
        .to_json(),
        parsed(r#"{"peer_status":"Connected","bt_connected":true,"peer_known":true}"#)
    );
}

#[test]
fn event_kinds_have_names_of_their_own() {
    let events = [
        BackendEvent::ChatReceived {
            text: String::new(),
        },
        BackendEvent::ChatPushed {
            text: String::new(),
        },
        BackendEvent::EchoHandled {
            request: String::new(),
            response: String::new(),
            ms: 0,
        },
        BackendEvent::StatusChanged {
            state: String::new(),
            bt_connected: false,
            peer_known: false,
        },
        BackendEvent::BenchmarkCompleted {
            bytes: 0,
            secs: Value::Null,
            kibs: Value::Null,
        },
        BackendEvent::DownloadCompleted {
            bytes: 0,
            secs: Value::Null,
            sha256_hex: String::new(),
        },
    ];
    let mut names: Vec<String> = events
        .iter()
        .map(|e| e.to_json()["event"].as_str().unwrap().to_string())
        .collect();
    names.sort();
    names.dedup();
    assert_eq!(names.len(), 6);
}
