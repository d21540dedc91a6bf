//! What the backend tells a model client: events, the chat transcript and the session status.

use crate::json::{
    compact, count, flag, json_of, json_text, jsons, list, member, members, no_members, null,
    object, put, text, Json,
};
use serde_json::Value;
use vstd::prelude::*;

verus! {

/// Which way a chat message flew.
#[derive(Clone, Copy, Debug, PartialEq, Eq, Structural)]
pub enum ChatDirection {
    DeviceToBackend,
    BackendToDevice,
}

/// One row of the chat history.
#[derive(Clone, Debug, PartialEq, Eq)]
pub struct ChatEntry {
    pub direction: ChatDirection,
    pub text: String,
}

/// The last known status of the session.
#[derive(Clone, Debug, PartialEq, Eq)]
pub struct StatusSnapshot {
    /// The peer status by its name, once one is known.
    pub peer_status: Option<String>,
    pub bt_connected: bool,
    pub peer_known: bool,
}

impl Default for StatusSnapshot {
    /// Nothing is known and nothing is connected.
    fn default() -> (s: StatusSnapshot)
        ensures
            s == unknown_status(),
    {
        StatusSnapshot { peer_status: None, bt_connected: false, peer_known: false }
    }
}

/// The status before any was reported.
pub open spec fn unknown_status() -> StatusSnapshot {
    StatusSnapshot { peer_status: None, bt_connected: false, peer_known: false }
}

/// Anything that the backend wants the model to know about.
#[derive(Clone, Debug)]
pub enum BackendEvent {
    /// A chat line came from the device.
    ChatReceived { text: String },
    /// A chat line was pushed to the device.
    ChatPushed { text: String },
    /// An echo made its round trip.
    EchoHandled { request: String, response: String, ms: u128 },
    /// The peer status moved; `state` is its name.
    StatusChanged { state: String, bt_connected: bool, peer_known: bool },
    /// A benchmark stream is through: bytes, seconds and KiB per second, the last two as JSON
    /// numbers.
    BenchmarkCompleted { bytes: usize, secs: Value, kibs: Value },
    /// A download is through; `secs` is a JSON number.
    DownloadCompleted { bytes: usize, secs: Value, sha256_hex: String },
}

/// An event as the client sees it; the member `event` tells the kinds apart.
pub open spec fn event_json(e: BackendEvent) -> Json {
    Json::Object(
        match e {
            BackendEvent::ChatReceived { text } => no_members().insert(
                "event"@,
                Json::Text("chat.received"@),
            ).insert("text"@, Json::Text(text@)),
            BackendEvent::ChatPushed { text } => no_members().insert(
                "event"@,
                Json::Text("chat.pushed"@),
            ).insert("text"@, Json::Text(text@)),
            BackendEvent::EchoHandled { request, response, ms } => no_members().insert(
                "event"@,
                Json::Text("echo.handled"@),
            ).insert("request"@, Json::Text(request@)).insert(
                "response"@,
                Json::Text(response@),
            ).insert("ms"@, Json::Int(ms as int)),
            BackendEvent::StatusChanged { state, bt_connected, peer_known } => no_members().insert(
                "event"@,
                Json::Text("session.status_changed"@),
            ).insert("state"@, Json::Text(state@)).insert(
                "bt_connected"@,
                Json::Bool(bt_connected),
            ).insert("peer_known"@, Json::Bool(peer_known)),
            BackendEvent::BenchmarkCompleted { bytes, secs, kibs } => no_members().insert(
                "event"@,
                Json::Text("benchmark.completed"@),
            ).insert("bytes"@, Json::Int(bytes as int)).insert("secs"@, json_of(secs)).insert(
                "kibs"@,
                json_of(kibs),
            ),
            BackendEvent::DownloadCompleted { bytes, secs, sha256_hex } => no_members().insert(
                "event"@,
                Json::Text("download.completed"@),
            ).insert("bytes"@, Json::Int(bytes as int)).insert("secs"@, json_of(secs)).insert(
                "sha256"@,
                Json::Text(sha256_hex@),
            ),
        },
    )
}

/// Whether an event's numbers fit in JSON as serde_json holds it.
pub open spec fn event_fits(e: BackendEvent) -> bool {
    e matches BackendEvent::EchoHandled { ms, .. } ==> ms <= u64::MAX
}

impl BackendEvent {
    /// The event as JSON.
    pub fn to_json(&self) -> (v: Value)
        requires
            event_fits(*self),
        ensures
            json_of(v) == event_json(*self),
    {
        let mut m = members();
        match self {
            BackendEvent::ChatReceived { text: line } => {
                put(&mut m, "event", text("chat.received"));
                put(&mut m, "text", text(line.as_str()));
            },
            BackendEvent::ChatPushed { text: line } => {
                put(&mut m, "event", text("chat.pushed"));
                put(&mut m, "text", text(line.as_str()));
            },
            BackendEvent::EchoHandled { request, response, ms } => {
                put(&mut m, "event", text("echo.handled"));
                put(&mut m, "request", text(request.as_str()));
                put(&mut m, "response", text(response.as_str()));
                put(&mut m, "ms", count(*ms as u64));
            },
            BackendEvent::StatusChanged { state, bt_connected, peer_known } => {
                put(&mut m, "event", text("session.status_changed"));
                put(&mut m, "state", text(state.as_str()));
                put(&mut m, "bt_connected", flag(*bt_connected));
                put(&mut m, "peer_known", flag(*peer_known));
            },
            BackendEvent::BenchmarkCompleted { bytes, secs, kibs } => {
                put(&mut m, "event", text("benchmark.completed"));
                put(&mut m, "bytes", count(*bytes as u64));
                put(&mut m, "secs", secs.clone());
                put(&mut m, "kibs", kibs.clone());
            },
            BackendEvent::DownloadCompleted { bytes, secs, sha256_hex } => {
                put(&mut m, "event", text("download.completed"));
                put(&mut m, "bytes", count(*bytes as u64));
                put(&mut m, "secs", secs.clone());
                put(&mut m, "sha256", text(sha256_hex.as_str()));
            },
        }
        object(m)
    }
}

/// The name of an event's kind.
pub open spec fn event_name(e: BackendEvent) -> Seq<char> {
    match e {
        BackendEvent::ChatReceived { .. } => "chat.received"@,
        BackendEvent::ChatPushed { .. } => "chat.pushed"@,
        BackendEvent::EchoHandled { .. } => "echo.handled"@,
        BackendEvent::StatusChanged { .. } => "session.status_changed"@,
        BackendEvent::BenchmarkCompleted { .. } => "benchmark.completed"@,
        BackendEvent::DownloadCompleted { .. } => "download.completed"@,
    }
}

/// Whether two events are of one kind.
pub open spec fn same_kind(a: BackendEvent, b: BackendEvent) -> bool {
    match a {
        BackendEvent::ChatReceived { .. } => b is ChatReceived,
        BackendEvent::ChatPushed { .. } => b is ChatPushed,
        BackendEvent::EchoHandled { .. } => b is EchoHandled,
        BackendEvent::StatusChanged { .. } => b is StatusChanged,
        BackendEvent::BenchmarkCompleted { .. } => b is BenchmarkCompleted,
        BackendEvent::DownloadCompleted { .. } => b is DownloadCompleted,
    }
}

/// A client can tell the kinds of events apart by the member `event` alone.
pub proof fn events_are_told_apart(a: BackendEvent, b: BackendEvent)
    ensures
        member(event_json(a), "event"@) == Some(Json::Text(event_name(a))),
        event_name(a) == event_name(b) <==> same_kind(a, b),
{
    reveal_strlit("event");
    reveal_strlit("text");
    reveal_strlit("request");
    reveal_strlit("response");
    reveal_strlit("ms");
    reveal_strlit("state");
    reveal_strlit("bt_connected");
    reveal_strlit("peer_known");
    reveal_strlit("bytes");
    reveal_strlit("secs");
    reveal_strlit("kibs");
    reveal_strlit("sha256");
    assert("event"@[0] == 'e' && "state"@[0] == 's' && "bytes"@[0] == 'b');
    reveal_strlit("chat.received");
    reveal_strlit("chat.pushed");
    reveal_strlit("echo.handled");
    reveal_strlit("session.status_changed");
    reveal_strlit("benchmark.completed");
    reveal_strlit("download.completed");
    assert("chat.received"@.len() == 13 && "chat.pushed"@.len() == 11);
    assert("echo.handled"@.len() == 12 && "session.status_changed"@.len() == 22);
    assert("benchmark.completed"@.len() == 19 && "download.completed"@.len() == 18);
}

/// One event of a server-sent event stream.
#[derive(Clone, Debug, PartialEq, Eq)]
pub struct SseFrame {
    pub event: String,
    pub data: String,
}

impl View for SseFrame {
    type V = (Seq<char>, Seq<char>);

    open spec fn view(&self) -> (Seq<char>, Seq<char>) {
        (self.event@, self.data@)
    }
}

/// The frame that carries a JSON-RPC message.
pub open spec fn message_frame(j: Json) -> (Seq<char>, Seq<char>) {
    ("message"@, json_text(j))
}

/// Frames a JSON-RPC message.
pub fn frame_message(v: &Value) -> (f: SseFrame)
    ensures
        f@ == message_frame(json_of(*v)),
{
    SseFrame { event: "message".to_owned(), data: compact(v) }
}

/// The notification that carries an event.
pub open spec fn notification_json(e: BackendEvent) -> Json {
    Json::Object(
        no_members().insert("jsonrpc"@, Json::Text("2.0"@)).insert(
            "method"@,
            Json::Text("notifications/message"@),
        ).insert(
            "params"@,
            Json::Object(
                no_members().insert("level"@, Json::Text("info"@)).insert("data"@, event_json(e)),
            ),
        ),
    )
}

/// The notification that carries an event, framed.
pub fn notification(e: &BackendEvent) -> (f: SseFrame)
    requires
        event_fits(*e),
    ensures
        f@ == message_frame(notification_json(*e)),
{
    let mut params = members();
    put(&mut params, "level", text("info"));
    put(&mut params, "data", e.to_json());
    let mut m = members();
    put(&mut m, "jsonrpc", text("2.0"));
    put(&mut m, "method", text("notifications/message"));
    put(&mut m, "params", object(params));
    frame_message(&object(m))
}

/// The wire name of a direction.
pub open spec fn direction_name(d: ChatDirection) -> Seq<char> {
    match d {
        ChatDirection::DeviceToBackend => "devicetobackend"@,
        ChatDirection::BackendToDevice => "backendtodevice"@,
    }
}

/// A row of the history as the client sees it.
pub open spec fn entry_json(e: ChatEntry) -> Json {
    Json::Object(
        no_members().insert("direction"@, Json::Text(direction_name(e.direction))).insert(
            "text"@,
            Json::Text(e.text@),
        ),
    )
}

/// Rows of the history as the client sees them.
pub open spec fn entries_json(es: Seq<ChatEntry>) -> Json {
    Json::List(es.map_values(|e: ChatEntry| entry_json(e)))
}

impl ChatEntry {
    /// The row as JSON.
    pub fn to_json(&self) -> (v: Value)
        ensures
            json_of(v) == entry_json(*self),
    {
        let mut m = members();
        let name: &str = match self.direction {
            ChatDirection::DeviceToBackend => "devicetobackend",
            ChatDirection::BackendToDevice => "backendtodevice",
        };
        put(&mut m, "direction", text(name));
        put(&mut m, "text", text(self.text.as_str()));
        object(m)
    }
}

/// Rows of the history as JSON.
pub fn entries_to_json(es: &[ChatEntry]) -> (v: Value)
    ensures
        json_of(v) == entries_json(es@),
{
    let mut items: Vec<Value> = Vec::new();
    let mut i: usize = 0;
    while i < es.len()
        invariant
            i <= es@.len(),
            items@.len() == i,
            forall|k: int| 0 <= k < i ==> json_of(#[trigger] items@[k]) == entry_json(es@[k]),
        decreases es@.len() - i,
    {
        items.push(es[i].to_json());
        i += 1;
    }
    assert(jsons(items@) =~= es@.map_values(|e: ChatEntry| entry_json(e)));
    list(items)
}

/// A status as the client sees it.
pub open spec fn status_json(s: StatusSnapshot) -> Json {
    Json::Object(
        no_members().insert(
            "peer_status"@,
            match s.peer_status {
                Some(name) => Json::Text(name@),
                None => Json::Null,
            },
        ).insert("bt_connected"@, Json::Bool(s.bt_connected)).insert(
            "peer_known"@,
            Json::Bool(s.peer_known),
        ),
    )
}

impl StatusSnapshot {
    /// The status as JSON.
    pub fn to_json(&self) -> (v: Value)
        ensures
            json_of(v) == status_json(*self),
    {
        let mut m = members();
        let name: Value = match &self.peer_status {
            Some(name) => text(name.as_str()),
            None => null(),
        };
        put(&mut m, "peer_status", name);
        put(&mut m, "bt_connected", flag(self.bt_connected));
        put(&mut m, "peer_known", flag(self.peer_known));
        object(m)
    }
}

/// What the client sees of each event, member by member.
pub proof fn events_are_told_in_full(
    a: String,
    b: String,
    ms: u128,
    bt_connected: bool,
    peer_known: bool,
    bytes: usize,
    secs: Value,
    kibs: Value,
)
    ensures
        event_json(BackendEvent::ChatReceived { text: a }) == Json::Object(
            map!["event"@ => Json::Text("chat.received"@), "text"@ => Json::Text(a@)],
        ),
        event_json(BackendEvent::ChatPushed { text: a }) == Json::Object(
            map!["event"@ => Json::Text("chat.pushed"@), "text"@ => Json::Text(a@)],
        ),
        event_json(BackendEvent::EchoHandled { request: a, response: b, ms }) == Json::Object(
            map![
                "event"@ => Json::Text("echo.handled"@),
                "request"@ => Json::Text(a@),
                "response"@ => Json::Text(b@),
                "ms"@ => Json::Int(ms as int)
            ],
        ),
        event_json(BackendEvent::StatusChanged { state: a, bt_connected, peer_known })
            == Json::Object(
            map![
                "event"@ => Json::Text("session.status_changed"@),
                "state"@ => Json::Text(a@),
                "bt_connected"@ => Json::Bool(bt_connected),
                "peer_known"@ => Json::Bool(peer_known)
            ],
        ),
        event_json(BackendEvent::BenchmarkCompleted { bytes, secs, kibs }) == Json::Object(
            map![
                "event"@ => Json::Text("benchmark.completed"@),
                "bytes"@ => Json::Int(bytes as int),
                "secs"@ => json_of(secs),
                "kibs"@ => json_of(kibs)
            ],
        ),
        event_json(BackendEvent::DownloadCompleted { bytes, secs, sha256_hex: a }) == Json::Object(
            map![
                "event"@ => Json::Text("download.completed"@),
                "bytes"@ => Json::Int(bytes as int),
                "secs"@ => json_of(secs),
                "sha256"@ => Json::Text(a@)
            ],
        ),
{
}

/// Every event reaches the client as a notification that carries it whole, in a frame that holds
/// the text of the message and nothing else.
pub proof fn notifications_carry_their_event(e: BackendEvent, j: Json, f: SseFrame)
    ensures
        notification_json(e) == Json::Object(
            map![
                "jsonrpc"@ => Json::Text("2.0"@),
                "method"@ => Json::Text("notifications/message"@),
                "params"@ => Json::Object(
                    map!["level"@ => Json::Text("info"@), "data"@ => event_json(e)],
                )
            ],
        ),
        message_frame(j) == ("message"@, json_text(j)),
        f@ == (f.event@, f.data@),
        event_fits(e) <==> (e matches BackendEvent::EchoHandled { ms, .. } ==> ms
            <= 0xffff_ffff_ffff_ffff),
{
}

/// What the client sees of the transcript: every row, in its order, with its direction and its
/// text.
pub proof fn rows_are_told_in_full(rows: Seq<ChatEntry>, text: String)
    ensures
        entry_json(ChatEntry { direction: ChatDirection::DeviceToBackend, text }) == Json::Object(
            map![
                "direction"@ => Json::Text("devicetobackend"@),
                "text"@ => Json::Text(text@)
            ],
        ),
        entry_json(ChatEntry { direction: ChatDirection::BackendToDevice, text }) == Json::Object(
            map![
                "direction"@ => Json::Text("backendtodevice"@),
                "text"@ => Json::Text(text@)
            ],
        ),
        entries_json(rows) matches Json::List(items) && items.len() == rows.len() && forall|i: int|
            0 <= i < rows.len() ==> #[trigger] items[i] == entry_json(rows[i]),
{
}

/// What the client sees of the status.
pub proof fn a_status_is_told_in_full(name: String, bt_connected: bool, peer_known: bool)
    ensures
        status_json(StatusSnapshot { peer_status: Some(name), bt_connected, peer_known })
            == Json::Object(
            map![
                "peer_status"@ => Json::Text(name@),
                "bt_connected"@ => Json::Bool(bt_connected),
                "peer_known"@ => Json::Bool(peer_known)
            ],
        ),
        status_json(StatusSnapshot { peer_status: None, bt_connected, peer_known }) == Json::Object(
            map![
                "peer_status"@ => Json::Null,
                "bt_connected"@ => Json::Bool(bt_connected),
                "peer_known"@ => Json::Bool(peer_known)
            ],
        ),
        unknown_status() == (StatusSnapshot {
            peer_status: None,
            bt_connected: false,
            peer_known: false,
        }),
{
}

} // verus!
