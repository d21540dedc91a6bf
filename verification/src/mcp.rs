//! The MCP server: sessions, the chat transcript, client requests and server requests.
//!
//! The state is generic in what a session is written to (`S`) and in what waits for the reply to
//! a server request (`W`): it stores them and hands them out, and never looks into them.

use crate::event::{
    entries_json, frame_message, message_frame, status_json, unknown_status, BackendEvent,
    ChatDirection, ChatEntry, SseFrame, StatusSnapshot,
};
use crate::json::{json_of, json_pretty, not_a_string, Json};
use crate::manifest::{handshake, initialize, tool_list, tools_list};
use crate::rpc::{
    called, chat_history_call, error_json, error_value, has_no_text, has_text, history_limit,
    incoming, messages_are_built_of_their_members, messages_are_told_apart, read_message,
    sampled_text, sampling_arguments_are_passed_on, sampling_json, sampling_reply,
    sampling_request, session_status_call, str_if_any, texts, texts_are_passed_on, tool_call,
    tool_result, tool_result_json, tools_are_called_by_name, Call, ClientMessage, Incoming,
    JsonRpcRequest, ToolStep,
};
use crate::session_id::{endpoint, random_uuid, session_path};
use crate::text::{join, same};
use serde_json::Value;
use std::collections::HashMap;
use vstd::prelude::*;

verus! {

broadcast use vstd::std_specs::hash::group_hash_axioms;

/// Chat entries that are kept; older ones are dropped.
pub const CHAT_HISTORY_LIMIT: usize = 512;

/// How many chat entries `chat_history` returns unless told otherwise.
pub const DEFAULT_HISTORY: u64 = 50;

/// How many tokens `sample` asks for unless told otherwise.
pub const DEFAULT_TOKENS: u64 = 200;

/// How long a sampling request may stay unanswered.
pub const SAMPLING_TIMEOUT_SECS: u64 = 60;

/// Everything that the server knows.
#[verifier::ext_equal]
pub struct Server<S, W> {
    /// The chat transcript, oldest entry first.
    pub history: Seq<ChatEntry>,
    pub status: StatusSnapshot,
    /// The open sessions by their ids.
    pub sessions: Map<u128, S>,
    /// The session that was opened last: server requests go there.
    pub primary: Option<S>,
    /// The id of the next server request.
    pub next_id: i64,
    /// What waits for the replies to server requests, by their ids.
    pub pending: Map<i64, W>,
    /// Whether chat lines can be pushed to the device.
    pub chat: bool,
    pub version: Seq<char>,
}

/// The state of the server.
pub struct McpState<S, W> {
    /// Rolling chat history.
    pub history: Vec<ChatEntry>,
    /// Last known session status.
    pub status: StatusSnapshot,
    sessions: HashMap<u128, S>,
    primary_session: Option<S>,
    next_request_id: i64,
    pending: HashMap<i64, W>,
    chat: bool,
    version: String,
}

impl<S, W> View for McpState<S, W> {
    type V = Server<S, W>;

    closed spec fn view(&self) -> Server<S, W> {
        Server {
            history: self.history@,
            status: self.status,
            sessions: self.sessions@,
            primary: self.primary_session,
            next_id: self.next_request_id,
            pending: self.pending@,
            chat: self.chat,
            version: self.version@,
        }
    }
}

/// The last `n` of `s`, or all of them.
pub open spec fn last_of<T>(s: Seq<T>, n: int) -> Seq<T> {
    if s.len() <= n {
        s
    } else {
        s.skip(s.len() - n)
    }
}

/// The transcript after an entry: the oldest ones go where there would be too many.
pub open spec fn recorded(history: Seq<ChatEntry>, entry: ChatEntry) -> Seq<ChatEntry> {
    last_of(history.push(entry), CHAT_HISTORY_LIMIT as int)
}

/// The transcript after a run of entries.
pub open spec fn recorded_all(history: Seq<ChatEntry>, entries: Seq<ChatEntry>) -> Seq<ChatEntry>
    decreases entries.len(),
{
    if entries.len() == 0 {
        history
    } else {
        recorded(recorded_all(history, entries.drop_last()), entries.last())
    }
}

/// The row that a chat event adds to the transcript, if it is one.
pub open spec fn chat_row(e: BackendEvent) -> Option<ChatEntry> {
    match e {
        BackendEvent::ChatReceived { text } => Some(
            ChatEntry { direction: ChatDirection::DeviceToBackend, text },
        ),
        BackendEvent::ChatPushed { text } => Some(
            ChatEntry { direction: ChatDirection::BackendToDevice, text },
        ),
        _ => None,
    }
}

/// The state after an event: chat lines of both directions are recorded, a status change
/// rewrites the snapshot, and nothing else leaves a trace.
pub open spec fn observed<S, W>(s: Server<S, W>, e: BackendEvent) -> Server<S, W> {
    match e {
        BackendEvent::StatusChanged { state, bt_connected, peer_known } => Server {
            status: StatusSnapshot { peer_status: Some(state), bt_connected, peer_known },
            ..s
        },
        _ => match chat_row(e) {
            Some(row) => Server { history: recorded(s.history, row), ..s },
            None => s,
        },
    }
}

/// The state once session `id` is open: server requests go to it from now on.
pub open spec fn opened<S, W>(s: Server<S, W>, id: u128, tx: S, primary: S) -> Server<S, W> {
    Server { sessions: s.sessions.insert(id, tx), primary: Some(primary), ..s }
}

/// The state once the stream of session `id` has ended.
pub open spec fn ended<S, W>(s: Server<S, W>, id: u128) -> Server<S, W> {
    Server { sessions: s.sessions.remove(id), ..s }
}

/// The request id after `id`.
pub open spec fn following(id: i64) -> i64 {
    if id == i64::MAX {
        i64::MIN
    } else {
        (id + 1) as i64
    }
}

/// The state once a server request is on its way: it has the next id.
pub open spec fn asked<S, W>(s: Server<S, W>, waiter: W) -> Server<S, W> {
    Server {
        next_id: following(s.next_id),
        pending: s.pending.insert(s.next_id, waiter),
        ..s
    }
}

/// The state once nothing waits for the reply to request `id` any more.
pub open spec fn forgotten<S, W>(s: Server<S, W>, id: i64) -> Server<S, W> {
    Server { pending: s.pending.remove(id), ..s }
}

/// What comes of a message that was posted.
#[verifier::ext_equal]
pub enum Posted<S, W> {
    /// There is no such session.
    UnknownSession,
    /// A request that cannot be read; the text says why.
    Malformed(Seq<char>),
    /// A request; its response goes to `to`.
    Request { to: S, id: Json, method: Seq<char>, params: Json },
    /// The reply that `waiter` waits for.
    Reply { waiter: W, body: Json },
    /// A reply that nothing waits for.
    UnknownReply(i64),
    /// Neither a request nor a reply.
    Neither,
}

/// What comes of a message that is posted to `session`, and the state after it.
pub open spec fn posted<S, W>(s: Server<S, W>, session: u128, body: Json) -> (
    Server<S, W>,
    Posted<S, W>,
) {
    if !s.sessions.contains_key(session) {
        (s, Posted::UnknownSession)
    } else {
        match incoming(body) {
            Incoming::Malformed(e) => (s, Posted::Malformed(e)),
            Incoming::Request { id, method, params } => (
                s,
                Posted::Request { to: s.sessions[session], id, method, params },
            ),
            Incoming::Reply(n) => {
                let id = n as i64;
                if s.pending.contains_key(id) {
                    (forgotten(s, id), Posted::Reply { waiter: s.pending[id], body })
                } else {
                    (s, Posted::UnknownReply(id))
                }
            },
            Incoming::Neither => (s, Posted::Neither),
        }
    }
}

/// What comes of a message that was posted.
#[derive(Debug)]
pub enum Post<'a, S, W> {
    /// There is no such session.
    UnknownSession,
    /// A request that cannot be read; the text says why.
    Malformed(String),
    /// A request: dispatch it and send the response to `to`.
    Request { to: &'a S, request: JsonRpcRequest },
    /// A reply: hand `body` to `waiter`.
    Reply { waiter: W, body: Value },
    /// A reply that nothing waits for.
    UnknownReply(i64),
    /// Neither a request nor a reply.
    Neither,
}

impl<'a, S, W> View for Post<'a, S, W> {
    type V = Posted<S, W>;

    open spec fn view(&self) -> Posted<S, W> {
        match self {
            Post::UnknownSession => Posted::UnknownSession,
            Post::Malformed(e) => Posted::Malformed(e@),
            Post::Request { to, request } => Posted::Request {
                to: **to,
                id: json_of(request.id),
                method: request.method@,
                params: json_of(request.params),
            },
            Post::Reply { waiter, body } => Posted::Reply { waiter: *waiter, body: json_of(*body) },
            Post::UnknownReply(id) => Posted::UnknownReply(*id),
            Post::Neither => Posted::Neither,
        }
    }
}

/// The status code that answers a post: 404 to an unknown session, 400 to a request that cannot
/// be read, and otherwise 202, as the response itself goes out over the stream.
pub open spec fn post_code<S, W>(p: Posted<S, W>) -> u16 {
    match p {
        Posted::UnknownSession => 404,
        Posted::Malformed(_) => 400,
        _ => 202,
    }
}

/// The body that answers a post, where it is refused.
pub open spec fn refusal<S, W>(p: Posted<S, W>) -> Option<Json> {
    match p {
        Posted::UnknownSession => Some(error_json("unknown session id"@)),
        Posted::Malformed(e) => Some(error_json("malformed JSON-RPC request: "@ + e)),
        _ => None,
    }
}

impl<'a, S, W> Post<'a, S, W> {
    /// The status code that answers the post.
    pub fn code(&self) -> (c: u16)
        ensures
            c == post_code(self@),
    {
        match self {
            Post::UnknownSession => 404,
            Post::Malformed(_) => 400,
            _ => 202,
        }
    }

    /// The body that answers the post, where it is refused.
    pub fn refusal(&self) -> (r: Option<Value>)
        ensures
            match r {
                Some(v) => refusal(self@) == Some(json_of(v)),
                None => refusal(self@) is None,
            },
    {
        match self {
            Post::UnknownSession => Some(error_value("unknown session id")),
            Post::Malformed(e) => Some(
                error_value(join("malformed JSON-RPC request: ", e.as_str()).as_str()),
            ),
            _ => None,
        }
    }
}

/// What a request is answered.
#[verifier::ext_equal]
pub enum Answer {
    /// The result is there.
    Now(Json),
    /// Work for the device or the client comes first; its outcome is wrapped as a tool result.
    After(Call),
}

/// What a request is answered.
#[derive(Debug)]
pub enum Dispatch {
    /// The result is there.
    Now(Value),
    /// Work for the device or the client comes first; its outcome is wrapped by `tool_result`.
    After(ToolStep),
}

impl View for Dispatch {
    type V = Answer;

    open spec fn view(&self) -> Answer {
        match self {
            Dispatch::Now(v) => Answer::Now(json_of(*v)),
            Dispatch::After(t) => Answer::After(t@),
        }
    }
}

/// The answer to a request by its method; an unknown method gets an error object.
pub open spec fn dispatched<S, W>(s: Server<S, W>, method: Seq<char>, params: Json) -> Answer {
    if method == "initialize"@ {
        Answer::Now(handshake(s.version))
    } else if method == "tools/list"@ {
        Answer::Now(tool_list())
    } else if method == "tools/call"@ {
        match called(s.chat, s.history, s.status, params) {
            Call::Done(r) => Answer::Now(tool_result_json(r)),
            call => Answer::After(call),
        }
    } else {
        Answer::Now(error_json("unknown method: "@ + method))
    }
}

/// How a sampling request ended.
#[derive(Debug)]
pub enum SampleEnd {
    /// The session's stream was gone before the request could be sent.
    Unsent,
    /// No reply came in time.
    TimedOut,
    /// The waiter was dropped.
    Dropped,
    /// The client replied.
    Answered(Value),
}

/// What a sampling request comes to.
pub open spec fn sampled(end: SampleEnd) -> Result<Seq<char>, Seq<char>> {
    match end {
        SampleEnd::Unsent => Err("SSE session closed before sampling request sent"@),
        SampleEnd::TimedOut => Err("sampling timed out (60s)"@),
        SampleEnd::Dropped => Err("sampling response channel closed"@),
        SampleEnd::Answered(reply) => sampled_text(json_of(reply)),
    }
}

/// The state once a sampling request has ended: one that was not answered is forgotten.
pub open spec fn after_sample<S, W>(s: Server<S, W>, id: i64, end: SampleEnd) -> Server<S, W> {
    match end {
        SampleEnd::Unsent => forgotten(s, id),
        SampleEnd::TimedOut => forgotten(s, id),
        _ => s,
    }
}

/// A server request that is to be sent.
#[derive(Debug)]
pub struct ServerRequest<'a, S> {
    pub id: i64,
    pub to: &'a S,
    pub frame: SseFrame,
}

impl<S, W> McpState<S, W> {
    /// Fresh state with empty history, no sessions, and a clean id counter.
    pub fn new(chat: bool, version: String) -> (st: McpState<S, W>)
        ensures
            st@ == (Server::<S, W> {
                history: Seq::empty(),
                status: unknown_status(),
                sessions: Map::empty(),
                primary: None,
                next_id: 1,
                pending: Map::empty(),
                chat,
                version: version@,
            }),
            ids_are_used_once(st@),
    {
        let st = McpState {
            history: Vec::new(),
            status: StatusSnapshot::default(),
            sessions: HashMap::new(),
            primary_session: None,
            next_request_id: 1,
            pending: HashMap::new(),
            chat,
            version,
        };
        assert(st@.history =~= Seq::empty());
        assert(st@.sessions =~= Map::empty());
        assert(st@.pending =~= Map::empty());
        st
    }

    /// The chat transcript, oldest entry first.
    pub fn history(&self) -> (h: &[ChatEntry])
        ensures
            h@ == self@.history,
    {
        self.history.as_slice()
    }

    /// The last known session status.
    pub fn status(&self) -> (s: &StatusSnapshot)
        ensures
            *s == self@.status,
    {
        &self.status
    }

    /// Append one chat entry and evict the oldest if we cross the cap.
    pub fn record_chat(&mut self, entry: ChatEntry)
        ensures
            final(self)@ == (Server { history: recorded(old(self)@.history, entry), ..old(self)@ }),
    {
        self.history.push(entry);
        let len: usize = self.history.len();
        if len > CHAT_HISTORY_LIMIT {
            let kept: Vec<ChatEntry> = self.history.split_off(len - CHAT_HISTORY_LIMIT);
            self.history = kept;
        }
        assert(self@.history =~= recorded(old(self)@.history, entry));
    }

    /// Takes note of an event.
    pub fn record_event(&mut self, event: &BackendEvent)
        ensures
            final(self)@ == observed(old(self)@, *event),
    {
        match event {
            BackendEvent::ChatReceived { text } => {
                self.record_chat(
                    ChatEntry { direction: ChatDirection::DeviceToBackend, text: text.clone() },
                );
            },
            BackendEvent::ChatPushed { text } => {
                self.record_chat(
                    ChatEntry { direction: ChatDirection::BackendToDevice, text: text.clone() },
                );
            },
            BackendEvent::StatusChanged { state, bt_connected, peer_known } => {
                self.status = StatusSnapshot {
                    peer_status: Some(state.clone()),
                    bt_connected: *bt_connected,
                    peer_known: *peer_known,
                };
            },
            _ => {},
        }
    }

    /// Opens a session on a stream and makes it the one that server requests go to. The frame
    /// is the first on the stream: it tells the client where to post.
    pub fn open_session(&mut self, id: u128, tx: S) -> (f: SseFrame) where S: Clone
        ensures
            final(self)@.primary matches Some(primary) && cloned(tx, primary) && final(self)@
                == opened(old(self)@, id, tx, primary),
            f@ == ("endpoint"@, session_path(id)),
    {
        self.primary_session = Some(tx.clone());
        self.sessions.insert(id, tx);
        SseFrame { event: "endpoint".to_owned(), data: endpoint(id) }
    }

    /// Opens a session under a random id.
    pub fn sse_handler(&mut self, tx: S) -> (r: (u128, SseFrame)) where S: Clone
        ensures
            final(self)@.primary matches Some(primary) && cloned(tx, primary) && final(self)@
                == opened(old(self)@, r.0, tx, primary),
            r.1@ == ("endpoint"@, session_path(r.0)),
            r.0 as int / 75557863725914323419136 % 16 == 4,
            r.0 as int / 4611686018427387904 % 4 == 2,
    {
        let id: u128 = random_uuid();
        let f: SseFrame = self.open_session(id, tx);
        (id, f)
    }

    /// Drops a session whose stream has ended.
    pub fn close_session(&mut self, id: u128)
        ensures
            final(self)@ == ended(old(self)@, id),
    {
        self.sessions.remove(&id);
    }

    /// Takes in a message that was posted to a session.
    pub fn messages_handler(&mut self, session: u128, body: Value) -> (p: Post<'_, S, W>)
        ensures
            (final(self)@, p@) == posted(old(self)@, session, json_of(body)),
    {
        let to: &S = match self.sessions.get(&session) {
            Some(tx) => tx,
            None => {
                return Post::UnknownSession;
            },
        };
        match read_message(&body) {
            ClientMessage::Malformed(e) => Post::Malformed(e),
            ClientMessage::Request(request) => Post::Request { to, request },
            ClientMessage::Reply(id) => match self.pending.remove(&id) {
                Some(waiter) => Post::Reply { waiter, body },
                None => Post::UnknownReply(id),
            },
            ClientMessage::Neither => Post::Neither,
        }
    }

    /// Answers a request by its method, as far as no outside work is needed.
    pub fn dispatch(&self, req: &JsonRpcRequest) -> (d: Dispatch)
        ensures
            d@ == dispatched(self@, req.method@, json_of(req.params)),
    {
        if same(req.method.as_str(), "initialize") {
            Dispatch::Now(initialize(self.version.as_str()))
        } else if same(req.method.as_str(), "tools/list") {
            Dispatch::Now(tools_list())
        } else if same(req.method.as_str(), "tools/call") {
            match tool_call(self.chat, self.history.as_slice(), &self.status, &req.params) {
                ToolStep::Done(r) => Dispatch::Now(tool_result(r)),
                step => Dispatch::After(step),
            }
        } else {
            Dispatch::Now(error_value(join("unknown method: ", req.method.as_str()).as_str()))
        }
    }

    /// Asks the client's model to answer a prompt: registers `waiter` for the reply and returns
    /// the request that is to be sent to the session that was opened last.
    pub fn sample(
        &mut self,
        prompt: &str,
        system_prompt: Option<&str>,
        max_tokens: u32,
        waiter: W,
    ) -> (r: Result<ServerRequest<'_, S>, String>)
        ensures
            match r {
                Ok(q) => {
                    &&& old(self)@.primary == Some(*q.to)
                    &&& q.id == old(self)@.next_id
                    &&& q.frame@ == message_frame(
                        sampling_json(q.id, prompt@, str_if_any(system_prompt), max_tokens),
                    )
                    &&& final(self)@ == asked(old(self)@, waiter)
                },
                Err(e) => {
                    &&& old(self)@.primary is None
                    &&& e@ == "no MCP client connected"@
                    &&& final(self)@ == old(self)@
                },
            },
    {
        let to: &S = match &self.primary_session {
            Some(tx) => tx,
            None => {
                return Err("no MCP client connected".to_owned());
            },
        };
        let id: i64 = self.next_request_id;
        self.next_request_id = id.wrapping_add(1);
        self.pending.insert(id, waiter);
        let request: Value = sampling_request(id, prompt, system_prompt, max_tokens);
        Ok(ServerRequest { id, to, frame: frame_message(&request) })
    }

    /// Says what a sampling request came to, and forgets it where it was not answered.
    pub fn finish_sample(&mut self, id: i64, end: SampleEnd) -> (r: Result<String, String>)
        ensures
            final(self)@ == after_sample(old(self)@, id, end),
            texts(r) == sampled(end),
    {
        match end {
            SampleEnd::Unsent => {
                self.pending.remove(&id);
                Err("SSE session closed before sampling request sent".to_owned())
            },
            SampleEnd::TimedOut => {
                self.pending.remove(&id);
                Err("sampling timed out (60s)".to_owned())
            },
            SampleEnd::Dropped => Err("sampling response channel closed".to_owned()),
            SampleEnd::Answered(reply) => sampling_reply(&reply),
        }
    }
}

/// The last entries, old ones and those of a run, are those that the transcript keeps.
pub proof fn transcript_keeps_the_last(history: Seq<ChatEntry>, entries: Seq<ChatEntry>)
    requires
        history.len() <= CHAT_HISTORY_LIMIT || entries.len() > 0,
    ensures
        recorded_all(history, entries) == last_of(history + entries, CHAT_HISTORY_LIMIT as int),
    decreases entries.len(),
{
    let n = CHAT_HISTORY_LIMIT as int;
    if entries.len() == 0 {
        assert(history + entries =~= history);
    } else {
        let before = entries.drop_last();
        assert((history + before).push(entries.last()) =~= history + entries);
        if before.len() == 0 {
            assert(history + before =~= history);
            assert(recorded_all(history, before) == history);
        } else {
            transcript_keeps_the_last(history, before);
            assert(last_of(last_of(history + before, n).push(entries.last()), n) =~= last_of(
                history + entries,
                n,
            ));
        }
    }
}

/// The transcript never holds more than the limit.
pub proof fn transcript_is_bounded(history: Seq<ChatEntry>, entry: ChatEntry)
    ensures
        recorded(history, entry).len() <= CHAT_HISTORY_LIMIT,
        recorded(history, entry).last() == entry,
{
}

/// The state after a run of events.
pub open spec fn all_observed<S, W>(s: Server<S, W>, events: Seq<BackendEvent>) -> Server<S, W>
    decreases events.len(),
{
    if events.len() == 0 {
        s
    } else {
        observed(all_observed(s, events.drop_last()), events.last())
    }
}

/// The chat lines among events, in their order.
pub open spec fn chat_rows(events: Seq<BackendEvent>) -> Seq<ChatEntry>
    decreases events.len(),
{
    if events.len() == 0 {
        Seq::empty()
    } else {
        match chat_row(events.last()) {
            Some(row) => chat_rows(events.drop_last()).push(row),
            None => chat_rows(events.drop_last()),
        }
    }
}

/// The status that the last status change among events tells, or `before` where there is none.
pub open spec fn last_status(before: StatusSnapshot, events: Seq<BackendEvent>) -> StatusSnapshot
    decreases events.len(),
{
    if events.len() == 0 {
        before
    } else {
        match events.last() {
            BackendEvent::StatusChanged { state, bt_connected, peer_known } => StatusSnapshot {
                peer_status: Some(state),
                bt_connected,
                peer_known,
            },
            _ => last_status(before, events.drop_last()),
        }
    }
}

/// Whatever events come in, the chat lines among them are recorded in their order, the status is
/// that of the last status change, and nothing else changes.
pub proof fn events_are_kept_track_of<S, W>(s: Server<S, W>, events: Seq<BackendEvent>)
    ensures
        all_observed(s, events) == (Server {
            history: recorded_all(s.history, chat_rows(events)),
            status: last_status(s.status, events),
            ..s
        }),
    decreases events.len(),
{
    if events.len() > 0 {
        let before = events.drop_last();
        events_are_kept_track_of(s, before);
        if let Some(row) = chat_row(events.last()) {
            assert(chat_rows(events).drop_last() =~= chat_rows(before));
        }
    }
}

/// `chat_history` returns the last lines of the conversation, as many as were asked for, and
/// `session_status` the last status, though the server keeps no more than the transcript.
pub proof fn tools_tell_what_happened<S, W>(s: Server<S, W>, events: Seq<BackendEvent>, args: Json)
    requires
        s.history.len() <= CHAT_HISTORY_LIMIT,
    ensures
        chat_history_call(all_observed(s, events).history, args) == Call::Done(
            Ok(
                json_pretty(
                    entries_json(last_of(s.history + chat_rows(events), history_limit(args))),
                ),
            ),
        ),
        session_status_call(all_observed(s, events).status) == Call::Done(
            Ok(json_pretty(status_json(last_status(s.status, events)))),
        ),
{
    events_are_kept_track_of(s, events);
    transcript_keeps_the_last(s.history, chat_rows(events));
    let rows = s.history + chat_rows(events);
    let n = history_limit(args);
    assert(last_of(last_of(rows, CHAT_HISTORY_LIMIT as int), n) =~= last_of(rows, n));
}

/// One thing that happens to the server.
pub enum Happening<S, W> {
    Opened { id: u128, tx: S, primary: S },
    Ended { id: u128 },
    Posted { session: u128, body: Json },
    Asked { waiter: W },
    Finished { request: i64, end: SampleEnd },
    Observed(BackendEvent),
}

/// The state after one thing has happened. A server request is only made while there is a session
/// to send it to.
pub open spec fn happened<S, W>(s: Server<S, W>, h: Happening<S, W>) -> Server<S, W> {
    match h {
        Happening::Opened { id, tx, primary } => opened(s, id, tx, primary),
        Happening::Ended { id } => ended(s, id),
        Happening::Posted { session, body } => posted(s, session, body).0,
        Happening::Asked { waiter } => if s.primary is Some {
            asked(s, waiter)
        } else {
            s
        },
        Happening::Finished { request, end } => after_sample(s, request, end),
        Happening::Observed(e) => observed(s, e),
    }
}

/// The state after a run of happenings.
pub open spec fn all_happened<S, W>(s: Server<S, W>, run: Seq<Happening<S, W>>) -> Server<S, W>
    decreases run.len(),
{
    if run.len() == 0 {
        s
    } else {
        happened(all_happened(s, run.drop_last()), run.last())
    }
}

/// Whether a happening ends the request with this id: by a reply, or because it is given up.
pub open spec fn ends<S, W>(h: Happening<S, W>, id: i64) -> bool {
    match h {
        Happening::Posted { session, body } => incoming(body) == Incoming::Reply(id as int),
        Happening::Finished { request, end } => request == id,
        _ => false,
    }
}

/// Every request that waits for a reply has an id below the next one.
pub open spec fn ids_are_used_once<S, W>(s: Server<S, W>) -> bool {
    forall|id: i64| #[trigger] s.pending.contains_key(id) ==> id < s.next_id
}

/// Whatever happens, the requests that wait keep ids below the next one, and the next id never
/// goes back, as long as the ids last.
pub proof fn ids_stay_used_once<S, W>(s: Server<S, W>, h: Happening<S, W>)
    requires
        ids_are_used_once(s),
        s.next_id < i64::MAX,
    ensures
        ids_are_used_once(happened(s, h)),
        s.next_id <= happened(s, h).next_id <= s.next_id + 1,
{
}

/// A server request takes an id that nothing waits under: no other request loses its waiter.
pub proof fn a_request_takes_a_fresh_id<S, W>(s: Server<S, W>, waiter: W)
    requires
        ids_are_used_once(s),
    ensures
        !s.pending.contains_key(s.next_id),
        asked(s, waiter).pending[s.next_id] == waiter,
        forall|id: i64| #[trigger]
            s.pending.contains_key(id) ==> asked(s, waiter).pending.contains_key(id) && asked(
                s,
                waiter,
            ).pending[id] == s.pending[id],
{
}

/// A request waits on through a run of happenings that does not end it.
pub proof fn a_request_waits_on<S, W>(s: Server<S, W>, run: Seq<Happening<S, W>>, id: i64)
    requires
        ids_are_used_once(s),
        s.pending.contains_key(id),
        s.next_id + run.len() <= i64::MAX,
        forall|i: int| 0 <= i < run.len() ==> !ends(#[trigger] run[i], id),
    ensures
        all_happened(s, run).pending.contains_key(id),
        all_happened(s, run).pending[id] == s.pending[id],
        ids_are_used_once(all_happened(s, run)),
        all_happened(s, run).next_id <= s.next_id + run.len(),
    decreases run.len(),
{
    if run.len() > 0 {
        let before = run.drop_last();
        assert forall|i: int| 0 <= i < before.len() implies !ends(#[trigger] before[i], id) by {
            assert(before[i] == run[i]);
        }
        a_request_waits_on(s, before, id);
        let t = all_happened(s, before);
        assert(!ends(run[run.len() - 1], id));
        ids_stay_used_once(t, run.last());
    }
}

/// The reply to a server request reaches what was registered with it, whatever else happened
/// between the two, other requests and their replies included; and nothing waits for it then.
pub proof fn a_reply_reaches_its_waiter<S, W>(
    s: Server<S, W>,
    waiter: W,
    run: Seq<Happening<S, W>>,
    session: u128,
    reply: Json,
)
    requires
        ids_are_used_once(s),
        s.next_id + 1 + run.len() <= i64::MAX,
        forall|i: int| 0 <= i < run.len() ==> !ends(#[trigger] run[i], s.next_id),
        all_happened(asked(s, waiter), run).sessions.contains_key(session),
        incoming(reply) == Incoming::Reply(s.next_id as int),
    ensures
        ({
            let t = all_happened(asked(s, waiter), run);
            posted(t, session, reply) == (
                forgotten(t, s.next_id),
                Posted::<S, W>::Reply { waiter, body: reply },
            )
        }),
{
    let a = asked(s, waiter);
    assert(a.pending.contains_key(s.next_id));
    assert(ids_are_used_once(a));
    a_request_waits_on(a, run, s.next_id);
}

/// A second reply, and a reply to a request that was given up, find nothing that waits and
/// change nothing.
pub proof fn a_reply_counts_once<S, W>(s: Server<S, W>, session: u128, id: i64, reply: Json)
    requires
        s.sessions.contains_key(session),
        incoming(reply) == Incoming::Reply(id as int),
    ensures
        ({
            let t = posted(s, session, reply).0;
            posted(t, session, reply) == (t, Posted::<S, W>::UnknownReply(id))
        }),
        posted(forgotten(s, id), session, reply) == (
            forgotten(s, id),
            Posted::<S, W>::UnknownReply(id),
        ),
{
}

/// Once a session has ended, what is posted to it is refused and changes nothing, and every
/// other session is as it was.
pub proof fn an_ended_session_is_refused<S, W>(s: Server<S, W>, id: u128, other: u128, body: Json)
    ensures
        posted(ended(s, id), id, body) == (ended(s, id), Posted::<S, W>::UnknownSession),
        other != id ==> posted(ended(s, id), other, body).1 == posted(s, other, body).1,
{
}

/// A session that is open is known until it ends, and the requests that are posted to it are
/// answered on its own stream.
pub proof fn an_open_session_gets_its_responses<S, W>(
    s: Server<S, W>,
    id: u128,
    tx: S,
    primary: S,
    run: Seq<Happening<S, W>>,
    body: Json,
)
    requires
        forall|i: int|
            0 <= i < run.len() ==> match #[trigger] run[i] {
                Happening::Opened { id: n, tx: _, primary: _ } => n != id,
                Happening::Ended { id: n } => n != id,
                _ => true,
            },
    ensures
        all_happened(opened(s, id, tx, primary), run).sessions.contains_key(id),
        all_happened(opened(s, id, tx, primary), run).sessions[id] == tx,
        incoming(body) matches Incoming::Request { id: n, method, params } ==> posted(
            all_happened(opened(s, id, tx, primary), run),
            id,
            body,
        ).1 == (Posted::<S, W>::Request { to: tx, id: n, method, params }),
    decreases run.len(),
{
    if run.len() > 0 {
        let before = run.drop_last();
        assert forall|i: int| 0 <= i < before.len() implies match #[trigger] before[i] {
            Happening::Opened { id: n, tx: _, primary: _ } => n != id,
            Happening::Ended { id: n } => n != id,
            _ => true,
        } by {
            assert(before[i] == run[i]);
        }
        an_open_session_gets_its_responses(s, id, tx, primary, before, body);
        let last = run[run.len() - 1];
        assert(match last {
            Happening::Opened { id: n, tx: _, primary: _ } => n != id,
            Happening::Ended { id: n } => n != id,
            _ => true,
        });
    }
}

/// Server requests go to the session that was opened last, until another one is opened.
pub proof fn the_last_session_gets_server_requests<S, W>(
    s: Server<S, W>,
    id: u128,
    tx: S,
    primary: S,
    run: Seq<Happening<S, W>>,
)
    requires
        forall|i: int| 0 <= i < run.len() ==> !(#[trigger] run[i] is Opened),
    ensures
        all_happened(opened(s, id, tx, primary), run).primary == Some(primary),
    decreases run.len(),
{
    if run.len() > 0 {
        let before = run.drop_last();
        assert forall|i: int| 0 <= i < before.len() implies !(#[trigger] before[i] is Opened) by {
            assert(before[i] == run[i]);
        }
        the_last_session_gets_server_requests(s, id, tx, primary, before);
        assert(!(run[run.len() - 1] is Opened));
    }
}

/// Requests of the client, and messages that are refused, change nothing.
pub proof fn only_replies_change_the_state<S, W>(s: Server<S, W>, session: u128, body: Json)
    ensures
        !(posted(s, session, body).1 is Reply) ==> posted(s, session, body).0 == s,
        refusal(posted(s, session, body).1) is Some <==> post_code(posted(s, session, body).1)
            != 202,
{
}

/// A `tools/call` for `chat_send`, where chat is on, for `send_echo` or for `sample` is not
/// answered before the work is done: the work is the push of exactly that text, the echo of
/// exactly that text, or the sampling of exactly that prompt with that many tokens.
pub proof fn work_comes_before_its_answer<S, W>(
    s: Server<S, W>,
    params: Map<Seq<char>, Json>,
    args: Map<Seq<char>, Json>,
    t: Seq<char>,
    system_prompt: Seq<char>,
    n: u32,
)
    requires
        params.contains_key("arguments"@),
        params["arguments"@] == Json::Object(args),
    ensures
        ({
            let answer = dispatched(s, "tools/call"@, Json::Object(params));
            &&& has_text(params, "name"@, "chat_send"@) && has_text(args, "text"@, t) && s.chat
                ==> answer == Answer::After(Call::ChatPush { text: t })
            &&& has_text(params, "name"@, "send_echo"@) && has_text(args, "text"@, t) ==> answer
                == Answer::After(Call::Echo { text: t })
            &&& has_text(params, "name"@, "sample"@) && has_text(args, "prompt"@, t) && has_text(
                args,
                "system_prompt"@,
                system_prompt,
            ) && args.contains_key("max_tokens"@) && args["max_tokens"@] == Json::Int(n as int)
                ==> answer == Answer::After(
                Call::Sample { prompt: t, system_prompt: Some(system_prompt), max_tokens: n },
            )
            &&& has_text(params, "name"@, "sample"@) && has_text(args, "prompt"@, t) && has_no_text(
                args,
                "system_prompt"@,
            ) && !args.contains_key("max_tokens"@) ==> answer == Answer::After(
                Call::Sample { prompt: t, system_prompt: None, max_tokens: 200 },
            )
        }),
{
    methods_have_names();
    if has_text(params, "name"@, "chat_send"@) {
        tools_are_called_by_name(s.chat, s.history, s.status, params, "chat_send"@, Json::Null);
    }
    if has_text(params, "name"@, "send_echo"@) {
        tools_are_called_by_name(s.chat, s.history, s.status, params, "send_echo"@, Json::Null);
    }
    if has_text(params, "name"@, "sample"@) {
        tools_are_called_by_name(s.chat, s.history, s.status, params, "sample"@, Json::Null);
        if has_text(args, "prompt"@, t) {
            sampling_arguments_are_passed_on(args, t, system_prompt, n as int);
        }
    }
    if has_text(args, "text"@, t) {
        texts_are_passed_on(args, t, Json::Null);
    }
}

proof fn methods_have_names()
    ensures
        "initialize"@ != "tools/list"@,
        "initialize"@ != "tools/call"@,
        "tools/list"@ != "tools/call"@,
{
    reveal_strlit("initialize");
    reveal_strlit("tools/list");
    reveal_strlit("tools/call");
    assert("initialize"@[0] == 'i');
    assert("tools/list"@[6] == 'l');
    assert("tools/call"@[6] == 'c');
}

/// A tool call that has its result is answered with it at once; one that asks for work is not. The
/// handshake tells the server's version, `tools/list` the tools, and any other method is told back.
pub proof fn methods_are_answered<S, W>(s: Server<S, W>, method: Seq<char>, params: Json)
    ensures
        match called(s.chat, s.history, s.status, params) {
            Call::Done(r) => dispatched(s, "tools/call"@, params) == Answer::Now(
                tool_result_json(r),
            ),
            call => dispatched(s, "tools/call"@, params) == Answer::After(call),
        },
        dispatched(s, "initialize"@, params) == Answer::Now(handshake(s.version)),
        dispatched(s, "tools/list"@, params) == Answer::Now(tool_list()),
        method != "initialize"@ && method != "tools/list"@ && method != "tools/call"@ ==> dispatched(
            s,
            method,
            params,
        ) == Answer::Now(Json::Object(map!["error"@ => Json::Text("unknown method: "@ + method)])),
{
    methods_have_names();
    let words = "unknown method: "@ + method;
    messages_are_built_of_their_members(words, Json::Null, Json::Null, 0, words, 0);
}

/// A request that is posted to an open session goes to that session's own stream with its id, its
/// method and its parameters, and leaves the state as it is.
pub proof fn a_posted_request_is_handed_on<S, W>(
    s: Server<S, W>,
    session: u128,
    m: Map<Seq<char>, Json>,
    method: Seq<char>,
)
    requires
        s.sessions.contains_key(session),
        has_text(m, "method"@, method),
    ensures
        posted(s, session, Json::Object(m)) == (
            s,
            Posted::<S, W>::Request {
                to: s.sessions[session],
                id: if m.contains_key("id"@) {
                    m["id"@]
                } else {
                    Json::Null
                },
                method,
                params: if m.contains_key("params"@) {
                    m["params"@]
                } else {
                    Json::Null
                },
            },
        ),
{
    messages_are_told_apart(m, method, 0, Json::Null);
}

/// A reply that is posted to an open session goes to what waits under its id, which then waits no
/// more; where nothing does it is told so, and nothing changes. To a session that is not open
/// nothing can be posted.
pub proof fn a_posted_reply_is_handed_on<S, W>(
    s: Server<S, W>,
    session: u128,
    m: Map<Seq<char>, Json>,
    id: i64,
    body: Json,
)
    requires
        !m.contains_key("method"@),
        m.contains_key("id"@),
        m["id"@] == Json::Int(id as int),
    ensures
        s.sessions.contains_key(session) && s.pending.contains_key(id) ==> posted(
            s,
            session,
            Json::Object(m),
        ) == (
            Server { pending: s.pending.remove(id), ..s },
            Posted::<S, W>::Reply { waiter: s.pending[id], body: Json::Object(m) },
        ),
        s.sessions.contains_key(session) && !s.pending.contains_key(id) ==> posted(
            s,
            session,
            Json::Object(m),
        ) == (s, Posted::<S, W>::UnknownReply(id)),
        !s.sessions.contains_key(session) ==> posted(s, session, body) == (
            s,
            Posted::<S, W>::UnknownSession,
        ),
{
    messages_are_told_apart(m, Seq::empty(), id as int, Json::Null);
}

/// What cannot be read is refused for that, and what is neither request nor reply is taken and
/// dropped; neither changes anything.
pub proof fn other_posts_change_nothing<S, W>(
    s: Server<S, W>,
    session: u128,
    m: Map<Seq<char>, Json>,
)
    requires
        s.sessions.contains_key(session),
    ensures
        m.contains_key("method"@) && !(m["method"@] is Text) ==> posted(s, session, Json::Object(m))
            == (s, Posted::<S, W>::Malformed(not_a_string(m["method"@]))),
        !m.contains_key("method"@) && (!m.contains_key("id"@) || !(m["id"@] is Int)) ==> posted(
            s,
            session,
            Json::Object(m),
        ) == (s, Posted::<S, W>::Neither),
{
    messages_are_told_apart(m, Seq::empty(), 0, Json::Null);
}

/// How each post is answered: 404 and 400 with an error object, and 202 without a body.
pub proof fn posts_are_answered<S, W>(e: Seq<char>, accepted: Posted<S, W>)
    requires
        !(accepted is UnknownSession),
        !(accepted is Malformed),
    ensures
        post_code(Posted::<S, W>::UnknownSession) == 404,
        refusal(Posted::<S, W>::UnknownSession) == Some(
            Json::Object(map!["error"@ => Json::Text("unknown session id"@)]),
        ),
        post_code(Posted::<S, W>::Malformed(e)) == 400,
        refusal(Posted::<S, W>::Malformed(e)) == Some(
            Json::Object(map!["error"@ => Json::Text("malformed JSON-RPC request: "@ + e)]),
        ),
        post_code(accepted) == 202,
        refusal(accepted) is None,
{
    let words = "malformed JSON-RPC request: "@ + e;
    messages_are_built_of_their_members(words, Json::Null, Json::Null, 0, words, 0);
    messages_are_built_of_their_members(
        "unknown session id"@,
        Json::Null,
        Json::Null,
        0,
        words,
        0,
    );
}

/// What each step of a session's and a request's life changes, and that it changes nothing else.
pub proof fn steps_change_only_their_own<S, W>(
    s: Server<S, W>,
    id: u128,
    tx: S,
    primary: S,
    waiter: W,
    request: i64,
    reply: Value,
)
    ensures
        opened(s, id, tx, primary) == (Server {
            sessions: s.sessions.insert(id, tx),
            primary: Some(primary),
            ..s
        }),
        ended(s, id) == (Server { sessions: s.sessions.remove(id), ..s }),
        asked(s, waiter).pending == s.pending.insert(s.next_id, waiter),
        s.next_id < i64::MAX ==> asked(s, waiter).next_id == s.next_id + 1,
        s.next_id == i64::MAX ==> asked(s, waiter).next_id == i64::MIN,
        asked(s, waiter) == (Server {
            pending: asked(s, waiter).pending,
            next_id: asked(s, waiter).next_id,
            ..s
        }),
        after_sample(s, request, SampleEnd::Unsent) == (Server {
            pending: s.pending.remove(request),
            ..s
        }),
        after_sample(s, request, SampleEnd::TimedOut) == (Server {
            pending: s.pending.remove(request),
            ..s
        }),
        after_sample(s, request, SampleEnd::Dropped) == s,
        after_sample(s, request, SampleEnd::Answered(reply)) == s,
{
}

/// What each end of a sampling request comes to.
pub proof fn samplings_end_in_words(reply: Value)
    ensures
        sampled(SampleEnd::Unsent) == Err::<Seq<char>, Seq<char>>(
            "SSE session closed before sampling request sent"@,
        ),
        sampled(SampleEnd::TimedOut) == Err::<Seq<char>, Seq<char>>("sampling timed out (60s)"@),
        sampled(SampleEnd::Dropped) == Err::<Seq<char>, Seq<char>>(
            "sampling response channel closed"@,
        ),
        sampled(SampleEnd::Answered(reply)) == sampled_text(json_of(reply)),
{
}

/// The transcript grows at its end by the entry that is recorded, and loses its oldest entry once
/// it holds 512.
pub proof fn the_oldest_entry_goes(
    history: Seq<ChatEntry>,
    oldest: ChatEntry,
    entry: ChatEntry,
)
    ensures
        history.len() < 512 ==> recorded(history, entry) == history.push(entry),
        history.len() == 511 ==> recorded(seq![oldest] + history, entry) == history.push(entry),
{
    let all = (seq![oldest] + history).push(entry);
    assert(all.skip(1) =~= history.push(entry));
}

/// The last entries are as many as were asked for, or all, and stand at the end.
pub proof fn the_last_ones_stand_at_the_end(s: Seq<ChatEntry>, n: int)
    requires
        0 <= n,
    ensures
        last_of(s, n).len() <= n,
        last_of(s, n).len() == n || last_of(s, n) == s,
        last_of(s, n).len() <= s.len(),
        forall|i: int|
            0 <= i < last_of(s, n).len() ==> #[trigger] last_of(s, n)[i] == s[s.len() - last_of(
                s,
                n,
            ).len() + i],
{
}

/// A chat event adds its own text to the transcript under its own direction, a status change
/// rewrites the whole status, and no event does anything else.
pub proof fn events_leave_their_own_trace<S, W>(
    s: Server<S, W>,
    text: String,
    reply: String,
    ms: u128,
    bt_connected: bool,
    peer_known: bool,
    bytes: usize,
    number: Value,
)
    requires
        s.history.len() < 512,
    ensures
        observed(s, BackendEvent::ChatReceived { text }) == (Server {
            history: s.history.push(
                ChatEntry { direction: ChatDirection::DeviceToBackend, text },
            ),
            ..s
        }),
        observed(s, BackendEvent::ChatPushed { text }) == (Server {
            history: s.history.push(
                ChatEntry { direction: ChatDirection::BackendToDevice, text },
            ),
            ..s
        }),
        observed(s, BackendEvent::StatusChanged { state: text, bt_connected, peer_known }) == (
        Server {
            status: StatusSnapshot { peer_status: Some(text), bt_connected, peer_known },
            ..s
        }),
        observed(s, BackendEvent::EchoHandled { request: text, response: reply, ms }) == s,
        observed(s, BackendEvent::BenchmarkCompleted { bytes, secs: number, kibs: number }) == s,
        observed(s, BackendEvent::DownloadCompleted { bytes, secs: number, sha256_hex: text }) == s,
{
}

/// What the functions give back is seen as it is.
pub proof fn answers_are_seen_as_they_are<'a, S, W>(v: Value, step: ToolStep, p: Post<'a, S, W>)
    ensures
        Dispatch::Now(v)@ == Answer::Now(json_of(v)),
        Dispatch::After(step)@ == Answer::After(step@),
        match p {
            Post::UnknownSession => p@ is UnknownSession,
            Post::Malformed(words) => p@ == Posted::<S, W>::Malformed(words@),
            Post::Request { to, request } => p@ == (Posted::<S, W>::Request {
                to: *to,
                id: json_of(request.id),
                method: request.method@,
                params: json_of(request.params),
            }),
            Post::Reply { waiter, body } => p@ == (Posted::<S, W>::Reply {
                waiter,
                body: json_of(body),
            }),
            Post::UnknownReply(id) => p@ == Posted::<S, W>::UnknownReply(id),
            Post::Neither => p@ is Neither,
        },
{
}

/// The limits that the server is made for.
pub proof fn the_server_has_fixed_limits()
    ensures
        CHAT_HISTORY_LIMIT == 512,
        DEFAULT_HISTORY == 50,
        DEFAULT_TOKENS == 200,
        SAMPLING_TIMEOUT_SECS == 60,
{
}

} // verus!
