//! JSON-RPC over the session: which messages there are, what the tools do, and how both are
//! answered.

use crate::event::{
    entries_json, entries_to_json, frame_message, message_frame, status_json, BackendEvent,
    ChatEntry, SseFrame, StatusSnapshot,
};
use crate::json::{
    as_i64, as_str, as_u64, compact, count, count_in, flag, get, id_in, json_if_any, json_of,
    json_pretty, json_text, jsons, list, member, members, no_members, not_a_string, null, object, pretty, put,
    string_from, text, text_in, whole, Json,
};
use crate::mcp::{last_of, CHAT_HISTORY_LIMIT, DEFAULT_HISTORY, DEFAULT_TOKENS};
use crate::text::{decimal, decimal_digits, join, quote, quoted, same};
use serde_json::Value;
use vstd::prelude::*;
use vstd::slice::slice_subrange;
use vstd::string::StringExecFns;

verus! {

/// A request of the client.
#[derive(Debug)]
pub struct JsonRpcRequest {
    pub id: Value,
    pub method: String,
    pub params: Value,
}

/// What a client message is.
#[verifier::ext_equal]
pub enum Incoming {
    /// A request.
    Request { id: Json, method: Seq<char>, params: Json },
    /// A request whose method is not a string; the text says so.
    Malformed(Seq<char>),
    /// A reply to the server request with this id.
    Reply(int),
    /// Neither.
    Neither,
}

/// A value, or null where there is none.
pub open spec fn or_null(j: Option<Json>) -> Json {
    match j {
        Some(v) => v,
        None => Json::Null,
    }
}

/// A message with a `method` is a request; one without, but with an `id`, is a reply.
pub open spec fn incoming(body: Json) -> Incoming {
    match member(body, "method"@) {
        Some(Json::Text(method)) => Incoming::Request {
            id: or_null(member(body, "id"@)),
            method,
            params: or_null(member(body, "params"@)),
        },
        Some(other) => Incoming::Malformed(not_a_string(other)),
        None => match id_in(member(body, "id"@)) {
            Some(id) => Incoming::Reply(id),
            None => Incoming::Neither,
        },
    }
}

/// A client message that has been told apart.
#[derive(Debug)]
pub enum ClientMessage {
    Request(JsonRpcRequest),
    Malformed(String),
    Reply(i64),
    Neither,
}

impl View for ClientMessage {
    type V = Incoming;

    open spec fn view(&self) -> Incoming {
        match self {
            ClientMessage::Request(r) => Incoming::Request {
                id: json_of(r.id),
                method: r.method@,
                params: json_of(r.params),
            },
            ClientMessage::Malformed(e) => Incoming::Malformed(e@),
            ClientMessage::Reply(id) => Incoming::Reply(*id as int),
            ClientMessage::Neither => Incoming::Neither,
        }
    }
}

fn or_else_null(v: Option<&Value>) -> (r: Value)
    ensures
        json_of(r) == or_null(json_if_any(v)),
{
    match v {
        Some(w) => w.clone(),
        None => null(),
    }
}

/// Tells requests and replies apart.
pub fn read_message(body: &Value) -> (m: ClientMessage)
    ensures
        m@ == incoming(json_of(*body)),
{
    match get(body, "method") {
        Some(method) => match string_from(method.clone()) {
            Ok(method) => ClientMessage::Request(
                JsonRpcRequest {
                    id: or_else_null(get(body, "id")),
                    method,
                    params: or_else_null(get(body, "params")),
                },
            ),
            Err(e) => ClientMessage::Malformed(e),
        },
        None => match get(body, "id") {
            Some(id) => match as_i64(id) {
                Some(n) => ClientMessage::Reply(n),
                None => ClientMessage::Neither,
            },
            None => ClientMessage::Neither,
        },
    }
}

/// An object that carries an error text.
pub open spec fn error_json(message: Seq<char>) -> Json {
    Json::Object(no_members().insert("error"@, Json::Text(message)))
}

/// An object that carries an error text.
pub fn error_value(message: &str) -> (v: Value)
    ensures
        json_of(v) == error_json(message@),
{
    let mut m = members();
    put(&mut m, "error", text(message));
    object(m)
}

/// The response to a request.
pub open spec fn response_json(id: Json, result: Json) -> Json {
    Json::Object(
        no_members().insert("jsonrpc"@, Json::Text("2.0"@)).insert("id"@, id).insert(
            "result"@,
            result,
        ),
    )
}

/// The response to a request, framed.
pub fn respond(id: &Value, result: Value) -> (f: SseFrame)
    ensures
        f@ == message_frame(response_json(json_of(*id), json_of(result))),
{
    let mut m = members();
    put(&mut m, "jsonrpc", text("2.0"));
    put(&mut m, "id", id.clone());
    put(&mut m, "result", result);
    frame_message(&object(m))
}

/// What a tool call comes down to.
#[verifier::ext_equal]
pub enum Call {
    /// The result is there.
    Done(Result<Seq<char>, Seq<char>>),
    /// Push a chat line to the device.
    ChatPush { text: Seq<char> },
    /// Have the device echo a text.
    Echo { text: Seq<char> },
    /// Have the client's model answer a prompt.
    Sample { prompt: Seq<char>, system_prompt: Option<Seq<char>>, max_tokens: u32 },
}

/// What a tool call comes down to.
#[derive(Debug, PartialEq, Eq)]
pub enum ToolStep {
    /// The result is there.
    Done(Result<String, String>),
    /// Push a chat line to the device, then call `chat_pushed`.
    ChatPush { text: String },
    /// Have the device echo a text, then call `echoed`.
    Echo { text: String },
    /// Have the client's model answer a prompt; what comes back is the result.
    Sample { prompt: String, system_prompt: Option<String>, max_tokens: u32 },
}

/// A text, if there is one.
pub open spec fn text_if_any(s: Option<String>) -> Option<Seq<char>> {
    match s {
        Some(t) => Some(t@),
        None => None,
    }
}

/// A result with its texts.
pub open spec fn texts(r: Result<String, String>) -> Result<Seq<char>, Seq<char>> {
    match r {
        Ok(t) => Ok(t@),
        Err(e) => Err(e@),
    }
}

impl View for ToolStep {
    type V = Call;

    open spec fn view(&self) -> Call {
        match self {
            ToolStep::Done(r) => Call::Done(texts(*r)),
            ToolStep::ChatPush { text } => Call::ChatPush { text: text@ },
            ToolStep::Echo { text } => Call::Echo { text: text@ },
            ToolStep::Sample { prompt, system_prompt, max_tokens } => Call::Sample {
                prompt: prompt@,
                system_prompt: text_if_any(*system_prompt),
                max_tokens: *max_tokens,
            },
        }
    }
}

/// `chat_send(text)`.
pub open spec fn chat_send_call(chat: bool, args: Json) -> Call {
    if !chat {
        Call::Done(Err("backend built without the 'chat' feature"@))
    } else {
        match text_in(member(args, "text"@)) {
            Some(text) => Call::ChatPush { text },
            None => Call::Done(Err("missing 'text' argument"@)),
        }
    }
}

/// `session_status()`.
pub open spec fn session_status_call(status: StatusSnapshot) -> Call {
    Call::Done(Ok(json_pretty(status_json(status))))
}

/// How many entries `chat_history` returns at most.
pub open spec fn history_limit(args: Json) -> int {
    let asked = match count_in(member(args, "limit"@)) {
        Some(n) => n,
        None => DEFAULT_HISTORY as int,
    };
    if asked <= CHAT_HISTORY_LIMIT {
        asked
    } else {
        CHAT_HISTORY_LIMIT as int
    }
}

/// `chat_history(limit?)`: the last entries of both directions.
pub open spec fn chat_history_call(history: Seq<ChatEntry>, args: Json) -> Call {
    Call::Done(Ok(json_pretty(entries_json(last_of(history, history_limit(args))))))
}

/// `send_echo(text)`.
pub open spec fn send_echo_call(args: Json) -> Call {
    match text_in(member(args, "text"@)) {
        Some(text) => Call::Echo { text },
        None => Call::Done(Err("missing 'text' argument"@)),
    }
}

/// `sample(prompt, system_prompt?, max_tokens?)`; the token count keeps its low 32 bits.
pub open spec fn sample_call(args: Json) -> Call {
    match text_in(member(args, "prompt"@)) {
        None => Call::Done(Err("missing 'prompt' argument"@)),
        Some(prompt) => Call::Sample {
            prompt,
            system_prompt: text_in(member(args, "system_prompt"@)),
            max_tokens: match count_in(member(args, "max_tokens"@)) {
                Some(n) => (n % 4294967296) as u32,
                None => DEFAULT_TOKENS as u32,
            },
        },
    }
}

/// The tool that `params` names, called with the arguments that `params` carries.
pub open spec fn called(
    chat: bool,
    history: Seq<ChatEntry>,
    status: StatusSnapshot,
    params: Json,
) -> Call {
    let name = match text_in(member(params, "name"@)) {
        Some(n) => n,
        None => ""@,
    };
    let args = or_null(member(params, "arguments"@));
    if name == "chat_send"@ {
        chat_send_call(chat, args)
    } else if name == "session_status"@ {
        session_status_call(status)
    } else if name == "chat_history"@ {
        chat_history_call(history, args)
    } else if name == "send_echo"@ {
        send_echo_call(args)
    } else if name == "sample"@ {
        sample_call(args)
    } else {
        Call::Done(Err("unknown tool: "@ + name))
    }
}

/// The text under `key`, if there is one.
fn text_at(v: &Value, key: &str) -> (r: Option<String>)
    ensures
        text_if_any(r) == text_in(member(json_of(*v), key@)),
{
    match get(v, key) {
        Some(w) => match as_str(w) {
            Some(s) => Some(s.to_owned()),
            None => None,
        },
        None => None,
    }
}

/// The count under `key`, if there is one.
fn count_at(v: &Value, key: &str) -> (r: Option<u64>)
    ensures
        match r {
            Some(n) => count_in(member(json_of(*v), key@)) == Some(n as int),
            None => count_in(member(json_of(*v), key@)) is None,
        },
{
    match get(v, key) {
        Some(w) => as_u64(w),
        None => None,
    }
}

/// `chat_send(text)`: a chat line for the device, where chat is on.
pub fn tool_chat_send(chat: bool, args: &Value) -> (t: ToolStep)
    ensures
        t@ == chat_send_call(chat, json_of(*args)),
{
    if !chat {
        return ToolStep::Done(Err("backend built without the 'chat' feature".to_owned()));
    }
    match text_at(args, "text") {
        Some(text) => ToolStep::ChatPush { text },
        None => ToolStep::Done(Err("missing 'text' argument".to_owned())),
    }
}

/// `session_status()`: the last known status.
pub fn tool_session_status(status: &StatusSnapshot) -> (t: ToolStep)
    ensures
        t@ == session_status_call(*status),
{
    ToolStep::Done(Ok(pretty(&status.to_json())))
}

/// `chat_history(limit?)`: the last entries of both directions.
pub fn tool_chat_history(history: &[ChatEntry], args: &Value) -> (t: ToolStep)
    ensures
        t@ == chat_history_call(history@, json_of(*args)),
{
    let asked: u64 = match count_at(args, "limit") {
        Some(n) => n,
        None => DEFAULT_HISTORY,
    };
    let limit: usize = if asked <= CHAT_HISTORY_LIMIT as u64 {
        asked as usize
    } else {
        CHAT_HISTORY_LIMIT
    };
    let n: usize = history.len();
    let start: usize = if n > limit { n - limit } else { 0 };
    let rows: &[ChatEntry] = slice_subrange(history, start, n);
    assert(rows@ =~= last_of(history@, limit as int));
    ToolStep::Done(Ok(pretty(&entries_to_json(rows))))
}

/// `send_echo(text)`: a text for the device to echo.
pub fn tool_send_echo(args: &Value) -> (t: ToolStep)
    ensures
        t@ == send_echo_call(json_of(*args)),
{
    match text_at(args, "text") {
        Some(text) => ToolStep::Echo { text },
        None => ToolStep::Done(Err("missing 'text' argument".to_owned())),
    }
}

/// `sample(prompt, system_prompt?, max_tokens?)`: a prompt for the client's model.
pub fn tool_sample(args: &Value) -> (t: ToolStep)
    ensures
        t@ == sample_call(json_of(*args)),
{
    match text_at(args, "prompt") {
        None => ToolStep::Done(Err("missing 'prompt' argument".to_owned())),
        Some(prompt) => {
            let asked: u64 = match count_at(args, "max_tokens") {
                Some(n) => n,
                None => DEFAULT_TOKENS,
            };
            ToolStep::Sample {
                prompt,
                system_prompt: text_at(args, "system_prompt"),
                max_tokens: (asked % 4294967296) as u32,
            }
        },
    }
}

/// Looks the tool up by name and works out what its call comes down to.
pub fn tool_call(
    chat: bool,
    history: &[ChatEntry],
    status: &StatusSnapshot,
    params: &Value,
) -> (t: ToolStep)
    ensures
        t@ == called(chat, history@, *status, json_of(*params)),
{
    let name: String = match text_at(params, "name") {
        Some(n) => n,
        None => "".to_owned(),
    };
    let args: Value = or_else_null(get(params, "arguments"));
    if same(name.as_str(), "chat_send") {
        tool_chat_send(chat, &args)
    } else if same(name.as_str(), "session_status") {
        tool_session_status(status)
    } else if same(name.as_str(), "chat_history") {
        tool_chat_history(history, &args)
    } else if same(name.as_str(), "send_echo") {
        tool_send_echo(&args)
    } else if same(name.as_str(), "sample") {
        tool_sample(&args)
    } else {
        ToolStep::Done(Err(join("unknown tool: ", name.as_str())))
    }
}

/// The result of a tool call: its text, or its error text marked as such.
pub open spec fn tool_result_json(r: Result<Seq<char>, Seq<char>>) -> Json {
    let (words, failed) = match r {
        Ok(t) => (t, false),
        Err(e) => (e, true),
    };
    Json::Object(
        no_members().insert(
            "content"@,
            Json::List(
                seq![
                    Json::Object(
                        no_members().insert("type"@, Json::Text("text"@)).insert(
                            "text"@,
                            Json::Text(words),
                        ),
                    ),
                ],
            ),
        ).insert("isError"@, Json::Bool(failed)),
    )
}

/// Wraps the result of a tool call.
pub fn tool_result(r: Result<String, String>) -> (v: Value)
    ensures
        json_of(v) == tool_result_json(texts(r)),
{
    let (words, failed): (String, bool) = match r {
        Ok(t) => (t, false),
        Err(e) => (e, true),
    };
    let mut part = members();
    put(&mut part, "type", text("text"));
    put(&mut part, "text", text(words.as_str()));
    let mut parts: Vec<Value> = Vec::new();
    parts.push(object(part));
    let ghost one = json_of(parts@[0]);
    assert(jsons(parts@) =~= seq![one]);
    let mut m = members();
    put(&mut m, "content", list(parts));
    put(&mut m, "isError", flag(failed));
    object(m)
}

/// What `chat_send` returns once the push was tried, and the event that it gives rise to.
pub fn chat_pushed(line: String, sent: Result<(), String>) -> (r: (
    Result<String, String>,
    Option<BackendEvent>,
))
    ensures
        match sent {
            Ok(_) => {
                &&& texts(r.0) == Ok::<Seq<char>, Seq<char>>("pushed: "@ + quoted(line@))
                &&& r.1 == Some(BackendEvent::ChatPushed { text: line })
            },
            Err(e) => {
                &&& texts(r.0) == Err::<Seq<char>, Seq<char>>("chat push failed: "@ + e@)
                &&& r.1 is None
            },
        },
{
    match sent {
        Ok(_) => {
            let words: String = join("pushed: ", quote(line.as_str()).as_str());
            (Ok(words), Some(BackendEvent::ChatPushed { text: line }))
        },
        Err(e) => (Err(join("chat push failed: ", e.as_str())), None),
    }
}

/// What `send_echo` says of a round trip.
pub open spec fn echo_report(request: Seq<char>, reply: Seq<char>, ms: u128) -> Seq<char> {
    "echo "@ + quoted(request) + " → "@ + quoted(reply) + "  ("@ + decimal_digits(ms as nat)
        + " ms)"@
}

/// What `send_echo` returns once the device was asked, and the event that it gives rise to.
pub fn echoed(request: String, reply: Result<String, String>, ms: u128) -> (r: (
    Result<String, String>,
    Option<BackendEvent>,
))
    ensures
        match reply {
            Ok(response) => {
                &&& texts(r.0) == Ok::<Seq<char>, Seq<char>>(
                    echo_report(request@, response@, ms),
                )
                &&& r.1 == Some(BackendEvent::EchoHandled { request, response, ms })
            },
            Err(e) => {
                &&& texts(r.0) == Err::<Seq<char>, Seq<char>>("echo failed: "@ + e@)
                &&& r.1 is None
            },
        },
{
    match reply {
        Ok(response) => {
            let mut words: String = join("echo ", quote(request.as_str()).as_str());
            words.append(" → ");
            words.append(quote(response.as_str()).as_str());
            words.append("  (");
            words.append(decimal(ms).as_str());
            words.append(" ms)");
            (Ok(words), Some(BackendEvent::EchoHandled { request, response, ms }))
        },
        Err(e) => (Err(join("echo failed: ", e.as_str())), None),
    }
}

/// The request that asks the client's model to answer a prompt.
pub open spec fn sampling_json(
    id: i64,
    prompt: Seq<char>,
    system_prompt: Option<Seq<char>>,
    max_tokens: u32,
) -> Json {
    let plain = no_members().insert(
        "messages"@,
        Json::List(
            seq![
                Json::Object(
                    no_members().insert("role"@, Json::Text("user"@)).insert(
                        "content"@,
                        Json::Object(
                            no_members().insert("type"@, Json::Text("text"@)).insert(
                                "text"@,
                                Json::Text(prompt),
                            ),
                        ),
                    ),
                ),
            ],
        ),
    ).insert("maxTokens"@, Json::Int(max_tokens as int));
    let params = match system_prompt {
        Some(s) => plain.insert("systemPrompt"@, Json::Text(s)),
        None => plain,
    };
    Json::Object(
        no_members().insert("jsonrpc"@, Json::Text("2.0"@)).insert("id"@, Json::Int(id as int)).insert(
            "method"@,
            Json::Text("sampling/createMessage"@),
        ).insert("params"@, Json::Object(params)),
    )
}

/// A borrowed text, if there is one.
pub open spec fn str_if_any(s: Option<&str>) -> Option<Seq<char>> {
    match s {
        Some(t) => Some(t@),
        None => None,
    }
}

/// The request that asks the client's model to answer a prompt.
pub fn sampling_request(id: i64, prompt: &str, system_prompt: Option<&str>, max_tokens: u32) -> (v:
    Value)
    ensures
        json_of(v) == sampling_json(id, prompt@, str_if_any(system_prompt), max_tokens),
{
    let mut content = members();
    put(&mut content, "type", text("text"));
    put(&mut content, "text", text(prompt));
    let mut message = members();
    put(&mut message, "role", text("user"));
    put(&mut message, "content", object(content));
    let mut messages: Vec<Value> = Vec::new();
    messages.push(object(message));
    let ghost one = json_of(messages@[0]);
    assert(jsons(messages@) =~= seq![one]);
    let mut params = members();
    put(&mut params, "messages", list(messages));
    put(&mut params, "maxTokens", count(max_tokens as u64));
    if let Some(s) = system_prompt {
        put(&mut params, "systemPrompt", text(s));
    }
    let mut m = members();
    put(&mut m, "jsonrpc", text("2.0"));
    put(&mut m, "id", whole(id));
    put(&mut m, "method", text("sampling/createMessage"));
    put(&mut m, "params", object(params));
    object(m)
}

/// A member of something that may not be there.
pub open spec fn member_of(j: Option<Json>, key: Seq<char>) -> Option<Json> {
    match j {
        Some(v) => member(v, key),
        None => None,
    }
}

/// What a reply to a sampling request says: the error that it carries, or the text at
/// `result.content.text`.
pub open spec fn sampled_text(reply: Json) -> Result<Seq<char>, Seq<char>> {
    match member(reply, "error"@) {
        Some(e) => Err("sampling client error: "@ + json_text(e)),
        None => match text_in(
            member_of(member_of(member(reply, "result"@), "content"@), "text"@),
        ) {
            Some(t) => Ok(t),
            None => Err("unexpected sampling response shape: "@ + json_text(reply)),
        },
    }
}

/// Reads a reply to a sampling request.
pub fn sampling_reply(reply: &Value) -> (r: Result<String, String>)
    ensures
        texts(r) == sampled_text(json_of(*reply)),
{
    if let Some(e) = get(reply, "error") {
        return Err(join("sampling client error: ", compact(e).as_str()));
    }
    if let Some(result) = get(reply, "result") {
        if let Some(content) = get(result, "content") {
            if let Some(words) = text_at(content, "text") {
                return Ok(words);
            }
        }
    }
    Err(join("unexpected sampling response shape: ", compact(reply).as_str()))
}

/// A reply that carries a text where it belongs gives that text back, and one that carries an
/// error gives an error, whatever else stands in the reply.
pub proof fn the_reply_is_handed_on(
    id: i64,
    words: Seq<char>,
    content: Map<Seq<char>, Json>,
    result: Map<Seq<char>, Json>,
    rest: Map<Seq<char>, Json>,
    failure: Json,
)
    requires
        !rest.dom().contains("method"@),
        !rest.dom().contains("error"@),
    ensures
        ({
            let text_part = Json::Object(content.insert("text"@, Json::Text(words)));
            let said = Json::Object(result.insert("content"@, text_part));
            let reply = rest.insert("result"@, said).insert("id"@, Json::Int(id as int));
            let failed = Json::Object(reply.insert("error"@, failure));
            &&& incoming(Json::Object(reply)) == Incoming::Reply(id as int)
            &&& sampled_text(Json::Object(reply)) == Ok::<Seq<char>, Seq<char>>(words)
            &&& incoming(failed) == Incoming::Reply(id as int)
            &&& sampled_text(failed) == Err::<Seq<char>, Seq<char>>(
                "sampling client error: "@ + json_text(failure),
            )
        }),
{
    reveal_strlit("method");
    reveal_strlit("error");
    reveal_strlit("result");
    reveal_strlit("id");
    assert("method"@[0] == 'm');
    assert("error"@[0] == 'e');
    assert("result"@[0] == 'r');
    assert("id"@[0] == 'i');
}

/// Whether a string stands under `key`, and which.
pub open spec fn has_text(m: Map<Seq<char>, Json>, key: Seq<char>, t: Seq<char>) -> bool {
    m.contains_key(key) && m[key] == Json::Text(t)
}

/// Whether no string stands under `key`.
pub open spec fn has_no_text(m: Map<Seq<char>, Json>, key: Seq<char>) -> bool {
    !m.contains_key(key) || !(m[key] is Text)
}

/// The prompt, the system prompt and the number of tokens of a `sample` call are passed on as they
/// were given. Without a system prompt there is none, and without a number of tokens, which is a
/// whole number that is not negative, 200 are asked for.
pub proof fn sampling_arguments_are_passed_on(
    m: Map<Seq<char>, Json>,
    prompt: Seq<char>,
    system_prompt: Seq<char>,
    n: int,
)
    requires
        has_text(m, "prompt"@, prompt),
    ensures
        sample_call(Json::Object(m)) matches Call::Sample {
            prompt: p,
            system_prompt: s,
            max_tokens: t,
        } && {
            &&& p == prompt
            &&& has_text(m, "system_prompt"@, system_prompt) ==> s == Some(system_prompt)
            &&& has_no_text(m, "system_prompt"@) ==> s is None
            &&& m.contains_key("max_tokens"@) && m["max_tokens"@] == Json::Int(n) && 0 <= n
                <= 0xffff_ffff ==> t == n
            &&& m.contains_key("max_tokens"@) && m["max_tokens"@] == Json::Int(n) && n
                > 0xffff_ffff ==> exists|k: int| #[trigger] (k * 0x1_0000_0000) + t == n
            &&& !m.contains_key("max_tokens"@) || !(m["max_tokens"@] is Int) || (
            m["max_tokens"@] == Json::Int(n) && n < 0) ==> t == 200
        },
{
    if n > 0xffff_ffff {
        let k = n / 0x1_0000_0000;
        assert((k * 0x1_0000_0000) + n % 0x1_0000_0000 == n);
    }
}

/// A `sample` call without a prompt is refused.
pub proof fn sampling_needs_a_prompt(args: Json)
    requires
        args matches Json::Object(m) ==> has_no_text(m, "prompt"@),
    ensures
        sample_call(args) == Call::Done(Err("missing 'prompt' argument"@)),
{
}

/// The text of a `chat_send` or a `send_echo` call is passed on as it was given; a call without one
/// is refused, and so is every `chat_send` where chat is off.
pub proof fn texts_are_passed_on(m: Map<Seq<char>, Json>, t: Seq<char>, args: Json)
    requires
        has_text(m, "text"@, t),
        args matches Json::Object(other) ==> has_no_text(other, "text"@),
    ensures
        chat_send_call(true, Json::Object(m)) == (Call::ChatPush { text: t }),
        send_echo_call(Json::Object(m)) == (Call::Echo { text: t }),
        chat_send_call(true, args) == Call::Done(Err("missing 'text' argument"@)),
        send_echo_call(args) == Call::Done(Err("missing 'text' argument"@)),
        chat_send_call(false, args) == Call::Done(
            Err("backend built without the 'chat' feature"@),
        ),
        chat_send_call(false, Json::Object(m)) == Call::Done(
            Err("backend built without the 'chat' feature"@),
        ),
{
}

/// `chat_history` gives the last entries: as many as were asked for, but no more than 512 and no
/// more than there are, and 50 where no number is given.
pub proof fn the_last_entries_are_given(
    history: Seq<ChatEntry>,
    older: Seq<ChatEntry>,
    m: Map<Seq<char>, Json>,
    n: int,
    args: Json,
)
    requires
        m.contains_key("limit"@) && m["limit"@] == Json::Int(n),
        args matches Json::Object(other) ==> !other.contains_key("limit"@) || !(
        other["limit"@] is Int) || other["limit"@]->Int_0 < 0,
    ensures
        0 <= n && history.len() == n && n <= 512 ==> chat_history_call(
            older + history,
            Json::Object(m),
        ) == Call::Done(Ok(json_pretty(entries_json(history)))),
        n >= 512 && history.len() == 512 ==> chat_history_call(older + history, Json::Object(m))
            == Call::Done(Ok(json_pretty(entries_json(history)))),
        history.len() == 50 ==> chat_history_call(older + history, args) == Call::Done(
            Ok(json_pretty(entries_json(history))),
        ),
        n < 0 && history.len() == 50 ==> chat_history_call(older + history, Json::Object(m))
            == Call::Done(Ok(json_pretty(entries_json(history)))),
        history.len() <= n && history.len() <= 512 ==> chat_history_call(history, Json::Object(m))
            == Call::Done(Ok(json_pretty(entries_json(history)))),
        history.len() <= 50 ==> chat_history_call(history, args) == Call::Done(
            Ok(json_pretty(entries_json(history))),
        ),
{
    let all = older + history;
    assert(all.skip(all.len() - history.len()) =~= history);
    if older.len() == 0 {
        assert(all =~= history);
    }
}

/// A tool is called by the name under `name`, with what stands under `arguments`, or with null
/// where nothing does. A name that no tool has is told back, and so is a call without a name.
pub proof fn tools_are_called_by_name(
    chat: bool,
    history: Seq<ChatEntry>,
    status: StatusSnapshot,
    m: Map<Seq<char>, Json>,
    name: Seq<char>,
    nameless: Json,
)
    requires
        has_text(m, "name"@, name),
        nameless matches Json::Object(other) ==> has_no_text(other, "name"@),
    ensures
        ({
            let call = called(chat, history, status, Json::Object(m));
            let args = if m.contains_key("arguments"@) {
                m["arguments"@]
            } else {
                Json::Null
            };
            &&& name == "chat_send"@ ==> call == chat_send_call(chat, args)
            &&& name == "session_status"@ ==> call == Call::Done(
                Ok(json_pretty(status_json(status))),
            )
            &&& name == "chat_history"@ ==> call == chat_history_call(history, args)
            &&& name == "send_echo"@ ==> call == send_echo_call(args)
            &&& name == "sample"@ ==> call == sample_call(args)
            &&& name != "chat_send"@ && name != "session_status"@ && name != "chat_history"@ && name
                != "send_echo"@ && name != "sample"@ ==> call == Call::Done(
                Err("unknown tool: "@ + name),
            )
        }),
        called(chat, history, status, nameless) == Call::Done(Err("unknown tool: "@)),
{
    reveal_strlit("chat_send");
    reveal_strlit("session_status");
    reveal_strlit("chat_history");
    reveal_strlit("send_echo");
    reveal_strlit("sample");
    reveal_strlit("");
    assert("chat_send"@.len() == 9 && "session_status"@.len() == 14);
    assert("chat_history"@.len() == 12 && "sample"@.len() == 6 && "send_echo"@.len() == 9);
    assert("chat_send"@[0] == 'c' && "send_echo"@[0] == 's');
    assert(""@.len() == 0);
    assert("unknown tool: "@ + ""@ =~= "unknown tool: "@);
}

/// A message with a string under `method` is a request, and hands on what stands under `id` and
/// `params`, or null. With anything else under `method` it cannot be read. Without a `method` it
/// is a reply where a whole number that fits stands under `id`, and neither otherwise.
pub proof fn messages_are_told_apart(
    m: Map<Seq<char>, Json>,
    method: Seq<char>,
    n: int,
    other: Json,
)
    requires
        !(other is Object),
    ensures
        has_text(m, "method"@, method) ==> incoming(Json::Object(m)) == (Incoming::Request {
            id: if m.contains_key("id"@) {
                m["id"@]
            } else {
                Json::Null
            },
            method,
            params: if m.contains_key("params"@) {
                m["params"@]
            } else {
                Json::Null
            },
        }),
        m.contains_key("method"@) && !(m["method"@] is Text) ==> incoming(Json::Object(m))
            == Incoming::Malformed(not_a_string(m["method"@])),
        !m.contains_key("method"@) && m.contains_key("id"@) && m["id"@] == Json::Int(n)
            && -0x8000_0000_0000_0000 <= n <= 0x7fff_ffff_ffff_ffff ==> incoming(Json::Object(m))
            == Incoming::Reply(n),
        !m.contains_key("method"@) && (!m.contains_key("id"@) || !(m["id"@] is Int) || (m["id"@]
            == Json::Int(n) && (n < -0x8000_0000_0000_0000 || n > 0x7fff_ffff_ffff_ffff)))
            ==> incoming(Json::Object(m)) == Incoming::Neither,
        incoming(other) == Incoming::Neither,
{
}

/// What is sent out as JSON, member by member.
pub proof fn messages_are_built_of_their_members(
    words: Seq<char>,
    id: Json,
    result: Json,
    request: i64,
    system_prompt: Seq<char>,
    tokens: u32,
)
    ensures
        error_json(words) == Json::Object(map!["error"@ => Json::Text(words)]),
        response_json(id, result) == Json::Object(
            map!["jsonrpc"@ => Json::Text("2.0"@), "id"@ => id, "result"@ => result],
        ),
        ({
            let part = Json::Object(
                map!["type"@ => Json::Text("text"@), "text"@ => Json::Text(words)],
            );
            let content = Json::List(seq![part]);
            &&& tool_result_json(Ok(words)) == Json::Object(
                map!["content"@ => content, "isError"@ => Json::Bool(false)],
            )
            &&& tool_result_json(Err(words)) == Json::Object(
                map!["content"@ => content, "isError"@ => Json::Bool(true)],
            )
        }),
        ({
            let part = Json::Object(
                map!["type"@ => Json::Text("text"@), "text"@ => Json::Text(words)],
            );
            let message = Json::Object(map!["role"@ => Json::Text("user"@), "content"@ => part]);
            let plain = Json::Object(
                map![
                    "messages"@ => Json::List(seq![message]),
                    "maxTokens"@ => Json::Int(tokens as int)
                ],
            );
            let told = Json::Object(
                map![
                    "messages"@ => Json::List(seq![message]),
                    "maxTokens"@ => Json::Int(tokens as int),
                    "systemPrompt"@ => Json::Text(system_prompt)
                ],
            );
            let asked = |params: Json|
                Json::Object(
                    map![
                        "jsonrpc"@ => Json::Text("2.0"@),
                        "id"@ => Json::Int(request as int),
                        "method"@ => Json::Text("sampling/createMessage"@),
                        "params"@ => params
                    ],
                );
            &&& sampling_json(request, words, None, tokens) == asked(plain)
            &&& sampling_json(request, words, Some(system_prompt), tokens) == asked(told)
        }),
{
}

/// A reply to a sampling request that carries an error is that error. Any other is the string at
/// `result.content.text`, or refused where there is none.
pub proof fn a_reply_says_what_it_holds(m: Map<Seq<char>, Json>, other: Json)
    requires
        !(other is Object),
    ensures
        ({
            let reply = Json::Object(m);
            let refused = Err::<Seq<char>, Seq<char>>(
                "unexpected sampling response shape: "@ + json_text(reply),
            );
            sampled_text(reply) == (if m.contains_key("error"@) {
                Err("sampling client error: "@ + json_text(m["error"@]))
            } else if !m.contains_key("result"@) {
                refused
            } else {
                match m["result"@] {
                    Json::Object(r) => if !r.contains_key("content"@) {
                        refused
                    } else {
                        match r["content"@] {
                            Json::Object(c) => if !c.contains_key("text"@) {
                                refused
                            } else {
                                match c["text"@] {
                                    Json::Text(t) => Ok(t),
                                    _ => refused,
                                }
                            },
                            _ => refused,
                        }
                    },
                    _ => refused,
                }
            })
        }),
        sampled_text(other) == Err::<Seq<char>, Seq<char>>(
            "unexpected sampling response shape: "@ + json_text(other),
        ),
{
}

/// The report of an echo tells the request, the reply and the time, in this order.
pub proof fn an_echo_report_tells_all(request: Seq<char>, reply: Seq<char>, ms: u128)
    ensures
        echo_report(request, reply, ms) == "echo "@ + quoted(request) + " → "@ + quoted(reply)
            + "  ("@ + decimal_digits(ms as nat) + " ms)"@,
{
}

/// What the functions give back is seen as it is.
pub proof fn results_are_seen_as_they_are(
    a: String,
    b: String,
    system_prompt: Option<String>,
    n: u32,
    request: JsonRpcRequest,
    id: i64,
)
    ensures
        texts(Ok(a)) == Ok::<Seq<char>, Seq<char>>(a@),
        texts(Err(a)) == Err::<Seq<char>, Seq<char>>(a@),
        text_if_any(Some(a)) == Some(a@),
        text_if_any(None) is None,
        str_if_any(None) is None,
        ToolStep::Done(Ok(a))@ == Call::Done(Ok(a@)),
        ToolStep::Done(Err(a))@ == Call::Done(Err(a@)),
        (ToolStep::ChatPush { text: a })@ == (Call::ChatPush { text: a@ }),
        (ToolStep::Echo { text: a })@ == (Call::Echo { text: a@ }),
        (ToolStep::Sample { prompt: a, system_prompt: Some(b), max_tokens: n })@ == (Call::Sample {
            prompt: a@,
            system_prompt: Some(b@),
            max_tokens: n,
        }),
        (ToolStep::Sample { prompt: a, system_prompt: None, max_tokens: n })@ == (Call::Sample {
            prompt: a@,
            system_prompt: None,
            max_tokens: n,
        }),
        ClientMessage::Request(request)@ == (Incoming::Request {
            id: json_of(request.id),
            method: request.method@,
            params: json_of(request.params),
        }),
        ClientMessage::Malformed(a)@ == Incoming::Malformed(a@),
        ClientMessage::Reply(id)@ == Incoming::Reply(id as int),
        ClientMessage::Neither@ == Incoming::Neither,
{
}

/// A borrowed text is seen as it is.
pub proof fn borrowed_texts_are_seen_as_they_are(s: &str)
    ensures
        str_if_any(Some(s)) == Some(s@),
{
}

} // verus!
