//! What the server says of itself: its handshake, and the tools that a client can call.

use crate::event::{ChatEntry, StatusSnapshot};
use crate::json::{
    count, json_of, jsons, list, member, members, members_of, no_members, object, put, text, Json,
};
use crate::mcp::{CHAT_HISTORY_LIMIT, DEFAULT_HISTORY, DEFAULT_TOKENS};
use crate::rpc::{called, Call};
use serde_json::Value;
use vstd::prelude::*;

verus! {

/// The answer to `initialize`.
pub open spec fn handshake(version: Seq<char>) -> Json {
    Json::Object(
        no_members().insert("protocolVersion"@, Json::Text("2024-11-05"@)).insert(
            "capabilities"@,
            Json::Object(
                no_members().insert("tools"@, Json::Object(no_members())).insert(
                    "resources"@,
                    Json::Object(no_members()),
                ).insert("logging"@, Json::Object(no_members())),
            ),
        ).insert(
            "serverInfo"@,
            Json::Object(
                no_members().insert("name"@, Json::Text("ql-link-lab"@)).insert(
                    "version"@,
                    Json::Text(version),
                ),
            ),
        ),
    )
}

/// The answer to `initialize`: protocol version, capabilities and server.
pub fn initialize(version: &str) -> (v: Value)
    ensures
        json_of(v) == handshake(version@),
{
    let mut capabilities = members();
    put(&mut capabilities, "tools", object(members()));
    put(&mut capabilities, "resources", object(members()));
    put(&mut capabilities, "logging", object(members()));
    let mut server = members();
    put(&mut server, "name", text("ql-link-lab"));
    put(&mut server, "version", text(version));
    let mut m = members();
    put(&mut m, "protocolVersion", text("2024-11-05"));
    put(&mut m, "capabilities", object(capabilities));
    put(&mut m, "serverInfo", object(server));
    object(m)
}

/// A tool with its schema.
pub open spec fn tool(name: Seq<char>, description: Seq<char>, schema: Json) -> Json {
    Json::Object(
        no_members().insert("name"@, Json::Text(name)).insert(
            "description"@,
            Json::Text(description),
        ).insert("inputSchema"@, schema),
    )
}

/// The schema of arguments with these properties.
pub open spec fn schema(properties: Map<Seq<char>, Json>) -> Map<Seq<char>, Json> {
    no_members().insert("type"@, Json::Text("object"@)).insert(
        "properties"@,
        Json::Object(properties),
    )
}

/// The schema of arguments with these properties, of which one has to be given.
pub open spec fn schema_requiring(
    properties: Map<Seq<char>, Json>,
    required: Seq<char>,
) -> Map<Seq<char>, Json> {
    schema(properties).insert("required"@, Json::List(seq![Json::Text(required)]))
}

/// A property that is a string.
pub open spec fn string_property() -> Json {
    Json::Object(no_members().insert("type"@, Json::Text("string"@)))
}

/// A property that is a whole number in a range, with a value to fall back on.
pub open spec fn integer_property(maximum: int, default: int) -> Json {
    Json::Object(
        no_members().insert("type"@, Json::Text("integer"@)).insert("minimum"@, Json::Int(1)).insert(
            "maximum"@,
            Json::Int(maximum),
        ).insert("default"@, Json::Int(default)),
    )
}

/// `chat_send(text)`.
pub open spec fn chat_send_tool() -> Json {
    tool(
        "chat_send"@,
        "Push a one-line chat message from the backend to the paired KeyOS device (route 101 / ChatPush)."@,
        Json::Object(
            schema_requiring(
                no_members().insert(
                    "text"@,
                    Json::Object(
                        no_members().insert("type"@, Json::Text("string"@)).insert(
                            "description"@,
                            Json::Text("Message body"@),
                        ),
                    ),
                ),
                "text"@,
            ),
        ),
    )
}

/// `session_status()`.
pub open spec fn session_status_tool() -> Json {
    tool(
        "session_status"@,
        "Return the current QL v2 session status (peer state, bt link, peer known)."@,
        Json::Object(schema(no_members())),
    )
}

/// `chat_history(limit?)`.
pub open spec fn chat_history_tool() -> Json {
    tool(
        "chat_history"@,
        "Return the last N chat messages (both directions) the backend has seen since startup."@,
        Json::Object(schema(no_members().insert("limit"@, integer_property(CHAT_HISTORY_LIMIT as int, DEFAULT_HISTORY as int)))),
    )
}

/// `send_echo(text)`.
pub open spec fn send_echo_tool() -> Json {
    tool(
        "send_echo"@,
        "Drive the device's Echo RPC (route 1). Useful to verify round-trip."@,
        Json::Object(
            schema_requiring(no_members().insert("text"@, string_property()), "text"@),
        ),
    )
}

/// `sample(prompt, system_prompt?, max_tokens?)`.
pub open spec fn sample_tool() -> Json {
    tool(
        "sample"@,
        "Issue a sampling/createMessage request back to the connected MCP client and return its reply. Requires a sampling-capable client (MCP Inspector, Cline, etc)."@,
        Json::Object(
            schema_requiring(
                no_members().insert("prompt"@, string_property()).insert(
                    "system_prompt"@,
                    string_property(),
                ).insert("max_tokens"@, integer_property(4096, DEFAULT_TOKENS as int)),
                "prompt"@,
            ),
        ),
    )
}

/// The answer to `tools/list`.
pub open spec fn tool_list() -> Json {
    Json::Object(
        no_members().insert(
            "tools"@,
            Json::List(
                seq![
                    chat_send_tool(),
                    session_status_tool(),
                    chat_history_tool(),
                    send_echo_tool(),
                    sample_tool(),
                ],
            ),
        ),
    )
}

fn make_tool(name: &str, description: &str, schema: Value) -> (v: Value)
    ensures
        json_of(v) == tool(name@, description@, json_of(schema)),
{
    let mut m = members();
    put(&mut m, "name", text(name));
    put(&mut m, "description", text(description));
    put(&mut m, "inputSchema", schema);
    object(m)
}

fn make_schema(properties: serde_json::Map<String, Value>, required: Option<&str>) -> (v: Value)
    ensures
        json_of(v) == Json::Object(
            match required {
                Some(name) => schema_requiring(members_of(properties), name@),
                None => schema(members_of(properties)),
            },
        ),
{
    let mut m = members();
    put(&mut m, "type", text("object"));
    put(&mut m, "properties", object(properties));
    if let Some(name) = required {
        let mut names: Vec<Value> = Vec::new();
        names.push(text(name));
        assert(jsons(names@) =~= seq![Json::Text(name@)]);
        put(&mut m, "required", list(names));
    }
    object(m)
}

fn make_string_property() -> (v: Value)
    ensures
        json_of(v) == string_property(),
{
    let mut m = members();
    put(&mut m, "type", text("string"));
    object(m)
}

fn make_integer_property(maximum: u64, default: u64) -> (v: Value)
    ensures
        json_of(v) == integer_property(maximum as int, default as int),
{
    let mut m = members();
    put(&mut m, "type", text("integer"));
    put(&mut m, "minimum", count(1));
    put(&mut m, "maximum", count(maximum));
    put(&mut m, "default", count(default));
    object(m)
}

/// The answer to `tools/list`: each tool with its name, its description and the schema of its
/// arguments.
pub fn tools_list() -> (v: Value)
    ensures
        json_of(v) == tool_list(),
{
    let mut body = members();
    put(&mut body, "type", text("string"));
    put(&mut body, "description", text("Message body"));
    let mut chat_send = members();
    put(&mut chat_send, "text", object(body));
    let mut chat_history = members();
    put(&mut chat_history, "limit", make_integer_property(CHAT_HISTORY_LIMIT as u64, DEFAULT_HISTORY));
    let mut send_echo = members();
    put(&mut send_echo, "text", make_string_property());
    let mut sample = members();
    put(&mut sample, "prompt", make_string_property());
    put(&mut sample, "system_prompt", make_string_property());
    put(&mut sample, "max_tokens", make_integer_property(4096, DEFAULT_TOKENS));

    let mut tools: Vec<Value> = Vec::new();
    tools.push(
        make_tool(
            "chat_send",
            "Push a one-line chat message from the backend to the paired KeyOS device (route 101 / ChatPush).",
            make_schema(chat_send, Some("text")),
        ),
    );
    tools.push(
        make_tool(
            "session_status",
            "Return the current QL v2 session status (peer state, bt link, peer known).",
            make_schema(members(), None),
        ),
    );
    tools.push(
        make_tool(
            "chat_history",
            "Return the last N chat messages (both directions) the backend has seen since startup.",
            make_schema(chat_history, None),
        ),
    );
    tools.push(
        make_tool(
            "send_echo",
            "Drive the device's Echo RPC (route 1). Useful to verify round-trip.",
            make_schema(send_echo, Some("text")),
        ),
    );
    tools.push(
        make_tool(
            "sample",
            "Issue a sampling/createMessage request back to the connected MCP client and return its reply. Requires a sampling-capable client (MCP Inspector, Cline, etc).",
            make_schema(sample, Some("prompt")),
        ),
    );
    assert(jsons(tools@) =~= seq![
        chat_send_tool(),
        session_status_tool(),
        chat_history_tool(),
        send_echo_tool(),
        sample_tool(),
    ]);
    let mut m = members();
    put(&mut m, "tools", list(tools));
    object(m)
}

/// The names of the tools, in the order in which they are listed.
pub open spec fn tool_names() -> Seq<Seq<char>> {
    seq!["chat_send"@, "session_status"@, "chat_history"@, "send_echo"@, "sample"@]
}

/// Whether a call was refused because there is no such tool.
pub open spec fn no_such_tool(call: Call, name: Seq<char>) -> bool {
    call == Call::Done(Err("unknown tool: "@ + name))
}

/// The tools that are listed are the tools that can be called: each is listed under its name, and
/// a call is refused as unknown exactly where its tool is not listed.
pub proof fn listed_tools_can_be_called(
    chat: bool,
    history: Seq<ChatEntry>,
    status: StatusSnapshot,
    params: Json,
    name: Seq<char>,
)
    requires
        member(params, "name"@) == Some(Json::Text(name)),
    ensures
        member(tool_list(), "tools"@) matches Some(Json::List(tools)) && tools.len()
            == tool_names().len() && forall|i: int|
            0 <= i < tools.len() ==> member(#[trigger] tools[i], "name"@) == Some(
                Json::Text(tool_names()[i]),
            ),
        no_such_tool(called(chat, history, status, params), name) <==> !tool_names().contains(name),
{
    reveal_strlit("name");
    reveal_strlit("description");
    reveal_strlit("inputSchema");
    assert("name"@.len() != "description"@.len() && "name"@.len() != "inputSchema"@.len());
    reveal_strlit("unknown tool: ");
    reveal_strlit("missing 'text' argument");
    reveal_strlit("missing 'prompt' argument");
    reveal_strlit("backend built without the 'chat' feature");
    let refused = "unknown tool: "@ + name;
    assert(refused[0] == 'u');
    assert("missing 'text' argument"@[0] == 'm');
    assert("missing 'prompt' argument"@[0] == 'm');
    assert("backend built without the 'chat' feature"@[0] == 'b');
    assert(tool_names()[0] == "chat_send"@);
    assert(tool_names()[1] == "session_status"@);
    assert(tool_names()[2] == "chat_history"@);
    assert(tool_names()[3] == "send_echo"@);
    assert(tool_names()[4] == "sample"@);
}

/// The handshake names the protocol, what the server can do, and the server with its version.
pub proof fn the_handshake_tells_the_version(version: Seq<char>)
    ensures
        handshake(version) == Json::Object(
            map![
                "protocolVersion"@ => Json::Text("2024-11-05"@),
                "capabilities"@ => Json::Object(
                    map![
                        "tools"@ => Json::Object(Map::empty()),
                        "resources"@ => Json::Object(Map::empty()),
                        "logging"@ => Json::Object(Map::empty())
                    ],
                ),
                "serverInfo"@ => Json::Object(
                    map![
                        "name"@ => Json::Text("ql-link-lab"@),
                        "version"@ => Json::Text(version)
                    ],
                )
            ],
        ),
{
}

} // verus!
