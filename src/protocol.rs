//! The tool protocol: JSON-RPC 2.0 envelopes, the handshake, and the decoding
//! of tool lists and call results, for a session over either transport.
use vstd::prelude::*;
use crate::config::ConnectError;
use crate::json::{JsonNumber, JsonValue, json_member, json_text};

verus! {

/// A tool as a server describes it.
#[derive(Debug)]
pub struct Tool {
    pub name: String,
    pub description: String,
    pub input_schema: JsonValue,
}

/// One block of a call's output.
#[derive(Clone, Debug)]
pub struct Content {
    pub content_type: String,
    pub text: String,
}

/// What a tool call returns: its output, and whether the tool failed.
#[derive(Clone, Debug)]
pub struct ToolCallResult {
    pub content: Vec<Content>,
    pub is_error: Option<bool>,
}

/// Why an exchange with a tool server failed.
#[derive(Debug)]
pub enum ProtocolError {
    /// The channel failed: a write, a read, or the server went away.
    Transport(String),
    /// The server answered over HTTP with a status outside 200 to 299.
    HttpStatus(u16),
    /// The reply was not JSON.
    InvalidJson,
    /// The reply held no `result`.
    MissingResult,
    /// The `result` did not have the shape that the method returns.
    MalformedResult,
    /// The session has not completed its handshake.
    NotInitialized,
    /// The session has used every request number.
    IdsExhausted,
}

/// A tool object as the protocol gives it: a name, a description and an
/// input schema.
pub open spec fn is_tool(v: JsonValue) -> bool {
    &&& v.text_field("name"@) is Some
    &&& v.text_field("description"@) is Some
    &&& v.field("inputSchema"@) is Some
}

/// Whether `t` holds what the tool object `v` states.
pub open spec fn tool_from(v: JsonValue, t: Tool) -> bool {
    &&& v.text_field("name"@) == Some(t.name@)
    &&& v.text_field("description"@) == Some(t.description@)
    &&& v.field("inputSchema"@) == Some(t.input_schema)
}

impl Tool {
    /// Decodes a tool object.
    pub fn from_json(v: JsonValue) -> (r: Result<Tool, ProtocolError>)
        ensures
            is_tool(v) ==> (r matches Ok(t) && tool_from(v, t)),
            !is_tool(v) ==> (r matches Err(ProtocolError::MalformedResult)),
    {
        let name = match v.get_text("name") {
            Some(n) => n,
            None => return Err(ProtocolError::MalformedResult),
        };
        let description = match v.get_text("description") {
            Some(d) => d,
            None => return Err(ProtocolError::MalformedResult),
        };
        match v.take("inputSchema") {
            Some(input_schema) => Ok(Tool { name, description, input_schema }),
            None => Err(ProtocolError::MalformedResult),
        }
    }
}

/// Whether `ts` decodes, one for one, the tool objects `vs`.
pub open spec fn tools_from(vs: Seq<JsonValue>, ts: Seq<Tool>) -> bool {
    &&& vs.len() == ts.len()
    &&& forall|i: int| 0 <= i < vs.len() ==> tool_from(#[trigger] vs[i], ts[i])
}

/// What a `tools/list` result states: an object whose `tools` is an array of
/// tool objects.
pub open spec fn listed_tools(result: JsonValue) -> Option<Seq<JsonValue>> {
    match result.field("tools"@) {
        Some(JsonValue::Array(vs)) => if forall|i: int| 0 <= i < vs@.len() ==> is_tool(#[trigger] vs@[i]) {
            Some(vs@)
        } else {
            None
        },
        _ => None,
    }
}

/// The tools of a `tools/list` result.
pub fn decode_tools(result: JsonValue) -> (r: Result<Vec<Tool>, ProtocolError>)
    ensures
        match listed_tools(result) {
            Some(vs) => r matches Ok(ts) && tools_from(vs, ts@),
            None => r matches Err(ProtocolError::MalformedResult),
        },
{
    let ghost whole = result;
    let items = match result.take("tools") {
        Some(JsonValue::Array(items)) => items,
        _ => return Err(ProtocolError::MalformedResult),
    };
    let ghost vs = items@;
    assert(whole.field("tools"@) matches Some(JsonValue::Array(x)) && x@ == vs);
    let mut tools: Vec<Tool> = Vec::new();
    for v in it: items
        invariant
            it.seq() == vs,
            whole == result,
            whole.field("tools"@) matches Some(JsonValue::Array(x)) && x@ == vs,
            tools@.len() == it.index(),
            forall|i: int| 0 <= i < tools@.len() ==> tool_from(#[trigger] vs[i], tools@[i]),
            forall|i: int| 0 <= i < tools@.len() ==> is_tool(#[trigger] vs[i]),
    {
        assert(v == vs[tools@.len() as int]);
        match Tool::from_json(v) {
            Ok(t) => {
                tools.push(t);
            },
            Err(_) => {
                assert(!is_tool(vs[tools@.len() as int]));
                return Err(ProtocolError::MalformedResult);
            },
        }
    }
    Ok(tools)
}

/// A content block as the protocol gives it: a type and a text.
pub open spec fn is_content(v: JsonValue) -> bool {
    v.text_field("type"@) is Some && v.text_field("text"@) is Some
}

/// Whether `c` holds what the content object `v` states.
pub open spec fn content_from(v: JsonValue, c: Content) -> bool {
    v.text_field("type"@) == Some(c.content_type@) && v.text_field("text"@) == Some(c.text@)
}

/// The content objects of a `tools/call` result, where they all have the
/// shape of content.
pub open spec fn listed_content(result: JsonValue) -> Option<Seq<JsonValue>> {
    match result.field("content"@) {
        Some(JsonValue::Array(vs)) => if forall|i: int| 0 <= i < vs@.len() ==> is_content(#[trigger] vs@[i]) {
            Some(vs@)
        } else {
            None
        },
        _ => None,
    }
}

/// The error flag of a `tools/call` result: absent or null is no flag, a
/// boolean is that flag, anything else is malformed.
pub open spec fn error_flag(result: JsonValue) -> Option<Option<bool>> {
    match result.field("isError"@) {
        None => Some(None),
        Some(JsonValue::Null) => Some(None),
        Some(JsonValue::Bool(b)) => Some(Some(b)),
        _ => None,
    }
}

/// Whether `call` holds what the `tools/call` result `result` states.
pub open spec fn call_result_from(result: JsonValue, call: ToolCallResult) -> bool {
    &&& listed_content(result) matches Some(vs) && vs.len() == call.content@.len()
        && forall|i: int| 0 <= i < vs.len() ==> content_from(#[trigger] vs[i], call.content@[i])
    &&& error_flag(result) == Some(call.is_error)
}

/// Decodes a `tools/call` result.
pub fn decode_call_result(result: &JsonValue) -> (r: Result<ToolCallResult, ProtocolError>)
    ensures
        listed_content(*result) is Some && error_flag(*result) is Some ==> (r matches Ok(c) && call_result_from(*result, c)),
        !(listed_content(*result) is Some && error_flag(*result) is Some) ==> (r matches Err(ProtocolError::MalformedResult)),
{
    let is_error = match result.get("isError") {
        None => None,
        Some(JsonValue::Null) => None,
        Some(JsonValue::Bool(b)) => Some(*b),
        Some(_) => return Err(ProtocolError::MalformedResult),
    };
    let items = match result.get("content") {
        Some(JsonValue::Array(items)) => items,
        _ => return Err(ProtocolError::MalformedResult),
    };
    let mut content: Vec<Content> = Vec::new();
    let mut i: usize = 0;
    while i < items.len()
        invariant
            i <= items@.len(),
            result.field("content"@) == Some(JsonValue::Array(*items)),
            error_flag(*result) == Some(is_error),
            content@.len() == i,
            forall|j: int| 0 <= j < i ==> content_from(#[trigger] items@[j], content@[j]),
            forall|j: int| 0 <= j < i ==> is_content(#[trigger] items@[j]),
        decreases items@.len() - i,
    {
        let item = &items[i];
        let content_type = match item.get_text("type") {
            Some(t) => t,
            None => return Err(ProtocolError::MalformedResult),
        };
        let text = match item.get_text("text") {
            Some(t) => t,
            None => return Err(ProtocolError::MalformedResult),
        };
        content.push(Content { content_type, text });
        i += 1;
    }
    Ok(ToolCallResult { content, is_error })
}

/// The `result` of a reply, or why there is none.
pub fn take_result(reply: Result<JsonValue, ProtocolError>) -> (r: Result<JsonValue, ProtocolError>)
    ensures
        reply is Err ==> r == reply,
        reply matches Ok(v) ==> match v.field("result"@) {
            Some(res) => r == Ok::<JsonValue, ProtocolError>(res),
            None => r matches Err(ProtocolError::MissingResult),
        },
{
    match reply {
        Err(e) => Err(e),
        Ok(v) => match v.take("result") {
            Some(res) => Ok(res),
            None => Err(ProtocolError::MissingResult),
        },
    }
}

/// What a reply to `tools/list` yields: the failure that the reply carries,
/// a missing or malformed result, or the tools it lists.
pub open spec fn tools_reply(reply: Result<JsonValue, ProtocolError>, r: Result<Vec<Tool>, ProtocolError>) -> bool {
    match reply {
        Err(e) => r == Err::<Vec<Tool>, ProtocolError>(e),
        Ok(v) => match v.field("result"@) {
            None => r matches Err(ProtocolError::MissingResult),
            Some(res) => match listed_tools(res) {
                Some(vs) => r matches Ok(ts) && tools_from(vs, ts@),
                None => r matches Err(ProtocolError::MalformedResult),
            },
        },
    }
}

/// The tools that a reply to `tools/list` lists.
pub fn list_tools_reply(reply: Result<JsonValue, ProtocolError>) -> (r: Result<Vec<Tool>, ProtocolError>)
    ensures
        tools_reply(reply, r),
{
    match take_result(reply) {
        Err(e) => Err(e),
        Ok(res) => decode_tools(res),
    }
}

/// What a reply to `tools/call` yields: the failure that the reply carries,
/// a missing or malformed result, or the call's result.
pub open spec fn call_reply(reply: Result<JsonValue, ProtocolError>, r: Result<ToolCallResult, ProtocolError>) -> bool {
    match reply {
        Err(e) => r == Err::<ToolCallResult, ProtocolError>(e),
        Ok(v) => match v.field("result"@) {
            None => r matches Err(ProtocolError::MissingResult),
            Some(res) => if listed_content(res) is Some && error_flag(res) is Some {
                r matches Ok(c) && call_result_from(res, c)
            } else {
                r matches Err(ProtocolError::MalformedResult)
            },
        },
    }
}

/// The result that a reply to `tools/call` carries.
pub fn call_tool_reply(reply: Result<JsonValue, ProtocolError>) -> (r: Result<ToolCallResult, ProtocolError>)
    ensures
        call_reply(reply, r),
{
    match take_result(reply) {
        Err(e) => Err(e),
        Ok(res) => decode_call_result(&res),
    }
}

/// What an HTTP exchange yields: the body where the status is 200 to 299 and
/// the body is JSON.
pub fn http_reply(status: u16, body: Option<JsonValue>) -> (r: Result<JsonValue, ProtocolError>)
    ensures
        !(200 <= status <= 299) ==> (r matches Err(ProtocolError::HttpStatus(s)) && s == status),
        200 <= status <= 299 ==> match body {
            Some(v) => r == Ok::<JsonValue, ProtocolError>(v),
            None => r matches Err(ProtocolError::InvalidJson),
        },
{
    if status < 200 || status > 299 {
        return Err(ProtocolError::HttpStatus(status));
    }
    match body {
        Some(v) => Ok(v),
        None => Err(ProtocolError::InvalidJson),
    }
}

/// Whether `r` is a JSON-RPC 2.0 message naming `method`.
pub open spec fn is_envelope(r: JsonValue, method: Seq<char>) -> bool {
    r.text_field("jsonrpc"@) == Some("2.0"@) && r.text_field("method"@) == Some(method)
}

/// Whether `r` is a request with number `id` for `method` with `params`.
pub open spec fn is_request(r: JsonValue, id: JsonValue, method: Seq<char>, params: Option<JsonValue>) -> bool {
    is_envelope(r, method) && r.field("id"@) == Some(id) && r.field("params"@) == params
}

/// Whether `r` is a notification of `method`: no number, no reply expected.
pub open spec fn is_notification(r: JsonValue, method: Seq<char>) -> bool {
    is_envelope(r, method) && r.field("id"@) is None && r.field("params"@) is None
}

proof fn lemma_envelope_keys()
    ensures
        "jsonrpc"@ != "id"@, "jsonrpc"@ != "method"@, "jsonrpc"@ != "params"@,
        "id"@ != "method"@, "id"@ != "params"@, "method"@ != "params"@,
{
    reveal_strlit("jsonrpc");
    reveal_strlit("id");
    reveal_strlit("method");
    reveal_strlit("params");
    assert("jsonrpc"@.len() != "id"@.len());
    assert("jsonrpc"@.len() != "method"@.len());
    assert("jsonrpc"@.len() != "params"@.len());
    assert("id"@.len() != "method"@.len());
    assert("id"@.len() != "params"@.len());
    assert("method"@[0] != "params"@[0]);
}

/// A request with number `id` for `method`, with `params` where given.
pub fn request(id: JsonValue, method: &str, params: Option<JsonValue>) -> (r: JsonValue)
    ensures
        is_request(r, id, method@, params),
{
    proof {
        lemma_envelope_keys();
        reveal_with_fuel(crate::json::member, 5);
    }
    let ghost given = params;
    let mut members = vec![
        json_member("jsonrpc", json_text("2.0")),
        json_member("id", id),
        json_member("method", json_text(method)),
    ];
    match params {
        Some(p) => {
            members.push(json_member("params", p));
        },
        None => {},
    }
    let r = JsonValue::Object(members);
    assert(r.field("params"@) == given);
    r
}

/// A notification of `method`.
pub fn notification(method: &str) -> (r: JsonValue)
    ensures
        is_notification(r, method@),
{
    proof {
        lemma_envelope_keys();
        reveal_with_fuel(crate::json::member, 3);
    }
    let members = vec![
        json_member("jsonrpc", json_text("2.0")),
        json_member("method", json_text(method)),
    ];
    JsonValue::Object(members)
}

/// The protocol revision that this client speaks.
pub const PROTOCOL_VERSION: &'static str = "2025-06-18";

/// The name under which this client introduces itself.
pub const CLIENT_NAME: &'static str = "ai-chat-cli";

/// The version under which this client introduces itself.
pub const CLIENT_VERSION: &'static str = "0.2.0";

/// Whether `p` is what `initialize` sends: the protocol revision, no
/// capabilities, and the client's name and version.
pub open spec fn is_initialize_params(p: JsonValue) -> bool {
    &&& p.text_field("protocolVersion"@) == Some(PROTOCOL_VERSION@)
    &&& p.field("capabilities"@) matches Some(JsonValue::Object(m)) && m@.len() == 0
    &&& p.field("clientInfo"@) matches Some(info) && info.text_field("name"@) == Some(CLIENT_NAME@)
        && info.text_field("version"@) == Some(CLIENT_VERSION@)
}

/// The parameters of `initialize`.
fn initialize_params() -> (p: JsonValue)
    ensures
        is_initialize_params(p),
{
    proof {
        reveal_strlit("protocolVersion");
        reveal_strlit("capabilities");
        reveal_strlit("clientInfo");
        reveal_strlit("name");
        reveal_strlit("version");
        reveal_with_fuel(crate::json::member, 4);
        assert("protocolVersion"@.len() != "capabilities"@.len());
        assert("protocolVersion"@.len() != "clientInfo"@.len());
        assert("capabilities"@.len() != "clientInfo"@.len());
        assert("name"@.len() != "version"@.len());
    }
    let info = vec![json_member("name", json_text(CLIENT_NAME)), json_member("version", json_text(CLIENT_VERSION))];
    let members = vec![
        json_member("protocolVersion", json_text(PROTOCOL_VERSION)),
        json_member("capabilities", JsonValue::Object(Vec::new())),
        json_member("clientInfo", JsonValue::Object(info)),
    ];
    JsonValue::Object(members)
}

/// Whether `t` has the form of a random request token: 36 characters in
/// hyphenated groups, the version digit 4 in its place.
pub open spec fn is_token(t: Seq<char>) -> bool {
    &&& t.len() == 36
    &&& t[8] == '-' && t[13] == '-' && t[18] == '-' && t[23] == '-'
    &&& t[14] == '4'
}

/// Relies on uuid's `Uuid::new_v4` and the `Display` of `Uuid`, which writes
/// the hyphenated lower-case form: 8-4-4-4-12 hex digits, the version
/// digit 4 first in the third group.
#[verifier::external_body]
fn fresh_token() -> (r: String)
    ensures
        is_token(r@),
{
    uuid::Uuid::new_v4().to_string()
}

/// The two ways to reach a tool server.
#[derive(Clone, Copy, Debug, PartialEq, Eq, Structural)]
pub enum TransportKind {
    /// A spawned process, one JSON message per line on its standard streams.
    Stdio,
    /// An HTTP endpoint that takes each message as a POST.
    Http,
}

/// The protocol state of one connection: how it is reached, the number of
/// its next request, and whether its handshake has completed.
#[derive(Debug)]
pub struct ClientSession {
    kind: TransportKind,
    next_id: u64,
    ready: bool,
}

impl ClientSession {
    /// How the server is reached.
    pub closed spec fn transport(self) -> TransportKind {
        self.kind
    }

    /// The number that the next numbered request carries.
    pub closed spec fn counter(self) -> nat {
        self.next_id as nat
    }

    /// Whether the handshake has completed.
    pub closed spec fn is_ready(self) -> bool {
        self.ready
    }

    /// A session before its handshake; requests are numbered from 1.
    pub fn new(kind: TransportKind) -> (s: ClientSession)
        ensures
            s.transport() == kind,
            s.counter() == 1,
            !s.is_ready(),
    {
        ClientSession { kind, next_id: 1, ready: false }
    }

    /// How the server is reached.
    pub fn kind(&self) -> (k: TransportKind)
        ensures
            k == self.transport(),
    {
        self.kind
    }

    /// Whether the handshake has completed.
    pub fn ready(&self) -> (b: bool)
        ensures
            b == self.is_ready(),
    {
        self.ready
    }

    /// Takes the next request number.
    fn take_counter(&mut self) -> (r: Result<u64, ProtocolError>)
        ensures
            final(self).transport() == old(self).transport(),
            final(self).is_ready() == old(self).is_ready(),
            old(self).counter() < u64::MAX ==> (r matches Ok(n) && n == old(self).counter()
                && final(self).counter() == old(self).counter() + 1),
            old(self).counter() >= u64::MAX ==> (r matches Err(ProtocolError::IdsExhausted)
                && final(self).counter() == old(self).counter()),
    {
        if self.next_id == u64::MAX {
            return Err(ProtocolError::IdsExhausted);
        }
        let n = self.next_id;
        self.next_id = n + 1;
        Ok(n)
    }

    /// The `id` for the next request after the handshake: the counter over
    /// stdio, a fresh random token over HTTP.
    fn take_id(&mut self) -> (r: Result<JsonValue, ProtocolError>)
        ensures
            final(self).transport() == old(self).transport(),
            final(self).is_ready() == old(self).is_ready(),
            fresh_id(*old(self), *final(self), r),
    {
        match self.kind {
            TransportKind::Stdio => match self.take_counter() {
                Ok(n) => Ok(JsonValue::Number(JsonNumber::Unsigned(n))),
                Err(e) => Err(e),
            },
            TransportKind::Http => Ok(JsonValue::Str(fresh_token())),
        }
    }

    /// The `initialize` request, numbered by the counter.
    pub fn initialize_request(&mut self) -> (r: Result<JsonValue, ProtocolError>)
        ensures
            final(self).transport() == old(self).transport(),
            final(self).is_ready() == old(self).is_ready(),
            old(self).counter() < u64::MAX ==> (r matches Ok(q)
                && final(self).counter() == old(self).counter() + 1
                && (q.field("params"@) matches Some(p) && is_initialize_params(p)
                && is_request(q, JsonValue::Number(JsonNumber::Unsigned(old(self).counter() as u64)), "initialize"@, Some(p)))),
            old(self).counter() >= u64::MAX ==> (r matches Err(ProtocolError::IdsExhausted)
                && final(self).counter() == old(self).counter()),
    {
        let n = match self.take_counter() {
            Ok(n) => n,
            Err(e) => return Err(e),
        };
        let params = initialize_params();
        let ghost p = params;
        let q = request(JsonValue::Number(JsonNumber::Unsigned(n)), "initialize", Some(params));
        assert(q.field("params"@) == Some(p));
        Ok(q)
    }

    /// Completes the handshake with the reply to `initialize`. A reply with
    /// a `result` makes the session ready and gives the `initialized`
    /// notification to send; anything else leaves it unusable.
    pub fn handshake(&mut self, reply: Result<JsonValue, ProtocolError>) -> (r: Result<JsonValue, ProtocolError>)
        ensures
            final(self).transport() == old(self).transport(),
            final(self).counter() == old(self).counter(),
            final(self).is_ready() <==> r is Ok,
            (reply matches Ok(v) && v.field("result"@) is Some) ==> (r matches Ok(n)
                && is_notification(n, "notifications/initialized"@)),
            reply is Err ==> r == Err::<JsonValue, ProtocolError>(reply->Err_0),
            (reply matches Ok(v) && v.field("result"@) is None) ==> (r matches Err(ProtocolError::MissingResult)),
    {
        match take_result(reply) {
            Ok(_) => {
                self.ready = true;
                Ok(notification("notifications/initialized"))
            },
            Err(e) => {
                self.ready = false;
                Err(e)
            },
        }
    }

    /// The `tools/list` request.
    pub fn list_tools_request(&mut self) -> (r: Result<JsonValue, ProtocolError>)
        ensures
            final(self).transport() == old(self).transport(),
            final(self).is_ready() == old(self).is_ready(),
            !old(self).is_ready() ==> (r matches Err(ProtocolError::NotInitialized) && final(self).counter() == old(self).counter()),
            old(self).is_ready() ==> match r {
                Ok(q) => q.field("id"@) matches Some(id) && fresh_id(*old(self), *final(self), Ok(id))
                    && is_request(q, id, "tools/list"@, None),
                Err(e) => fresh_id(*old(self), *final(self), Err(e)),
            },
    {
        if !self.ready {
            return Err(ProtocolError::NotInitialized);
        }
        let id = match self.take_id() {
            Ok(id) => id,
            Err(e) => return Err(e),
        };
        Ok(request(id, "tools/list", None))
    }

    /// The `tools/call` request for the tool `name` with `arguments`.
    pub fn call_tool_request(&mut self, name: &str, arguments: JsonValue) -> (r: Result<JsonValue, ProtocolError>)
        ensures
            final(self).transport() == old(self).transport(),
            final(self).is_ready() == old(self).is_ready(),
            !old(self).is_ready() ==> (r matches Err(ProtocolError::NotInitialized) && final(self).counter() == old(self).counter()),
            old(self).is_ready() ==> match r {
                Ok(q) => q.field("id"@) matches Some(id) && fresh_id(*old(self), *final(self), Ok(id))
                    && (q.field("params"@) matches Some(p) && is_request(q, id, "tools/call"@, Some(p))
                    && p.text_field("name"@) == Some(name@) && p.field("arguments"@) == Some(arguments)),
                Err(e) => fresh_id(*old(self), *final(self), Err(e)),
            },
    {
        if !self.ready {
            return Err(ProtocolError::NotInitialized);
        }
        let id = match self.take_id() {
            Ok(id) => id,
            Err(e) => return Err(e),
        };
        let ghost args = arguments;
        proof {
            reveal_strlit("name");
            reveal_strlit("arguments");
            reveal_with_fuel(crate::json::member, 3);
            assert("name"@.len() != "arguments"@.len());
        }
        let params = JsonValue::Object(vec![json_member("name", json_text(name)), json_member("arguments", arguments)]);
        let ghost p = params;
        assert(p.field("arguments"@) == Some(args));
        let q = request(id, "tools/call", Some(params));
        assert(q.field("params"@) == Some(p));
        Ok(q)
    }
}

/// Whether `r` is the `id` that a session hands out as it goes from `before`
/// to `after`: the counter, then counted up, over stdio (or an exhausted
/// counter, left as it was); a random token, the counter untouched, over HTTP.
pub open spec fn fresh_id(before: ClientSession, after: ClientSession, r: Result<JsonValue, ProtocolError>) -> bool {
    match before.transport() {
        TransportKind::Stdio => if before.counter() < u64::MAX {
            r == Ok::<JsonValue, ProtocolError>(JsonValue::Number(JsonNumber::Unsigned(before.counter() as u64)))
                && after.counter() == before.counter() + 1
        } else {
            r matches Err(ProtocolError::IdsExhausted) && after.counter() == before.counter()
        },
        TransportKind::Http => r matches Ok(JsonValue::Str(t)) && is_token(t@) && after.counter() == before.counter(),
    }
}

/// Completes a connection with the reply to its `initialize` request: either
/// a ready session with the `initialized` notification to send, or a connect
/// error, the session consumed with it so that nothing half-open remains.
pub fn complete_handshake(session: ClientSession, reply: Result<JsonValue, ProtocolError>) -> (r: Result<(ClientSession, JsonValue), ConnectError>)
    ensures
        r is Ok <==> (reply matches Ok(v) && v.field("result"@) is Some),
        r matches Ok((s, n)) ==> s.is_ready() && s.transport() == session.transport()
            && s.counter() == session.counter() && is_notification(n, "notifications/initialized"@),
        r matches Err(e) ==> e is Handshake,
{
    let mut s = session;
    match s.handshake(reply) {
        Ok(n) => Ok((s, n)),
        Err(e) => Err(ConnectError::Handshake(e)),
    }
}

} // verus!
