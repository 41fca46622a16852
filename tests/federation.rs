use toolfed::catalog::{CallError, Route, ToolCatalog, ToolFederation};
use toolfed::config::{ConnectError, McpConfig, McpServerConfig, ServerSpec};
use toolfed::json::{JsonNumber, JsonValue};
use toolfed::protocol::{
    call_tool_reply, complete_handshake, http_reply, list_tools_reply, ClientSession, ProtocolError, Tool,
    TransportKind,
};
use toolfed::tools::BuiltinToolRegistry;

fn obj(members: Vec<(&str, JsonValue)>) -> JsonValue {
    JsonValue::Object(members.into_iter().map(|(k, v)| (k.to_string(), v)).collect())
}

fn s(t: &str) -> JsonValue {
    JsonValue::Str(t.to_string())
}

fn tool(name: &str) -> Tool {
    Tool { name: name.to_string(), description: format!("{} tool", name), input_schema: obj(vec![]) }
}

fn text_at<'a>(v: &'a JsonValue, key: &str) -> Option<&'a str> {
    match v.get(key) {
        Some(JsonValue::Str(t)) => Some(t.as_str()),
        _ => None,
    }
}

fn ready_session(kind: TransportKind) -> ClientSession {
    let mut session = ClientSession::new(kind);
    session.initialize_request().expect("initialize");
    let reply = obj(vec![("jsonrpc", s("2.0")), ("result", obj(vec![]))]);
    let (session, _) = complete_handshake(session, Ok(reply)).expect("handshake");
    session
}

#[test]
fn initialize_request_carries_id_one_and_client_info() {
    let mut session = ClientSession::new(TransportKind::Stdio);
    let req = session.initialize_request().expect("initialize");
    assert_eq!(text_at(&req, "jsonrpc"), Some("2.0"));
    assert_eq!(text_at(&req, "method"), Some("initialize"));
    assert!(matches!(req.get("id"), Some(JsonValue::Number(JsonNumber::Unsigned(1)))));
    let params = req.get("params").expect("params");
    assert_eq!(text_at(params, "protocolVersion"), Some("2025-06-18"));
    let info = params.get("clientInfo").expect("clientInfo");
    assert_eq!(text_at(info, "name"), Some("ai-chat-cli"));
    assert_eq!(text_at(info, "version"), Some("0.2.0"));
    assert!(matches!(params.get("capabilities"), Some(JsonValue::Object(m)) if m.is_empty()));
}

#[test]
fn handshake_success_gives_initialized_notification() {
    let mut session = ClientSession::new(TransportKind::Stdio);
    session.initialize_request().expect("initialize");
    let reply = obj(vec![("id", JsonValue::Number(JsonNumber::Unsigned(1))), ("result", obj(vec![]))]);
    let (session, note) = complete_handshake(session, Ok(reply)).expect("handshake");
    assert!(session.ready());
    assert_eq!(text_at(&note, "method"), Some("notifications/initialized"));
    assert!(note.get("id").is_none());
}

#[test]
fn handshake_without_result_is_a_connect_error() {
    let session = ClientSession::new(TransportKind::Stdio);
    let reply = obj(vec![("error", obj(vec![("message", s("no"))]))]);
    match complete_handshake(session, Ok(reply)) {
        Err(ConnectError::Handshake(ProtocolError::MissingResult)) => {}
        other => panic!("unexpected: {:?}", other),
    }
    let session = ClientSession::new(TransportKind::Http);
    match complete_handshake(session, Err(ProtocolError::Transport("closed".to_string()))) {
        Err(ConnectError::Handshake(ProtocolError::Transport(m))) => assert_eq!(m, "closed"),
        other => panic!("unexpected: {:?}", other),
    }
}

#[test]
fn session_refuses_requests_before_handshake() {
    let mut session = ClientSession::new(TransportKind::Stdio);
    assert!(matches!(session.list_tools_request(), Err(ProtocolError::NotInitialized)));
    assert!(matches!(session.call_tool_request("x", JsonValue::Null), Err(ProtocolError::NotInitialized)));
}

#[test]
fn stdio_ids_count_up_after_initialize() {
    let mut session = ready_session(TransportKind::Stdio);
    let list = session.list_tools_request().expect("list");
    assert!(matches!(list.get("id"), Some(JsonValue::Number(JsonNumber::Unsigned(2)))));
    assert_eq!(text_at(&list, "method"), Some("tools/list"));
    assert!(list.get("params").is_none());
    let call = session.call_tool_request("echo", obj(vec![("a", s("b"))])).expect("call");
    assert!(matches!(call.get("id"), Some(JsonValue::Number(JsonNumber::Unsigned(3)))));
    assert_eq!(text_at(&call, "method"), Some("tools/call"));
    let params = call.get("params").expect("params");
    assert_eq!(text_at(params, "name"), Some("echo"));
    assert_eq!(text_at(params.get("arguments").expect("arguments"), "a"), Some("b"));
}

#[test]
fn http_ids_are_fresh_tokens() {
    let mut session = ready_session(TransportKind::Http);
    let a = session.list_tools_request().expect("list");
    let b = session.list_tools_request().expect("list");
    let ta = text_at(&a, "id").expect("token").to_string();
    let tb = text_at(&b, "id").expect("token").to_string();
    assert_eq!(ta.len(), 36);
    assert_eq!(ta.chars().nth(8), Some('-'));
    assert_eq!(ta.chars().nth(14), Some('4'));
    assert_ne!(ta, tb);
}

#[test]
fn tools_list_reply_is_decoded() {
    let reply = obj(vec![(
        "result",
        obj(vec![(
            "tools",
            JsonValue::Array(vec![obj(vec![
                ("name", s("echo")),
                ("description", s("d")),
                ("inputSchema", obj(vec![])),
            ])]),
        )]),
    )]);
    let tools = list_tools_reply(Ok(reply)).expect("tools");
    assert_eq!(tools.len(), 1);
    assert_eq!(tools[0].name, "echo");
    assert_eq!(tools[0].description, "d");
}

#[test]
fn malformed_or_missing_tools_are_errors() {
    assert!(matches!(list_tools_reply(Ok(obj(vec![]))), Err(ProtocolError::MissingResult)));
    assert!(matches!(list_tools_reply(Ok(obj(vec![("result", obj(vec![]))]))), Err(ProtocolError::MalformedResult)));
    let bad = obj(vec![("result", obj(vec![("tools", JsonValue::Array(vec![obj(vec![("name", s("x"))])]))]))]);
    assert!(matches!(list_tools_reply(Ok(bad)), Err(ProtocolError::MalformedResult)));
    assert!(matches!(list_tools_reply(Err(ProtocolError::InvalidJson)), Err(ProtocolError::InvalidJson)));
}

#[test]
fn call_reply_is_decoded() {
    let reply = obj(vec![(
        "result",
        obj(vec![
            ("content", JsonValue::Array(vec![obj(vec![("type", s("text")), ("text", s("hi"))])])),
            ("isError", JsonValue::Bool(true)),
        ]),
    )]);
    let r = call_tool_reply(Ok(reply)).expect("result");
    assert_eq!(r.content.len(), 1);
    assert_eq!(r.content[0].content_type, "text");
    assert_eq!(r.content[0].text, "hi");
    assert_eq!(r.is_error, Some(true));
    let plain = obj(vec![("result", obj(vec![("content", JsonValue::Array(vec![]))]))]);
    assert_eq!(call_tool_reply(Ok(plain)).expect("result").is_error, None);
    let bad = obj(vec![("result", obj(vec![("content", s("x"))]))]);
    assert!(matches!(call_tool_reply(Ok(bad)), Err(ProtocolError::MalformedResult)));
}

#[test]
fn http_status_outside_success_is_an_error() {
    assert!(matches!(http_reply(404, Some(obj(vec![]))), Err(ProtocolError::HttpStatus(404))));
    assert!(matches!(http_reply(200, None), Err(ProtocolError::InvalidJson)));
    assert!(http_reply(204, Some(JsonValue::Null)).is_ok());
}

#[test]
fn server_definition_picks_its_transport() {
    let stdio = McpServerConfig {
        command: Some("srv".to_string()),
        args: None,
        env: Some(vec![("K".to_string(), "V".to_string())]),
        http_url: Some("http://x".to_string()),
        headers: None,
    };
    assert!(stdio.is_stdio());
    match stdio.into_spec() {
        Ok(ServerSpec::Stdio { command, args, env }) => {
            assert_eq!(command, "srv");
            assert!(args.is_empty());
            assert_eq!(env.len(), 1);
        }
        other => panic!("unexpected: {:?}", other),
    }
    let http = McpServerConfig { command: None, args: None, env: None, http_url: Some("http://h".to_string()), headers: None };
    assert!(http.is_http() && !http.is_stdio());
    assert!(matches!(http.into_spec(), Ok(ServerSpec::Http { url, .. }) if url == "http://h"));
    let none = McpServerConfig { command: None, args: None, env: None, http_url: None, headers: None };
    assert!(matches!(none.into_spec(), Err(ConnectError::InvalidDefinition)));
}

#[test]
fn config_add_replaces_and_remove_reports() {
    let mut c = McpConfig::new();
    let def = |u: &str| McpServerConfig { command: None, args: None, env: None, http_url: Some(u.to_string()), headers: None };
    c.add_server("a".to_string(), def("1"));
    c.add_server("b".to_string(), def("2"));
    c.add_server("a".to_string(), def("3"));
    assert_eq!(c.mcp_servers.len(), 2);
    assert_eq!(c.mcp_servers[0].0, "a");
    assert_eq!(c.mcp_servers[0].1.http_url.as_deref(), Some("3"));
    assert!(c.remove_server("a"));
    assert!(!c.remove_server("a"));
    assert_eq!(c.mcp_servers.len(), 1);
}

#[test]
fn later_server_takes_over_a_shared_name() {
    let mut catalog = ToolCatalog::new();
    catalog.merge("S1", vec![tool("a"), tool("b")]);
    catalog.merge("S2", vec![tool("b"), tool("c")]);
    let owner = |n: &str| catalog.get(n).map(|e| e.0.clone());
    assert_eq!(owner("a").as_deref(), Some("S1"));
    assert_eq!(owner("b").as_deref(), Some("S2"));
    assert_eq!(owner("c").as_deref(), Some("S2"));
    assert_eq!(catalog.get_tools_with_server().len(), 3);
    assert_eq!(catalog.list_tools().len(), 3);
}

#[test]
fn unknown_tool_is_not_found() {
    let fed = ToolFederation::new(BuiltinToolRegistry::new());
    match fed.route("no_such_tool") {
        Err(CallError::ToolNotFound(n)) => assert_eq!(n, "no_such_tool"),
        other => panic!("unexpected: {:?}", other),
    }
    assert!(matches!(fed.route("bash"), Ok(Route::Builtin)));
    assert!(fed.catalog_ref().has_tools());
}

#[test]
fn stdio_server_tools_route_to_that_server() {
    let mut fed = ToolFederation::new(BuiltinToolRegistry::new());
    let mut session = ClientSession::new(TransportKind::Stdio);
    session.initialize_request().expect("initialize");
    let init_reply = obj(vec![("jsonrpc", s("2.0")), ("id", JsonValue::Number(JsonNumber::Unsigned(1))), ("result", obj(vec![]))]);
    let (mut session, _) = complete_handshake(session, Ok(init_reply)).expect("handshake");
    fed.add_connected("echo-server".to_string());
    session.list_tools_request().expect("list");
    let listed = obj(vec![(
        "result",
        obj(vec![(
            "tools",
            JsonValue::Array(vec![obj(vec![("name", s("echo")), ("description", s("d")), ("inputSchema", obj(vec![]))])]),
        )]),
    )]);
    assert!(fed.discover("echo-server", list_tools_reply(Ok(listed))).is_none());
    let entry = fed.catalog_ref().get("echo").expect("echo listed");
    assert_eq!(entry.0, "echo-server");
    match fed.route("echo") {
        Ok(Route::Server(name)) => assert_eq!(name, "echo-server"),
        other => panic!("unexpected: {:?}", other),
    }
    let call = session.call_tool_request("echo", obj(vec![])).expect("call");
    assert_eq!(text_at(&call, "method"), Some("tools/call"));
}

#[test]
fn owner_without_connection_is_not_connected() {
    let mut fed = ToolFederation::new(BuiltinToolRegistry::new());
    fed.add_connected("gone".to_string());
    assert!(fed.discover("gone", Ok(vec![tool("t")])).is_none());
    assert!(matches!(fed.route("t"), Ok(Route::Server(_))));
    let closed = fed.shutdown();
    assert_eq!(closed, vec!["gone".to_string()]);
    match fed.route("t") {
        Err(CallError::ServerNotConnected(n)) => assert_eq!(n, "gone"),
        other => panic!("unexpected: {:?}", other),
    }
}

#[test]
fn builtins_keep_their_descriptors_unless_a_server_overrides() {
    let mut fed = ToolFederation::new(BuiltinToolRegistry::new());
    let reg = BuiltinToolRegistry::new();
    let entries = fed.catalog_ref().get_tools_with_server();
    assert_eq!(entries.len(), 8);
    for (key, (owner, t)) in entries {
        assert_eq!(key, &t.name);
        assert_eq!(owner, "builtin");
        let b = reg.list_tools().iter().find(|b| b.name == t.name).expect("builtin");
        assert_eq!(t.description, b.description);
    }
    fed.add_connected("S".to_string());
    assert!(fed.discover("S", Ok(vec![tool("bash")])).is_none());
    assert_eq!(fed.catalog_ref().get("bash").expect("bash").0, "S");
    assert_eq!(fed.catalog_ref().get("bash").expect("bash").1.description, "bash tool");
    assert_eq!(fed.catalog_ref().get("grep").expect("grep").0, "builtin");
}

#[test]
fn failed_discovery_leaves_catalog_unchanged() {
    let mut fed = ToolFederation::new(BuiltinToolRegistry::new());
    fed.add_connected("s".to_string());
    let before = fed.catalog_ref().get_tools_with_server().len();
    let e = fed.discover("s", Err(ProtocolError::MissingResult));
    assert!(matches!(e, Some(ProtocolError::MissingResult)));
    assert_eq!(fed.catalog_ref().get_tools_with_server().len(), before);
    assert_eq!(before, 8);
}
