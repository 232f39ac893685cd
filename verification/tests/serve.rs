use layer_kit::auth::{mint, Claims};
use layer_kit::json::{Json, JsonNumber};
use layer_kit::serve::{
    answer_frame, call_reply, dispatch_method, healthz, mcp, now_secs, rpc, tools_reply, variable,
    written_call_reply, McpStep, RpcStep, ServeConfig, ServeState, PROTOCOL_VERSION,
};

/// Reads a JSON text into the library's value.
fn json(text: &str) -> Json {
    convert(serde_json::from_str(text).expect("test JSON"))
}

fn convert(value: serde_json::Value) -> Json {
    match value {
        serde_json::Value::Null => Json::Null,
        serde_json::Value::Bool(b) => Json::Bool(b),
        serde_json::Value::Number(n) => Json::Number(if let Some(u) = n.as_u64() {
            JsonNumber::Unsigned(u)
        } else if let Some(i) = n.as_i64() {
            JsonNumber::Negative(i)
        } else {
            JsonNumber::Real(n)
        }),
        serde_json::Value::String(s) => Json::Str(s),
        serde_json::Value::Array(items) => Json::Array(items.into_iter().map(convert).collect()),
        serde_json::Value::Object(fields) => {
            Json::Object(fields.into_iter().map(|(k, v)| (k, convert(v))).collect())
        }
    }
}

/// The value at a path of keys and positions; null where there is none.
fn at<'a>(value: &'a Json, path: &[&str]) -> &'a Json {
    let mut here = value;
    for step in path {
        here = match here {
            Json::Object(_) => here.get(step).unwrap_or(&Json::Null),
            Json::Array(items) => match step.parse::<usize>() {
                Ok(i) => items.get(i).unwrap_or(&Json::Null),
                Err(_) => &Json::Null,
            },
            _ => &Json::Null,
        };
    }
    here
}

fn claims(exp: i64) -> Claims {
    Claims {
        workspace: "ws1".into(),
        project: None,
        tool: "test".into(),
        exp,
    }
}

/// Reads the claims of a payload.
fn read(payload: Vec<u8>) -> Option<Claims> {
    let value: serde_json::Value = serde_json::from_slice(&payload).ok()?;
    Some(Claims {
        workspace: value.get("workspace")?.as_str()?.to_owned(),
        project: None,
        tool: value.get("tool")?.as_str()?.to_owned(),
        exp: value.get("exp")?.as_i64()?,
    })
}

/// A handler with one tool, which echoes its arguments.
fn dispatch(method: &str, params: Json) -> Result<Json, Json> {
    match method {
        "test.echo" => Ok(Json::object(vec![("echo", params)])),
        other => Err(Json::object(vec![
            ("error", Json::string("unknown_method")),
            ("detail", Json::string(other)),
        ])),
    }
}

fn tools() -> Vec<Json> {
    vec![json(
        r#"{"name": "test_echo", "description": "echo", "inputSchema": {"type": "object"}}"#,
    )]
}

/// Runs one frame through the rules and the handler.
fn call(req: &str) -> Option<Json> {
    match rpc("test", "0.1.0", &json(req)) {
        RpcStep::Silent => None,
        RpcStep::Reply(reply) => Some(reply),
        RpcStep::ListTools { id } => Some(tools_reply(id, tools())),
        RpcStep::CallTool { id, method, arguments } => {
            Some(call_reply(id, dispatch(&method, arguments)))
        }
    }
}

#[test]
fn handshake_list_and_call() {
    let init = call(r#"{"jsonrpc":"2.0","id":1,"method":"initialize"}"#).unwrap();
    assert_eq!(
        at(&init, &["result", "protocolVersion"]),
        &Json::string(PROTOCOL_VERSION)
    );
    assert_eq!(at(&init, &["result", "serverInfo", "name"]), &Json::string("test"));

    let list = call(r#"{"jsonrpc":"2.0","id":2,"method":"tools/list"}"#).unwrap();
    assert_eq!(
        at(&list, &["result", "tools", "0", "name"]),
        &Json::string("test_echo")
    );

    // Underscored tool name must reach the dotted dispatch method.
    let out = call(
        r#"{"jsonrpc":"2.0","id":3,"method":"tools/call",
            "params":{"name":"test_echo","arguments":{"x":1}}}"#,
    )
    .unwrap();
    assert_eq!(at(&out, &["result", "isError"]), &Json::Bool(false));
    assert_eq!(
        at(&out, &["result", "structuredContent", "echo", "x"]),
        &Json::unsigned(1)
    );
    assert!(at(&out, &["result", "content", "0", "text"])
        .as_str()
        .unwrap()
        .contains("\"x\":1"));
}

#[test]
fn notification_unknown_method_and_tool_failure() {
    assert!(
        call(r#"{"jsonrpc":"2.0","method":"notifications/initialized"}"#).is_none(),
        "notifications get no response"
    );

    let bad = call(r#"{"jsonrpc":"2.0","id":1,"method":"nope"}"#).unwrap();
    assert_eq!(at(&bad, &["error", "code"]), &json("-32601"));

    // A failing tool is a result with isError, not a JSON-RPC error.
    let failed = call(
        r#"{"jsonrpc":"2.0","id":2,"method":"tools/call","params":{"name":"test_missing"}}"#,
    )
    .unwrap();
    assert_eq!(at(&failed, &["result", "isError"]), &Json::Bool(true));
    assert_eq!(
        at(&failed, &["result", "structuredContent", "error"]),
        &Json::string("unknown_method")
    );
}

#[test]
fn replies_are_exact() {
    assert_eq!(
        call(r#"{"id":"a","method":"initialize"}"#).unwrap(),
        json(
            r#"{"jsonrpc": "2.0", "id": "a", "result": {
                "protocolVersion": "2025-06-18",
                "capabilities": {"tools": {}},
                "serverInfo": {"name": "test", "version": "0.1.0"}}}"#
        )
    );
    assert_eq!(
        call(r#"{"id":0,"method":"ping"}"#).unwrap(),
        json(r#"{"jsonrpc": "2.0", "id": 0, "result": {}}"#)
    );
    assert_eq!(
        call(r#"{"id":1,"method":"tools/call"}"#).unwrap(),
        json(
            r#"{"jsonrpc": "2.0", "id": 1,
                "error": {"code": -32602, "message": "tools/call requires `name`"}}"#
        )
    );
    assert_eq!(
        call(r#"{"id":1,"method":7}"#).unwrap(),
        json(
            r#"{"jsonrpc": "2.0", "id": 1,
                "error": {"code": -32601, "message": "method not found: "}}"#
        )
    );
    assert_eq!(
        call(r#"{"id":1,"method":"tools/call","params":{"name":"other_x"}}"#).unwrap(),
        json(
            r#"{"jsonrpc": "2.0", "id": 1, "result": {
                "content": [{"type": "text",
                             "text": "{\"detail\":\"other_x\",\"error\":\"unknown_method\"}"}],
                "structuredContent": {"error": "unknown_method", "detail": "other_x"},
                "isError": true}}"#
        )
    );
    assert_eq!(
        tools_reply(json("5"), vec![]),
        json(r#"{"jsonrpc": "2.0", "id": 5, "result": {"tools": []}}"#)
    );
}

#[test]
fn a_null_id_makes_a_notification() {
    assert!(call(r#"{"id":null,"method":"ping"}"#).is_none());
    assert!(call("[]").is_none());
    assert!(call(r#"{"id":false,"method":"ping"}"#).is_some());
}

#[test]
fn payload_text_is_compact_json() {
    let text = |payload: &str| {
        let reply = call_reply(json("1"), Ok(json(payload)));
        at(&reply, &["result", "content", "0", "text"]).as_str().unwrap().to_owned()
    };
    assert_eq!(text("null"), "null");
    assert_eq!(
        text(r#"{ "b": [1, -2, 1.5, true], "a": "x\"y" }"#),
        r#"{"a":"x\"y","b":[1,-2,1.5,true]}"#
    );
}

#[test]
fn a_written_payload_goes_out_as_given() {
    assert_eq!(
        written_call_reply(json("1"), json("[2]"), "two".into(), true),
        json(
            r#"{"jsonrpc": "2.0", "id": 1, "result": {
                "content": [{"type": "text", "text": "two"}],
                "structuredContent": [2], "isError": true}}"#
        )
    );
}

#[test]
fn tool_names_map_onto_methods() {
    assert_eq!(dispatch_method("torii", "torii_parse"), "torii.parse");
    assert_eq!(dispatch_method("torii", "torii_ingest_raw"), "torii.ingest_raw");
    assert_eq!(dispatch_method("torii", "torii.parse"), "torii.parse");
    assert_eq!(dispatch_method("torii", "satori_parse"), "satori_parse");
    assert_eq!(dispatch_method("torii", "torii"), "torii");
    assert_eq!(dispatch_method("torii", "torii_"), "torii.");
    assert_eq!(dispatch_method("", "_x"), ".x");
}

fn config() -> ServeConfig {
    ServeConfig {
        tool: "test",
        default_port: 8081,
        default_version: "1.2.3",
        git_sha: "abc",
    }
}

fn state(secret: Option<&str>) -> ServeState {
    ServeState::resolve(config(), None, secret.map(str::to_owned), None)
}

#[test]
fn settings_come_from_the_environment_first() {
    let plain = state(None);
    assert_eq!(plain.tool, "test");
    assert_eq!(plain.version, "1.2.3");
    assert_eq!(plain.git_sha, "abc");
    assert_eq!(plain.platform_secret, None);
    assert_eq!(plain.address, "127.0.0.1:8081");
    let set = ServeState::resolve(
        config(),
        Some("9".into()),
        Some("s\u{e9}".into()),
        Some("81".into()),
    );
    assert_eq!(set.version, "9");
    assert_eq!(set.platform_secret, Some(vec![b's', 0xc3, 0xa9]));
    assert_eq!(set.address, "127.0.0.1:81");
    assert_eq!(state(Some("")).platform_secret, None);
}

#[test]
fn variables_carry_the_tool_in_capitals() {
    assert_eq!(variable("torii", "PORT"), "TORII_PORT");
    assert_eq!(variable("ma\u{df}-1", "DB"), "MASS-1_DB");
}

#[test]
fn health_document_is_exact() {
    assert_eq!(
        healthz(&state(None)),
        json(r#"{"service": "test", "status": "ok", "version": "1.2.3", "git_sha": "abc"}"#)
    );
}

#[test]
fn time_before_the_epoch_counts_as_the_epoch() {
    assert_eq!(now_secs(None), 0);
    assert_eq!(now_secs(Some(1_700_000_000)), 1_700_000_000);
}

/// The status and the document that a request is answered with at once.
fn sent(step: McpStep) -> (u16, Option<Json>) {
    match step {
        McpStep::Send { status, document } => (status, document),
        McpStep::ListTools { .. } => panic!("asked for tools"),
        McpStep::CallTool { .. } => panic!("called a tool"),
    }
}

#[test]
fn without_a_secret_every_request_is_refused() {
    let token = format!("Bearer {}", mint(b"k", &claims(10)));
    for secret in [None, Some("")] {
        let step = mcp(&state(secret), Some(&token), 1, b"{}", read);
        assert_eq!(sent(step), (401, Some(json(r#"{"error": "auth_disabled"}"#))));
    }
}

#[test]
fn without_a_valid_token_a_request_is_refused() {
    let s = state(Some("k"));
    let token = mint(b"k", &claims(10));
    let foreign = mint(b"other", &claims(10));
    let bare = token.clone();
    let lower = format!("bearer {token}");
    let wrong = format!("Bearer {foreign}");
    for header in [None, Some(bare.as_str()), Some(lower.as_str()), Some(wrong.as_str()), Some("")] {
        let step = mcp(&s, header, 1, b"not json", read);
        assert_eq!(
            sent(step),
            (401, Some(json(r#"{"error": "invalid_platform_token"}"#))),
            "{header:?}"
        );
    }
    let good = format!("Bearer {token}");
    assert_eq!(
        sent(mcp(&s, Some(&good), 11, b"{}", read)).0,
        401,
        "expired"
    );
}

#[test]
fn a_request_that_is_no_frame_is_turned_down() {
    let s = state(Some("k"));
    let header = format!("Bearer  {}\t", mint(b"k", &claims(10)));
    assert_eq!(
        sent(mcp(&s, Some(&header), 1, b"{", read)),
        (
            400,
            Some(json(
                r#"{"error": "bad_request",
                    "detail": "EOF while parsing an object at line 1 column 1"}"#
            ))
        )
    );
    assert_eq!(
        sent(mcp(&s, Some(&header), 1, br#"{"method": "ping", "id": 1}"#, read)),
        (
            400,
            Some(json(
                r#"{"error": "bad_request", "detail": "expected JSON-RPC 2.0 request"}"#
            ))
        )
    );
}

#[test]
fn a_frame_that_was_let_in_is_answered() {
    let s = state(Some("k"));
    let header = format!("Bearer {}", mint(b"k", &claims(10)));
    assert_eq!(
        sent(mcp(&s, Some(&header), 10, br#"{"jsonrpc": "2.0", "method": "x"}"#, read)),
        (202, None)
    );
    let (status, document) = sent(mcp(
        &s,
        Some(&header),
        10,
        br#"{"jsonrpc": null, "id": 4, "method": "x"}"#,
        read,
    ));
    assert_eq!(status, 200);
    assert_eq!(at(&document.unwrap(), &["error", "message"]), &Json::string("method not found: x"));
    let step = mcp(&s, Some(&header), 10, br#"{"jsonrpc": "2.0", "id": 4, "method": "tools/list"}"#, read);
    assert!(matches!(step, McpStep::ListTools { id } if id == json("4")));
}

#[test]
fn a_tool_call_carries_the_verified_claims() {
    let s = state(Some("k"));
    let header = format!("Bearer {}", mint(b"k", &claims(10)));
    let body = br#"{"jsonrpc": "2.0", "id": 4, "method": "tools/call",
                    "params": {"name": "test_echo", "arguments": {"b": 1, "a": 2, "b": 3}}}"#;
    match mcp(&s, Some(&header), 10, body, read) {
        McpStep::CallTool { claims: seen, id, method, arguments } => {
            assert_eq!(seen, claims(10));
            assert_eq!(id, json("4"));
            assert_eq!(method, "test.echo");
            // The keys are in order, and the last value of a key counts.
            assert_eq!(
                arguments,
                Json::Object(vec![
                    ("a".into(), Json::unsigned(2)),
                    ("b".into(), Json::unsigned(3)),
                ])
            );
        }
        _ => panic!("expected a tool call"),
    }
}

#[test]
fn numbers_of_a_body_keep_their_kind() {
    let s = state(Some("k"));
    let header = format!("Bearer {}", mint(b"k", &claims(10)));
    let body = br#"{"jsonrpc": "2.0", "id": [18446744073709551615, -9223372036854775808, 1e3],
                    "method": "tools/list"}"#;
    match mcp(&s, Some(&header), 10, body, read) {
        McpStep::ListTools { id } => {
            assert_eq!(at(&id, &["0"]), &Json::unsigned(u64::MAX));
            assert_eq!(at(&id, &["1"]), &Json::Number(JsonNumber::Negative(i64::MIN)));
            assert!(matches!(at(&id, &["2"]), Json::Number(JsonNumber::Real(_))));
        }
        _ => panic!("expected the list of tools"),
    }
}

#[test]
fn answer_frame_takes_what_was_read() {
    let s = state(Some("k"));
    assert_eq!(
        sent(answer_frame(&s, claims(1), Err("broken".into()))),
        (400, Some(json(r#"{"error": "bad_request", "detail": "broken"}"#)))
    );
    assert_eq!(
        sent(answer_frame(&s, claims(1), Ok(json(r#"{"jsonrpc": "2.0", "id": 1, "method": "ping"}"#)))),
        (200, Some(json(r#"{"jsonrpc": "2.0", "id": 1, "result": {}}"#)))
    );
}
