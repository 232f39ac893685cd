use layer_kit::ai::{AiConfig, AiErrorKind, AiOutput, AiRequest, AiUsage, ApiProtocol};
use layer_kit::json::{Json, JsonNumber};
use layer_kit::openai::{
    build_chat_request_body, build_request_body, call_with_checked_arguments, conclude,
    endpoint_and_body, is_success, make_schema_strict, parse_chat_outputs, parse_outputs, prepare_tool, Exchange, TransportBudget,
    CONNECT_TIMEOUT, DEFAULT_MAX_OUTPUT_TOKENS, POOL_IDLE_TIMEOUT, REQUEST_TIMEOUT, TCP_KEEPALIVE,
};
use std::time::Duration;

/// Reads a JSON text into the library's value.
fn json(text: &str) -> Json {
    convert(serde_json::from_str(text).expect("test JSON"))
}

fn convert(value: serde_json::Value) -> Json {
    match value {
        serde_json::Value::Null => Json::Null,
        serde_json::Value::Bool(b) => Json::Bool(b),
        serde_json::Value::Number(n) => Json::Number(if let Some(u) = n.as_u64() {
            JsonNumber::Unsigned(u)
        } else if let Some(i) = n.as_i64() {
            JsonNumber::Negative(i)
        } else {
            JsonNumber::Real(n)
        }),
        serde_json::Value::String(s) => Json::Str(s),
        serde_json::Value::Array(items) => Json::Array(items.into_iter().map(convert).collect()),
        serde_json::Value::Object(fields) => {
            Json::Object(fields.into_iter().map(|(k, v)| (k, convert(v))).collect())
        }
    }
}

/// The value at a path of keys and positions; null where there is none.
fn at<'a>(value: &'a Json, path: &[&str]) -> &'a Json {
    let mut here = value;
    for step in path {
        here = match here {
            Json::Object(_) => here.get(step).unwrap_or(&Json::Null),
            Json::Array(items) => match step.parse::<usize>() {
                Ok(i) => items.get(i).unwrap_or(&Json::Null),
                Err(_) => &Json::Null,
            },
            _ => &Json::Null,
        };
    }
    here
}

fn cfg(max_output_tokens: Option<u32>) -> AiConfig {
    AiConfig {
        api_key: "sk-test".into(),
        base_url: "https://api.example.com/v1".into(),
        model: "gpt-4.1".into(),
        max_output_tokens,
        api_protocol: ApiProtocol::default(),
        request_timeout_seconds: None,
    }
}

#[test]
fn transport_constants_match_the_documented_budget() {
    // The values are load-bearing; lock them so an innocent-looking bump cannot
    // silently change the failure mode of a wedged provider.
    assert_eq!(Duration::from_secs(CONNECT_TIMEOUT), Duration::from_secs(10));
    assert_eq!(Duration::from_secs(REQUEST_TIMEOUT), Duration::from_secs(120));
    assert_eq!(Duration::from_secs(TCP_KEEPALIVE), Duration::from_secs(30));
    assert_eq!(Duration::from_secs(POOL_IDLE_TIMEOUT), Duration::from_secs(60));
}

#[test]
fn budget_takes_the_configured_ceiling() {
    let documented = TransportBudget::documented();
    assert_eq!(documented.connect_timeout, 10);
    assert_eq!(documented.request_timeout, 120);
    assert_eq!(documented.tcp_keepalive, 30);
    assert_eq!(documented.tcp_user_timeout, 120);
    assert_eq!(documented.pool_idle_timeout, 60);
    assert_eq!(TransportBudget::for_config(&cfg(None)), documented);
    let mut own = cfg(None);
    own.request_timeout_seconds = Some(1);
    assert_eq!(
        TransportBudget::for_config(&own),
        TransportBudget {
            connect_timeout: 10,
            request_timeout: 1,
            tcp_keepalive: 30,
            tcp_user_timeout: 1,
            pool_idle_timeout: 60,
        }
    );
}

#[test]
fn build_body_minimal_and_with_tools() {
    let req = AiRequest {
        input: Json::string("hello"),
        tools: vec![],
        tool_choice: None,
    };
    let body = build_request_body(&cfg(None), &req);
    assert_eq!(at(&body, &["model"]), &Json::string("gpt-4.1"));
    assert_eq!(at(&body, &["input"]), &Json::string("hello"));
    assert_eq!(
        at(&body, &["max_output_tokens"]),
        &Json::unsigned(DEFAULT_MAX_OUTPUT_TOKENS as u64)
    );
    assert!(body.get("tools").is_none());
    assert!(body.get("tool_choice").is_none());

    let req = AiRequest {
        input: Json::string("p"),
        tools: vec![json(r#"{"type": "function", "name": "some_tool"}"#)],
        tool_choice: Some("required".into()),
    };
    let body = build_request_body(&cfg(Some(512)), &req);
    assert_eq!(at(&body, &["max_output_tokens"]), &Json::unsigned(512));
    assert_eq!(at(&body, &["tool_choice"]), &Json::string("required"));
    assert_eq!(at(&body, &["tools", "0", "name"]), &Json::string("some_tool"));
}

#[test]
fn bodies_are_exact() {
    let req = AiRequest {
        input: json(r#"[{"role": "system"}]"#),
        tools: vec![json(
            r#"{"type": "function", "name": "t", "description": "d", "parameters": {"type": "object"}, "extra": 1}"#,
        )],
        tool_choice: Some("auto".into()),
    };
    assert_eq!(
        build_request_body(&cfg(Some(7)), &req),
        json(
            r#"{"model": "gpt-4.1", "input": [{"role": "system"}], "max_output_tokens": 7,
                "tools": [{"type": "function", "name": "t", "description": "d",
                           "parameters": {"type": "object"}, "extra": 1}],
                "tool_choice": "auto"}"#
        )
    );
    assert_eq!(
        build_chat_request_body(&cfg(None), &req),
        json(
            r#"{"model": "gpt-4.1", "max_tokens": 2000,
                "messages": [{"role": "user", "content": [{"role": "system"}]}],
                "tools": [{"type": "function",
                           "function": {"name": "t", "description": "d",
                                        "parameters": {"type": "object"}}}],
                "tool_choice": "auto"}"#
        )
    );
}

#[test]
fn strict_tools_keep_the_flag_and_close_nested_schemas_in_both_protocols() {
    let req = AiRequest {
        input: Json::string("p"),
        tools: vec![json(
            r#"{
                "type": "function",
                "name": "report",
                "strict": true,
                "parameters": {
                    "type": "object",
                    "properties": {
                        "result": {
                            "type": "object",
                            "properties": {"ok": {"type": "boolean"}}
                        }
                    }
                }
            }"#,
        )],
        tool_choice: Some("required".into()),
    };

    let responses = build_request_body(&cfg(None), &req);
    let responses_tool = at(&responses, &["tools", "0"]);
    assert_eq!(at(responses_tool, &["strict"]), &Json::Bool(true));
    assert_eq!(
        at(responses_tool, &["parameters", "additionalProperties"]),
        &Json::Bool(false)
    );
    assert_eq!(at(responses_tool, &["parameters", "required"]), &json(r#"["result"]"#));
    assert_eq!(
        at(
            responses_tool,
            &["parameters", "properties", "result", "additionalProperties"]
        ),
        &Json::Bool(false)
    );
    assert_eq!(
        at(responses_tool, &["parameters", "properties", "result", "required"]),
        &json(r#"["ok"]"#)
    );

    let mut chat_cfg = cfg(None);
    chat_cfg.api_protocol = ApiProtocol::ChatCompletions;
    let chat = build_chat_request_body(&chat_cfg, &req);
    let chat_function = at(&chat, &["tools", "0", "function"]);
    assert_eq!(at(chat_function, &["strict"]), at(responses_tool, &["strict"]));
    assert_eq!(at(chat_function, &["parameters"]), at(responses_tool, &["parameters"]));
}

#[test]
fn tools_without_strict_opt_in_keep_provider_compatible_schema() {
    let tool = json(
        r#"{
            "type": "function",
            "name": "report",
            "parameters": {"type": "object", "properties": {"ok": {"type": "boolean"}}}
        }"#,
    );
    let req = AiRequest {
        input: Json::string("p"),
        tools: vec![tool.clone()],
        tool_choice: None,
    };

    let body = build_request_body(&cfg(None), &req);
    assert_eq!(at(&body, &["tools", "0"]), &tool);
    let chat = build_chat_request_body(&cfg(None), &req);
    let function = at(&chat, &["tools", "0", "function"]);
    assert!(function.get("strict").is_none());
    assert!(at(function, &["parameters"]).get("additionalProperties").is_none());
}

#[test]
fn only_a_true_strict_flag_counts() {
    for flag in ["false", "1", "\"true\"", "null"] {
        let tool = json(&format!(
            r#"{{"name": "t", "strict": {flag}, "parameters": {{"type": "object"}}}}"#
        ));
        assert_eq!(prepare_tool(&tool), tool, "{flag}");
    }
    let bare = json(r#"{"name": "t", "strict": true}"#);
    assert_eq!(prepare_tool(&bare), bare);
    assert_eq!(prepare_tool(&json("[1]")), json("[1]"));
    assert_eq!(
        prepare_tool(&json(r#"{"strict": true, "parameters": {"type": "object"}}"#)),
        json(r#"{"strict": true, "parameters": {"type": "object", "additionalProperties": false}}"#)
    );
}

#[test]
fn strictness_reaches_lists_and_overwrites() {
    assert_eq!(
        make_schema_strict(&json(
            r#"{"type": "object", "additionalProperties": {"type": "object"}, "required": ["x"],
                "properties": {"b": {"anyOf": [{"type": "object", "properties": {}}, 1, [{"type": "object"}]]},
                               "a": {"type": "string"}}}"#
        )),
        json(
            r#"{"type": "object", "additionalProperties": false, "required": ["a", "b"],
                "properties": {"b": {"anyOf": [{"type": "object", "properties": {},
                                                "additionalProperties": false, "required": []},
                                               1, [{"type": "object"}]]},
                               "a": {"type": "string"}}}"#
        )
    );
    // Once closed, a schema stays.
    let once = make_schema_strict(&json(
        r#"{"type": "object", "properties": {"a": {"type": "object", "properties": {"b": 1}}}}"#,
    ));
    assert_eq!(make_schema_strict(&once), once);
    // Not the schema of an object, so only what lies inside is closed.
    assert_eq!(
        make_schema_strict(&json(r#"{"type": "array", "items": {"type": "object"}}"#)),
        json(r#"{"type": "array", "items": {"type": "object", "additionalProperties": false}}"#)
    );
    assert_eq!(make_schema_strict(&json("\"object\"")), json("\"object\""));
    // A list of properties that reads like an object schema gains a key.
    assert_eq!(
        make_schema_strict(&json(r#"{"type": "object", "properties": {"type": "object"}}"#)),
        json(
            r#"{"type": "object", "additionalProperties": false, "required": ["type"],
                "properties": {"type": "object", "additionalProperties": false}}"#
        )
    );
    assert_eq!(
        make_schema_strict(&json(
            r#"{"type": "object", "additionalProperties": false, "required": ["type"],
                "properties": {"type": "object", "additionalProperties": false}}"#
        )),
        json(
            r#"{"type": "object", "additionalProperties": false,
                "required": ["additionalProperties", "type"],
                "properties": {"type": "object", "additionalProperties": false}}"#
        )
    );
}

#[test]
fn checked_arguments_make_a_call_or_a_complaint() {
    let call = call_with_checked_arguments("n", "{}", None, "bad: ").unwrap();
    assert!(matches!(&call, AiOutput::ToolCall(tc) if tc.name == "n" && tc.arguments == "{}"));
    let error = call_with_checked_arguments("n", "{", Some("eof".into()), "bad: ").unwrap_err();
    assert_eq!(error.display(), "bad: eof");
    assert_eq!(error.kind(), AiErrorKind::Schema);
}

#[test]
fn parse_outputs_message_and_function_call() {
    let body = json(
        r#"{"output": [
            {"type": "message", "content": [{"type": "output_text", "text": "hi"}]},
            {"type": "function_call", "name": "some_tool", "arguments": "{\"a\":1}"}
        ]}"#,
    );
    let out = parse_outputs(&body).unwrap();
    assert!(matches!(&out[0], AiOutput::Text(t) if t == "hi"));
    assert!(matches!(&out[1], AiOutput::ToolCall(tc) if tc.name == "some_tool"));
}

#[test]
fn parse_outputs_missing_array_is_error() {
    assert_eq!(
        parse_outputs(&json(r#"{"id": "resp_1"}"#)).unwrap_err().kind(),
        AiErrorKind::Schema
    );
}

#[test]
fn parse_outputs_classifies_budget_exhaustion_and_malformed_arguments() {
    let incomplete = json(
        r#"{
            "status": "incomplete",
            "incomplete_details": {"reason": "max_output_tokens"},
            "output": [{"type": "function_call", "name": "report", "arguments": "{\"ok\":"}]
        }"#,
    );
    assert_eq!(
        parse_outputs(&incomplete).unwrap_err().kind(),
        AiErrorKind::OutputBudget
    );

    let malformed = json(
        r#"{
            "status": "completed",
            "output": [{"type": "function_call", "name": "report", "arguments": "{\"ok\":"}]
        }"#,
    );
    assert_eq!(
        parse_outputs(&malformed).unwrap_err().kind(),
        AiErrorKind::Schema
    );
}

#[test]
fn responses_errors_say_what_is_wrong() {
    let message = |text: &str| parse_outputs(&json(text)).unwrap_err().display();
    assert_eq!(message("{}"), "response missing 'output' array");
    assert_eq!(
        message(r#"{"status": "incomplete"}"#),
        "response incomplete (unknown); increase max_output_tokens or ask for fewer items"
    );
    assert_eq!(
        message(r#"{"status": "incomplete", "incomplete_details": {"reason": "content_filter"}}"#),
        "response incomplete (content_filter); increase max_output_tokens or ask for fewer items"
    );
    assert_eq!(
        message(r#"{"output": [{"type": "function_call", "arguments": "{}"}]}"#),
        "function call missing name"
    );
    assert_eq!(
        message(r#"{"output": [{"type": "function_call", "name": "", "arguments": "{}"}]}"#),
        "function call missing name"
    );
    assert_eq!(
        message(r#"{"output": [{"type": "function_call", "name": "n", "arguments": {}}]}"#),
        "function call arguments must be a JSON string"
    );
    assert_eq!(
        message(r#"{"output": [{"type": "function_call", "name": "n", "arguments": "{\"ok\":"}]}"#),
        "invalid function call arguments JSON: EOF while parsing a value at line 1 column 6"
    );
}

#[test]
fn unknown_items_and_parts_are_skipped() {
    let out = parse_outputs(&json(
        r#"{"output": [
            {"type": "reasoning", "content": [{"type": "output_text", "text": "no"}]},
            7,
            {"type": "message", "content": "none"},
            {"type": "message", "content": [{"type": "refusal", "text": "no"},
                                            {"type": "output_text"},
                                            {"type": "output_text", "text": "a"},
                                            {"type": "output_text", "text": "b"}]}
        ]}"#,
    ))
    .unwrap();
    assert_eq!(out.len(), 2);
    assert!(matches!(&out[0], AiOutput::Text(t) if t == "a"));
    assert!(matches!(&out[1], AiOutput::Text(t) if t == "b"));
    assert!(parse_outputs(&json(r#"{"output": []}"#)).unwrap().is_empty());
}

#[test]
fn protocol_picks_matching_endpoint_and_body() {
    let req = AiRequest {
        input: Json::string("p"),
        tools: vec![json(
            r#"{"type": "function", "name": "some_tool", "parameters": {"type": "object"}}"#,
        )],
        tool_choice: Some("required".into()),
    };

    let (url, body) = endpoint_and_body(&cfg(None), &req);
    assert!(url.ends_with("/responses"), "{url}");
    assert_eq!(at(&body, &["input"]), &Json::string("p"));
    assert_eq!(at(&body, &["tools", "0", "name"]), &Json::string("some_tool"));

    let mut chat_cfg = cfg(Some(512));
    chat_cfg.api_protocol = ApiProtocol::ChatCompletions;
    let (url, body) = endpoint_and_body(&chat_cfg, &req);
    assert!(url.ends_with("/chat/completions"), "{url}");
    assert_eq!(at(&body, &["messages", "0", "role"]), &Json::string("user"));
    assert_eq!(at(&body, &["messages", "0", "content"]), &Json::string("p"));
    assert_eq!(at(&body, &["max_tokens"]), &Json::unsigned(512));
    assert_eq!(at(&body, &["tools", "0", "type"]), &Json::string("function"));
    assert_eq!(
        at(&body, &["tools", "0", "function", "name"]),
        &Json::string("some_tool")
    );
    assert!(body.get("input").is_none());
    assert!(body.get("max_output_tokens").is_none());
}

#[test]
fn parse_chat_text_and_tool_call() {
    let body = json(
        r#"{"choices": [{
            "finish_reason": "tool_calls",
            "message": {
                "content": null,
                "tool_calls": [{"function": {"name": "some_tool", "arguments": "{\"a\":1}"}}]
            }
        }]}"#,
    );
    let out = parse_chat_outputs(&body).unwrap();
    assert!(matches!(&out[0], AiOutput::ToolCall(tc) if tc.name == "some_tool"));

    let body =
        json(r#"{"choices": [{"finish_reason": "stop", "message": {"content": "hi"}}]}"#);
    let out = parse_chat_outputs(&body).unwrap();
    assert!(matches!(&out[0], AiOutput::Text(t) if t == "hi"));
}

#[test]
fn parse_chat_rejects_length_empty_and_responses_shape() {
    let length =
        json(r#"{"choices": [{"finish_reason": "length", "message": {"content": ""}}]}"#);
    assert_eq!(
        parse_chat_outputs(&length).unwrap_err().kind(),
        AiErrorKind::OutputBudget
    );
    let empty = json(r#"{"choices": [{"finish_reason": "stop", "message": {}}]}"#);
    assert_eq!(
        parse_chat_outputs(&empty).unwrap_err().kind(),
        AiErrorKind::Schema
    );
    // An answer in the other format must fail rather than quietly give nothing.
    let responses_shape = json(r#"{"output": []}"#);
    assert!(parse_chat_outputs(&responses_shape).is_err());
}

#[test]
fn chat_errors_say_what_is_wrong() {
    let message = |text: &str| parse_chat_outputs(&json(text)).unwrap_err().display();
    assert_eq!(message("{}"), "response missing 'choices[0]'");
    assert_eq!(message(r#"{"choices": []}"#), "response missing 'choices[0]'");
    assert_eq!(message(r#"{"choices": [{}]}"#), "response missing 'choices[0].message'");
    assert_eq!(
        message(r#"{"choices": [{"message": "hi"}]}"#),
        "response missing 'choices[0].message'"
    );
    assert_eq!(
        message(r#"{"choices": [{"finish_reason": "length"}]}"#),
        "chat completion exhausted its token budget; increase max_output_tokens"
    );
    assert_eq!(
        message(r#"{"choices": [{"message": {"tool_calls": []}}]}"#),
        "chat response has neither content nor tool_calls"
    );
    assert_eq!(
        message(r#"{"choices": [{"message": {"content": "x", "tool_calls": [{}]}}]}"#),
        "tool call missing function.name"
    );
    assert_eq!(
        message(r#"{"choices": [{"message": {"tool_calls": [{"function": {"name": "n"}}]}}]}"#),
        "tool call function.arguments must be a JSON string"
    );
    assert_eq!(
        message(
            r#"{"choices": [{"message": {"tool_calls": [{"function": {"name": "n", "arguments": ""}}]}}]}"#
        ),
        "invalid tool call function.arguments JSON: EOF while parsing a value at line 1 column 0"
    );
}

#[test]
fn chat_text_comes_before_the_calls() {
    let out = parse_chat_outputs(&json(
        r#"{"choices": [{"message": {"content": "t", "tool_calls": [
            {"function": {"name": "", "arguments": "1"}},
            {"function": {"name": "b", "arguments": "[]"}}]}}]}"#,
    ))
    .unwrap();
    assert_eq!(out.len(), 3);
    assert!(matches!(&out[0], AiOutput::Text(t) if t == "t"));
    assert!(matches!(&out[1], AiOutput::ToolCall(tc) if tc.name.is_empty() && tc.arguments == "1"));
    assert!(matches!(&out[2], AiOutput::ToolCall(tc) if tc.name == "b" && tc.arguments == "[]"));
}

#[test]
fn statuses_of_success() {
    assert!(!is_success(199));
    assert!(is_success(200));
    assert!(is_success(299));
    assert!(!is_success(300));
}

#[test]
fn conclusions_of_an_exchange() {
    let failed = conclude(&cfg(None), Exchange::Unanswered("timed out".into())).unwrap_err();
    assert_eq!(failed.display(), "ai request failed: timed out");
    assert_eq!(failed.kind(), AiErrorKind::Provider);
    let refused =
        conclude(&cfg(None), Exchange::Refused { status: 404, text: "no".into() }).unwrap_err();
    assert_eq!(refused.display(), "ai api status 404: no");
    assert_eq!(refused.kind(), AiErrorKind::Provider);
    let unreadable = conclude(&cfg(None), Exchange::Unreadable("eof".into())).unwrap_err();
    assert_eq!(unreadable.display(), "ai response decode failed: eof");
    assert_eq!(unreadable.kind(), AiErrorKind::Schema);

    let responses = r#"{"output": [], "usage": {"total_tokens": 3}}"#;
    let (outputs, usage) = conclude(&cfg(None), Exchange::Answered(json(responses))).unwrap();
    assert!(outputs.is_empty());
    assert_eq!(
        usage,
        Some(AiUsage { input_tokens: None, output_tokens: None, total_tokens: Some(3) })
    );
    let mut chat_cfg = cfg(None);
    chat_cfg.api_protocol = ApiProtocol::ChatCompletions;
    assert_eq!(
        conclude(&chat_cfg, Exchange::Answered(json(responses))).unwrap_err().kind(),
        AiErrorKind::Schema
    );
    let chat = r#"{"choices": [{"message": {"content": "hi"}}]}"#;
    let (outputs, usage) = conclude(&chat_cfg, Exchange::Answered(json(chat))).unwrap();
    assert!(matches!(&outputs[0], AiOutput::Text(t) if t == "hi"));
    assert_eq!(usage, None);
    assert!(conclude(&cfg(None), Exchange::Answered(json(chat))).is_err());
}
