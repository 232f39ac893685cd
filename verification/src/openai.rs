//! The two request formats of an OpenAI-compatible provider: what is sent,
//! where it goes, how long it may take, and what is read from the answer.
//!
//! Sending is the host's business. It takes the address and the body from
//! [`endpoint_and_body`], the timeouts from [`TransportBudget`], and hands what
//! came back to [`conclude`].
use crate::ai::{
    body_usage, outputs_view, parse_usage, text_view, AiConfig, AiConfigView, AiError, AiErrorKind,
    AiErrorView, AiOutput, AiOutputView, AiRequest, AiRequestView, AiUsage, ApiProtocol, ToolCall,
};
use crate::json::{
    check_syntax, fields_view, find_field, insert_field, inserted, items_view, json_unsigned, key_list,
    law_every_field_is_found, law_fields_are_well_formed, law_insert_keeps_order,
    law_insert_keeps_well_formed, law_lookup_after_insert, law_setting_the_same_changes_nothing,
    lemma_array_view, lemma_found_is_a_field, lemma_object_view, lookup,
    no_fields, sorted, syntax_error, Json, JsonView,
};
use crate::text::{join, join3, same};
use vstd::prelude::*;
use vstd::string::*;

verus! {

// ── Strict tool schemas ─────────────────────────────────────────────────

/// Fields whose values are `values`, closed when `fields` is the schema of an
/// object: undeclared keys are rejected, and every declared property is
/// required.
pub open spec fn closed(
    fields: Seq<(Seq<char>, JsonView)>,
    values: Seq<(Seq<char>, JsonView)>,
) -> Seq<(Seq<char>, JsonView)> {
    if lookup(fields, "type"@) == Some(JsonView::Str("object"@)) {
        let shut = inserted(values, "additionalProperties"@, JsonView::Bool(false));
        match lookup(fields, "properties"@) {
            Some(JsonView::Object(properties)) => inserted(
                shut,
                "required"@,
                JsonView::Array(key_list(properties)),
            ),
            _ => shut,
        }
    } else {
        values
    }
}

/// The schema with every object schema in it closed, at any depth of objects and of
/// lists of objects. A list that is itself an item of a list is left as it is, with
/// all that it holds.
pub open spec fn strict(schema: JsonView) -> JsonView
    decreases schema, 1int,
{
    match schema {
        JsonView::Object(fields) => JsonView::Object(closed(fields, strict_fields(fields))),
        other => other,
    }
}

/// A value inside a schema: an object is made strict, and so is each item of a list
/// that is an object.
pub open spec fn strict_value(value: JsonView) -> JsonView
    decreases value, 2int,
{
    match value {
        JsonView::Object(_) => strict(value),
        JsonView::Array(items) => JsonView::Array(strict_items(items)),
        other => other,
    }
}

/// The items of a list, each made strict.
pub open spec fn strict_items(items: Seq<JsonView>) -> Seq<JsonView>
    decreases items, 0int,
{
    Seq::new(
        items.len(),
        |j: int|
            if 0 <= j < items.len() {
                strict(items[j])
            } else {
                JsonView::Null
            },
    )
}

/// The fields of a schema, each value treated on its own.
pub open spec fn strict_fields(fields: Seq<(Seq<char>, JsonView)>) -> Seq<(Seq<char>, JsonView)>
    decreases fields, 0int,
{
    Seq::new(
        fields.len(),
        |i: int|
            if 0 <= i < fields.len() {
                (fields[i].0, strict_value(fields[i].1))
            } else {
                (Seq::empty(), JsonView::Null)
            },
    )
}

/// Makes one value inside a schema strict.
fn make_value_strict(value: &Json) -> (r: Json)
    ensures
        r@ == strict_value(value@),
    decreases value, 1int,
{
    broadcast use lemma_array_view;

    match value {
        Json::Object(_) => make_schema_strict(value),
        Json::Array(items) => {
            let mut out: Vec<Json> = Vec::new();
            let mut i: usize = 0;
            while i < items.len()
                invariant
                    *value == Json::Array(*items),
                    i <= items@.len(),
                    items_view(out@) == strict_items(items_view(items@)).take(i as int),
                decreases items@.len() - i,
            {
                assert(decreases_to!(*value => value->Array_0@[i as int]));
                let ghost done = items_view(out@);
                let item: Json = make_schema_strict(&items[i]);
                out.push(item);
                i += 1;
                assert(items_view(out@) =~= done.push(item@));
                assert(items_view(out@) =~= strict_items(items_view(items@)).take(i as int));
            }
            assert(items_view(out@) =~= strict_items(items_view(items@)));
            Json::Array(out)
        },
        _ => value.clone(),
    }
}

/// Closes every object schema in `schema`, at any depth of objects and of lists of
/// objects. A list that is itself an item of a list is left as it is, with all that
/// it holds.
pub fn make_schema_strict(schema: &Json) -> (r: Json)
    ensures
        r@ == strict(schema@),
    decreases schema, 0int,
{
    broadcast use {lemma_array_view, lemma_object_view};

    match schema {
        Json::Object(fields) => {
            let ghost before = fields_view(fields@);
            let mut out: Vec<(String, Json)> = Vec::new();
            let mut i: usize = 0;
            while i < fields.len()
                invariant
                    *schema == Json::Object(*fields),
                    before == fields_view(fields@),
                    i <= fields@.len(),
                    fields_view(out@) == strict_fields(before).take(i as int),
                decreases fields@.len() - i,
            {
                assert(decreases_to!(*schema => schema->Object_0@[i as int].1));
                let ghost done = fields_view(out@);
                let key: String = fields[i].0.clone();
                let value: Json = make_value_strict(&fields[i].1);
                out.push((key, value));
                i += 1;
                assert(fields_view(out@) =~= done.push((key@, value@)));
                assert(fields_view(out@) =~= strict_fields(before).take(i as int));
            }
            assert(fields_view(out@) =~= strict_fields(before));
            let is_object: bool = match find_field(fields, "type") {
                Some(Json::Str(s)) => same(s.as_str(), "object"),
                _ => false,
            };
            if is_object {
                insert_field(&mut out, "additionalProperties", Json::Bool(false));
                match find_field(fields, "properties") {
                    Some(Json::Object(properties)) => {
                        let required: Json = Json::Array(keys_of(properties));
                        insert_field(&mut out, "required", required);
                    },
                    _ => {},
                }
            }
            Json::Object(out)
        },
        _ => schema.clone(),
    }
}

/// The keys, in order, as JSON strings.
fn keys_of(fields: &Vec<(String, Json)>) -> (r: Vec<Json>)
    ensures
        items_view(r@) == key_list(fields_view(fields@)),
{
    let mut out: Vec<Json> = Vec::new();
    let mut i: usize = 0;
    while i < fields.len()
        invariant
            i <= fields@.len(),
            items_view(out@) == key_list(fields_view(fields@)).take(i as int),
        decreases fields@.len() - i,
    {
        let ghost done = items_view(out@);
        let key: Json = Json::string(fields[i].0.as_str());
        out.push(key);
        i += 1;
        assert(items_view(out@) =~= done.push(key@));
        assert(items_view(out@) =~= key_list(fields_view(fields@)).take(i as int));
    }
    assert(items_view(out@) =~= key_list(fields_view(fields@)));
    out
}

// ── Requests ────────────────────────────────────────────────────────────

/// Default ceiling on the tokens of an answer when the configuration sets none.
/// Layer operations return short structured tool calls; a couple thousand
/// tokens is generous while keeping a biller's cost forecast small.
pub const DEFAULT_MAX_OUTPUT_TOKENS: u32 = 2000;

/// The ceiling on the tokens of an answer.
pub open spec fn token_budget(cfg: AiConfigView) -> u64 {
    match cfg.max_output_tokens {
        Some(n) => n as u64,
        None => DEFAULT_MAX_OUTPUT_TOKENS as u64,
    }
}

/// A tool as it is sent. One with `"strict": true` has its parameter schema
/// closed; any other is left untouched, for providers that know no strict
/// schemas.
pub open spec fn prepared(tool: JsonView) -> JsonView {
    match tool {
        JsonView::Object(fields) => if lookup(fields, "strict"@) == Some(JsonView::Bool(true)) {
            match lookup(fields, "parameters"@) {
                Some(schema) => JsonView::Object(
                    inserted(fields, "parameters"@, strict(schema)),
                ),
                None => tool,
            }
        } else {
            tool
        },
        other => other,
    }
}

/// `fields` with the field `key` of `source` copied, when it has one.
pub open spec fn copied(
    fields: Seq<(Seq<char>, JsonView)>,
    source: JsonView,
    key: Seq<char>,
) -> Seq<(Seq<char>, JsonView)> {
    match source.get(key) {
        Some(v) => inserted(fields, key, v),
        None => fields,
    }
}

/// A tool in the Chat Completions format: its name, description, parameters and
/// strictness, wrapped as a function.
pub open spec fn chat_tool(tool: JsonView) -> JsonView {
    let sent = prepared(tool);
    let f1 = copied(Seq::empty(), sent, "name"@);
    let f2 = copied(f1, sent, "description"@);
    let f3 = copied(f2, sent, "parameters"@);
    let f4 = copied(f3, sent, "strict"@);
    let t1 = inserted(Seq::empty(), "type"@, JsonView::Str("function"@));
    JsonView::Object(inserted(t1, "function"@, JsonView::Object(f4)))
}

/// `fields` with the tools, when there are any, and the tool choice, when there
/// is one.
pub open spec fn with_tools(
    fields: Seq<(Seq<char>, JsonView)>,
    tools: Seq<JsonView>,
    choice: Option<Seq<char>>,
) -> Seq<(Seq<char>, JsonView)> {
    let listed = if tools.len() == 0 {
        fields
    } else {
        inserted(fields, "tools"@, JsonView::Array(tools))
    };
    match choice {
        Some(c) => inserted(listed, "tool_choice"@, JsonView::Str(c)),
        None => listed,
    }
}

/// The request body in the Responses format.
pub open spec fn responses_body(cfg: AiConfigView, req: AiRequestView) -> JsonView {
    let f1 = inserted(Seq::empty(), "model"@, JsonView::Str(cfg.model));
    let f2 = inserted(f1, "input"@, req.input);
    let f3 = inserted(f2, "max_output_tokens"@, json_unsigned(token_budget(cfg)));
    JsonView::Object(
        with_tools(
            f3,
            Seq::new(req.tools.len(), |i: int| prepared(req.tools[i])),
            req.tool_choice,
        ),
    )
}

/// The request body in the Chat Completions format: the prompt becomes the only
/// message, from the user.
pub open spec fn chat_body(cfg: AiConfigView, req: AiRequestView) -> JsonView {
    let m1 = inserted(Seq::empty(), "role"@, JsonView::Str("user"@));
    let m2 = inserted(m1, "content"@, req.input);
    let f1 = inserted(Seq::empty(), "model"@, JsonView::Str(cfg.model));
    let f2 = inserted(f1, "messages"@, JsonView::Array(seq![JsonView::Object(m2)]));
    let f3 = inserted(f2, "max_tokens"@, json_unsigned(token_budget(cfg)));
    JsonView::Object(
        with_tools(
            f3,
            Seq::new(req.tools.len(), |i: int| chat_tool(req.tools[i])),
            req.tool_choice,
        ),
    )
}

/// The body for the configured protocol.
pub open spec fn request_body(cfg: AiConfigView, req: AiRequestView) -> JsonView {
    match cfg.api_protocol {
        ApiProtocol::Responses => responses_body(cfg, req),
        ApiProtocol::ChatCompletions => chat_body(cfg, req),
    }
}

/// The address for the configured protocol.
pub open spec fn request_url(cfg: AiConfigView) -> Seq<char> {
    match cfg.api_protocol {
        ApiProtocol::Responses => cfg.base_url + "/responses"@,
        ApiProtocol::ChatCompletions => cfg.base_url + "/chat/completions"@,
    }
}

/// The ceiling on the tokens of an answer.
fn budget_of(cfg: &AiConfig) -> (r: u64)
    ensures
        r == token_budget(cfg@),
{
    match cfg.max_output_tokens {
        Some(n) => n as u64,
        None => DEFAULT_MAX_OUTPUT_TOKENS as u64,
    }
}

/// Prepares a tool for sending. Strict tools require every object to reject
/// undeclared keys and to list every declared property as required.
pub fn prepare_tool(tool: &Json) -> (r: Json)
    ensures
        r@ == prepared(tool@),
{
    broadcast use lemma_object_view;

    match tool.clone() {
        Json::Object(mut fields) => {
            let is_strict: bool = match find_field(&fields, "strict") {
                Some(Json::Bool(b)) => *b,
                _ => false,
            };
            if is_strict {
                let schema: Option<Json> = match find_field(&fields, "parameters") {
                    Some(schema) => Some(make_schema_strict(schema)),
                    None => None,
                };
                match schema {
                    Some(schema) => insert_field(&mut fields, "parameters", schema),
                    None => {},
                }
            }
            Json::Object(fields)
        },
        other => other,
    }
}

/// Copies the field `key` of `source`, when it has one.
fn copy_field(fields: &mut Vec<(String, Json)>, source: &Json, key: &str)
    ensures
        fields_view(final(fields)@) == copied(fields_view(old(fields)@), source@, key@),
{
    match source.get(key) {
        Some(v) => insert_field(fields, key, v.clone()),
        None => {},
    }
}

/// Wraps a tool as a function of the Chat Completions format.
fn wrap_chat_tool(tool: &Json) -> (r: Json)
    ensures
        r@ == chat_tool(tool@),
{
    broadcast use lemma_object_view;

    let sent: Json = prepare_tool(tool);
    let mut function: Vec<(String, Json)> = no_fields();
    copy_field(&mut function, &sent, "name");
    copy_field(&mut function, &sent, "description");
    copy_field(&mut function, &sent, "parameters");
    copy_field(&mut function, &sent, "strict");
    let mut out: Vec<(String, Json)> = no_fields();
    insert_field(&mut out, "type", Json::string("function"));
    insert_field(&mut out, "function", Json::Object(function));
    Json::Object(out)
}

/// Adds the tools, when there are any, and the tool choice, when there is one.
fn add_tools(fields: &mut Vec<(String, Json)>, tools: Vec<Json>, choice: &Option<String>)
    ensures
        fields_view(final(fields)@) == with_tools(
            fields_view(old(fields)@),
            items_view(tools@),
            text_view(*choice),
        ),
{
    broadcast use lemma_array_view;

    if tools.len() > 0 {
        insert_field(fields, "tools", Json::Array(tools));
    }
    match choice {
        Some(c) => insert_field(fields, "tool_choice", Json::string(c.as_str())),
        None => {},
    }
}

/// Builds the request body in the Responses format.
pub fn build_request_body(cfg: &AiConfig, req: &AiRequest) -> (r: Json)
    ensures
        r@ == responses_body(cfg@, req@),
{
    broadcast use lemma_object_view;

    let mut fields: Vec<(String, Json)> = no_fields();
    insert_field(&mut fields, "model", Json::string(cfg.model.as_str()));
    insert_field(&mut fields, "input", req.input.clone());
    insert_field(&mut fields, "max_output_tokens", Json::unsigned(budget_of(cfg)));
    let ghost all = Seq::new(req@.tools.len(), |i: int| prepared(req@.tools[i]));
    let mut tools: Vec<Json> = Vec::new();
    let mut i: usize = 0;
    while i < req.tools.len()
        invariant
            i <= req.tools@.len(),
            all == Seq::new(req@.tools.len(), |i: int| prepared(req@.tools[i])),
            items_view(tools@) == all.take(i as int),
        decreases req.tools@.len() - i,
    {
        let ghost done = items_view(tools@);
        let tool: Json = prepare_tool(&req.tools[i]);
        tools.push(tool);
        i += 1;
        assert(items_view(tools@) =~= done.push(tool@));
        assert(items_view(tools@) =~= all.take(i as int));
    }
    assert(items_view(tools@) =~= all);
    add_tools(&mut fields, tools, &req.tool_choice);
    Json::Object(fields)
}

/// Builds the request body in the Chat Completions format from the same
/// request: `input` becomes the sole user message, and each tool schema is
/// wrapped as a function.
pub fn build_chat_request_body(cfg: &AiConfig, req: &AiRequest) -> (r: Json)
    ensures
        r@ == chat_body(cfg@, req@),
{
    broadcast use {lemma_array_view, lemma_object_view};

    let mut message: Vec<(String, Json)> = no_fields();
    insert_field(&mut message, "role", Json::string("user"));
    insert_field(&mut message, "content", req.input.clone());
    let mut messages: Vec<Json> = Vec::new();
    let message: Json = Json::Object(message);
    messages.push(message);
    assert(items_view(messages@) =~= seq![message@]);
    let mut fields: Vec<(String, Json)> = no_fields();
    insert_field(&mut fields, "model", Json::string(cfg.model.as_str()));
    insert_field(&mut fields, "messages", Json::Array(messages));
    insert_field(&mut fields, "max_tokens", Json::unsigned(budget_of(cfg)));
    let ghost all = Seq::new(req@.tools.len(), |i: int| chat_tool(req@.tools[i]));
    let mut tools: Vec<Json> = Vec::new();
    let mut i: usize = 0;
    while i < req.tools.len()
        invariant
            i <= req.tools@.len(),
            all == Seq::new(req@.tools.len(), |i: int| chat_tool(req@.tools[i])),
            items_view(tools@) == all.take(i as int),
        decreases req.tools@.len() - i,
    {
        let ghost done = items_view(tools@);
        let tool: Json = wrap_chat_tool(&req.tools[i]);
        tools.push(tool);
        i += 1;
        assert(items_view(tools@) =~= done.push(tool@));
        assert(items_view(tools@) =~= all.take(i as int));
    }
    assert(items_view(tools@) =~= all);
    add_tools(&mut fields, tools, &req.tool_choice);
    Json::Object(fields)
}

/// Endpoint and matching body for the configured protocol.
pub fn endpoint_and_body(cfg: &AiConfig, req: &AiRequest) -> (r: (String, Json))
    ensures
        r.0@ == request_url(cfg@),
        r.1@ == request_body(cfg@, req@),
{
    match cfg.api_protocol {
        ApiProtocol::Responses => (cfg.responses_url(), build_request_body(cfg, req)),
        ApiProtocol::ChatCompletions => (
            cfg.chat_completions_url(),
            build_chat_request_body(cfg, req),
        ),
    }
}

// ── Answers ─────────────────────────────────────────────────────────────

/// What the reading of an answer stands for.
pub open spec fn reading_view(r: Result<Vec<AiOutput>, AiError>) -> Result<
    Seq<AiOutputView>,
    AiErrorView,
> {
    match r {
        Ok(outputs) => Ok(outputs_view(outputs@)),
        Err(e) => Err(e@),
    }
}

/// An answer without the agreed shape.
pub open spec fn schema_error(message: Seq<char>) -> AiErrorView {
    AiErrorView { message, kind: AiErrorKind::Schema }
}

/// An answer that ran out of tokens.
pub open spec fn budget_error(message: Seq<char>) -> AiErrorView {
    AiErrorView { message, kind: AiErrorKind::OutputBudget }
}

/// The field `key`, or null.
pub open spec fn at(value: JsonView, key: Seq<char>) -> JsonView {
    match value.get(key) {
        Some(v) => v,
        None => JsonView::Null,
    }
}

/// A tool call whose arguments were checked: the call, or the problem with them
/// behind the words in `complaint`.
pub open spec fn checked_call(
    name: Seq<char>,
    arguments: Seq<char>,
    problem: Option<Seq<char>>,
    complaint: Seq<char>,
) -> Result<AiOutputView, AiErrorView> {
    match problem {
        Some(error) => Err(schema_error(complaint + error)),
        None => Ok(AiOutputView::ToolCall { name, arguments }),
    }
}

/// The tool call that one entry of `tool_calls` stands for.
pub open spec fn chat_call(call: JsonView) -> Result<AiOutputView, AiErrorView> {
    let function = at(call, "function"@);
    match function.text_at("name"@) {
        None => Err(schema_error("tool call missing function.name"@)),
        Some(name) => match function.text_at("arguments"@) {
            None => Err(schema_error("tool call function.arguments must be a JSON string"@)),
            Some(arguments) => checked_call(
                name,
                arguments,
                syntax_error(arguments),
                "invalid tool call function.arguments JSON: "@,
            ),
        },
    }
}

/// The tool calls that the entries of `tool_calls` stand for, up to the first
/// one that is wrong.
pub open spec fn chat_calls(calls: Seq<JsonView>) -> Result<Seq<AiOutputView>, AiErrorView>
    decreases calls.len(),
{
    if calls.len() == 0 {
        Ok(Seq::empty())
    } else {
        match chat_calls(calls.drop_last()) {
            Err(e) => Err(e),
            Ok(done) => match chat_call(calls.last()) {
                Err(e) => Err(e),
                Ok(output) => Ok(done.push(output)),
            },
        }
    }
}

/// The output of a chat message: its text, when it has one, then its tool
/// calls; nothing at all is an error.
pub open spec fn chat_message(message: JsonView) -> Result<Seq<AiOutputView>, AiErrorView> {
    let text = match message.text_at("content"@) {
        Some(content) => seq![AiOutputView::Text(content)],
        None => Seq::empty(),
    };
    let calls = match message.items_at("tool_calls"@) {
        Some(calls) => chat_calls(calls),
        None => Ok(Seq::empty()),
    };
    match calls {
        Err(e) => Err(e),
        Ok(calls) => if text.len() + calls.len() == 0 {
            Err(schema_error("chat response has neither content nor tool_calls"@))
        } else {
            Ok(text + calls)
        },
    }
}

/// The output that an answer in the Chat Completions format stands for.
pub open spec fn chat_outputs(body: JsonView) -> Result<Seq<AiOutputView>, AiErrorView> {
    match body.items_at("choices"@) {
        None => Err(schema_error("response missing 'choices[0]'"@)),
        Some(choices) => if choices.len() == 0 {
            Err(schema_error("response missing 'choices[0]'"@))
        } else if choices[0].text_at("finish_reason"@) == Some("length"@) {
            Err(
                budget_error(
                    "chat completion exhausted its token budget; increase max_output_tokens"@,
                ),
            )
        } else {
            match choices[0].get("message"@) {
                Some(JsonView::Object(fields)) => chat_message(JsonView::Object(fields)),
                _ => Err(schema_error("response missing 'choices[0].message'"@)),
            }
        },
    }
}

/// The texts among the parts of a message.
pub open spec fn part_texts(parts: Seq<JsonView>) -> Seq<AiOutputView>
    decreases parts.len(),
{
    if parts.len() == 0 {
        Seq::empty()
    } else {
        let done = part_texts(parts.drop_last());
        let part = parts.last();
        if part.text_at("type"@) == Some("output_text"@) {
            match part.text_at("text"@) {
                Some(text) => done.push(AiOutputView::Text(text)),
                None => done,
            }
        } else {
            done
        }
    }
}

/// The tool call that a function call item stands for.
pub open spec fn item_call(item: JsonView) -> Result<AiOutputView, AiErrorView> {
    match item.text_at("name"@) {
        None => Err(schema_error("function call missing name"@)),
        Some(name) => if name.len() == 0 {
            Err(schema_error("function call missing name"@))
        } else {
            match item.text_at("arguments"@) {
                None => Err(schema_error("function call arguments must be a JSON string"@)),
                Some(arguments) => checked_call(
                    name,
                    arguments,
                    syntax_error(arguments),
                    "invalid function call arguments JSON: "@,
                ),
            }
        },
    }
}

/// The output that one item stands for; an item of an unknown type stands for
/// none.
pub open spec fn item_outputs(item: JsonView) -> Result<Seq<AiOutputView>, AiErrorView> {
    if item.text_at("type"@) == Some("message"@) {
        match item.items_at("content"@) {
            Some(parts) => Ok(part_texts(parts)),
            None => Ok(Seq::empty()),
        }
    } else if item.text_at("type"@) == Some("function_call"@) {
        match item_call(item) {
            Ok(call) => Ok(seq![call]),
            Err(e) => Err(e),
        }
    } else {
        Ok(Seq::empty())
    }
}

/// The output that the items stand for, up to the first one that is wrong.
pub open spec fn items_outputs(items: Seq<JsonView>) -> Result<Seq<AiOutputView>, AiErrorView>
    decreases items.len(),
{
    if items.len() == 0 {
        Ok(Seq::empty())
    } else {
        match items_outputs(items.drop_last()) {
            Err(e) => Err(e),
            Ok(done) => match item_outputs(items.last()) {
                Err(e) => Err(e),
                Ok(more) => Ok(done + more),
            },
        }
    }
}

/// Why an answer is incomplete.
pub open spec fn incomplete_reason(body: JsonView) -> Seq<char> {
    match at(body, "incomplete_details"@).text_at("reason"@) {
        Some(reason) => reason,
        None => "unknown"@,
    }
}

/// The output that an answer in the Responses format stands for.
pub open spec fn responses_outputs(body: JsonView) -> Result<Seq<AiOutputView>, AiErrorView> {
    if body.text_at("status"@) == Some("incomplete"@) {
        let reason = incomplete_reason(body);
        let message = "response incomplete ("@ + reason
            + "); increase max_output_tokens or ask for fewer items"@;
        Err(
            if reason == "max_output_tokens"@ {
                budget_error(message)
            } else {
                schema_error(message)
            },
        )
    } else {
        match body.items_at("output"@) {
            None => Err(schema_error("response missing 'output' array"@)),
            Some(items) => items_outputs(items),
        }
    }
}

/// The output that an answer in the given format stands for.
pub open spec fn answer_outputs(protocol: ApiProtocol, body: JsonView) -> Result<
    Seq<AiOutputView>,
    AiErrorView,
> {
    match protocol {
        ApiProtocol::Responses => responses_outputs(body),
        ApiProtocol::ChatCompletions => chat_outputs(body),
    }
}

/// The text of the field `key` of the field `outer`.
fn nested_text<'a>(value: &'a Json, outer: &str, key: &str) -> (r: Option<&'a str>)
    ensures
        match r {
            Some(s) => at(value@, outer@).text_at(key@) == Some(s@),
            None => at(value@, outer@).text_at(key@) is None,
        },
{
    match value.get(outer) {
        Some(v) => v.str_at(key),
        None => None,
    }
}

/// The tool call with the given name and arguments, from what the check of the
/// arguments had against them; `complaint` comes before the problem in the error.
pub fn call_with_checked_arguments(
    name: &str,
    arguments: &str,
    problem: Option<String>,
    complaint: &str,
) -> (r: Result<AiOutput, AiError>)
    ensures
        match r {
            Ok(output) => checked_call(name@, arguments@, text_view(problem), complaint@) == Ok::<
                AiOutputView,
                AiErrorView,
            >(output@),
            Err(e) => checked_call(name@, arguments@, text_view(problem), complaint@) == Err::<
                AiOutputView,
                AiErrorView,
            >(e@),
        },
{
    match problem {
        Some(error) => Err(AiError::schema(join(complaint, error.as_str()))),
        None => Ok(
            AiOutput::ToolCall(
                ToolCall { name: name.to_owned(), arguments: arguments.to_owned() },
            ),
        ),
    }
}

/// Reads one entry of `tool_calls`.
fn read_chat_call(call: &Json) -> (r: Result<AiOutput, AiError>)
    ensures
        match r {
            Ok(output) => chat_call(call@) == Ok::<AiOutputView, AiErrorView>(output@),
            Err(e) => chat_call(call@) == Err::<AiOutputView, AiErrorView>(e@),
        },
{
    let name: &str = match nested_text(call, "function", "name") {
        Some(name) => name,
        None => {
            return Err(AiError::schema("tool call missing function.name"));
        },
    };
    let arguments: &str = match nested_text(call, "function", "arguments") {
        Some(arguments) => arguments,
        None => {
            return Err(AiError::schema("tool call function.arguments must be a JSON string"));
        },
    };
    call_with_checked_arguments(
        name,
        arguments,
        check_syntax(arguments),
        "invalid tool call function.arguments JSON: ",
    )
}

/// Once one entry is wrong, the list is read no further.
proof fn lemma_chat_calls_stop(calls: Seq<JsonView>, k: int)
    requires
        0 <= k <= calls.len(),
        chat_calls(calls.take(k)) is Err,
    ensures
        chat_calls(calls) == chat_calls(calls.take(k)),
    decreases calls.len(),
{
    if k < calls.len() {
        assert(calls.drop_last().take(k) == calls.take(k));
        lemma_chat_calls_stop(calls.drop_last(), k);
    } else {
        assert(calls.take(k) == calls);
    }
}

/// Parses an answer in the Chat Completions format.
pub fn parse_chat_outputs(body: &Json) -> (r: Result<Vec<AiOutput>, AiError>)
    ensures
        reading_view(r) == chat_outputs(body@),
{
    broadcast use {lemma_array_view, lemma_object_view};

    let choices: &Vec<Json> = match body.array_at("choices") {
        Some(choices) => choices,
        None => {
            return Err(AiError::schema("response missing 'choices[0]'"));
        },
    };
    if choices.len() == 0 {
        return Err(AiError::schema("response missing 'choices[0]'"));
    }
    let choice: &Json = &choices[0];
    assert(items_view(choices@)[0] == choice@);
    if choice.says("finish_reason", "length") {
        return Err(
            AiError::output_budget(
                "chat completion exhausted its token budget; increase max_output_tokens",
            ),
        );
    }
    let message: &Json = match choice.get("message") {
        Some(message) => message,
        None => {
            return Err(AiError::schema("response missing 'choices[0].message'"));
        },
    };
    if message.as_object().is_none() {
        return Err(AiError::schema("response missing 'choices[0].message'"));
    }
    let mut out: Vec<AiOutput> = Vec::new();
    let ghost mut text = Seq::<AiOutputView>::empty();
    match message.str_at("content") {
        Some(content) => {
            let output: AiOutput = AiOutput::Text(content.to_owned());
            out.push(output);
            proof {
                text = seq![AiOutputView::Text(content@)];
            }
        },
        None => {},
    }
    assert(outputs_view(out@) =~= text);
    match message.array_at("tool_calls") {
        Some(calls) => {
            let ghost all = items_view(calls@);
            let mut i: usize = 0;
            let ghost mut read = Seq::<AiOutputView>::empty();
            assert(all.take(0) =~= Seq::empty());
            while i < calls.len()
                invariant
                    i <= calls@.len(),
                    all == items_view(calls@),
                    chat_calls(all.take(i as int)) == Ok::<Seq<AiOutputView>, AiErrorView>(read),
                    outputs_view(out@) == text + read,
                    message@.items_at("tool_calls"@) == Some(all),
                    message@.fields() is Some,
                    chat_outputs(body@) == chat_message(message@),
                decreases calls@.len() - i,
            {
                assert(all.take(i + 1).drop_last() == all.take(i as int));
                assert(all.take(i + 1).last() == calls@[i as int]@);
                match read_chat_call(&calls[i]) {
                    Ok(output) => {
                        let ghost done = outputs_view(out@);
                        out.push(output);
                        proof {
                            read = read.push(output@);
                        }
                        assert(outputs_view(out@) =~= done.push(output@));
                        assert(outputs_view(out@) =~= text + read);
                    },
                    Err(e) => {
                        proof {
                            lemma_chat_calls_stop(all, i + 1);
                        }
                        return Err(e);
                    },
                }
                i += 1;
            }
            assert(all.take(i as int) == all);
        },
        None => {
            assert(outputs_view(out@) =~= text + Seq::<AiOutputView>::empty());
        },
    }
    if out.len() == 0 {
        return Err(AiError::schema("chat response has neither content nor tool_calls"));
    }
    Ok(out)
}

/// Adds the texts among the parts of a message.
fn read_parts(parts: &Vec<Json>, out: &mut Vec<AiOutput>)
    ensures
        outputs_view(final(out)@) == outputs_view(old(out)@) + part_texts(items_view(parts@)),
{
    let ghost before = outputs_view(out@);
    let ghost all = items_view(parts@);
    let mut i: usize = 0;
    assert(all.take(0) =~= Seq::empty());
    assert(before + part_texts(all.take(0)) =~= before);
    while i < parts.len()
        invariant
            i <= parts@.len(),
            all == items_view(parts@),
            outputs_view(out@) == before + part_texts(all.take(i as int)),
        decreases parts@.len() - i,
    {
        assert(all.take(i + 1).drop_last() == all.take(i as int));
        assert(all.take(i + 1).last() == parts@[i as int]@);
        let ghost done = outputs_view(out@);
        if parts[i].says("type", "output_text") {
            match parts[i].str_at("text") {
                Some(text) => {
                    let output: AiOutput = AiOutput::Text(text.to_owned());
                    out.push(output);
                    assert(outputs_view(out@) =~= done.push(output@));
                },
                None => {},
            }
        }
        i += 1;
        assert(outputs_view(out@) =~= before + part_texts(all.take(i as int)));
    }
    assert(all.take(i as int) == all);
}

/// Reads a function call item.
fn read_item_call(item: &Json) -> (r: Result<AiOutput, AiError>)
    ensures
        match r {
            Ok(output) => item_call(item@) == Ok::<AiOutputView, AiErrorView>(output@),
            Err(e) => item_call(item@) == Err::<AiOutputView, AiErrorView>(e@),
        },
{
    let name: &str = match item.str_at("name") {
        Some(name) => name,
        None => {
            return Err(AiError::schema("function call missing name"));
        },
    };
    if name.is_empty() {
        return Err(AiError::schema("function call missing name"));
    }
    let arguments: &str = match item.str_at("arguments") {
        Some(arguments) => arguments,
        None => {
            return Err(AiError::schema("function call arguments must be a JSON string"));
        },
    };
    call_with_checked_arguments(
        name,
        arguments,
        check_syntax(arguments),
        "invalid function call arguments JSON: ",
    )
}

/// Once one item is wrong, the list is read no further.
proof fn lemma_items_stop(items: Seq<JsonView>, k: int)
    requires
        0 <= k <= items.len(),
        items_outputs(items.take(k)) is Err,
    ensures
        items_outputs(items) == items_outputs(items.take(k)),
    decreases items.len(),
{
    if k < items.len() {
        assert(items.drop_last().take(k) == items.take(k));
        lemma_items_stop(items.drop_last(), k);
    } else {
        assert(items.take(k) == items);
    }
}

/// Parses an answer in the Responses format.
pub fn parse_outputs(body: &Json) -> (r: Result<Vec<AiOutput>, AiError>)
    ensures
        reading_view(r) == responses_outputs(body@),
{
    if body.says("status", "incomplete") {
        let reason: &str = match nested_text(body, "incomplete_details", "reason") {
            Some(reason) => reason,
            None => "unknown",
        };
        let message: String = join3(
            "response incomplete (",
            reason,
            "); increase max_output_tokens or ask for fewer items",
        );
        return Err(
            if same(reason, "max_output_tokens") {
                AiError::output_budget(message)
            } else {
                AiError::schema(message)
            },
        );
    }
    let items: &Vec<Json> = match body.array_at("output") {
        Some(items) => items,
        None => {
            return Err(AiError::schema("response missing 'output' array"));
        },
    };
    let ghost all = items_view(items@);
    let mut out: Vec<AiOutput> = Vec::new();
    let mut i: usize = 0;
    assert(all.take(0) =~= Seq::empty());
    assert(outputs_view(out@) =~= Seq::empty());
    while i < items.len()
        invariant
            i <= items@.len(),
            all == items_view(items@),
            items_outputs(all.take(i as int)) == Ok::<Seq<AiOutputView>, AiErrorView>(
                outputs_view(out@),
            ),
            responses_outputs(body@) == items_outputs(all),
        decreases items@.len() - i,
    {
        let item: &Json = &items[i];
        let ghost done = outputs_view(out@);
        assert(all.take(i + 1).drop_last() == all.take(i as int));
        assert(all.take(i + 1).last() == item@);
        proof {
            reveal_strlit("message");
            reveal_strlit("function_call");
        }
        if item.says("type", "message") {
            match item.array_at("content") {
                Some(parts) => read_parts(parts, &mut out),
                None => {
                    assert(outputs_view(out@) =~= done + Seq::<AiOutputView>::empty());
                },
            }
        } else if item.says("type", "function_call") {
            match read_item_call(item) {
                Ok(output) => {
                    out.push(output);
                    assert(outputs_view(out@) =~= done + seq![output@]);
                },
                Err(e) => {
                    proof {
                        lemma_items_stop(all, i + 1);
                    }
                    return Err(e);
                },
            }
        } else {
            assert(outputs_view(out@) =~= done + Seq::<AiOutputView>::empty());
        }
        i += 1;
    }
    assert(all.take(i as int) == all);
    Ok(out)
}

// ── One exchange with the provider ──────────────────────────────────────

/// What came of sending a request.
pub enum Exchange {
    /// It was not sent, or nothing came back; the reason.
    Unanswered(String),
    /// The provider answered with a status that is no success, and this text.
    Refused { status: u16, text: String },
    /// The answer is no JSON; the reason.
    Unreadable(String),
    /// The answer.
    Answered(Json),
}

/// What an [`Exchange`] stands for.
pub enum ExchangeView {
    Unanswered(Seq<char>),
    Refused { status: u16, text: Seq<char> },
    Unreadable(Seq<char>),
    Answered(JsonView),
}

impl View for Exchange {
    type V = ExchangeView;

    open spec fn view(&self) -> ExchangeView {
        match self {
            Exchange::Unanswered(reason) => ExchangeView::Unanswered(reason@),
            Exchange::Refused { status, text } => ExchangeView::Refused {
                status: *status,
                text: text@,
            },
            Exchange::Unreadable(reason) => ExchangeView::Unreadable(reason@),
            Exchange::Answered(body) => ExchangeView::Answered(body@),
        }
    }
}

/// True exactly for the statuses of success, whose answer is read as JSON.
pub fn is_success(status: u16) -> (r: bool)
    ensures
        r == (200 <= status < 300),
{
    200 <= status && status < 300
}

/// An error of the provider itself.
pub open spec fn provider_error(message: Seq<char>) -> AiErrorView {
    AiErrorView { message, kind: AiErrorKind::Provider }
}

/// What an exchange comes to: the output and the token accounting, or an error.
pub open spec fn conclusion(protocol: ApiProtocol, exchange: ExchangeView) -> Result<
    (Seq<AiOutputView>, Option<AiUsage>),
    AiErrorView,
> {
    match exchange {
        ExchangeView::Unanswered(reason) => Err(provider_error("ai request failed: "@ + reason)),
        ExchangeView::Refused { status, text } => Err(
            provider_error(
                "ai api status "@ + crate::text::decimal(status as nat) + ": "@ + text,
            ),
        ),
        ExchangeView::Unreadable(reason) => Err(
            schema_error("ai response decode failed: "@ + reason),
        ),
        ExchangeView::Answered(body) => match answer_outputs(protocol, body) {
            Ok(outputs) => Ok((outputs, body_usage(body))),
            Err(e) => Err(e),
        },
    }
}

/// What the end of an exchange stands for.
pub open spec fn conclusion_view(r: Result<(Vec<AiOutput>, Option<AiUsage>), AiError>) -> Result<
    (Seq<AiOutputView>, Option<AiUsage>),
    AiErrorView,
> {
    match r {
        Ok((outputs, usage)) => Ok((outputs_view(outputs@), usage)),
        Err(e) => Err(e@),
    }
}

/// Brings an exchange to its end: reads the answer in the configured format, or
/// says what went wrong.
pub fn conclude(cfg: &AiConfig, exchange: Exchange) -> (r: Result<
    (Vec<AiOutput>, Option<AiUsage>),
    AiError,
>)
    ensures
        conclusion_view(r) == conclusion(cfg@.api_protocol, exchange@),
{
    match exchange {
        Exchange::Unanswered(reason) => Err(
            AiError::new(join("ai request failed: ", reason.as_str())),
        ),
        Exchange::Refused { status, text } => {
            let mut message: String = join(
                "ai api status ",
                crate::text::write_decimal(status as u64).as_str(),
            );
            message.append(": ");
            message.append(text.as_str());
            Err(AiError::new(message))
        },
        Exchange::Unreadable(reason) => Err(
            AiError::schema(join("ai response decode failed: ", reason.as_str())),
        ),
        Exchange::Answered(body) => {
            let outputs: Result<Vec<AiOutput>, AiError> = match cfg.api_protocol {
                ApiProtocol::Responses => parse_outputs(&body),
                ApiProtocol::ChatCompletions => parse_chat_outputs(&body),
            };
            match outputs {
                Ok(outputs) => Ok((outputs, parse_usage(&body))),
                Err(e) => Err(e),
            }
        },
    }
}

// ── How long an exchange may take ───────────────────────────────────────

/// How long to wait for the TCP and TLS handshake before giving up, in seconds.
pub const CONNECT_TIMEOUT: u64 = 10;

/// Ceiling on a whole request, handshake to last byte, in seconds: well above
/// any legitimate reasoning time for a single tool call, and the cap on how long
/// one wedged call can stall its caller.
pub const REQUEST_TIMEOUT: u64 = 120;

/// Keepalive probe interval on idle sockets, in seconds. A request awaiting a
/// slow model looks like an idle connection to a NAT or load balancer; probes
/// keep it alive.
pub const TCP_KEEPALIVE: u64 = 30;

/// Age, in seconds, at which pooled connections are dropped, well before typical
/// middlebox idle limits.
pub const POOL_IDLE_TIMEOUT: u64 = 60;

/// The timeouts of a connection to the provider, in seconds.
#[derive(Clone, Copy, Debug, PartialEq, Eq, Structural)]
pub struct TransportBudget {
    pub connect_timeout: u64,
    pub request_timeout: u64,
    pub tcp_keepalive: u64,
    pub tcp_user_timeout: u64,
    pub pool_idle_timeout: u64,
}

/// The budget with the given ceiling on a whole request. Unacknowledged data may
/// wait as long as the request: a provider that is merely thinking is not cut
/// off by the transport.
pub open spec fn budget(request_timeout: u64) -> TransportBudget {
    TransportBudget {
        connect_timeout: CONNECT_TIMEOUT,
        request_timeout,
        tcp_keepalive: TCP_KEEPALIVE,
        tcp_user_timeout: request_timeout,
        pool_idle_timeout: POOL_IDLE_TIMEOUT,
    }
}

impl TransportBudget {
    /// The documented budget.
    pub fn documented() -> (r: TransportBudget)
        ensures
            r == budget(REQUEST_TIMEOUT),
    {
        TransportBudget {
            connect_timeout: CONNECT_TIMEOUT,
            request_timeout: REQUEST_TIMEOUT,
            tcp_keepalive: TCP_KEEPALIVE,
            tcp_user_timeout: REQUEST_TIMEOUT,
            pool_idle_timeout: POOL_IDLE_TIMEOUT,
        }
    }

    /// The budget for a configuration: the documented one, with the configured
    /// ceiling on a whole request when there is one.
    pub fn for_config(cfg: &AiConfig) -> (r: TransportBudget)
        ensures
            r == budget(
                match cfg@.request_timeout_seconds {
                    Some(seconds) => seconds,
                    None => REQUEST_TIMEOUT,
                },
            ),
    {
        let mut r: TransportBudget = TransportBudget::documented();
        match cfg.request_timeout_seconds {
            Some(seconds) => {
                r.request_timeout = seconds;
                r.tcp_user_timeout = seconds;
            },
            None => {},
        }
        r
    }
}

// ── Laws of the requests ────────────────────────────────────────────────

/// The protocol decides the address and the body together: a body in the
/// Responses format goes to `/responses` and holds nothing of the other format,
/// a body in the Chat Completions format goes to `/chat/completions` and holds
/// nothing of the first.
pub proof fn law_endpoint_and_body_match(cfg: AiConfigView, req: AiRequestView)
    ensures
        match cfg.api_protocol {
            ApiProtocol::Responses => {
                &&& request_url(cfg) == cfg.base_url + "/responses"@
                &&& request_body(cfg, req).get("input"@) == Some(req.input)
                &&& request_body(cfg, req).get("max_output_tokens"@) == Some(
                    json_unsigned(token_budget(cfg)),
                )
                &&& request_body(cfg, req).get("messages"@) is None
                &&& request_body(cfg, req).get("max_tokens"@) is None
            },
            ApiProtocol::ChatCompletions => {
                &&& request_url(cfg) == cfg.base_url + "/chat/completions"@
                &&& request_body(cfg, req).get("messages"@) is Some
                &&& request_body(cfg, req).get("max_tokens"@) == Some(
                    json_unsigned(token_budget(cfg)),
                )
                &&& request_body(cfg, req).get("input"@) is None
                &&& request_body(cfg, req).get("max_output_tokens"@) is None
            },
        },
        request_body(cfg, req).get("model"@) == Some(JsonView::Str(cfg.model)),
{
    reveal_strlit("model");
    reveal_strlit("input");
    reveal_strlit("messages");
    reveal_strlit("max_tokens");
    reveal_strlit("max_output_tokens");
    lemma_body_field(cfg, req, "model"@);
    lemma_body_field(cfg, req, "input"@);
    lemma_body_field(cfg, req, "messages"@);
    lemma_body_field(cfg, req, "max_tokens"@);
    lemma_body_field(cfg, req, "max_output_tokens"@);
}

/// What a field of the body other than the tools and the tool choice holds.
proof fn lemma_body_field(cfg: AiConfigView, req: AiRequestView, key: Seq<char>)
    requires
        key == "model"@ || key == "input"@ || key == "messages"@ || key == "max_tokens"@ || key
            == "max_output_tokens"@,
    ensures
        ({
            let m1 = inserted(Seq::empty(), "role"@, JsonView::Str("user"@));
            let m2 = inserted(m1, "content"@, req.input);
            match cfg.api_protocol {
                ApiProtocol::Responses => request_body(cfg, req).get(key) == (if key
                    == "max_output_tokens"@ {
                    Some(json_unsigned(token_budget(cfg)))
                } else if key == "input"@ {
                    Some(req.input)
                } else if key == "model"@ {
                    Some(JsonView::Str(cfg.model))
                } else {
                    None
                }),
                ApiProtocol::ChatCompletions => request_body(cfg, req).get(key) == (if key
                    == "max_tokens"@ {
                    Some(json_unsigned(token_budget(cfg)))
                } else if key == "messages"@ {
                    Some(JsonView::Array(seq![JsonView::Object(m2)]))
                } else if key == "model"@ {
                    Some(JsonView::Str(cfg.model))
                } else {
                    None
                }),
            }
        }),
{
    reveal_strlit("model");
    reveal_strlit("input");
    reveal_strlit("messages");
    reveal_strlit("max_tokens");
    reveal_strlit("max_output_tokens");
    reveal_strlit("tools");
    reveal_strlit("tool_choice");
    assert("tools"@.len() == 5 && "tools"@[0] == 't');
    assert("tool_choice"@.len() == 11 && "tool_choice"@[0] == 't');
    assert(key.len() > 0 && key[0] != 't');
    let none = Seq::<(Seq<char>, JsonView)>::empty();
    let f1 = inserted(none, "model"@, JsonView::Str(cfg.model));
    crate::json::law_lookup_after_insert(none, "model"@, JsonView::Str(cfg.model), key);
    match cfg.api_protocol {
        ApiProtocol::Responses => {
            let f2 = inserted(f1, "input"@, req.input);
            let f3 = inserted(f2, "max_output_tokens"@, json_unsigned(token_budget(cfg)));
            let tools = Seq::new(req.tools.len(), |i: int| prepared(req.tools[i]));
            crate::json::law_lookup_after_insert(f1, "input"@, req.input, key);
            crate::json::law_lookup_after_insert(
                f2,
                "max_output_tokens"@,
                json_unsigned(token_budget(cfg)),
                key,
            );
            lemma_tools_leave_the_rest(f3, tools, req.tool_choice, key);
        },
        ApiProtocol::ChatCompletions => {
            let m1 = inserted(none, "role"@, JsonView::Str("user"@));
            let m2 = inserted(m1, "content"@, req.input);
            let messages = JsonView::Array(seq![JsonView::Object(m2)]);
            let f2 = inserted(f1, "messages"@, messages);
            let f3 = inserted(f2, "max_tokens"@, json_unsigned(token_budget(cfg)));
            let tools = Seq::new(req.tools.len(), |i: int| chat_tool(req.tools[i]));
            crate::json::law_lookup_after_insert(f1, "messages"@, messages, key);
            crate::json::law_lookup_after_insert(
                f2,
                "max_tokens"@,
                json_unsigned(token_budget(cfg)),
                key,
            );
            lemma_tools_leave_the_rest(f3, tools, req.tool_choice, key);
        },
    }
}

/// Adding tools and a choice leaves every other field as it is.
proof fn lemma_tools_leave_the_rest(
    fields: Seq<(Seq<char>, JsonView)>,
    tools: Seq<JsonView>,
    choice: Option<Seq<char>>,
    key: Seq<char>,
)
    requires
        key != "tools"@,
        key != "tool_choice"@,
    ensures
        lookup(with_tools(fields, tools, choice), key) == lookup(fields, key),
{
    let listed = if tools.len() == 0 {
        fields
    } else {
        inserted(fields, "tools"@, JsonView::Array(tools))
    };
    crate::json::law_lookup_after_insert(fields, "tools"@, JsonView::Array(tools), key);
    match choice {
        Some(c) => crate::json::law_lookup_after_insert(
            listed,
            "tool_choice"@,
            JsonView::Str(c),
            key,
        ),
        None => {},
    }
}

/// A tool that does not ask for strictness is sent as it is.
pub proof fn law_tools_without_strict_are_untouched(tool: JsonView)
    requires
        tool.get("strict"@) != Some(JsonView::Bool(true)),
    ensures
        prepared(tool) == tool,
{
}

/// Both formats carry the same name, description, parameters and strictness of a
/// tool.
pub proof fn law_both_formats_carry_the_same_tool(tool: JsonView, key: Seq<char>)
    requires
        key == "name"@ || key == "description"@ || key == "parameters"@ || key == "strict"@,
    ensures
        at(chat_tool(tool), "function"@).get(key) == prepared(tool).get(key),
        prepared(tool).get("strict"@) == tool.get("strict"@),
{
    reveal_strlit("name");
    reveal_strlit("description");
    reveal_strlit("parameters");
    reveal_strlit("strict");
    reveal_strlit("type");
    reveal_strlit("function");
    let sent = prepared(tool);
    let none = Seq::<(Seq<char>, JsonView)>::empty();
    let f1 = copied(none, sent, "name"@);
    let f2 = copied(f1, sent, "description"@);
    let f3 = copied(f2, sent, "parameters"@);
    let f4 = copied(f3, sent, "strict"@);
    lemma_copied(none, sent, "name"@, key);
    lemma_copied(f1, sent, "description"@, key);
    lemma_copied(f2, sent, "parameters"@, key);
    lemma_copied(f3, sent, "strict"@, key);
    let t1 = inserted(none, "type"@, JsonView::Str("function"@));
    crate::json::law_lookup_after_insert(t1, "function"@, JsonView::Object(f4), "function"@);
    assert("name"@.len() == 4 && "description"@.len() == 11 && "parameters"@.len() == 10
        && "strict"@.len() == 6);
    match tool {
        JsonView::Object(fields) => match lookup(fields, "parameters"@) {
            Some(schema) => crate::json::law_lookup_after_insert(
                fields,
                "parameters"@,
                strict(schema),
                "strict"@,
            ),
            None => {},
        },
        _ => {},
    }
}

/// What a copied field does to the field `key`.
proof fn lemma_copied(
    fields: Seq<(Seq<char>, JsonView)>,
    source: JsonView,
    name: Seq<char>,
    key: Seq<char>,
)
    ensures
        lookup(copied(fields, source, name), key) == (if key == name && source.get(name) is Some {
            source.get(name)
        } else {
            lookup(fields, key)
        }),
{
    match source.get(name) {
        Some(v) => crate::json::law_lookup_after_insert(fields, name, v, key),
        None => {},
    }
}

// ── Laws of strict schemas ──────────────────────────────────────────────

/// The fields are those of the schema of an object.
pub open spec fn object_schema(fields: Seq<(Seq<char>, JsonView)>) -> bool {
    lookup(fields, "type"@) == Some(JsonView::Str("object"@))
}

/// Every object schema in the value rejects undeclared keys and lists every
/// declared property as required, at any depth of objects and of lists of objects.
/// What stands in a list that is itself an item of a list is not looked at.
pub open spec fn all_closed(schema: JsonView) -> bool
    decreases schema, 1int,
{
    match schema {
        JsonView::Object(fields) => {
            &&& object_schema(fields) ==> lookup(fields, "additionalProperties"@) == Some(
                JsonView::Bool(false),
            )
            &&& object_schema(fields) ==> match lookup(fields, "properties"@) {
                Some(JsonView::Object(properties)) => lookup(fields, "required"@) == Some(
                    JsonView::Array(key_list(properties)),
                ),
                _ => true,
            }
            &&& forall|i: int| 0 <= i < fields.len() ==> value_closed(#[trigger] fields[i].1)
        },
        _ => true,
    }
}

/// The same of a value inside a schema: an object, or the items of a list.
pub open spec fn value_closed(value: JsonView) -> bool
    decreases value, 2int,
{
    match value {
        JsonView::Object(_) => all_closed(value),
        JsonView::Array(items) => forall|j: int|
            0 <= j < items.len() ==> all_closed(#[trigger] items[j]),
        _ => true,
    }
}

/// Closing the schema `fields` sets the field `key`, whatever it holds.
pub open spec fn set_by_closing(fields: Seq<(Seq<char>, JsonView)>, key: Seq<char>) -> bool {
    &&& object_schema(fields)
    &&& key == "additionalProperties"@ || (key == "required"@ && lookup(
        fields,
        "properties"@,
    ) is Some && lookup(fields, "properties"@)->0 is Object)
}

/// No list of properties in the value gains a property when it is made strict
/// itself. One does when it reads like the schema of an object, that is when it
/// declares a property `type` whose schema is the bare string `object`.
pub open spec fn plain_properties(schema: JsonView) -> bool
    decreases schema, 1int,
{
    match schema {
        JsonView::Object(fields) => {
            &&& object_schema(fields) ==> match lookup(fields, "properties"@) {
                Some(JsonView::Object(properties)) => key_list(
                    closed(properties, strict_fields(properties)),
                ) == key_list(properties),
                _ => true,
            }
            &&& forall|i: int|
                0 <= i < fields.len() && !set_by_closing(fields, fields[i].0) ==> value_plain(
                    #[trigger] fields[i].1,
                )
        },
        _ => true,
    }
}

/// The same of a value inside a schema: an object, or the items of a list.
pub open spec fn value_plain(value: JsonView) -> bool
    decreases value, 2int,
{
    match value {
        JsonView::Object(_) => plain_properties(value),
        JsonView::Array(items) => forall|j: int|
            0 <= j < items.len() ==> plain_properties(#[trigger] items[j]),
        _ => true,
    }
}

/// A field of treated fields is the treated field.
proof fn lemma_lookup_strict_fields(fields: Seq<(Seq<char>, JsonView)>, key: Seq<char>)
    ensures
        lookup(strict_fields(fields), key) == (match lookup(fields, key) {
            Some(v) => Some(strict_value(v)),
            None => None,
        }),
    decreases fields.len(),
{
    if fields.len() > 0 {
        lemma_lookup_strict_fields(fields.skip(1), key);
        assert(strict_fields(fields).skip(1) =~= strict_fields(fields.skip(1)));
    }
}

/// What a strict schema holds in the fields that closing looks at.
proof fn lemma_closed_lookup(fields: Seq<(Seq<char>, JsonView)>, key: Seq<char>)
    ensures
        ({
            let out = closed(fields, strict_fields(fields));
            lookup(out, key) == (if object_schema(fields) && key == "required"@ && lookup(
                fields,
                "properties"@,
            ) is Some && lookup(fields, "properties"@)->0 is Object {
                Some(JsonView::Array(key_list(lookup(fields, "properties"@)->0->Object_0)))
            } else if object_schema(fields) && key == "additionalProperties"@ {
                Some(JsonView::Bool(false))
            } else {
                match lookup(fields, key) {
                    Some(v) => Some(strict_value(v)),
                    None => None,
                }
            })
        }),
{
    reveal_strlit("required");
    reveal_strlit("additionalProperties");
    assert("required"@.len() == 8 && "additionalProperties"@.len() == 20);
    let values = strict_fields(fields);
    let shut = inserted(values, "additionalProperties"@, JsonView::Bool(false));
    lemma_lookup_strict_fields(fields, key);
    crate::json::law_lookup_after_insert(
        values,
        "additionalProperties"@,
        JsonView::Bool(false),
        key,
    );
    match lookup(fields, "properties"@) {
        Some(JsonView::Object(properties)) => crate::json::law_lookup_after_insert(
            shut,
            "required"@,
            JsonView::Array(key_list(properties)),
            key,
        ),
        _ => {},
    }
}

/// A list of properties that does not read like the schema of an object gains
/// nothing when it is made strict.
pub proof fn law_ordinary_properties_are_plain(properties: Seq<(Seq<char>, JsonView)>)
    requires
        !object_schema(properties),
    ensures
        key_list(closed(properties, strict_fields(properties))) == key_list(properties),
{
    assert(key_list(strict_fields(properties)) =~= key_list(properties));
}

/// What the fields of a strict schema are: those that closing sets, and the
/// treated ones.
proof fn lemma_closed_fields(fields: Seq<(Seq<char>, JsonView)>, i: int)
    requires
        sorted(fields),
        0 <= i < closed(fields, strict_fields(fields)).len(),
    ensures
        ({
            let field = closed(fields, strict_fields(fields))[i];
            ||| set_by_closing(fields, field.0) && value_closed(field.1)
            ||| exists|k: int|
                0 <= k < fields.len() && !set_by_closing(fields, fields[k].0) && field == (
                    fields[k].0,
                    strict_value(#[trigger] fields[k].1),
                )
        }),
{
    let values = strict_fields(fields);
    let out = closed(fields, values);
    let key = out[i].0;
    assert(sorted(values));
    law_insert_keeps_order(values, "additionalProperties"@, JsonView::Bool(false));
    let shut = inserted(values, "additionalProperties"@, JsonView::Bool(false));
    match lookup(fields, "properties"@) {
        Some(JsonView::Object(properties)) => {
            law_insert_keeps_order(shut, "required"@, JsonView::Array(key_list(properties)));
        },
        _ => {},
    }
    law_every_field_is_found(out, i);
    lemma_closed_lookup(fields, key);
    if set_by_closing(fields, key) {
        assert(value_closed(out[i].1));
    } else {
        assert(lookup(fields, key) is Some);
        lemma_found_is_a_field(fields, key);
        let k = choose|k: int|
            0 <= k < fields.len() && #[trigger] fields[k] == (key, lookup(fields, key)->0);
        assert(out[i] == (fields[k].0, strict_value(fields[k].1)));
    }
}

/// Making a schema strict closes every object schema in it (in the sense of
/// [`all_closed`]), exactly when no list of properties in it gains a property by
/// that: one that does holds a property that `required` does not name.
pub proof fn law_strict_schemas_are_closed(schema: JsonView)
    requires
        schema.well_formed(),
    ensures
        all_closed(strict(schema)) <==> plain_properties(schema),
    decreases schema, 1int,
{
    match schema {
        JsonView::Object(fields) => {
            reveal_strlit("type");
            reveal_strlit("required");
            reveal_strlit("properties");
            reveal_strlit("additionalProperties");
            assert("type"@.len() == 4 && "required"@.len() == 8 && "properties"@.len() == 10
                && "additionalProperties"@.len() == 20);
            let out = closed(fields, strict_fields(fields));
            lemma_closed_lookup(fields, "type"@);
            lemma_closed_lookup(fields, "properties"@);
            lemma_closed_lookup(fields, "required"@);
            lemma_closed_lookup(fields, "additionalProperties"@);
            assert(object_schema(out) == object_schema(fields));
            match lookup(fields, "properties"@) {
                Some(JsonView::Object(properties)) => {
                    assert(lookup(out, "properties"@) == Some(
                        JsonView::Object(closed(properties, strict_fields(properties))),
                    ));
                },
                _ => {},
            }
            assert forall|k: int| 0 <= k < fields.len() implies value_closed(
                strict_value(#[trigger] fields[k].1),
            ) == value_plain(fields[k].1) by {
                assert(fields[k].1.well_formed());
                lemma_strict_values_are_closed(fields[k].1);
            }
            if plain_properties(schema) {
                assert forall|i: int| 0 <= i < out.len() implies value_closed(
                    #[trigger] out[i].1,
                ) by {
                    lemma_closed_fields(fields, i);
                }
            }
            if all_closed(strict(schema)) {
                assert forall|k: int|
                    0 <= k < fields.len() && !set_by_closing(fields, fields[k].0) implies value_plain(
                    #[trigger] fields[k].1,
                ) by {
                    law_every_field_is_found(fields, k);
                    lemma_closed_lookup(fields, fields[k].0);
                    lemma_found_is_a_field(out, fields[k].0);
                    let i = choose|i: int|
                        0 <= i < out.len() && #[trigger] out[i] == (
                            fields[k].0,
                            lookup(out, fields[k].0)->0,
                        );
                    assert(value_closed(out[i].1));
                }
            }
        },
        _ => {},
    }
}

/// The same of a value inside a schema.
proof fn lemma_strict_values_are_closed(value: JsonView)
    requires
        value.well_formed(),
    ensures
        value_closed(strict_value(value)) <==> value_plain(value),
    decreases value, 2int,
{
    match value {
        JsonView::Object(_) => law_strict_schemas_are_closed(value),
        JsonView::Array(items) => {
            assert forall|j: int| 0 <= j < items.len() implies all_closed(
                strict_items(items)[j],
            ) == plain_properties(#[trigger] items[j]) by {
                law_strict_schemas_are_closed(items[j]);
            }
            reveal_with_fuel(value_closed, 2);
            let treated = strict_items(items);
            assert(strict_value(value) == JsonView::Array(treated));
            if value_closed(JsonView::Array(treated)) {
                assert forall|j: int| 0 <= j < items.len() implies plain_properties(
                    #[trigger] items[j],
                ) by {
                    assert(treated.len() == items.len());
                    assert(JsonView::Array(treated)->Array_0[j] == treated[j]);
                    assert(all_closed(treated[j]));
                }
            }
        },
        _ => {},
    }
}

/// Making a schema strict changes nothing exactly when it is closed already.
pub proof fn law_closed_schemas_stay(schema: JsonView)
    requires
        schema.well_formed(),
    ensures
        strict(schema) == schema <==> all_closed(schema),
    decreases schema, 1int,
{
    match schema {
        JsonView::Object(fields) => {
            reveal_strlit("required");
            reveal_strlit("additionalProperties");
            assert("required"@.len() == 8 && "additionalProperties"@.len() == 20);
            let values = strict_fields(fields);
            let out = closed(fields, values);
            assert forall|i: int| 0 <= i < fields.len() implies (strict_value(
                #[trigger] fields[i].1,
            ) == fields[i].1) == value_closed(fields[i].1) by {
                assert(fields[i].1.well_formed());
                lemma_closed_values_stay(fields[i].1);
            }
            if all_closed(schema) {
                assert forall|i: int| 0 <= i < fields.len() implies values[i] == #[trigger] fields[i]
                    by {
                    assert(value_closed(fields[i].1));
                }
                assert(values =~= fields);
                if object_schema(fields) {
                    law_setting_the_same_changes_nothing(
                        fields,
                        "additionalProperties"@,
                        JsonView::Bool(false),
                    );
                    match lookup(fields, "properties"@) {
                        Some(JsonView::Object(properties)) => {
                            law_setting_the_same_changes_nothing(
                                fields,
                                "required"@,
                                JsonView::Array(key_list(properties)),
                            );
                        },
                        _ => {},
                    }
                }
                assert(out == fields);
            }
            if strict(schema) == schema {
                assert(out == fields);
                lemma_closed_lookup(fields, "required"@);
                lemma_closed_lookup(fields, "additionalProperties"@);
                assert forall|i: int| 0 <= i < fields.len() implies value_closed(
                    #[trigger] fields[i].1,
                ) by {
                    law_every_field_is_found(fields, i);
                    lemma_closed_lookup(fields, fields[i].0);
                }
            }
        },
        _ => {},
    }
}

/// The same of a value inside a schema.
proof fn lemma_closed_values_stay(value: JsonView)
    requires
        value.well_formed(),
    ensures
        strict_value(value) == value <==> value_closed(value),
    decreases value, 2int,
{
    match value {
        JsonView::Object(_) => law_closed_schemas_stay(value),
        JsonView::Array(items) => {
            let treated = strict_items(items);
            assert(strict_value(value) == JsonView::Array(treated));
            assert forall|j: int| 0 <= j < items.len() implies (treated[j] == items[j])
                == all_closed(#[trigger] items[j]) by {
                assert(items[j].well_formed());
                law_closed_schemas_stay(items[j]);
            }
            if value_closed(value) {
                assert(treated =~= items);
            }
        },
        _ => {},
    }
}

/// Making a schema strict twice is making it strict once, exactly when no list of
/// properties in it gains a property by that: the second time, `required` would name
/// the property that was gained the first time.
pub proof fn law_strictness_is_idempotent(schema: JsonView)
    requires
        schema.well_formed(),
    ensures
        strict(strict(schema)) == strict(schema) <==> plain_properties(schema),
{
    law_strict_schemas_are_well_formed(schema);
    law_strict_schemas_are_closed(schema);
    law_closed_schemas_stay(strict(schema));
}

// ── What is sent is well formed ─────────────────────────────────────────

/// Making a schema strict keeps it well formed.
pub proof fn law_strict_schemas_are_well_formed(schema: JsonView)
    requires
        schema.well_formed(),
    ensures
        strict(schema).well_formed(),
    decreases schema, 1int,
{
    match schema {
        JsonView::Object(fields) => {
            let values = strict_fields(fields);
            assert(sorted(values));
            assert forall|i: int| 0 <= i < values.len() implies (
            #[trigger] values[i]).1.well_formed() by {
                assert(fields[i].1.well_formed());
                lemma_strict_values_are_well_formed(fields[i].1);
            }
            assert(JsonView::Object(values).well_formed());
            let shut = inserted(values, "additionalProperties"@, JsonView::Bool(false));
            law_insert_keeps_well_formed(values, "additionalProperties"@, JsonView::Bool(false));
            match lookup(fields, "properties"@) {
                Some(JsonView::Object(properties)) => {
                    let keys = key_list(properties);
                    let required = JsonView::Array(keys);
                    assert forall|i: int| 0 <= i < keys.len() implies (
                    #[trigger] keys[i]).well_formed() by {
                        assert(keys[i] == JsonView::Str(properties[i].0));
                    }
                    law_insert_keeps_well_formed(shut, "required"@, required);
                },
                _ => {},
            }
        },
        _ => {},
    }
}

/// The same of a value inside a schema.
proof fn lemma_strict_values_are_well_formed(value: JsonView)
    requires
        value.well_formed(),
    ensures
        strict_value(value).well_formed(),
    decreases value, 2int,
{
    match value {
        JsonView::Object(_) => law_strict_schemas_are_well_formed(value),
        JsonView::Array(items) => {
            let treated = strict_items(items);
            assert forall|j: int| 0 <= j < treated.len() implies (
            #[trigger] treated[j]).well_formed() by {
                assert(items[j].well_formed());
                law_strict_schemas_are_well_formed(items[j]);
            }
            assert(strict_value(value) == JsonView::Array(treated));
        },
        _ => {},
    }
}

/// A well-formed tool is sent well formed, in both formats.
proof fn lemma_tools_are_well_formed(tool: JsonView)
    requires
        tool.well_formed(),
    ensures
        prepared(tool).well_formed(),
        chat_tool(tool).well_formed(),
{
    match tool {
        JsonView::Object(fields) => match lookup(fields, "parameters"@) {
            Some(schema) => {
                law_fields_are_well_formed(tool, "parameters"@);
                law_strict_schemas_are_well_formed(schema);
                law_insert_keeps_well_formed(fields, "parameters"@, strict(schema));
            },
            None => {},
        },
        _ => {},
    }
    let sent = prepared(tool);
    let none = Seq::<(Seq<char>, JsonView)>::empty();
    let f1 = copied(none, sent, "name"@);
    let f2 = copied(f1, sent, "description"@);
    let f3 = copied(f2, sent, "parameters"@);
    let f4 = copied(f3, sent, "strict"@);
    lemma_copied_is_well_formed(none, sent, "name"@);
    lemma_copied_is_well_formed(f1, sent, "description"@);
    lemma_copied_is_well_formed(f2, sent, "parameters"@);
    lemma_copied_is_well_formed(f3, sent, "strict"@);
    let t1 = inserted(none, "type"@, JsonView::Str("function"@));
    law_insert_keeps_well_formed(none, "type"@, JsonView::Str("function"@));
    law_insert_keeps_well_formed(t1, "function"@, JsonView::Object(f4));
}

/// Copying a field keeps an object well formed.
proof fn lemma_copied_is_well_formed(
    fields: Seq<(Seq<char>, JsonView)>,
    source: JsonView,
    key: Seq<char>,
)
    requires
        JsonView::Object(fields).well_formed(),
        source.well_formed(),
    ensures
        JsonView::Object(copied(fields, source, key)).well_formed(),
{
    law_fields_are_well_formed(source, key);
    match source.get(key) {
        Some(v) => law_insert_keeps_well_formed(fields, key, v),
        None => {},
    }
}

/// Adding tools and a choice keeps an object well formed.
proof fn lemma_with_tools_is_well_formed(
    fields: Seq<(Seq<char>, JsonView)>,
    tools: Seq<JsonView>,
    choice: Option<Seq<char>>,
)
    requires
        JsonView::Object(fields).well_formed(),
        forall|i: int| 0 <= i < tools.len() ==> (#[trigger] tools[i]).well_formed(),
    ensures
        JsonView::Object(with_tools(fields, tools, choice)).well_formed(),
{
    let listed = if tools.len() == 0 {
        fields
    } else {
        inserted(fields, "tools"@, JsonView::Array(tools))
    };
    law_insert_keeps_well_formed(fields, "tools"@, JsonView::Array(tools));
    match choice {
        Some(c) => law_insert_keeps_well_formed(listed, "tool_choice"@, JsonView::Str(c)),
        None => {},
    }
}

/// A request with a well-formed prompt and well-formed tools has a well-formed body,
/// whatever the protocol.
pub proof fn law_bodies_are_well_formed(cfg: AiConfigView, req: AiRequestView)
    requires
        req.input.well_formed(),
        forall|i: int| 0 <= i < req.tools.len() ==> (#[trigger] req.tools[i]).well_formed(),
    ensures
        request_body(cfg, req).well_formed(),
{
    let none = Seq::<(Seq<char>, JsonView)>::empty();
    let model = JsonView::Str(cfg.model);
    let ceiling = json_unsigned(token_budget(cfg));
    let f1 = inserted(none, "model"@, model);
    law_insert_keeps_well_formed(none, "model"@, model);
    match cfg.api_protocol {
        ApiProtocol::Responses => {
            let f2 = inserted(f1, "input"@, req.input);
            let f3 = inserted(f2, "max_output_tokens"@, ceiling);
            let tools = Seq::new(req.tools.len(), |i: int| prepared(req.tools[i]));
            law_insert_keeps_well_formed(f1, "input"@, req.input);
            law_insert_keeps_well_formed(f2, "max_output_tokens"@, ceiling);
            assert forall|i: int| 0 <= i < tools.len() implies (
            #[trigger] tools[i]).well_formed() by {
                lemma_tools_are_well_formed(req.tools[i]);
            }
            lemma_with_tools_is_well_formed(f3, tools, req.tool_choice);
        },
        ApiProtocol::ChatCompletions => {
            let user = JsonView::Str("user"@);
            let m1 = inserted(none, "role"@, user);
            let m2 = inserted(m1, "content"@, req.input);
            let messages = JsonView::Array(seq![JsonView::Object(m2)]);
            law_insert_keeps_well_formed(none, "role"@, user);
            law_insert_keeps_well_formed(m1, "content"@, req.input);
            assert(messages.well_formed());
            let f2 = inserted(f1, "messages"@, messages);
            let f3 = inserted(f2, "max_tokens"@, ceiling);
            let tools = Seq::new(req.tools.len(), |i: int| chat_tool(req.tools[i]));
            law_insert_keeps_well_formed(f1, "messages"@, messages);
            law_insert_keeps_well_formed(f2, "max_tokens"@, ceiling);
            assert forall|i: int| 0 <= i < tools.len() implies (
            #[trigger] tools[i]).well_formed() by {
                lemma_tools_are_well_formed(req.tools[i]);
            }
            lemma_with_tools_is_well_formed(f3, tools, req.tool_choice);
        },
    }
}

// ── Requests, field by field ────────────────────────────────────────────

/// A strict schema, field by field. The schema of an object rejects undeclared keys
/// and requires the keys of its properties; every other field is there exactly when
/// it was, an object in it made strict, a list in it with each of its items made
/// strict, and anything else unchanged. What is no object is left as it is.
pub proof fn law_strict_schemas_field_by_field(schema: JsonView, key: Seq<char>)
    ensures
        !(schema is Object) ==> strict(schema) == schema,
        schema is Object ==> strict(schema) is Object,
        ({
            let closing = schema.get("type"@) == Some(JsonView::Str("object"@));
            let properties = schema.get("properties"@);
            let listing = closing && properties is Some && properties->0 is Object;
            let found = strict(schema).get(key);
            if closing && key == "additionalProperties"@ {
                found == Some(JsonView::Bool(false))
            } else if listing && key == "required"@ {
                found == Some(JsonView::Array(key_list(properties->0->Object_0)))
            } else {
                &&& found is Some <==> schema.get(key) is Some
                &&& schema.get(key) matches Some(v) ==> {
                    let w = found->0;
                    &&& v is Object ==> w == strict(v)
                    &&& v matches JsonView::Array(items) ==> {
                        &&& w is Array
                        &&& w->Array_0.len() == items.len()
                        &&& forall|i: int|
                            0 <= i < items.len() ==> #[trigger] w->Array_0[i] == strict(items[i])
                    }
                    &&& !(v is Object) && !(v is Array) ==> w == v
                }
            }
        }),
{
    match schema {
        JsonView::Object(fields) => {
            reveal_strlit("required");
            reveal_strlit("additionalProperties");
            assert("required"@.len() == 8 && "additionalProperties"@.len() == 20);
            lemma_closed_lookup(fields, key);
            match lookup(fields, key) {
                Some(JsonView::Array(items)) => {
                    let treated = strict_items(items);
                    assert(strict_value(JsonView::Array(items)) == JsonView::Array(treated));
                    assert(treated.len() == items.len());
                    assert forall|i: int| 0 <= i < items.len() implies #[trigger] treated[i]
                        == strict(items[i]) by {}
                },
                _ => {},
            }
        },
        _ => {},
    }
}

/// A tool that asks for strictness is sent with its parameters made strict and with
/// every other field as it is, whatever other fields it has; its parameters are then
/// closed, unless a list of properties in them gained a property. Any other tool, and
/// one without parameters, is sent as it is.
pub proof fn law_tools_that_ask_for_it_are_made_strict(tool: JsonView, key: Seq<char>)
    ensures
        ({
            let asks = tool.get("strict"@) == Some(JsonView::Bool(true));
            let sent = prepared(tool);
            &&& asks ==> (tool.get("parameters"@) matches Some(p) ==> {
                &&& sent is Object
                &&& sent.get("parameters"@) == Some(strict(p))
                &&& key != "parameters"@ ==> sent.get(key) == tool.get(key)
                &&& tool.well_formed() && plain_properties(p) ==> all_closed(
                    sent.get("parameters"@)->0,
                )
            })
            &&& !asks || tool.get("parameters"@) is None ==> sent == tool
            &&& tool.well_formed() ==> sent.well_formed()
        }),
{
    if tool.well_formed() {
        lemma_tools_are_well_formed(tool);
    }
    match tool {
        JsonView::Object(fields) => match lookup(fields, "parameters"@) {
            Some(p) => {
                law_lookup_after_insert(fields, "parameters"@, strict(p), "parameters"@);
                law_lookup_after_insert(fields, "parameters"@, strict(p), key);
                if tool.well_formed() {
                    law_fields_are_well_formed(tool, "parameters"@);
                    law_strict_schemas_are_closed(p);
                }
            },
            None => {},
        },
        _ => {},
    }
}

/// In the Chat Completions format a tool is an object with a type and a function, and
/// the function has the name, the description, the parameters and the strictness of the
/// tool as it is sent, and nothing else.
pub proof fn law_chat_tools_wrap_the_tool(tool: JsonView, key: Seq<char>)
    ensures
        chat_tool(tool) is Object,
        chat_tool(tool).get(key) is Some <==> key == "type"@ || key == "function"@,
        chat_tool(tool).get("type"@) == Some(JsonView::Str("function"@)),
        ({
            let function = chat_tool(tool).get("function"@)->0;
            &&& function is Object
            &&& function.get(key) == (if key == "name"@ || key == "description"@ || key
                == "parameters"@ || key == "strict"@ {
                prepared(tool).get(key)
            } else {
                None
            })
        }),
        tool.well_formed() ==> chat_tool(tool).well_formed(),
{
    reveal_strlit("name");
    reveal_strlit("description");
    reveal_strlit("parameters");
    reveal_strlit("strict");
    reveal_strlit("type");
    reveal_strlit("function");
    assert("name"@.len() == 4 && "description"@.len() == 11 && "parameters"@.len() == 10
        && "strict"@.len() == 6 && "type"@.len() == 4 && "function"@.len() == 8);
    if tool.well_formed() {
        lemma_tools_are_well_formed(tool);
    }
    let sent = prepared(tool);
    let none = Seq::<(Seq<char>, JsonView)>::empty();
    let f1 = copied(none, sent, "name"@);
    let f2 = copied(f1, sent, "description"@);
    let f3 = copied(f2, sent, "parameters"@);
    let f4 = copied(f3, sent, "strict"@);
    lemma_copied(none, sent, "name"@, key);
    lemma_copied(f1, sent, "description"@, key);
    lemma_copied(f2, sent, "parameters"@, key);
    lemma_copied(f3, sent, "strict"@, key);
    let t1 = inserted(none, "type"@, JsonView::Str("function"@));
    law_lookup_after_insert(none, "type"@, JsonView::Str("function"@), key);
    law_lookup_after_insert(none, "type"@, JsonView::Str("function"@), "type"@);
    law_lookup_after_insert(t1, "function"@, JsonView::Object(f4), key);
    law_lookup_after_insert(t1, "function"@, JsonView::Object(f4), "type"@);
    law_lookup_after_insert(t1, "function"@, JsonView::Object(f4), "function"@);
}

/// What adding tools and a choice does to the field `key`.
proof fn lemma_with_tools(
    fields: Seq<(Seq<char>, JsonView)>,
    tools: Seq<JsonView>,
    choice: Option<Seq<char>>,
    key: Seq<char>,
)
    ensures
        lookup(with_tools(fields, tools, choice), key) == (if key == "tool_choice"@ && choice is Some {
            Some(JsonView::Str(choice->0))
        } else if key == "tools"@ && tools.len() > 0 {
            Some(JsonView::Array(tools))
        } else {
            lookup(fields, key)
        }),
{
    reveal_strlit("tools");
    reveal_strlit("tool_choice");
    assert("tools"@.len() == 5 && "tool_choice"@.len() == 11);
    let listed = if tools.len() == 0 {
        fields
    } else {
        inserted(fields, "tools"@, JsonView::Array(tools))
    };
    law_lookup_after_insert(fields, "tools"@, JsonView::Array(tools), key);
    match choice {
        Some(c) => law_lookup_after_insert(listed, "tool_choice"@, JsonView::Str(c), key),
        None => {},
    }
}

/// The body in the Responses format, field by field: the model, the prompt, the
/// configured ceiling on tokens or 2000, all the tools in order, each as it is sent,
/// when there are any, the tool choice when there is one, and nothing else.
pub proof fn law_responses_bodies_field_by_field(
    cfg: AiConfigView,
    req: AiRequestView,
    key: Seq<char>,
)
    ensures
        ({
            let body = responses_body(cfg, req);
            let tools = body.get("tools"@);
            &&& body is Object
            &&& body.get("model"@) == Some(JsonView::Str(cfg.model))
            &&& body.get("input"@) == Some(req.input)
            &&& cfg.max_output_tokens matches Some(n) ==> body.get("max_output_tokens"@) == Some(
                json_unsigned(n as u64),
            )
            &&& cfg.max_output_tokens is None ==> body.get("max_output_tokens"@) == Some(
                json_unsigned(2000),
            )
            &&& tools is Some <==> req.tools.len() > 0
            &&& tools matches Some(sent) ==> {
                &&& sent is Array
                &&& sent->Array_0.len() == req.tools.len()
                &&& forall|i: int|
                    0 <= i < req.tools.len() ==> #[trigger] sent->Array_0[i] == prepared(
                        req.tools[i],
                    )
            }
            &&& req.tool_choice matches Some(c) ==> body.get("tool_choice"@) == Some(
                JsonView::Str(c),
            )
            &&& req.tool_choice is None ==> body.get("tool_choice"@) is None
            &&& body.get(key) is Some ==> key == "model"@ || key == "input"@ || key
                == "max_output_tokens"@ || key == "tools"@ || key == "tool_choice"@
        }),
{
    lemma_responses_field(cfg, req, key);
    lemma_responses_field(cfg, req, "model"@);
    lemma_responses_field(cfg, req, "input"@);
    lemma_responses_field(cfg, req, "max_output_tokens"@);
    lemma_responses_field(cfg, req, "tools"@);
    lemma_responses_field(cfg, req, "tool_choice"@);
    reveal_strlit("model");
    reveal_strlit("input");
    reveal_strlit("max_output_tokens");
    reveal_strlit("tools");
    reveal_strlit("tool_choice");
    assert("tools"@[0] == 't' && "tool_choice"@[0] == 't' && "model"@[0] == 'm' && "input"@[0] == 'i'
        && "max_output_tokens"@[0] == 'm');
    assert("tools"@.len() == 5 && "tool_choice"@.len() == 11 && "model"@.len() == 5
        && "max_output_tokens"@.len() == 17);
}

/// One field of a body in the Responses format.
proof fn lemma_responses_field(cfg: AiConfigView, req: AiRequestView, key: Seq<char>)
    ensures
        responses_body(cfg, req).get(key) == (if key == "tool_choice"@ && req.tool_choice is Some {
            Some(JsonView::Str(req.tool_choice->0))
        } else if key == "tools"@ && req.tools.len() > 0 {
            Some(
                JsonView::Array(Seq::new(req.tools.len(), |i: int| prepared(req.tools[i]))),
            )
        } else if key == "max_output_tokens"@ {
            Some(json_unsigned(token_budget(cfg)))
        } else if key == "input"@ {
            Some(req.input)
        } else if key == "model"@ {
            Some(JsonView::Str(cfg.model))
        } else {
            None
        }),
{
    let none = Seq::<(Seq<char>, JsonView)>::empty();
    let model = JsonView::Str(cfg.model);
    let ceiling = json_unsigned(token_budget(cfg));
    let f1 = inserted(none, "model"@, model);
    let f2 = inserted(f1, "input"@, req.input);
    let f3 = inserted(f2, "max_output_tokens"@, ceiling);
    let tools = Seq::new(req.tools.len(), |i: int| prepared(req.tools[i]));
    law_lookup_after_insert(none, "model"@, model, key);
    law_lookup_after_insert(f1, "input"@, req.input, key);
    law_lookup_after_insert(f2, "max_output_tokens"@, ceiling, key);
    lemma_with_tools(f3, tools, req.tool_choice, key);
}

/// The body in the Chat Completions format, field by field: the model, one message
/// that the user says and whose content is the prompt, the configured ceiling on tokens
/// or 2000, all the tools in order, each wrapped as a function, when there are any, the
/// tool choice when there is one, and nothing else.
pub proof fn law_chat_bodies_field_by_field(
    cfg: AiConfigView,
    req: AiRequestView,
    key: Seq<char>,
)
    ensures
        ({
            let body = chat_body(cfg, req);
            let tools = body.get("tools"@);
            let messages = body.get("messages"@);
            &&& body is Object
            &&& body.get("model"@) == Some(JsonView::Str(cfg.model))
            &&& messages is Some && messages->0 is Array && messages->0->Array_0.len() == 1
            &&& ({
                let message = messages->0->Array_0[0];
                &&& message is Object
                &&& message.get("role"@) == Some(JsonView::Str("user"@))
                &&& message.get("content"@) == Some(req.input)
                &&& message.get(key) is Some ==> key == "role"@ || key == "content"@
            })
            &&& cfg.max_output_tokens matches Some(n) ==> body.get("max_tokens"@) == Some(
                json_unsigned(n as u64),
            )
            &&& cfg.max_output_tokens is None ==> body.get("max_tokens"@) == Some(
                json_unsigned(2000),
            )
            &&& tools is Some <==> req.tools.len() > 0
            &&& tools matches Some(sent) ==> {
                &&& sent is Array
                &&& sent->Array_0.len() == req.tools.len()
                &&& forall|i: int|
                    0 <= i < req.tools.len() ==> #[trigger] sent->Array_0[i] == chat_tool(
                        req.tools[i],
                    )
            }
            &&& req.tool_choice matches Some(c) ==> body.get("tool_choice"@) == Some(
                JsonView::Str(c),
            )
            &&& req.tool_choice is None ==> body.get("tool_choice"@) is None
            &&& body.get(key) is Some ==> key == "model"@ || key == "messages"@ || key
                == "max_tokens"@ || key == "tools"@ || key == "tool_choice"@
        }),
{
    lemma_chat_field(cfg, req, key);
    lemma_chat_field(cfg, req, "model"@);
    lemma_chat_field(cfg, req, "messages"@);
    lemma_chat_field(cfg, req, "max_tokens"@);
    lemma_chat_field(cfg, req, "tools"@);
    lemma_chat_field(cfg, req, "tool_choice"@);
    reveal_strlit("model");
    reveal_strlit("messages");
    reveal_strlit("max_tokens");
    reveal_strlit("tools");
    reveal_strlit("tool_choice");
    reveal_strlit("role");
    reveal_strlit("content");
    assert("tools"@[0] == 't' && "tool_choice"@[0] == 't' && "model"@[0] == 'm' && "messages"@[0]
        == 'm' && "max_tokens"@[0] == 'm');
    assert("tools"@.len() == 5 && "tool_choice"@.len() == 11 && "model"@.len() == 5
        && "messages"@.len() == 8 && "max_tokens"@.len() == 10 && "role"@.len() == 4
        && "content"@.len() == 7);
    let none = Seq::<(Seq<char>, JsonView)>::empty();
    let user = JsonView::Str("user"@);
    let m1 = inserted(none, "role"@, user);
    law_lookup_after_insert(none, "role"@, user, key);
    law_lookup_after_insert(none, "role"@, user, "role"@);
    law_lookup_after_insert(m1, "content"@, req.input, key);
    law_lookup_after_insert(m1, "content"@, req.input, "role"@);
    law_lookup_after_insert(m1, "content"@, req.input, "content"@);
}

/// One field of a body in the Chat Completions format.
proof fn lemma_chat_field(cfg: AiConfigView, req: AiRequestView, key: Seq<char>)
    ensures
        ({
            let m1 = inserted(Seq::empty(), "role"@, JsonView::Str("user"@));
            let m2 = inserted(m1, "content"@, req.input);
            chat_body(cfg, req).get(key) == (if key == "tool_choice"@ && req.tool_choice is Some {
                Some(JsonView::Str(req.tool_choice->0))
            } else if key == "tools"@ && req.tools.len() > 0 {
                Some(
                    JsonView::Array(Seq::new(req.tools.len(), |i: int| chat_tool(req.tools[i]))),
                )
            } else if key == "max_tokens"@ {
                Some(json_unsigned(token_budget(cfg)))
            } else if key == "messages"@ {
                Some(JsonView::Array(seq![JsonView::Object(m2)]))
            } else if key == "model"@ {
                Some(JsonView::Str(cfg.model))
            } else {
                None
            })
        }),
{
    let none = Seq::<(Seq<char>, JsonView)>::empty();
    let m1 = inserted(none, "role"@, JsonView::Str("user"@));
    let m2 = inserted(m1, "content"@, req.input);
    let messages = JsonView::Array(seq![JsonView::Object(m2)]);
    let model = JsonView::Str(cfg.model);
    let ceiling = json_unsigned(token_budget(cfg));
    let f1 = inserted(none, "model"@, model);
    let f2 = inserted(f1, "messages"@, messages);
    let f3 = inserted(f2, "max_tokens"@, ceiling);
    let tools = Seq::new(req.tools.len(), |i: int| chat_tool(req.tools[i]));
    law_lookup_after_insert(none, "model"@, model, key);
    law_lookup_after_insert(f1, "messages"@, messages, key);
    law_lookup_after_insert(f2, "max_tokens"@, ceiling, key);
    lemma_with_tools(f3, tools, req.tool_choice, key);
}

/// Each protocol has its own address and its own body, and the two protocols differ in
/// nothing else of a configuration.
pub proof fn law_the_protocol_picks_address_and_body(cfg: AiConfigView, req: AiRequestView)
    ensures
        cfg.api_protocol == ApiProtocol::Responses ==> {
            &&& request_url(cfg) == cfg.base_url + "/responses"@
            &&& request_body(cfg, req) == responses_body(cfg, req)
        },
        cfg.api_protocol == ApiProtocol::ChatCompletions ==> {
            &&& request_url(cfg) == cfg.base_url + "/chat/completions"@
            &&& request_body(cfg, req) == chat_body(cfg, req)
        },
{
}

// ── Laws of the answers ─────────────────────────────────────────────────

/// An answer of the other protocol is an error and never an empty result: a chat
/// answer needs `choices` and never reads as nothing at all, an answer in the
/// Responses format needs `output`.
pub proof fn law_answers_of_the_other_protocol_fail(body: JsonView)
    ensures
        body.items_at("choices"@) is None ==> chat_outputs(body) is Err,
        chat_outputs(body) matches Ok(outputs) ==> outputs.len() > 0,
        body.items_at("output"@) is None ==> responses_outputs(body) is Err,
{
}

/// An item of an unknown type is skipped: the other items are read as if it were
/// not there.
pub proof fn law_unknown_items_are_skipped(
    before: Seq<JsonView>,
    item: JsonView,
    behind: Seq<JsonView>,
)
    requires
        item.text_at("type"@) != Some("message"@),
        item.text_at("type"@) != Some("function_call"@),
    ensures
        items_outputs(before.push(item) + behind) == items_outputs(before + behind),
    decreases behind.len(),
{
    let with = before.push(item) + behind;
    if behind.len() == 0 {
        assert(with =~= before.push(item));
        assert(before + behind =~= before);
        assert(with.drop_last() =~= before);
        match items_outputs(before) {
            Ok(done) => assert(done + Seq::<AiOutputView>::empty() =~= done),
            Err(_) => {},
        }
    } else {
        law_unknown_items_are_skipped(before, item, behind.drop_last());
        assert(with.drop_last() =~= before.push(item) + behind.drop_last());
        assert((before + behind).drop_last() =~= before + behind.drop_last());
    }
}

/// The arguments of a tool call are JSON.
pub open spec fn sound(output: AiOutputView) -> bool {
    match output {
        AiOutputView::ToolCall { name, arguments } => syntax_error(arguments) is None,
        AiOutputView::Text(_) => true,
    }
}

/// Every tool call that is read from an answer has arguments that are JSON,
/// whatever the protocol.
pub proof fn law_tool_calls_have_json_arguments(protocol: ApiProtocol, body: JsonView)
    ensures
        answer_outputs(protocol, body) matches Ok(outputs) ==> forall|i: int|
            0 <= i < outputs.len() ==> sound(#[trigger] outputs[i]),
{
    match protocol {
        ApiProtocol::Responses => match body.items_at("output"@) {
            Some(items) => lemma_items_sound(items),
            None => {},
        },
        ApiProtocol::ChatCompletions => match body.items_at("choices"@) {
            Some(choices) => if choices.len() > 0 {
                match choices[0].get("message"@) {
                    Some(message) => match message.items_at("tool_calls"@) {
                        Some(calls) => lemma_chat_calls_sound(calls),
                        None => {},
                    },
                    None => {},
                }
            },
            None => {},
        },
    }
}

/// The same of a list of chat tool calls.
proof fn lemma_chat_calls_sound(calls: Seq<JsonView>)
    ensures
        chat_calls(calls) matches Ok(outputs) ==> forall|i: int|
            0 <= i < outputs.len() ==> sound(#[trigger] outputs[i]),
    decreases calls.len(),
{
    if calls.len() > 0 {
        lemma_chat_calls_sound(calls.drop_last());
    }
}

/// The same of the texts of a message.
proof fn lemma_part_texts_sound(parts: Seq<JsonView>)
    ensures
        forall|i: int| 0 <= i < part_texts(parts).len() ==> sound(#[trigger] part_texts(parts)[i]),
    decreases parts.len(),
{
    if parts.len() > 0 {
        let done = part_texts(parts.drop_last());
        lemma_part_texts_sound(parts.drop_last());
        assert forall|i: int| 0 <= i < part_texts(parts).len() implies sound(
            #[trigger] part_texts(parts)[i],
        ) by {
            if i < done.len() {
                assert(part_texts(parts)[i] == done[i]);
            }
        }
    }
}

/// The same of a list of items.
proof fn lemma_items_sound(items: Seq<JsonView>)
    ensures
        items_outputs(items) matches Ok(outputs) ==> forall|i: int|
            0 <= i < outputs.len() ==> sound(#[trigger] outputs[i]),
    decreases items.len(),
{
    if items.len() > 0 {
        lemma_items_sound(items.drop_last());
        match items.last().items_at("content"@) {
            Some(parts) => lemma_part_texts_sound(parts),
            None => {},
        }
    }
}

// ── Answers, piece by piece ─────────────────────────────────────────────

/// A list of items is read piece by piece: what the first part stands for, then what
/// the second part stands for, or the first thing that is wrong. Nothing stands for
/// nothing.
pub proof fn law_items_are_read_one_after_the_other(a: Seq<JsonView>, b: Seq<JsonView>)
    ensures
        items_outputs(Seq::empty()) == Ok::<Seq<AiOutputView>, AiErrorView>(Seq::empty()),
        match (items_outputs(a), items_outputs(b)) {
            (Ok(x), Ok(y)) => items_outputs(a + b) == Ok::<Seq<AiOutputView>, AiErrorView>(x + y),
            (Ok(_), Err(e)) => items_outputs(a + b) == Err::<Seq<AiOutputView>, AiErrorView>(e),
            (Err(e), _) => items_outputs(a + b) == Err::<Seq<AiOutputView>, AiErrorView>(e),
        },
    decreases b.len(),
{
    if b.len() == 0 {
        assert(a + b =~= a);
        match items_outputs(a) {
            Ok(x) => assert(x + Seq::<AiOutputView>::empty() =~= x),
            Err(_) => {},
        }
    } else {
        law_items_are_read_one_after_the_other(a, b.drop_last());
        assert((a + b).drop_last() =~= a + b.drop_last());
        assert((a + b).last() == b.last());
        match (items_outputs(a), items_outputs(b.drop_last()), item_outputs(b.last())) {
            (Ok(x), Ok(y), Ok(z)) => assert(x + y + z =~= x + (y + z)),
            _ => {},
        }
    }
}

/// What a single item stands for. A message stands for the texts among its parts, and
/// for nothing when it has no list of parts. A function call with a name that is not
/// empty and with arguments that are JSON stands for that call; any other is an error
/// in the shape of the answer. An item of another type stands for nothing.
pub proof fn law_single_items(item: JsonView)
    ensures
        ({
            let read = items_outputs(seq![item]);
            let kind = item.get("type"@);
            let name = item.text_at("name"@);
            let arguments = item.text_at("arguments"@);
            if kind == Some(JsonView::Str("message"@)) {
                read == Ok::<Seq<AiOutputView>, AiErrorView>(
                    match item.get("content"@) {
                        Some(JsonView::Array(parts)) => part_texts(parts),
                        _ => Seq::empty(),
                    },
                )
            } else if kind == Some(JsonView::Str("function_call"@)) {
                if name is None || name->0.len() == 0 {
                    read == Err::<Seq<AiOutputView>, AiErrorView>(
                        AiErrorView {
                            message: "function call missing name"@,
                            kind: AiErrorKind::Schema,
                        },
                    )
                } else if arguments is None {
                    read == Err::<Seq<AiOutputView>, AiErrorView>(
                        AiErrorView {
                            message: "function call arguments must be a JSON string"@,
                            kind: AiErrorKind::Schema,
                        },
                    )
                } else {
                    match syntax_error(arguments->0) {
                        Some(problem) => read == Err::<Seq<AiOutputView>, AiErrorView>(
                            AiErrorView {
                                message: "invalid function call arguments JSON: "@ + problem,
                                kind: AiErrorKind::Schema,
                            },
                        ),
                        None => read == Ok::<Seq<AiOutputView>, AiErrorView>(
                            seq![
                                AiOutputView::ToolCall { name: name->0, arguments: arguments->0 },
                            ],
                        ),
                    }
                }
            } else {
                read == Ok::<Seq<AiOutputView>, AiErrorView>(Seq::empty())
            }
        }),
{
    reveal_strlit("message");
    reveal_strlit("function_call");
    assert("message"@.len() == 7 && "function_call"@.len() == 13);
    let items = seq![item];
    assert(items.drop_last() =~= Seq::empty());
    assert(items.last() == item);
    assert(items_outputs(Seq::empty()) == Ok::<Seq<AiOutputView>, AiErrorView>(Seq::empty()));
    match item_outputs(item) {
        Ok(more) => assert(Seq::<AiOutputView>::empty() + more =~= more),
        Err(_) => {},
    }
}

/// The parts of a message are read piece by piece. A part of the type `output_text` with
/// a text stands for that text, and any other for nothing.
pub proof fn law_parts_are_read_one_after_the_other(
    a: Seq<JsonView>,
    b: Seq<JsonView>,
    part: JsonView,
)
    ensures
        part_texts(a + b) == part_texts(a) + part_texts(b),
        part_texts(Seq::empty()) == Seq::<AiOutputView>::empty(),
        part_texts(seq![part]) == (if part.get("type"@) == Some(JsonView::Str("output_text"@))
            && part.text_at("text"@) is Some {
            seq![AiOutputView::Text(part.text_at("text"@)->0)]
        } else {
            Seq::empty()
        }),
    decreases b.len(),
{
    assert(seq![part].drop_last() =~= Seq::empty());
    assert(seq![part].last() == part);
    assert(part_texts(Seq::empty()) == Seq::<AiOutputView>::empty());
    if part.text_at("text"@) is Some {
        assert(Seq::<AiOutputView>::empty().push(AiOutputView::Text(part.text_at("text"@)->0))
            =~= seq![AiOutputView::Text(part.text_at("text"@)->0)]);
    }
    if b.len() == 0 {
        assert(a + b =~= a);
        assert(part_texts(a) + part_texts(b) =~= part_texts(a));
    } else {
        law_parts_are_read_one_after_the_other(a, b.drop_last(), part);
        assert((a + b).drop_last() =~= a + b.drop_last());
        assert((a + b).last() == b.last());
        assert(part_texts(a + b) =~= part_texts(a) + part_texts(b));
    }
}

/// Every function call of an answer is read, in order: a list of calls with names and
/// with arguments that are JSON reads as as many tool calls, each with the name and the
/// arguments of its item.
pub proof fn law_every_function_call_is_read(items: Seq<JsonView>)
    requires
        forall|i: int|
            0 <= i < items.len() ==> {
                let item = #[trigger] items[i];
                &&& item.text_at("type"@) == Some("function_call"@)
                &&& item.text_at("name"@) is Some && item.text_at("name"@)->0.len() > 0
                &&& item.text_at("arguments"@) is Some
                &&& syntax_error(item.text_at("arguments"@)->0) is None
            },
    ensures
        items_outputs(items) is Ok,
        items_outputs(items)->Ok_0.len() == items.len(),
        forall|i: int|
            0 <= i < items.len() ==> #[trigger] items_outputs(items)->Ok_0[i]
                == (AiOutputView::ToolCall {
                name: items[i].text_at("name"@)->0,
                arguments: items[i].text_at("arguments"@)->0,
            }),
    decreases items.len(),
{
    if items.len() > 0 {
        let shorter = items.drop_last();
        assert forall|i: int| 0 <= i < shorter.len() implies {
            let item = #[trigger] shorter[i];
            &&& item.text_at("type"@) == Some("function_call"@)
            &&& item.text_at("name"@) is Some && item.text_at("name"@)->0.len() > 0
            &&& item.text_at("arguments"@) is Some
            &&& syntax_error(item.text_at("arguments"@)->0) is None
        } by {
            assert(shorter[i] == items[i]);
        }
        law_every_function_call_is_read(shorter);
        let last = items[items.len() - 1];
        law_single_items(last);
        law_items_are_read_one_after_the_other(shorter, seq![last]);
        reveal_strlit("message");
        reveal_strlit("function_call");
        assert("message"@.len() == 7 && "function_call"@.len() == 13);
        assert(shorter + seq![last] =~= items);
    }
}

/// An answer in the Responses format that says it is incomplete is an error that names
/// the reason, of the kind for exhausted tokens exactly when that is the reason; without
/// a list of items it is an error; else it stands for what its items stand for.
pub proof fn law_responses_answers(body: JsonView)
    ensures
        ({
            let read = responses_outputs(body);
            let details = body.get("incomplete_details"@);
            let named = match details {
                Some(d) => d.text_at("reason"@),
                None => None,
            };
            let reason = match named {
                Some(r) => r,
                None => "unknown"@,
            };
            if body.get("status"@) == Some(JsonView::Str("incomplete"@)) {
                &&& read is Err
                &&& read->Err_0.message == "response incomplete ("@ + reason
                    + "); increase max_output_tokens or ask for fewer items"@
                &&& reason == "max_output_tokens"@ ==> read->Err_0.kind == AiErrorKind::OutputBudget
                &&& reason != "max_output_tokens"@ ==> read->Err_0.kind == AiErrorKind::Schema
            } else {
                match body.get("output"@) {
                    Some(JsonView::Array(items)) => read == items_outputs(items),
                    _ => read == Err::<Seq<AiOutputView>, AiErrorView>(
                        AiErrorView {
                            message: "response missing 'output' array"@,
                            kind: AiErrorKind::Schema,
                        },
                    ),
                }
            }
        }),
{
}

/// A list of chat tool calls is read piece by piece, up to the first one that is wrong.
/// A single call with a name and with arguments that are JSON stands for that call, and
/// any other is an error in the shape of the answer.
pub proof fn law_chat_calls_are_read_one_after_the_other(
    a: Seq<JsonView>,
    b: Seq<JsonView>,
    call: JsonView,
)
    ensures
        chat_calls(Seq::empty()) == Ok::<Seq<AiOutputView>, AiErrorView>(Seq::empty()),
        match (chat_calls(a), chat_calls(b)) {
            (Ok(x), Ok(y)) => chat_calls(a + b) == Ok::<Seq<AiOutputView>, AiErrorView>(x + y),
            (Ok(_), Err(e)) => chat_calls(a + b) == Err::<Seq<AiOutputView>, AiErrorView>(e),
            (Err(e), _) => chat_calls(a + b) == Err::<Seq<AiOutputView>, AiErrorView>(e),
        },
        ({
            let read = chat_calls(seq![call]);
            let function = call.get("function"@);
            let name = match function {
                Some(f) => f.text_at("name"@),
                None => None,
            };
            let arguments = match function {
                Some(f) => f.text_at("arguments"@),
                None => None,
            };
            if name is None {
                read == Err::<Seq<AiOutputView>, AiErrorView>(
                    AiErrorView {
                        message: "tool call missing function.name"@,
                        kind: AiErrorKind::Schema,
                    },
                )
            } else if arguments is None {
                read == Err::<Seq<AiOutputView>, AiErrorView>(
                    AiErrorView {
                        message: "tool call function.arguments must be a JSON string"@,
                        kind: AiErrorKind::Schema,
                    },
                )
            } else {
                match syntax_error(arguments->0) {
                    Some(problem) => read == Err::<Seq<AiOutputView>, AiErrorView>(
                        AiErrorView {
                            message: "invalid tool call function.arguments JSON: "@ + problem,
                            kind: AiErrorKind::Schema,
                        },
                    ),
                    None => read == Ok::<Seq<AiOutputView>, AiErrorView>(
                        seq![AiOutputView::ToolCall { name: name->0, arguments: arguments->0 }],
                    ),
                }
            }
        }),
    decreases b.len(),
{
    assert(seq![call].drop_last() =~= Seq::empty());
    assert(seq![call].last() == call);
    assert(chat_calls(Seq::empty()) == Ok::<Seq<AiOutputView>, AiErrorView>(Seq::empty()));
    match chat_call(call) {
        Ok(output) => assert(Seq::<AiOutputView>::empty().push(output) =~= seq![output]),
        Err(_) => {},
    }
    if b.len() == 0 {
        assert(a + b =~= a);
        match chat_calls(a) {
            Ok(x) => assert(x + Seq::<AiOutputView>::empty() =~= x),
            Err(_) => {},
        }
    } else {
        law_chat_calls_are_read_one_after_the_other(a, b.drop_last(), call);
        assert((a + b).drop_last() =~= a + b.drop_last());
        assert((a + b).last() == b.last());
        match (chat_calls(a), chat_calls(b.drop_last()), chat_call(b.last())) {
            (Ok(x), Ok(y), Ok(z)) => assert((x + y).push(z) =~= x + y.push(z)),
            _ => {},
        }
    }
}

/// Every tool call of a chat answer is read, in order: a list of calls with names and
/// with arguments that are JSON reads as as many tool calls, each with the name and the
/// arguments of its entry.
pub proof fn law_every_chat_call_is_read(calls: Seq<JsonView>)
    requires
        forall|i: int|
            0 <= i < calls.len() ==> {
                let function = (#[trigger] calls[i]).get("function"@);
                &&& function is Some
                &&& function->0.text_at("name"@) is Some
                &&& function->0.text_at("arguments"@) is Some
                &&& syntax_error(function->0.text_at("arguments"@)->0) is None
            },
    ensures
        chat_calls(calls) is Ok,
        chat_calls(calls)->Ok_0.len() == calls.len(),
        forall|i: int|
            0 <= i < calls.len() ==> #[trigger] chat_calls(calls)->Ok_0[i]
                == (AiOutputView::ToolCall {
                name: calls[i].get("function"@)->0.text_at("name"@)->0,
                arguments: calls[i].get("function"@)->0.text_at("arguments"@)->0,
            }),
    decreases calls.len(),
{
    if calls.len() > 0 {
        let shorter = calls.drop_last();
        assert forall|i: int| 0 <= i < shorter.len() implies {
            let function = (#[trigger] shorter[i]).get("function"@);
            &&& function is Some
            &&& function->0.text_at("name"@) is Some
            &&& function->0.text_at("arguments"@) is Some
            &&& syntax_error(function->0.text_at("arguments"@)->0) is None
        } by {
            assert(shorter[i] == calls[i]);
        }
        law_every_chat_call_is_read(shorter);
        let last = calls[calls.len() - 1];
        assert(last.get("function"@) is Some);
        law_chat_calls_are_read_one_after_the_other(shorter, seq![last], last);
        assert(shorter + seq![last] =~= calls);
    }
}

/// An answer in the Chat Completions format is read from its first choice. Without one,
/// or without a message in it, it is an error in its shape; one that ran out of tokens
/// is an error of that kind. Else it stands for the text of the message, when there is
/// one, and then for its tool calls, when there are any, and is an error when that is
/// nothing or when a call is wrong.
pub proof fn law_chat_answers(body: JsonView)
    ensures
        ({
            let read = chat_outputs(body);
            let choices = body.get("choices"@);
            if !(choices is Some && choices->0 is Array && choices->0->Array_0.len() > 0) {
                read == Err::<Seq<AiOutputView>, AiErrorView>(
                    AiErrorView {
                        message: "response missing 'choices[0]'"@,
                        kind: AiErrorKind::Schema,
                    },
                )
            } else {
                let choice = choices->0->Array_0[0];
                let message = choice.get("message"@);
                if choice.get("finish_reason"@) == Some(JsonView::Str("length"@)) {
                    read == Err::<Seq<AiOutputView>, AiErrorView>(
                        AiErrorView {
                            message: "chat completion exhausted its token budget; increase max_output_tokens"@,
                            kind: AiErrorKind::OutputBudget,
                        },
                    )
                } else if !(message is Some && message->0 is Object) {
                    read == Err::<Seq<AiOutputView>, AiErrorView>(
                        AiErrorView {
                            message: "response missing 'choices[0].message'"@,
                            kind: AiErrorKind::Schema,
                        },
                    )
                } else {
                    let content = message->0.text_at("content"@);
                    let calls = match message->0.get("tool_calls"@) {
                        Some(JsonView::Array(calls)) => chat_calls(calls),
                        _ => Ok(Seq::empty()),
                    };
                    match calls {
                        Err(e) => read == Err::<Seq<AiOutputView>, AiErrorView>(e),
                        Ok(calls) => match content {
                            Some(text) => read == Ok::<Seq<AiOutputView>, AiErrorView>(
                                seq![AiOutputView::Text(text)] + calls,
                            ),
                            None => if calls.len() > 0 {
                                read == Ok::<Seq<AiOutputView>, AiErrorView>(calls)
                            } else {
                                read == Err::<Seq<AiOutputView>, AiErrorView>(
                                    AiErrorView {
                                        message: "chat response has neither content nor tool_calls"@,
                                        kind: AiErrorKind::Schema,
                                    },
                                )
                            },
                        },
                    }
                }
            }
        }),
{
    match body.get("choices"@) {
        Some(JsonView::Array(choices)) => if choices.len() > 0 {
            match choices[0].get("message"@) {
                Some(message) => match message.items_at("tool_calls"@) {
                    Some(calls) => match chat_calls(calls) {
                        Ok(read) => assert(Seq::<AiOutputView>::empty() + read =~= read),
                        Err(_) => {},
                    },
                    None => {
                        match message.text_at("content"@) {
                            Some(text) => assert(seq![AiOutputView::Text(text)]
                                + Seq::<AiOutputView>::empty() =~= seq![AiOutputView::Text(text)]),
                            None => {},
                        }
                    },
                },
                None => {},
            }
        },
        _ => {},
    }
}

/// What an exchange comes to. One without an answer, a refusal and an unreadable answer
/// are errors that say so, the last one in the shape of the answer; an answer comes to
/// what it stands for in the configured format, with its token accounting, or to what is
/// wrong with it.
pub proof fn law_every_exchange_is_concluded(
    protocol: ApiProtocol,
    reason: Seq<char>,
    status: u16,
    body: JsonView,
)
    ensures
        conclusion(protocol, ExchangeView::Unanswered(reason)) == Err::<
            (Seq<AiOutputView>, Option<AiUsage>),
            AiErrorView,
        >(AiErrorView { message: "ai request failed: "@ + reason, kind: AiErrorKind::Provider }),
        conclusion(protocol, ExchangeView::Refused { status, text: reason }) == Err::<
            (Seq<AiOutputView>, Option<AiUsage>),
            AiErrorView,
        >(
            AiErrorView {
                message: "ai api status "@ + crate::text::decimal(status as nat) + ": "@ + reason,
                kind: AiErrorKind::Provider,
            },
        ),
        conclusion(protocol, ExchangeView::Unreadable(reason)) == Err::<
            (Seq<AiOutputView>, Option<AiUsage>),
            AiErrorView,
        >(
            AiErrorView {
                message: "ai response decode failed: "@ + reason,
                kind: AiErrorKind::Schema,
            },
        ),
        ({
            let read = if protocol == ApiProtocol::ChatCompletions {
                chat_outputs(body)
            } else {
                responses_outputs(body)
            };
            let end = conclusion(protocol, ExchangeView::Answered(body));
            &&& read matches Ok(outputs) ==> end is Ok && end->Ok_0 == (outputs, body_usage(body))
            &&& read matches Err(e) ==> end is Err && end->Err_0 == e
        }),
{
}

/// A tool call whose arguments were found to be JSON is that call; else it is an error
/// in the shape of the answer with the complaint and the problem.
pub proof fn law_checked_calls(
    name: Seq<char>,
    arguments: Seq<char>,
    problem: Seq<char>,
    complaint: Seq<char>,
)
    ensures
        checked_call(name, arguments, None, complaint) == Ok::<AiOutputView, AiErrorView>(
            AiOutputView::ToolCall { name, arguments },
        ),
        checked_call(name, arguments, Some(problem), complaint) == Err::<
            AiOutputView,
            AiErrorView,
        >(AiErrorView { message: complaint + problem, kind: AiErrorKind::Schema }),
{
}

/// The budget has the given ceiling on a whole request and the same one on
/// unacknowledged data, so that the transport never cuts a request off before its
/// ceiling; the handshake, the probes and idle connections have theirs.
pub proof fn law_the_transport_waits_as_long_as_the_request(seconds: u64)
    ensures
        budget(seconds).request_timeout == seconds,
        budget(seconds).tcp_user_timeout == seconds,
        budget(seconds).connect_timeout == 10,
        budget(seconds).tcp_keepalive == 30,
        budget(seconds).pool_idle_timeout == 60,
        REQUEST_TIMEOUT == 120,
{
}

// ── What the data stands for ────────────────────────────────────────────

/// An exchange and its end stand for what is in them.
pub proof fn law_views_keep_every_exchange(
    text: String,
    status: u16,
    body: Json,
    outputs: Vec<AiOutput>,
    usage: Option<AiUsage>,
    error: AiError,
)
    ensures
        Exchange::Unanswered(text)@ == ExchangeView::Unanswered(text@),
        (Exchange::Refused { status, text })@ == (ExchangeView::Refused { status, text: text@ }),
        Exchange::Unreadable(text)@ == ExchangeView::Unreadable(text@),
        Exchange::Answered(body)@ == ExchangeView::Answered(body@),
        reading_view(Ok(outputs)) == Ok::<Seq<AiOutputView>, AiErrorView>(outputs_view(outputs@)),
        reading_view(Err(error)) == Err::<Seq<AiOutputView>, AiErrorView>(error@),
        conclusion_view(Ok((outputs, usage))) == Ok::<
            (Seq<AiOutputView>, Option<AiUsage>),
            AiErrorView,
        >((outputs_view(outputs@), usage)),
        conclusion_view(Err(error)) == Err::<(Seq<AiOutputView>, Option<AiUsage>), AiErrorView>(
            error@,
        ),
{
}

} // verus!
