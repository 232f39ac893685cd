//! The rules of a layer server: its settings, its health document, and the
//! token-gated MCP entrypoint.
//!
//! The host owns the socket, the clock, the environment and the layer's
//! handler. It hands each request to [`mcp`] and does what the answer says: send
//! a reply, or ask the handler for its tools or for a tool's result and build the
//! reply with [`tools_reply`] or [`call_reply`].
use crate::auth::{claims_view, may_verify, reads_as, verified, verify, Claims, ClaimsView};
use crate::json::{
    compact, insert_field, inserted, items_view, lemma_array_view, lemma_object_view, no_fields,
    parse, parsed, to_text, Json, JsonNumber, JsonView,
};
use crate::text::{
    decimal, join, join3, same, strip_prefix, stripped, trim, trimmed, uppercased, write_decimal,
};
use vstd::prelude::*;
use vstd::string::*;
use vstd::utf8::encode_utf8;

verus! {

// ── Settings ────────────────────────────────────────────────────────────

/// Static identity and build metadata of one layer server. The version and the
/// build are those of the server's own binary.
pub struct ServeConfig {
    /// Tool name (`"torii"`, `"satori"`, ...). Also the token audience and the
    /// environment variable prefix.
    pub tool: &'static str,
    pub default_port: u16,
    pub default_version: &'static str,
    pub git_sha: &'static str,
}

/// What a server runs with.
pub struct ServeState {
    pub tool: &'static str,
    pub version: String,
    pub git_sha: &'static str,
    /// The key that tokens are signed with. Without one every call is refused.
    pub platform_secret: Option<Vec<u8>>,
    /// The address that the server listens on.
    pub address: String,
}

/// What a [`ServeState`] stands for.
pub struct ServeStateView {
    pub tool: Seq<char>,
    pub version: Seq<char>,
    pub git_sha: Seq<char>,
    pub platform_secret: Option<Seq<u8>>,
    pub address: Seq<char>,
}

impl View for ServeState {
    type V = ServeStateView;

    open spec fn view(&self) -> ServeStateView {
        ServeStateView {
            tool: self.tool@,
            version: self.version@,
            git_sha: self.git_sha@,
            platform_secret: match self.platform_secret {
                Some(secret) => Some(secret@),
                None => None,
            },
            address: self.address@,
        }
    }
}

/// The name of a tool's environment variable: `{TOOL}_{name}`.
pub fn variable(tool: &str, name: &str) -> (r: String)
    ensures
        r@ == uppercased(tool@) + "_"@ + name@,
{
    join3(tool.to_uppercase().as_str(), "_", name)
}

/// The settings that a configuration and the environment give: the version, the
/// secret and the port from the environment where it has them, and a secret that
/// is empty counting as none. The server is reachable from its own machine only.
pub open spec fn settings(
    config: ServeConfig,
    version: Option<Seq<char>>,
    secret: Option<Seq<char>>,
    port: Option<Seq<char>>,
) -> ServeStateView {
    ServeStateView {
        tool: config.tool@,
        version: crate::ai::text_or(version, config.default_version@),
        git_sha: config.git_sha@,
        platform_secret: match secret {
            Some(s) => if s.len() == 0 {
                None
            } else {
                Some(encode_utf8(s))
            },
            None => None,
        },
        address: "127.0.0.1:"@ + crate::ai::text_or(port, decimal(config.default_port as nat)),
    }
}

impl ServeState {
    /// The settings for the values of `{TOOL}_VERSION`, `{TOOL}_PLATFORM_SECRET`
    /// and `{TOOL}_PORT`.
    pub fn resolve(
        config: ServeConfig,
        version: Option<String>,
        secret: Option<String>,
        port: Option<String>,
    ) -> (r: ServeState)
        ensures
            r@ == settings(
                config,
                crate::ai::text_view(version),
                crate::ai::text_view(secret),
                crate::ai::text_view(port),
            ),
    {
        let version: String = match version {
            Some(v) => v,
            None => config.default_version.to_owned(),
        };
        let platform_secret: Option<Vec<u8>> = match secret {
            Some(s) => if s.as_str().is_empty() {
                None
            } else {
                Some(s.as_str().as_bytes_vec())
            },
            None => None,
        };
        let port: String = match port {
            Some(p) => p,
            None => write_decimal(config.default_port as u64),
        };
        ServeState {
            tool: config.tool,
            version,
            git_sha: config.git_sha,
            platform_secret,
            address: join("127.0.0.1:", port.as_str()),
        }
    }
}

/// Unix-seconds, from the seconds since the epoch; a clock before the epoch
/// counts as the epoch.
pub fn now_secs(since_epoch: Option<u64>) -> (r: i64)
    ensures
        r == (match since_epoch {
            Some(seconds) => seconds as i64,
            None => 0i64,
        }),
{
    match since_epoch {
        Some(seconds) => seconds as i64,
        None => 0,
    }
}

// ── Building documents ──────────────────────────────────────────────────

/// The object with one field.
pub open spec fn object1(k1: Seq<char>, v1: JsonView) -> JsonView {
    JsonView::Object(inserted(Seq::empty(), k1, v1))
}

/// The object with two fields.
pub open spec fn object2(k1: Seq<char>, v1: JsonView, k2: Seq<char>, v2: JsonView) -> JsonView {
    JsonView::Object(inserted(inserted(Seq::empty(), k1, v1), k2, v2))
}

/// The object with three fields.
pub open spec fn object3(
    k1: Seq<char>,
    v1: JsonView,
    k2: Seq<char>,
    v2: JsonView,
    k3: Seq<char>,
    v3: JsonView,
) -> JsonView {
    JsonView::Object(inserted(inserted(inserted(Seq::empty(), k1, v1), k2, v2), k3, v3))
}

/// The object with one field.
fn make1(k1: &str, v1: Json) -> (r: Json)
    ensures
        r@ == object1(k1@, v1@),
{
    broadcast use lemma_object_view;

    let mut fields: Vec<(String, Json)> = no_fields();
    insert_field(&mut fields, k1, v1);
    Json::Object(fields)
}

/// The object with two fields.
fn make2(k1: &str, v1: Json, k2: &str, v2: Json) -> (r: Json)
    ensures
        r@ == object2(k1@, v1@, k2@, v2@),
{
    broadcast use lemma_object_view;

    let mut fields: Vec<(String, Json)> = no_fields();
    insert_field(&mut fields, k1, v1);
    insert_field(&mut fields, k2, v2);
    Json::Object(fields)
}

/// The object with three fields.
fn make3(k1: &str, v1: Json, k2: &str, v2: Json, k3: &str, v3: Json) -> (r: Json)
    ensures
        r@ == object3(k1@, v1@, k2@, v2@, k3@, v3@),
{
    broadcast use lemma_object_view;

    let mut fields: Vec<(String, Json)> = no_fields();
    insert_field(&mut fields, k1, v1);
    insert_field(&mut fields, k2, v2);
    insert_field(&mut fields, k3, v3);
    Json::Object(fields)
}

/// The health document.
pub open spec fn health(state: ServeStateView) -> JsonView {
    let f1 = inserted(Seq::empty(), "service"@, JsonView::Str(state.tool));
    let f2 = inserted(f1, "status"@, JsonView::Str("ok"@));
    let f3 = inserted(f2, "version"@, JsonView::Str(state.version));
    JsonView::Object(inserted(f3, "git_sha"@, JsonView::Str(state.git_sha)))
}

/// The health document.
pub fn healthz(state: &ServeState) -> (r: Json)
    ensures
        r@ == health(state@),
{
    broadcast use lemma_object_view;

    let mut fields: Vec<(String, Json)> = no_fields();
    insert_field(&mut fields, "service", Json::string(state.tool));
    insert_field(&mut fields, "status", Json::string("ok"));
    insert_field(&mut fields, "version", Json::string(state.version.as_str()));
    insert_field(&mut fields, "git_sha", Json::string(state.git_sha));
    Json::Object(fields)
}

// ── JSON-RPC ────────────────────────────────────────────────────────────

/// MCP protocol revision that the server implements.
pub const PROTOCOL_VERSION: &'static str = "2025-06-18";

/// JSON-RPC error code of a call with wrong parameters.
pub const INVALID_PARAMS: i64 = -32602;

/// JSON-RPC error code of an unknown method.
pub const METHOD_NOT_FOUND: i64 = -32601;

/// The method that a tool name stands for: `torii_parse` is `torii.parse`, and
/// anything else passes through unchanged.
pub open spec fn method_for(tool: Seq<char>, name: Seq<char>) -> Seq<char> {
    match stripped(name, tool + "_"@) {
        Some(rest) => tool + "."@ + rest,
        None => name,
    }
}

/// The method that a tool name stands for. Tool names are underscored because
/// MCP clients reject dots; methods are dotted.
pub fn dispatch_method(tool: &str, name: &str) -> (r: String)
    ensures
        r@ == method_for(tool@, name@),
{
    let mark: String = join(tool, "_");
    match strip_prefix(name, mark.as_str()) {
        Some(rest) => join3(tool, ".", rest),
        None => name.to_owned(),
    }
}

/// What is to be done about one JSON-RPC frame.
pub enum RpcStep {
    /// It is a notification: nothing to send back.
    Silent,
    /// Send this reply.
    Reply(Json),
    /// List the handler's tools and reply to `id`.
    ListTools { id: Json },
    /// Dispatch `method` with `arguments` and reply to `id`.
    CallTool { id: Json, method: String, arguments: Json },
}

/// What an [`RpcStep`] stands for.
pub enum RpcStepView {
    Silent,
    Reply(JsonView),
    ListTools { id: JsonView },
    CallTool { id: JsonView, method: Seq<char>, arguments: JsonView },
}

impl View for RpcStep {
    type V = RpcStepView;

    open spec fn view(&self) -> RpcStepView {
        match self {
            RpcStep::Silent => RpcStepView::Silent,
            RpcStep::Reply(reply) => RpcStepView::Reply(reply@),
            RpcStep::ListTools { id } => RpcStepView::ListTools { id: id@ },
            RpcStep::CallTool { id, method, arguments } => RpcStepView::CallTool {
                id: id@,
                method: method@,
                arguments: arguments@,
            },
        }
    }
}

/// A successful reply.
pub open spec fn reply_frame(id: JsonView, result: JsonView) -> JsonView {
    object3("jsonrpc"@, JsonView::Str("2.0"@), "id"@, id, "result"@, result)
}

/// A reply that reports a protocol error.
pub open spec fn error_frame(id: JsonView, code: i64, message: Seq<char>) -> JsonView {
    object3(
        "jsonrpc"@,
        JsonView::Str("2.0"@),
        "id"@,
        id,
        "error"@,
        object2(
            "code"@,
            JsonView::Number(JsonNumber::Negative(code)),
            "message"@,
            JsonView::Str(message),
        ),
    )
}

/// What the server says of itself in the handshake.
pub open spec fn handshake(tool: Seq<char>, version: Seq<char>) -> JsonView {
    object3(
        "protocolVersion"@,
        JsonView::Str(PROTOCOL_VERSION@),
        "capabilities"@,
        object1("tools"@, JsonView::Object(Seq::empty())),
        "serverInfo"@,
        object2("name"@, JsonView::Str(tool), "version"@, JsonView::Str(version)),
    )
}

/// The id of a frame; a null id is none.
pub open spec fn frame_id(req: JsonView) -> Option<JsonView> {
    match req.get("id"@) {
        Some(JsonView::Null) => None,
        other => other,
    }
}

/// The field `key`, or an empty object.
pub open spec fn object_at(value: JsonView, key: Seq<char>) -> JsonView {
    match value.get(key) {
        Some(v) => v,
        None => JsonView::Object(Seq::empty()),
    }
}

/// What is to be done about a tool call.
pub open spec fn call_step(tool: Seq<char>, id: JsonView, params: JsonView) -> RpcStepView {
    match params.text_at("name"@) {
        None => RpcStepView::Reply(error_frame(id, INVALID_PARAMS, "tools/call requires `name`"@)),
        Some(name) => RpcStepView::CallTool {
            id,
            method: method_for(tool, name),
            arguments: object_at(params, "arguments"@),
        },
    }
}

/// What is to be done about one JSON-RPC frame.
pub open spec fn rpc_step(tool: Seq<char>, version: Seq<char>, req: JsonView) -> RpcStepView {
    match frame_id(req) {
        None => RpcStepView::Silent,
        Some(id) => {
            let method = crate::ai::text_or(req.text_at("method"@), ""@);
            if method == "initialize"@ {
                RpcStepView::Reply(reply_frame(id, handshake(tool, version)))
            } else if method == "ping"@ {
                RpcStepView::Reply(reply_frame(id, JsonView::Object(Seq::empty())))
            } else if method == "tools/list"@ {
                RpcStepView::ListTools { id }
            } else if method == "tools/call"@ {
                call_step(tool, id, object_at(req, "params"@))
            } else {
                RpcStepView::Reply(error_frame(id, METHOD_NOT_FOUND, "method not found: "@ + method))
            }
        },
    }
}

/// The reply to `tools/list`.
pub open spec fn tools_frame(id: JsonView, tools: Seq<JsonView>) -> JsonView {
    reply_frame(id, object1("tools"@, JsonView::Array(tools)))
}

/// The reply to `tools/call`: the payload as text and as data, and whether it is
/// the payload of a failure.
pub open spec fn call_frame(id: JsonView, payload: JsonView, is_error: bool) -> JsonView {
    written_call_frame(id, payload, compact(payload), is_error)
}

/// The reply to `tools/call`, with `text` for the text of the payload.
pub open spec fn written_call_frame(
    id: JsonView,
    payload: JsonView,
    text: Seq<char>,
    is_error: bool,
) -> JsonView {
    reply_frame(
        id,
        object3(
            "content"@,
            JsonView::Array(
                seq![
                    object2(
                        "type"@,
                        JsonView::Str("text"@),
                        "text"@,
                        JsonView::Str(text),
                    ),
                ],
            ),
            "structuredContent"@,
            payload,
            "isError"@,
            JsonView::Bool(is_error),
        ),
    )
}

/// Builds a successful reply.
fn reply(id: Json, result: Json) -> (r: Json)
    ensures
        r@ == reply_frame(id@, result@),
{
    make3("jsonrpc", Json::string("2.0"), "id", id, "result", result)
}

/// Builds a reply that reports a protocol error.
fn fail(id: Json, code: i64, message: &str) -> (r: Json)
    ensures
        r@ == error_frame(id@, code, message@),
{
    let error: Json = make2(
        "code",
        Json::Number(JsonNumber::Negative(code)),
        "message",
        Json::string(message),
    );
    make3("jsonrpc", Json::string("2.0"), "id", id, "error", error)
}

/// An empty object.
fn empty_object() -> (r: Json)
    ensures
        r@ == JsonView::Object(Seq::empty()),
{
    broadcast use lemma_object_view;

    Json::Object(no_fields())
}

/// The field `key`, or an empty object.
fn object_field(value: &Json, key: &str) -> (r: Json)
    ensures
        r@ == object_at(value@, key@),
{
    match value.get(key) {
        Some(v) => v.clone(),
        None => empty_object(),
    }
}

/// Handles one JSON-RPC frame. Protocol-level failures come back as JSON-RPC
/// errors, per the protocol; only authentication failures are HTTP errors.
pub fn rpc(tool: &str, version: &str, req: &Json) -> (r: RpcStep)
    ensures
        r@ == rpc_step(tool@, version@, req@),
{
    let id: Json = match req.get("id") {
        Some(Json::Null) => {
            return RpcStep::Silent;
        },
        Some(id) => id.clone(),
        None => {
            return RpcStep::Silent;
        },
    };
    let method: &str = match req.str_at("method") {
        Some(method) => method,
        None => "",
    };
    if same(method, "initialize") {
        let info: Json = make2(
            "name",
            Json::string(tool),
            "version",
            Json::string(version),
        );
        let hello: Json = make3(
            "protocolVersion",
            Json::string(PROTOCOL_VERSION),
            "capabilities",
            make1("tools", empty_object()),
            "serverInfo",
            info,
        );
        RpcStep::Reply(reply(id, hello))
    } else if same(method, "ping") {
        RpcStep::Reply(reply(id, empty_object()))
    } else if same(method, "tools/list") {
        RpcStep::ListTools { id }
    } else if same(method, "tools/call") {
        let params: Json = object_field(req, "params");
        match params.str_at("name") {
            None => RpcStep::Reply(fail(id, INVALID_PARAMS, "tools/call requires `name`")),
            Some(name) => RpcStep::CallTool {
                id,
                method: dispatch_method(tool, name),
                arguments: object_field(&params, "arguments"),
            },
        }
    } else {
        RpcStep::Reply(fail(id, METHOD_NOT_FOUND, join("method not found: ", method).as_str()))
    }
}

/// Builds the reply to `tools/list`.
pub fn tools_reply(id: Json, tools: Vec<Json>) -> (r: Json)
    ensures
        r@ == tools_frame(id@, items_view(tools@)),
{
    broadcast use lemma_array_view;

    reply(id, make1("tools", Json::Array(tools)))
}

/// Builds the reply to `tools/call` from the payload and its text.
pub fn written_call_reply(id: Json, payload: Json, text: String, is_error: bool) -> (r: Json)
    ensures
        r@ == written_call_frame(id@, payload@, text@, is_error),
{
    broadcast use lemma_array_view;

    let part: Json = make2("type", Json::string("text"), "text", Json::Str(text));
    let mut parts: Vec<Json> = Vec::new();
    parts.push(part);
    assert(items_view(parts@) =~= seq![part@]);
    let result: Json = make3(
        "content",
        Json::Array(parts),
        "structuredContent",
        payload,
        "isError",
        Json::Bool(is_error),
    );
    reply(id, result)
}

/// Builds the reply to `tools/call`. A tool that fails is a result marked as an
/// error and no protocol error: the model must see the failure to react to it.
pub fn call_reply(id: Json, outcome: Result<Json, Json>) -> (r: Json)
    ensures
        r@ == (match outcome {
            Ok(payload) => call_frame(id@, payload@, false),
            Err(payload) => call_frame(id@, payload@, true),
        }),
{
    let (payload, is_error): (Json, bool) = match outcome {
        Ok(payload) => (payload, false),
        Err(payload) => (payload, true),
    };
    let text: String = to_text(&payload);
    written_call_reply(id, payload, text, is_error)
}

// ── The entrypoint ──────────────────────────────────────────────────────

/// What is to be done about one HTTP request.
pub enum McpStep {
    /// Send this status, with this document when there is one.
    Send { status: u16, document: Option<Json> },
    /// List the handler's tools, and send [`tools_reply`] with status 200.
    ListTools { id: Json },
    /// Dispatch `method` for `claims`, and send [`call_reply`] with status 200.
    CallTool { claims: Claims, id: Json, method: String, arguments: Json },
}

/// What an [`McpStep`] stands for.
pub enum McpStepView {
    Send { status: u16, document: Option<JsonView> },
    ListTools { id: JsonView },
    CallTool { claims: ClaimsView, id: JsonView, method: Seq<char>, arguments: JsonView },
}

impl View for McpStep {
    type V = McpStepView;

    open spec fn view(&self) -> McpStepView {
        match self {
            McpStep::Send { status, document } => McpStepView::Send {
                status: *status,
                document: match document {
                    Some(d) => Some(d@),
                    None => None,
                },
            },
            McpStep::ListTools { id } => McpStepView::ListTools { id: id@ },
            McpStep::CallTool { claims, id, method, arguments } => McpStepView::CallTool {
                claims: claims@,
                id: id@,
                method: method@,
                arguments: arguments@,
            },
        }
    }
}

/// The token in an authorization header.
pub open spec fn bearer_token(authorization: Option<Seq<char>>) -> Option<Seq<char>> {
    match authorization {
        Some(header) => match stripped(header, "Bearer "@) {
            Some(rest) => Some(trimmed(rest)),
            None => None,
        },
        None => None,
    }
}

/// The answer to a request that is not let in.
pub open spec fn refusal(reason: Seq<char>) -> McpStepView {
    McpStepView::Send {
        status: 401,
        document: Some(object1("error"@, JsonView::Str(reason))),
    }
}

/// The answer to a request that is no JSON-RPC frame.
pub open spec fn bad_request(detail: Seq<char>) -> McpStepView {
    McpStepView::Send {
        status: 400,
        document: Some(
            object2(
                "error"@,
                JsonView::Str("bad_request"@),
                "detail"@,
                JsonView::Str(detail),
            ),
        ),
    }
}

/// What is to be done about a request that was let in, with what was read from
/// its body.
pub open spec fn frame_step(
    state: ServeStateView,
    claims: ClaimsView,
    request: Result<JsonView, Seq<char>>,
) -> McpStepView {
    match request {
        Err(error) => bad_request(error),
        Ok(req) => if req.get("jsonrpc"@) is None {
            bad_request("expected JSON-RPC 2.0 request"@)
        } else {
            match rpc_step(state.tool, state.version, req) {
                RpcStepView::Silent => McpStepView::Send { status: 202, document: None },
                RpcStepView::Reply(reply) => McpStepView::Send {
                    status: 200,
                    document: Some(reply),
                },
                RpcStepView::ListTools { id } => McpStepView::ListTools { id },
                RpcStepView::CallTool { id, method, arguments } => McpStepView::CallTool {
                    claims,
                    id,
                    method,
                    arguments,
                },
            }
        },
    }
}

/// What is to be done about a request whose token verified to `claims`.
pub open spec fn mcp_step(
    state: ServeStateView,
    claims: Option<ClaimsView>,
    request: Result<JsonView, Seq<char>>,
) -> McpStepView {
    match state.platform_secret {
        None => refusal("auth_disabled"@),
        Some(_) => match claims {
            None => refusal("invalid_platform_token"@),
            Some(c) => frame_step(state, c, request),
        },
    }
}

/// The claims that a request carries, with `meaning` saying what claims a payload
/// holds.
pub open spec fn request_claims(
    state: ServeStateView,
    authorization: Option<Seq<char>>,
    now: i64,
    meaning: spec_fn(Seq<u8>) -> Option<ClaimsView>,
) -> Option<ClaimsView> {
    match (state.platform_secret, bearer_token(authorization)) {
        (Some(secret), Some(token)) => verified(secret, state.tool, now, token, meaning),
        _ => None,
    }
}

/// `claims` is what a request may carry when `read` looks at its token.
pub open spec fn may_carry<D: Fn(Vec<u8>) -> Option<Claims>>(
    state: ServeStateView,
    authorization: Option<Seq<char>>,
    now: i64,
    read: D,
    claims: Option<ClaimsView>,
) -> bool {
    match (state.platform_secret, bearer_token(authorization)) {
        (Some(secret), Some(token)) => may_verify(secret, state.tool, now, token, read, claims),
        _ => claims is None,
    }
}

/// What an optional header stands for.
pub open spec fn header_view(header: Option<&str>) -> Option<Seq<char>> {
    match header {
        Some(h) => Some(h@),
        None => None,
    }
}

/// What a request body that was read stands for.
pub open spec fn body_view(request: Result<Json, String>) -> Result<JsonView, Seq<char>> {
    match request {
        Ok(req) => Ok(req@),
        Err(error) => Err(error@),
    }
}

/// Refuses a request.
fn refuse(reason: &str) -> (r: McpStep)
    ensures
        r@ == refusal(reason@),
{
    McpStep::Send { status: 401, document: Some(make1("error", Json::string(reason))) }
}

/// Turns down a request that is no JSON-RPC frame.
fn turn_down(detail: &str) -> (r: McpStep)
    ensures
        r@ == bad_request(detail@),
{
    McpStep::Send {
        status: 400,
        document: Some(
            make2("error", Json::string("bad_request"), "detail", Json::string(detail)),
        ),
    }
}

/// Decides about a request that was let in, with what was read from its body.
/// JSON-RPC 2.0 is the only wire format.
pub fn answer_frame(state: &ServeState, claims: Claims, request: Result<Json, String>) -> (r:
    McpStep)
    ensures
        r@ == frame_step(state@, claims@, body_view(request)),
{
    match request {
        Err(error) => turn_down(error.as_str()),
        Ok(req) => {
            if req.get("jsonrpc").is_none() {
                return turn_down("expected JSON-RPC 2.0 request");
            }
            match rpc(state.tool, state.version.as_str(), &req) {
                RpcStep::Silent => McpStep::Send { status: 202, document: None },
                RpcStep::Reply(reply) => McpStep::Send { status: 200, document: Some(reply) },
                RpcStep::ListTools { id } => McpStep::ListTools { id },
                RpcStep::CallTool { id, method, arguments } => McpStep::CallTool {
                    claims,
                    id,
                    method,
                    arguments,
                },
            }
        },
    }
}

/// Decides about one HTTP request, from its authorization header, the time, and
/// its body. `read` turns the JSON payload of a signed token into claims.
pub fn mcp<D: Fn(Vec<u8>) -> Option<Claims>>(
    state: &ServeState,
    authorization: Option<&str>,
    now: i64,
    body: &[u8],
    read: D,
) -> (r: McpStep)
    requires
        forall|payload: Vec<u8>| call_requires(read, (payload,)),
    ensures
        exists|claims: Option<ClaimsView>| #[trigger]
            may_carry(state@, header_view(authorization), now, read, claims) && r@ == mcp_step(
                state@,
                claims,
                parsed(body@),
            ),
        forall|meaning: spec_fn(Seq<u8>) -> Option<ClaimsView>| #[trigger]
            reads_as(read, meaning) ==> r@ == mcp_step(
                state@,
                request_claims(state@, header_view(authorization), now, meaning),
                parsed(body@),
            ),
{
    let secret: &Vec<u8> = match &state.platform_secret {
        Some(secret) => secret,
        None => {
            assert(may_carry(state@, header_view(authorization), now, read, None));
            return refuse("auth_disabled");
        },
    };
    let token: Option<&str> = match authorization {
        Some(header) => match strip_prefix(header, "Bearer ") {
            Some(rest) => Some(trim(rest)),
            None => None,
        },
        None => None,
    };
    let claims: Option<Claims> = match token {
        Some(token) => verify(secret.as_slice(), state.tool, now, token, read),
        None => None,
    };
    assert(may_carry(state@, header_view(authorization), now, read, claims_view(claims)));
    match claims {
        None => refuse("invalid_platform_token"),
        Some(claims) => answer_frame(state, claims, parse(body)),
    }
}

// ── Laws of the entrypoint ──────────────────────────────────────────────

/// Nothing reaches the handler without a secret and without claims that were
/// verified, and the handler sees those claims.
pub proof fn law_only_verified_requests_reach_the_handler(
    state: ServeStateView,
    claims: Option<ClaimsView>,
    request: Result<JsonView, Seq<char>>,
)
    ensures
        mcp_step(state, claims, request) is ListTools ==> state.platform_secret is Some
            && claims is Some,
        mcp_step(state, claims, request) matches McpStepView::CallTool { claims: seen, .. } ==> {
            &&& state.platform_secret is Some
            &&& claims == Some(seen)
        },
{
}

/// Claims that a request carries are those of a signed token that is meant for
/// this server's tool and is not expired.
pub proof fn law_carried_claims_are_signed_current_and_addressed(
    state: ServeStateView,
    authorization: Option<Seq<char>>,
    now: i64,
    meaning: spec_fn(Seq<u8>) -> Option<ClaimsView>,
)
    ensures
        request_claims(state, authorization, now, meaning) matches Some(c) ==> {
            &&& state.platform_secret is Some
            &&& bearer_token(authorization) is Some
            &&& crate::auth::signed_payload(
                state.platform_secret->0,
                bearer_token(authorization)->0,
            ) is Some
            &&& c.tool == state.tool
            &&& now <= c.exp
        },
{
}

/// A refused request is answered with status 401: `auth_disabled` when the server
/// has no secret, whatever the token, else `invalid_platform_token`.
pub proof fn law_refused_requests_are_answered_401(
    state: ServeStateView,
    claims: Option<ClaimsView>,
    request: Result<JsonView, Seq<char>>,
)
    ensures
        state.platform_secret is None ==> mcp_step(state, claims, request) == refusal(
            "auth_disabled"@,
        ),
        state.platform_secret is Some && claims is None ==> mcp_step(state, claims, request)
            == refusal("invalid_platform_token"@),
        mcp_step(state, claims, request) matches McpStepView::Send { status, .. } ==> (status == 401
            <==> state.platform_secret is None || claims is None),
{
}

/// The server is reachable from its own machine only, whatever the configuration
/// and the environment say.
pub proof fn law_the_server_listens_on_localhost(
    config: ServeConfig,
    version: Option<Seq<char>>,
    secret: Option<Seq<char>>,
    port: Option<Seq<char>>,
)
    ensures
        stripped(settings(config, version, secret, port).address, "127.0.0.1:"@) == Some(
            crate::ai::text_or(port, decimal(config.default_port as nat)),
        ),
{
    crate::text::law_strip_undoes_prepend(
        "127.0.0.1:"@,
        crate::ai::text_or(port, decimal(config.default_port as nat)),
    );
}

/// A server whose secret is unset or empty refuses every request.
pub proof fn law_without_a_secret_every_request_is_refused(
    config: ServeConfig,
    version: Option<Seq<char>>,
    secret: Option<Seq<char>>,
    port: Option<Seq<char>>,
    claims: Option<ClaimsView>,
    request: Result<JsonView, Seq<char>>,
)
    requires
        secret is None || secret == Some(Seq::<char>::empty()),
    ensures
        mcp_step(settings(config, version, secret, port), claims, request) == refusal(
            "auth_disabled"@,
        ),
{
}

/// Only authentication failures and bodies that are no JSON-RPC frame are HTTP
/// errors: a frame that was let in is answered with status 200, or with status 202
/// and no document when it is a notification, whatever is wrong with its method.
pub proof fn law_protocol_failures_are_no_http_errors(
    state: ServeStateView,
    claims: ClaimsView,
    req: JsonView,
)
    requires
        req.get("jsonrpc"@) is Some,
    ensures
        frame_step(state, claims, Ok(req)) matches McpStepView::Send { status, document } ==> if frame_id(
            req,
        ) is None {
            status == 202 && document is None
        } else {
            status == 200 && document is Some
        },
        frame_id(req) is None ==> frame_step(state, claims, Ok(req)) is Send,
{
}

/// A frame without an id, or with a null one, is a notification and is answered by
/// nothing; any other frame is answered.
pub proof fn law_only_notifications_go_unanswered(
    tool: Seq<char>,
    version: Seq<char>,
    req: JsonView,
)
    ensures
        rpc_step(tool, version, req) is Silent <==> req.get("id"@) is None || req.get("id"@)
            == Some(JsonView::Null),
{
}

/// What three fields of an object hold.
proof fn lemma_object3(
    k1: Seq<char>,
    v1: JsonView,
    k2: Seq<char>,
    v2: JsonView,
    k3: Seq<char>,
    v3: JsonView,
    key: Seq<char>,
)
    ensures
        object3(k1, v1, k2, v2, k3, v3).get(key) == (if key == k3 {
            Some(v3)
        } else if key == k2 {
            Some(v2)
        } else if key == k1 {
            Some(v1)
        } else {
            None
        }),
{
    let f0 = Seq::<(Seq<char>, JsonView)>::empty();
    let f1 = inserted(f0, k1, v1);
    let f2 = inserted(f1, k2, v2);
    crate::json::law_lookup_after_insert(f0, k1, v1, key);
    crate::json::law_lookup_after_insert(f1, k2, v2, key);
    crate::json::law_lookup_after_insert(f2, k3, v3, key);
}

/// A JSON-RPC reply to `id`: the version, the id, and either a result or an error.
pub open spec fn replies_to(frame: JsonView, id: JsonView) -> bool {
    &&& frame.get("jsonrpc"@) == Some(JsonView::Str("2.0"@))
    &&& frame.get("id"@) == Some(id)
    &&& frame.get("result"@) is Some <==> frame.get("error"@) is None
}

/// Successful replies and error replies carry the version and the id, and one of
/// result and error.
proof fn lemma_frames_reply(id: JsonView, result: JsonView, code: i64, message: Seq<char>)
    ensures
        replies_to(reply_frame(id, result), id),
        reply_frame(id, result).get("result"@) == Some(result),
        replies_to(error_frame(id, code, message), id),
{
    reveal_strlit("jsonrpc");
    reveal_strlit("id");
    reveal_strlit("result");
    reveal_strlit("error");
    assert("jsonrpc"@.len() == 7 && "id"@.len() == 2 && "result"@.len() == 6 && "error"@.len()
        == 5);
    let version = JsonView::Str("2.0"@);
    let error = object2(
        "code"@,
        JsonView::Number(JsonNumber::Negative(code)),
        "message"@,
        JsonView::Str(message),
    );
    lemma_object3("jsonrpc"@, version, "id"@, id, "result"@, result, "jsonrpc"@);
    lemma_object3("jsonrpc"@, version, "id"@, id, "result"@, result, "id"@);
    lemma_object3("jsonrpc"@, version, "id"@, id, "result"@, result, "result"@);
    lemma_object3("jsonrpc"@, version, "id"@, id, "result"@, result, "error"@);
    lemma_object3("jsonrpc"@, version, "id"@, id, "error"@, error, "jsonrpc"@);
    lemma_object3("jsonrpc"@, version, "id"@, id, "error"@, error, "id"@);
    lemma_object3("jsonrpc"@, version, "id"@, id, "error"@, error, "result"@);
    lemma_object3("jsonrpc"@, version, "id"@, id, "error"@, error, "error"@);
}

/// Whatever is answered to a frame, now or after asking the handler, is a JSON-RPC
/// reply to the id of that frame.
pub proof fn law_replies_carry_the_id_of_the_frame(
    tool: Seq<char>,
    version: Seq<char>,
    req: JsonView,
    tools: Seq<JsonView>,
    payload: JsonView,
    is_error: bool,
)
    ensures
        match rpc_step(tool, version, req) {
            RpcStepView::Silent => frame_id(req) is None,
            RpcStepView::Reply(frame) => frame_id(req) is Some && replies_to(
                frame,
                frame_id(req)->0,
            ),
            RpcStepView::ListTools { id } => frame_id(req) == Some(id) && replies_to(
                tools_frame(id, tools),
                id,
            ),
            RpcStepView::CallTool { id, .. } => frame_id(req) == Some(id) && replies_to(
                call_frame(id, payload, is_error),
                id,
            ),
        },
{
    match frame_id(req) {
        None => {},
        Some(id) => {
            let method = crate::ai::text_or(req.text_at("method"@), ""@);
            lemma_frames_reply(
                id,
                handshake(tool, version),
                INVALID_PARAMS,
                "tools/call requires `name`"@,
            );
            lemma_frames_reply(
                id,
                JsonView::Object(Seq::empty()),
                METHOD_NOT_FOUND,
                "method not found: "@ + method,
            );
            lemma_frames_reply(
                id,
                object1("tools"@, JsonView::Array(tools)),
                METHOD_NOT_FOUND,
                ""@,
            );
            lemma_frames_reply(
                id,
                call_frame(id, payload, is_error).get("result"@)->0,
                METHOD_NOT_FOUND,
                ""@,
            );
            lemma_call_frame(id, payload, is_error);
        },
    }
}

/// What a reply to `tools/call` holds.
proof fn lemma_call_frame(id: JsonView, payload: JsonView, is_error: bool)
    ensures
        replies_to(call_frame(id, payload, is_error), id),
        call_frame(id, payload, is_error).get("result"@) is Some,
        call_frame(id, payload, is_error).get("result"@)->0.get("structuredContent"@) == Some(
            payload,
        ),
        call_frame(id, payload, is_error).get("result"@)->0.get("isError"@) == Some(
            JsonView::Bool(is_error),
        ),
{
    let content = JsonView::Array(
        seq![
            object2(
                "type"@,
                JsonView::Str("text"@),
                "text"@,
                JsonView::Str(compact(payload)),
            ),
        ],
    );
    let flag = JsonView::Bool(is_error);
    let result = object3("content"@, content, "structuredContent"@, payload, "isError"@, flag);
    lemma_frames_reply(id, result, METHOD_NOT_FOUND, ""@);
    reveal_strlit("content");
    reveal_strlit("structuredContent");
    reveal_strlit("isError");
    assert("content"@.len() == 7 && "structuredContent"@.len() == 17 && "isError"@.len() == 7
        && "isError"@[0] == 'i' && "content"@[0] == 'c');
    lemma_object3(
        "content"@,
        content,
        "structuredContent"@,
        payload,
        "isError"@,
        flag,
        "structuredContent"@,
    );
    lemma_object3(
        "content"@,
        content,
        "structuredContent"@,
        payload,
        "isError"@,
        flag,
        "isError"@,
    );
}

/// A failing tool is a result that is marked as an error, with what the tool said,
/// and no protocol error; a tool that succeeds is a result that is not marked.
pub proof fn law_tool_failures_are_results(id: JsonView, payload: JsonView, is_error: bool)
    ensures
        call_frame(id, payload, is_error).get("error"@) is None,
        call_frame(id, payload, is_error).get("result"@) is Some,
        call_frame(id, payload, is_error).get("result"@)->0.get("isError"@) == Some(
            JsonView::Bool(is_error),
        ),
        call_frame(id, payload, is_error).get("result"@)->0.get("structuredContent"@) == Some(
            payload,
        ),
{
    lemma_call_frame(id, payload, is_error);
}

/// Objects with well-formed fields are well formed.
proof fn lemma_objects_are_well_formed(
    k1: Seq<char>,
    v1: JsonView,
    k2: Seq<char>,
    v2: JsonView,
    k3: Seq<char>,
    v3: JsonView,
)
    requires
        v1.well_formed(),
        v2.well_formed(),
        v3.well_formed(),
    ensures
        object1(k1, v1).well_formed(),
        object2(k1, v1, k2, v2).well_formed(),
        object3(k1, v1, k2, v2, k3, v3).well_formed(),
{
    let f0 = Seq::<(Seq<char>, JsonView)>::empty();
    let f1 = inserted(f0, k1, v1);
    let f2 = inserted(f1, k2, v2);
    crate::json::law_insert_keeps_well_formed(f0, k1, v1);
    crate::json::law_insert_keeps_well_formed(f1, k2, v2);
    crate::json::law_insert_keeps_well_formed(f2, k3, v3);
}

/// A successful reply with a well-formed id and result is well formed, and so is an
/// error reply with a negative code.
proof fn lemma_frames_are_well_formed(
    id: JsonView,
    result: JsonView,
    code: i64,
    message: Seq<char>,
)
    requires
        id.well_formed(),
        result.well_formed(),
        code < 0,
    ensures
        reply_frame(id, result).well_formed(),
        error_frame(id, code, message).well_formed(),
{
    let version = JsonView::Str("2.0"@);
    let number = JsonView::Number(JsonNumber::Negative(code));
    let text = JsonView::Str(message);
    let error = object2("code"@, number, "message"@, text);
    lemma_objects_are_well_formed("code"@, number, "message"@, text, ""@, JsonView::Null);
    lemma_objects_are_well_formed("jsonrpc"@, version, "id"@, id, "result"@, result);
    lemma_objects_are_well_formed("jsonrpc"@, version, "id"@, id, "error"@, error);
}

/// A well-formed frame is answered by well-formed frames, whatever well-formed tools
/// and payload the handler comes up with, and hands the handler well-formed
/// arguments.
pub proof fn law_replies_are_well_formed(
    tool: Seq<char>,
    version: Seq<char>,
    req: JsonView,
    tools: Seq<JsonView>,
    payload: JsonView,
    is_error: bool,
)
    requires
        req.well_formed(),
        forall|i: int| 0 <= i < tools.len() ==> (#[trigger] tools[i]).well_formed(),
        payload.well_formed(),
    ensures
        match rpc_step(tool, version, req) {
            RpcStepView::Silent => true,
            RpcStepView::Reply(frame) => frame.well_formed(),
            RpcStepView::ListTools { id } => tools_frame(id, tools).well_formed(),
            RpcStepView::CallTool { id, method, arguments } => arguments.well_formed()
                && call_frame(id, payload, is_error).well_formed(),
        },
{
    let none = JsonView::Object(Seq::empty());
    assert(none.well_formed());
    crate::json::law_fields_are_well_formed(req, "id"@);
    crate::json::law_fields_are_well_formed(req, "params"@);
    crate::json::law_fields_are_well_formed(object_at(req, "params"@), "arguments"@);
    match frame_id(req) {
        None => {},
        Some(id) => {
            let method = crate::ai::text_or(req.text_at("method"@), ""@);
            let name = JsonView::Str(tool);
            let release = JsonView::Str(version);
            let info = object2("name"@, name, "version"@, release);
            lemma_objects_are_well_formed("name"@, name, "version"@, release, ""@, none);
            let abilities = object1("tools"@, none);
            lemma_objects_are_well_formed("tools"@, none, ""@, none, ""@, none);
            let revision = JsonView::Str(PROTOCOL_VERSION@);
            lemma_objects_are_well_formed(
                "protocolVersion"@,
                revision,
                "capabilities"@,
                abilities,
                "serverInfo"@,
                info,
            );
            lemma_frames_are_well_formed(
                id,
                handshake(tool, version),
                INVALID_PARAMS,
                "tools/call requires `name`"@,
            );
            lemma_frames_are_well_formed(
                id,
                none,
                METHOD_NOT_FOUND,
                "method not found: "@ + method,
            );
            let list = JsonView::Array(tools);
            lemma_objects_are_well_formed("tools"@, list, ""@, none, ""@, none);
            lemma_frames_are_well_formed(id, object1("tools"@, list), METHOD_NOT_FOUND, ""@);
            let kind = JsonView::Str("text"@);
            let text = JsonView::Str(compact(payload));
            let part = object2("type"@, kind, "text"@, text);
            lemma_objects_are_well_formed("type"@, kind, "text"@, text, ""@, none);
            let content = JsonView::Array(seq![part]);
            assert(content.well_formed());
            let flag = JsonView::Bool(is_error);
            lemma_objects_are_well_formed(
                "content"@,
                content,
                "structuredContent"@,
                payload,
                "isError"@,
                flag,
            );
            lemma_frames_are_well_formed(
                id,
                object3("content"@, content, "structuredContent"@, payload, "isError"@, flag),
                METHOD_NOT_FOUND,
                ""@,
            );
        },
    }
}

/// An underscored tool name reaches the dotted method of the same rest, and a name
/// of another tool stays as it is.
pub proof fn law_tool_names_reach_their_methods(tool: Seq<char>, rest: Seq<char>, name: Seq<char>)
    ensures
        method_for(tool, tool + "_"@ + rest) == tool + "."@ + rest,
        stripped(name, tool + "_"@) is None ==> method_for(tool, name) == name,
{
    crate::text::law_strip_undoes_prepend(tool + "_"@, rest);
}

// ── Documents, field by field ───────────────────────────────────────────

/// What one or two fields of an object hold.
proof fn lemma_object2(k1: Seq<char>, v1: JsonView, k2: Seq<char>, v2: JsonView, key: Seq<char>)
    ensures
        object1(k1, v1).get(key) == (if key == k1 {
            Some(v1)
        } else {
            None
        }),
        object2(k1, v1, k2, v2).get(key) == (if key == k2 {
            Some(v2)
        } else if key == k1 {
            Some(v1)
        } else {
            None
        }),
{
    let f0 = Seq::<(Seq<char>, JsonView)>::empty();
    let f1 = inserted(f0, k1, v1);
    crate::json::law_lookup_after_insert(f0, k1, v1, key);
    crate::json::law_lookup_after_insert(f1, k2, v2, key);
}

/// The settings of a server: its tool and its build are those of its binary, its version
/// is the one of the environment or that of the binary, and its secret is the bytes of
/// the one in the environment, unless that is absent or empty.
pub proof fn law_settings_field_by_field(
    config: ServeConfig,
    version: Option<Seq<char>>,
    secret: Option<Seq<char>>,
    port: Option<Seq<char>>,
)
    ensures
        ({
            let state = settings(config, version, secret, port);
            &&& state.tool == config.tool@
            &&& state.git_sha == config.git_sha@
            &&& version is Some ==> Some(state.version) == version
            &&& version is None ==> state.version == config.default_version@
            &&& state.platform_secret is Some <==> secret is Some && secret->0.len() > 0
            &&& state.platform_secret is Some ==> state.platform_secret->0 == encode_utf8(secret->0)
            &&& port is Some ==> state.address == "127.0.0.1:"@ + port->0
            &&& port is None ==> state.address == "127.0.0.1:"@ + decimal(
                config.default_port as nat,
            )
        }),
{
}

/// The health document says which service it is, that it is well, and its version and
/// build, and nothing else.
pub proof fn law_the_health_document_field_by_field(state: ServeStateView, key: Seq<char>)
    ensures
        health(state) is Object,
        health(state).get("service"@) == Some(JsonView::Str(state.tool)),
        health(state).get("status"@) == Some(JsonView::Str("ok"@)),
        health(state).get("version"@) == Some(JsonView::Str(state.version)),
        health(state).get("git_sha"@) == Some(JsonView::Str(state.git_sha)),
        health(state).get(key) is Some ==> key == "service"@ || key == "status"@ || key
            == "version"@ || key == "git_sha"@,
{
    reveal_strlit("service");
    reveal_strlit("status");
    reveal_strlit("version");
    reveal_strlit("git_sha");
    assert("service"@[0] == 's' && "version"@[0] == 'v' && "git_sha"@[0] == 'g' && "status"@[0]
        == 's' && "service"@.len() == 7 && "status"@.len() == 6);
    lemma_health_field(state, key);
    lemma_health_field(state, "service"@);
    lemma_health_field(state, "status"@);
    lemma_health_field(state, "version"@);
    lemma_health_field(state, "git_sha"@);
}

/// One field of the health document.
proof fn lemma_health_field(state: ServeStateView, key: Seq<char>)
    ensures
        health(state).get(key) == (if key == "git_sha"@ {
            Some(JsonView::Str(state.git_sha))
        } else if key == "version"@ {
            Some(JsonView::Str(state.version))
        } else if key == "status"@ {
            Some(JsonView::Str("ok"@))
        } else if key == "service"@ {
            Some(JsonView::Str(state.tool))
        } else {
            None
        }),
{
    let f0 = Seq::<(Seq<char>, JsonView)>::empty();
    let service = JsonView::Str(state.tool);
    let status = JsonView::Str("ok"@);
    let version = JsonView::Str(state.version);
    let f1 = inserted(f0, "service"@, service);
    let f2 = inserted(f1, "status"@, status);
    let f3 = inserted(f2, "version"@, version);
    crate::json::law_lookup_after_insert(f0, "service"@, service, key);
    crate::json::law_lookup_after_insert(f1, "status"@, status, key);
    crate::json::law_lookup_after_insert(f2, "version"@, version, key);
    crate::json::law_lookup_after_insert(f3, "git_sha"@, JsonView::Str(state.git_sha), key);
}

/// A successful reply has the version, the id and the result, and nothing else.
pub proof fn law_replies_field_by_field(id: JsonView, result: JsonView, key: Seq<char>)
    ensures
        reply_frame(id, result) is Object,
        reply_frame(id, result).get("jsonrpc"@) == Some(JsonView::Str("2.0"@)),
        reply_frame(id, result).get("id"@) == Some(id),
        reply_frame(id, result).get("result"@) == Some(result),
        reply_frame(id, result).get(key) is Some ==> key == "jsonrpc"@ || key == "id"@ || key
            == "result"@,
{
    lemma_frames_reply(id, result, METHOD_NOT_FOUND, ""@);
    lemma_object3("jsonrpc"@, JsonView::Str("2.0"@), "id"@, id, "result"@, result, key);
}

/// An error reply has the version, the id and the error, and nothing else; the error has
/// the code and the message, and nothing else.
pub proof fn law_error_replies_field_by_field(
    id: JsonView,
    code: i64,
    message: Seq<char>,
    key: Seq<char>,
)
    ensures
        ({
            let frame = error_frame(id, code, message);
            let error = frame.get("error"@);
            &&& frame is Object
            &&& frame.get("jsonrpc"@) == Some(JsonView::Str("2.0"@))
            &&& frame.get("id"@) == Some(id)
            &&& frame.get(key) is Some ==> key == "jsonrpc"@ || key == "id"@ || key == "error"@
            &&& error is Some && error->0 is Object
            &&& error->0.get("code"@) == Some(JsonView::Number(JsonNumber::Negative(code)))
            &&& error->0.get("message"@) == Some(JsonView::Str(message))
            &&& error->0.get(key) is Some ==> key == "code"@ || key == "message"@
        }),
        INVALID_PARAMS == -32602,
        METHOD_NOT_FOUND == -32601,
{
    reveal_strlit("jsonrpc");
    reveal_strlit("id");
    reveal_strlit("error");
    reveal_strlit("code");
    reveal_strlit("message");
    assert("jsonrpc"@.len() == 7 && "id"@.len() == 2 && "error"@.len() == 5 && "code"@.len() == 4
        && "message"@.len() == 7);
    let version = JsonView::Str("2.0"@);
    let number = JsonView::Number(JsonNumber::Negative(code));
    let text = JsonView::Str(message);
    let error = object2("code"@, number, "message"@, text);
    lemma_object3("jsonrpc"@, version, "id"@, id, "error"@, error, "jsonrpc"@);
    lemma_object3("jsonrpc"@, version, "id"@, id, "error"@, error, "id"@);
    lemma_object3("jsonrpc"@, version, "id"@, id, "error"@, error, "error"@);
    lemma_object3("jsonrpc"@, version, "id"@, id, "error"@, error, key);
    lemma_object2("code"@, number, "message"@, text, "code"@);
    lemma_object2("code"@, number, "message"@, text, "message"@);
    lemma_object2("code"@, number, "message"@, text, key);
}

/// In the handshake the server says the revision that it implements, that it has tools,
/// and its name and version, and nothing else.
pub proof fn law_the_handshake_field_by_field(
    tool: Seq<char>,
    version: Seq<char>,
    key: Seq<char>,
)
    ensures
        ({
            let hello = handshake(tool, version);
            let abilities = hello.get("capabilities"@);
            let info = hello.get("serverInfo"@);
            &&& hello is Object
            &&& hello.get("protocolVersion"@) == Some(JsonView::Str("2025-06-18"@))
            &&& hello.get(key) is Some ==> key == "protocolVersion"@ || key == "capabilities"@ || key
                == "serverInfo"@
            &&& abilities is Some && abilities->0 is Object
            &&& abilities->0.get("tools"@) == Some(JsonView::Object(Seq::empty()))
            &&& abilities->0.get(key) is Some ==> key == "tools"@
            &&& info is Some && info->0 is Object
            &&& info->0.get("name"@) == Some(JsonView::Str(tool))
            &&& info->0.get("version"@) == Some(JsonView::Str(version))
            &&& info->0.get(key) is Some ==> key == "name"@ || key == "version"@
        }),
{
    reveal_strlit("protocolVersion");
    reveal_strlit("capabilities");
    reveal_strlit("serverInfo");
    reveal_strlit("name");
    reveal_strlit("version");
    assert("protocolVersion"@.len() == 15 && "capabilities"@.len() == 12 && "serverInfo"@.len() == 10
        && "name"@.len() == 4 && "version"@.len() == 7);
    let revision = JsonView::Str(PROTOCOL_VERSION@);
    let none = JsonView::Object(Seq::empty());
    let abilities = object1("tools"@, none);
    let name = JsonView::Str(tool);
    let release = JsonView::Str(version);
    let info = object2("name"@, name, "version"@, release);
    lemma_object3("protocolVersion"@, revision, "capabilities"@, abilities, "serverInfo"@, info, key);
    lemma_object3(
        "protocolVersion"@,
        revision,
        "capabilities"@,
        abilities,
        "serverInfo"@,
        info,
        "protocolVersion"@,
    );
    lemma_object3(
        "protocolVersion"@,
        revision,
        "capabilities"@,
        abilities,
        "serverInfo"@,
        info,
        "capabilities"@,
    );
    lemma_object3(
        "protocolVersion"@,
        revision,
        "capabilities"@,
        abilities,
        "serverInfo"@,
        info,
        "serverInfo"@,
    );
    lemma_object2("tools"@, none, "name"@, name, "tools"@);
    lemma_object2("tools"@, none, "name"@, name, key);
    lemma_object2("name"@, name, "version"@, release, "name"@);
    lemma_object2("name"@, name, "version"@, release, "version"@);
    lemma_object2("name"@, name, "version"@, release, key);
}

/// The reply to `tools/list` is a successful one, and its result has all the tools of the
/// handler, in order, and nothing else.
pub proof fn law_the_list_holds_every_tool(id: JsonView, tools: Seq<JsonView>, key: Seq<char>)
    ensures
        ({
            let result = tools_frame(id, tools).get("result"@)->0;
            &&& tools_frame(id, tools) == reply_frame(id, result)
            &&& result is Object
            &&& result.get("tools"@) == Some(JsonView::Array(tools))
            &&& result.get(key) is Some ==> key == "tools"@
        }),
{
    let list = JsonView::Array(tools);
    law_replies_field_by_field(id, object1("tools"@, list), key);
    lemma_object2("tools"@, list, ""@, list, "tools"@);
    lemma_object2("tools"@, list, ""@, list, key);
}

/// The reply to `tools/call` is a successful one. Its result has the payload as data, one
/// part of text, which is the JSON text of the payload unless another one was given, and the
/// mark of a failure, and nothing else.
pub proof fn law_call_results_field_by_field(
    id: JsonView,
    payload: JsonView,
    text: Seq<char>,
    is_error: bool,
    key: Seq<char>,
)
    ensures
        ({
            let frame = written_call_frame(id, payload, text, is_error);
            let result = frame.get("result"@)->0;
            let content = result.get("content"@);
            &&& frame == reply_frame(id, result)
            &&& result is Object
            &&& result.get("structuredContent"@) == Some(payload)
            &&& result.get("isError"@) == Some(JsonView::Bool(is_error))
            &&& result.get(key) is Some ==> key == "content"@ || key == "structuredContent"@ || key
                == "isError"@
            &&& content is Some && content->0 is Array && content->0->Array_0.len() == 1
            &&& ({
                let part = content->0->Array_0[0];
                &&& part is Object
                &&& part.get("type"@) == Some(JsonView::Str("text"@))
                &&& part.get("text"@) == Some(JsonView::Str(text))
                &&& part.get(key) is Some ==> key == "type"@ || key == "text"@
            })
        }),
        written_call_frame(id, payload, compact(payload), is_error) == call_frame(
            id,
            payload,
            is_error,
        ),
{
    reveal_strlit("content");
    reveal_strlit("structuredContent");
    reveal_strlit("isError");
    reveal_strlit("type");
    reveal_strlit("text");
    assert("content"@.len() == 7 && "structuredContent"@.len() == 17 && "isError"@.len() == 7
        && "isError"@[0] == 'i' && "content"@[0] == 'c');
    assert("type"@[1] == 'y' && "text"@[1] == 'e');
    let kind = JsonView::Str("text"@);
    let text = JsonView::Str(text);
    let part = object2("type"@, kind, "text"@, text);
    let content = JsonView::Array(seq![part]);
    let flag = JsonView::Bool(is_error);
    let result = object3("content"@, content, "structuredContent"@, payload, "isError"@, flag);
    law_replies_field_by_field(id, result, key);
    lemma_object3(
        "content"@,
        content,
        "structuredContent"@,
        payload,
        "isError"@,
        flag,
        "structuredContent"@,
    );
    lemma_object3("content"@, content, "structuredContent"@, payload, "isError"@, flag, "isError"@);
    lemma_object3("content"@, content, "structuredContent"@, payload, "isError"@, flag, "content"@);
    lemma_object3("content"@, content, "structuredContent"@, payload, "isError"@, flag, key);
    lemma_object2("type"@, kind, "text"@, text, "type"@);
    lemma_object2("type"@, kind, "text"@, text, "text"@);
    lemma_object2("type"@, kind, "text"@, text, key);
}

// ── Frames, method by method ────────────────────────────────────────────

/// What a frame with an id comes to, by its method: the handshake, an empty result, the
/// list of tools, a tool call, or the error of an unknown method that names it.
pub proof fn law_frames_by_method(tool: Seq<char>, version: Seq<char>, req: JsonView)
    requires
        req.get("id"@) is Some,
        req.get("id"@) != Some(JsonView::Null),
    ensures
        ({
            let id = req.get("id"@)->0;
            let step = rpc_step(tool, version, req);
            let method = req.get("method"@);
            if method == Some(JsonView::Str("initialize"@)) {
                step == RpcStepView::Reply(reply_frame(id, handshake(tool, version)))
            } else if method == Some(JsonView::Str("ping"@)) {
                step == RpcStepView::Reply(reply_frame(id, JsonView::Object(Seq::empty())))
            } else if method == Some(JsonView::Str("tools/list"@)) {
                step == (RpcStepView::ListTools { id })
            } else if method == Some(JsonView::Str("tools/call"@)) {
                step is CallTool || step == RpcStepView::Reply(
                    error_frame(id, INVALID_PARAMS, "tools/call requires `name`"@),
                )
            } else {
                let name = match method {
                    Some(JsonView::Str(name)) => name,
                    _ => ""@,
                };
                step == RpcStepView::Reply(
                    error_frame(id, METHOD_NOT_FOUND, "method not found: "@ + name),
                )
            }
        }),
{
    reveal_strlit("initialize");
    reveal_strlit("ping");
    reveal_strlit("tools/list");
    reveal_strlit("tools/call");
    reveal_strlit("");
    assert("initialize"@.len() == 10 && "ping"@.len() == 4 && "tools/list"@.len() == 10
        && "tools/call"@.len() == 10 && ""@.len() == 0);
    assert("initialize"@[0] == 'i' && "tools/list"@[0] == 't' && "tools/list"@[6] == 'l'
        && "tools/call"@[6] == 'c');
}

/// A tool call reaches the handler: the name of a tool of this server, underscored,
/// reaches the dotted method of the same rest, any other name reaches the method of that
/// name, both with or without arguments; the handler sees the arguments of the call, or
/// the empty object when it has none. A call without a name is answered with an error.
pub proof fn law_tool_calls_reach_the_handler(
    tool: Seq<char>,
    version: Seq<char>,
    req: JsonView,
    rest: Seq<char>,
)
    requires
        req.get("id"@) is Some,
        req.get("id"@) != Some(JsonView::Null),
        req.get("method"@) == Some(JsonView::Str("tools/call"@)),
    ensures
        ({
            let id = req.get("id"@)->0;
            let step = rpc_step(tool, version, req);
            let params = req.get("params"@);
            let name = match params {
                Some(p) => p.text_at("name"@),
                None => None,
            };
            let arguments = match params {
                Some(p) => p.get("arguments"@),
                None => None,
            };
            &&& name is None ==> step == RpcStepView::Reply(
                error_frame(id, INVALID_PARAMS, "tools/call requires `name`"@),
            )
            &&& name is Some ==> {
                &&& step is CallTool
                &&& step->CallTool_id == id
                &&& arguments is Some ==> Some(step->CallTool_arguments) == arguments
                &&& arguments is None ==> step->CallTool_arguments == JsonView::Object(Seq::empty())
            }
            &&& name == Some(tool + "_"@ + rest) ==> step->CallTool_method == tool + "."@ + rest
            &&& name is Some && (forall|r: Seq<char>| name->0 != #[trigger] (tool + "_"@ + r))
                ==> step->CallTool_method == name->0
        }),
{
    reveal_strlit("initialize");
    reveal_strlit("ping");
    reveal_strlit("tools/list");
    reveal_strlit("tools/call");
    assert("initialize"@.len() == 10 && "ping"@.len() == 4 && "tools/list"@.len() == 10
        && "tools/call"@.len() == 10);
    assert("initialize"@[0] == 'i' && "tools/list"@[0] == 't' && "tools/list"@[6] == 'l'
        && "tools/call"@[0] == 't' && "tools/call"@[6] == 'c');
    law_tool_names_reach_their_methods(tool, rest, ""@);
    let params = object_at(req, "params"@);
    assert(JsonView::Object(Seq::empty()).get("name"@) is None);
    match params.text_at("name"@) {
        Some(name) => {
            crate::text::law_strip_finds_every_prefix(name, tool + "_"@);
            if stripped(name, tool + "_"@) is Some {
                let r = stripped(name, tool + "_"@)->0;
                assert(name == tool + "_"@ + r);
            }
        },
        None => {},
    }
}

// ── Requests, step by step ──────────────────────────────────────────────

/// The token of a request is what stands behind `Bearer ` in its header, without the
/// white space around it; a request without a header, or with another one, has none.
pub proof fn law_bearer_tokens(header: Seq<char>, rest: Seq<char>)
    ensures
        bearer_token(Some("Bearer "@ + rest)) == Some(trimmed(rest)),
        (forall|r: Seq<char>| header != #[trigger] ("Bearer "@ + r)) ==> bearer_token(Some(header))
            is None,
        bearer_token(None) is None,
{
    crate::text::law_strip_undoes_prepend("Bearer "@, rest);
    crate::text::law_strip_finds_every_prefix(header, "Bearer "@);
    if stripped(header, "Bearer "@) is Some {
        assert(header == "Bearer "@ + stripped(header, "Bearer "@)->0);
    }
}

/// A refusal is an answer with status 401 and a document that holds its reason, and
/// nothing else; a request that is no frame is answered with status 400 and a document
/// that says so and why, and nothing else.
pub proof fn law_refusals_say_why(reason: Seq<char>, key: Seq<char>)
    ensures
        ({
            let refused = refusal(reason);
            &&& refused is Send && refused->status == 401 && refused->document is Some
            &&& ({
                let document = refused->document->0;
                &&& document is Object
                &&& document.get("error"@) == Some(JsonView::Str(reason))
                &&& document.get(key) is Some ==> key == "error"@
            })
        }),
        ({
            let turned = bad_request(reason);
            &&& turned is Send && turned->status == 400 && turned->document is Some
            &&& ({
                let document = turned->document->0;
                &&& document is Object
                &&& document.get("error"@) == Some(JsonView::Str("bad_request"@))
                &&& document.get("detail"@) == Some(JsonView::Str(reason))
                &&& document.get(key) is Some ==> key == "error"@ || key == "detail"@
            })
        }),
{
    reveal_strlit("error");
    reveal_strlit("detail");
    assert("error"@.len() == 5 && "detail"@.len() == 6);
    let text = JsonView::Str(reason);
    let bad = JsonView::Str("bad_request"@);
    lemma_object2("error"@, text, "detail"@, text, "error"@);
    lemma_object2("error"@, text, "detail"@, text, key);
    lemma_object2("error"@, bad, "detail"@, text, "error"@);
    lemma_object2("error"@, bad, "detail"@, text, "detail"@);
    lemma_object2("error"@, bad, "detail"@, text, key);
}

/// What comes of a request that was let in: one that is no JSON is turned down with what
/// is wrong with it, and one that is no JSON-RPC frame is turned down too; else what its
/// frame comes to is done, a tool call for the claims of the request.
pub proof fn law_requests_step_by_step(
    state: ServeStateView,
    claims: ClaimsView,
    error: Seq<char>,
    req: JsonView,
)
    ensures
        frame_step(state, claims, Err(error)) == bad_request(error),
        req.get("jsonrpc"@) is None ==> frame_step(state, claims, Ok(req)) == bad_request(
            "expected JSON-RPC 2.0 request"@,
        ),
        req.get("jsonrpc"@) is Some ==> {
            let step = frame_step(state, claims, Ok(req));
            match rpc_step(state.tool, state.version, req) {
                RpcStepView::Silent => step == (McpStepView::Send { status: 202, document: None }),
                RpcStepView::Reply(frame) => step == (McpStepView::Send {
                    status: 200,
                    document: Some(frame),
                }),
                RpcStepView::ListTools { id } => step == (McpStepView::ListTools { id }),
                RpcStepView::CallTool { id, method, arguments } => step == (McpStepView::CallTool {
                    claims,
                    id,
                    method,
                    arguments,
                }),
            }
        },
{
}

/// A request with a valid token is let in: on a server with a secret, claims that were
/// verified lead to what its body comes to.
pub proof fn law_valid_requests_are_let_in(
    state: ServeStateView,
    claims: ClaimsView,
    request: Result<JsonView, Seq<char>>,
)
    requires
        state.platform_secret is Some,
    ensures
        mcp_step(state, Some(claims), request) == frame_step(state, claims, request),
{
}

/// A request carries the claims that its bearer token verifies to under the secret of the
/// server, for its tool and at the time; without a secret or a token it carries none.
pub proof fn law_requests_carry_what_their_token_verifies_to(
    state: ServeStateView,
    authorization: Option<Seq<char>>,
    now: i64,
    meaning: spec_fn(Seq<u8>) -> Option<ClaimsView>,
)
    ensures
        state.platform_secret is None || bearer_token(authorization) is None ==> request_claims(
            state,
            authorization,
            now,
            meaning,
        ) is None,
        state.platform_secret is Some && bearer_token(authorization) is Some ==> request_claims(
            state,
            authorization,
            now,
            meaning,
        ) == verified(
            state.platform_secret->0,
            state.tool,
            now,
            bearer_token(authorization)->0,
            meaning,
        ),
{
}

/// Whatever the reader of claims does, a request carries claims only with a secret and a
/// signed bearer token, and only claims that are not expired and are meant for the tool.
pub proof fn law_the_reader_cannot_let_requests_in<D: Fn(Vec<u8>) -> Option<Claims>>(
    state: ServeStateView,
    authorization: Option<Seq<char>>,
    now: i64,
    read: D,
    claims: Option<ClaimsView>,
)
    requires
        may_carry(state, authorization, now, read, claims),
    ensures
        claims matches Some(c) ==> {
            &&& state.platform_secret is Some
            &&& bearer_token(authorization) is Some
            &&& crate::auth::signed_payload(
                state.platform_secret->0,
                bearer_token(authorization)->0,
            ) is Some
            &&& now <= c.exp
            &&& c.tool == state.tool
        },
{
}

// ── What the data stands for ────────────────────────────────────────────

/// The settings of a server and what it read stand for what is in them.
pub proof fn law_views_keep_every_setting(
    state: ServeState,
    header: &str,
    body: Json,
    error: String,
)
    ensures
        state@.tool == state.tool@,
        state@.version == state.version@,
        state@.git_sha == state.git_sha@,
        state.platform_secret is None ==> state@.platform_secret is None,
        state.platform_secret matches Some(secret) ==> state@.platform_secret == Some(secret@),
        state@.address == state.address@,
        header_view(Some(header)) == Some(header@),
        header_view(None) is None,
        body_view(Ok(body)) == Ok::<JsonView, Seq<char>>(body@),
        body_view(Err(error)) == Err::<JsonView, Seq<char>>(error@),
{
}

/// The steps of a server stand for what is in them.
pub proof fn law_views_keep_every_step(
    status: u16,
    id: Json,
    reply: Json,
    method: String,
    arguments: Json,
    claims: Claims,
)
    ensures
        RpcStep::Silent@ == RpcStepView::Silent,
        RpcStep::Reply(reply)@ == RpcStepView::Reply(reply@),
        (RpcStep::ListTools { id })@ == (RpcStepView::ListTools { id: id@ }),
        (RpcStep::CallTool { id, method, arguments })@ == (RpcStepView::CallTool {
            id: id@,
            method: method@,
            arguments: arguments@,
        }),
        (McpStep::Send { status, document: None })@ == (McpStepView::Send { status, document: None }),
        (McpStep::Send { status, document: Some(reply) })@ == (McpStepView::Send {
            status,
            document: Some(reply@),
        }),
        (McpStep::ListTools { id })@ == (McpStepView::ListTools { id: id@ }),
        (McpStep::CallTool { claims, id, method, arguments })@ == (McpStepView::CallTool {
            claims: claims@,
            id: id@,
            method: method@,
            arguments: arguments@,
        }),
{
}

} // verus!
