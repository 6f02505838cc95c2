//! The decisions of the MCP server: which requests it answers and how, and the steps
//! of the one-call commit flow that asks the client to write and review the message.
use vstd::prelude::*;
use vstd::string::StringExecFns;

use crate::config::ExPathBuf;
use crate::json::{
    add_member, bool_of, entries_view, get, json_equal, json_get, json_str, json_string,
    lemma_object_view, member, str_of, view_of, clone_json, Json, JsonView,
};
use crate::llm::{strip_thinking, strip_thinking_blocks};
use crate::runtime::{ExecuteOptions, ExecuteOutput};
use crate::text::{contains_seq, occurs_at, decimal, push_decimal_u64, trim_of, trimmed, CharClass, strings_equal, all_ws, is_blank};
use std::path::PathBuf;

verus! {

broadcast use vstd::string::group_string_axioms;

/// The protocol version answered to a client that names none.
pub const PROTOCOL_VERSION: &'static str = "2025-11-25";

/// The environment variable that exposes the fallback tools.
pub const ENABLE_FALLBACK_TOOLS_ENV: &'static str = "COMMIT_MCP_ENABLE_FALLBACK_TOOLS";

/// The instructions sent with a sampling request.
pub const COMMIT_SYSTEM_PROMPT: &'static str = r#"You are a Git commit message expert.

Return exactly one Conventional Commit message and nothing else.

Rules:
- Use an English type/scope prefix.
- Use Simplified Chinese for subject and body.
- Do not wrap the message in Markdown.
- Do not include explanations.
- Omit the body when the subject is enough.
- Use body/footer only when they add useful information."#;

/// Arguments of the `prepare_commit` tool.
#[derive(Debug)]
pub struct PrepareCommitRequest {
    pub cwd: Option<PathBuf>,
}

/// Arguments of the `execute_commit` tool.
#[derive(Debug)]
pub struct ExecuteCommitRequest {
    pub cwd: Option<PathBuf>,
    pub message: String,
}

/// Arguments of the `commit_staged` tool.
#[derive(Debug)]
pub struct CommitStagedRequest {
    pub cwd: Option<PathBuf>,
}

/// What the `commit_staged` tool did.
#[derive(Debug)]
pub struct CommitStagedOutput {
    pub committed: bool,
    pub action: String,
    pub generated_message: String,
    pub final_message: Option<String>,
    pub execute: Option<ExecuteOutput>,
}

/// What the client declared it can do.
#[derive(Clone, Copy, Debug, Default, PartialEq, Eq, Structural)]
pub struct ClientCapabilities {
    pub sampling: bool,
    pub elicitation: bool,
}

/// An error answer to a request.
#[derive(Debug)]
pub struct McpError {
    pub code: i64,
    pub message: String,
    pub data: Option<Json>,
}

pub open spec fn opt_view(j: Option<Json>) -> Option<JsonView> {
    match j {
        Some(x) => Some(view_of(x)),
        None => None,
    }
}

/// `std::path::Path::to_path_buf` on a path buffer: a copy of it.
#[verifier::external_body]
fn copy_path(p: &PathBuf) -> (r: PathBuf)
    ensures
        r == *p,
{
    p.to_path_buf()
}

/// The directory a tool works in: the one the request names, else the server's own.
pub fn request_cwd(default_cwd: &PathBuf, cwd: Option<PathBuf>) -> (r: PathBuf)
    ensures
        r == match cwd {
            Some(c) => c,
            None => *default_cwd,
        },
{
    match cwd {
        Some(c) => c,
        None => copy_path(default_cwd),
    }
}

/// The capabilities a client declares in `initialize`: sampling when it names it at
/// all, elicitation when it names it with an object that is empty or offers forms.
pub open spec fn spec_capabilities(params: Json) -> ClientCapabilities {
    match get(params, "capabilities"@) {
        Some(c) => ClientCapabilities {
            sampling: get(c, "sampling"@) is Some,
            elicitation: match get(c, "elicitation"@) {
                Some(Json::Object(e)) => e@.len() == 0 || member(e@, "form"@) is Some,
                _ => false,
            },
        },
        None => ClientCapabilities { sampling: false, elicitation: false },
    }
}

/// Reads the capabilities from the parameters of `initialize`.
pub fn parse_client_capabilities(params: &Json) -> (r: ClientCapabilities)
    ensures
        r == spec_capabilities(*params),
{
    match json_get(params, "capabilities") {
        Some(c) => {
            let sampling = json_get(c, "sampling").is_some();
            let elicitation = match json_get(c, "elicitation") {
                Some(Json::Object(e)) => {
                    let ej = json_get(json_get(c, "elicitation").unwrap(), "form");
                    e.len() == 0 || ej.is_some()
                },
                _ => false,
            };
            ClientCapabilities { sampling, elicitation }
        },
        None => ClientCapabilities { sampling: false, elicitation: false },
    }
}

/// Whether a value of the fallback variable exposes the fallback tools.
pub open spec fn enables_fallback(value: Seq<char>) -> bool {
    value == "1"@ || value == "true"@ || value == "TRUE"@ || value == "yes"@ || value == "YES"@
}

/// Whether the fallback tools are exposed, from the variable's value where it is set.
pub fn fallback_tools_enabled(value: Option<&str>) -> (r: bool)
    ensures
        r == match value {
            Some(v) => enables_fallback(v@),
            None => false,
        },
{
    match value {
        Some(v) => strings_equal(v, "1") || strings_equal(v, "true") || strings_equal(v, "TRUE")
            || strings_equal(v, "yes") || strings_equal(v, "YES"),
        None => false,
    }
}

/// An error for parameters the server cannot use.
pub fn invalid_params(message: String) -> (r: McpError)
    ensures
        r.code == -32602,
        r.message == message,
        r.data is None,
{
    McpError { code: -32602, message, data: None }
}

/// The error for a fallback tool while the fallback tools are not exposed.
pub open spec fn fallback_disabled_text() -> Seq<char> {
    "fallback commit tools are disabled; use commit_staged or set "@ + ENABLE_FALLBACK_TOOLS_ENV@
        + "=1 for debugging"@
}

/// Allows a fallback tool only while the fallback tools are exposed.
pub fn ensure_fallback_tools_enabled(enabled: bool) -> (r: Result<(), McpError>)
    ensures
        r is Ok <==> enabled,
        r matches Err(e) ==> e.code == -32602 && e.message@ == fallback_disabled_text() && e.data is None,
{
    if enabled {
        return Ok(());
    }
    let mut m = "fallback commit tools are disabled; use commit_staged or set ".to_owned();
    m.append(ENABLE_FALLBACK_TOOLS_ENV);
    m.append("=1 for debugging");
    Err(invalid_params(m))
}

/// The decimal text of an integer, with a minus sign when it is negative.
pub open spec fn int_text(n: int) -> Seq<char> {
    if n < 0 {
        "-"@ + decimal((-n) as nat)
    } else {
        decimal(n as nat)
    }
}

fn number(n: i64) -> (r: Json)
    ensures
        view_of(r) == JsonView::Number(int_text(n as int)),
{
    let mut s = String::new();
    if n < 0 {
        s.append("-");
        let magnitude: u64 = (-(n + 1)) as u64 + 1;
        push_decimal_u64(&mut s, magnitude);
    } else {
        push_decimal_u64(&mut s, n as u64);
    }
    Json::Number(s)
}

/// The answer of a JSON-RPC request that failed.
pub open spec fn error_view(id: JsonView, code: int, message: Seq<char>, data: Option<JsonView>) -> JsonView {
    let base = seq![("code"@, JsonView::Number(int_text(code))), ("message"@, JsonView::Str(message))];
    JsonView::Object(
        seq![
            ("jsonrpc"@, JsonView::Str("2.0"@)),
            ("id"@, id),
            ("error"@, JsonView::Object(
                match data {
                    Some(d) => base.push(("data"@, d)),
                    None => base,
                },
            )),
        ],
    )
}

/// The answer of a JSON-RPC request that succeeded.
pub open spec fn result_view(id: JsonView, result: JsonView) -> JsonView {
    JsonView::Object(
        seq![("jsonrpc"@, JsonView::Str("2.0"@)), ("id"@, id), ("result"@, result)],
    )
}

/// Answers a request with an error.
pub fn jsonrpc_error(id: Json, code: i64, message: &str, data: Option<Json>) -> (r: Json)
    ensures
        view_of(r) == error_view(view_of(id), code as int, message@, opt_view(data)),
{
    let ghost idv = view_of(id);
    let ghost dv = opt_view(data);
    let mut error: Vec<(String, Json)> = Vec::new();
    add_member(&mut error, "code", number(code));
    add_member(&mut error, "message", json_string(message));
    let ghost base = seq![
        ("code"@, JsonView::Number(int_text(code as int))),
        ("message"@, JsonView::Str(message@)),
    ];
    assert(entries_view(error@) =~= base);
    match data {
        Some(d) => add_member(&mut error, "data", d),
        None => {},
    }
    proof {
        lemma_object_view(error);
        match dv {
            Some(x) => assert(entries_view(error@) =~= base.push(("data"@, x))),
            None => assert(entries_view(error@) =~= base),
        }
    }
    let err = Json::Object(error);
    let mut out: Vec<(String, Json)> = Vec::new();
    add_member(&mut out, "jsonrpc", json_string("2.0"));
    add_member(&mut out, "id", id);
    add_member(&mut out, "error", err);
    proof {
        lemma_object_view(out);
        assert(entries_view(out@) =~= error_view(idv, code as int, message@, dv)->Object_0);
    }
    Json::Object(out)
}

/// Answers a request with its result.
pub fn jsonrpc_result(id: Json, result: Json) -> (r: Json)
    ensures
        view_of(r) == result_view(view_of(id), view_of(result)),
{
    let ghost idv = view_of(id);
    let ghost rv = view_of(result);
    let mut out: Vec<(String, Json)> = Vec::new();
    add_member(&mut out, "jsonrpc", json_string("2.0"));
    add_member(&mut out, "id", id);
    add_member(&mut out, "result", result);
    proof {
        lemma_object_view(out);
        assert(entries_view(out@) =~= result_view(idv, rv)->Object_0);
    }
    Json::Object(out)
}

/// The answer to a request: its result, or the error with its code, message and data.
pub fn respond(id: Json, result: Result<Json, McpError>) -> (r: Json)
    ensures
        view_of(r) == match result {
            Ok(v) => result_view(view_of(id), view_of(v)),
            Err(e) => error_view(view_of(id), e.code as int, e.message@, opt_view(e.data)),
        },
{
    match result {
        Ok(v) => jsonrpc_result(id, v),
        Err(e) => jsonrpc_error(id, e.code, e.message.as_str(), e.data),
    }
}

} // verus!

verus! {

pub const COMMIT_STAGED_DESCRIPTION: &'static str = "Default commit flow. Use this single tool call to collect staged context, request sampling/createMessage for a commit message, request elicitation/create for user review, then validate and create the commit.";

pub const PREPARE_COMMIT_DESCRIPTION: &'static str = "Debug fallback tool. Collect staged Git context for a commit message without calling Sampling or creating a commit.";

pub const EXECUTE_COMMIT_DESCRIPTION: &'static str = "Debug fallback tool. Validate a supplied commit message and run git commit -F. Prefer commit_staged.";

pub const CWD_DESCRIPTION: &'static str = "Repository working directory. Defaults to the MCP server process cwd.";

pub const MESSAGE_DESCRIPTION: &'static str = "Complete commit message generated by the host Agent model.";

pub const SERVER_INSTRUCTIONS: &'static str = "Use commit_staged for staged Git changes. The server will request sampling/createMessage to generate a Conventional Commit message, then elicitation/create to let the user review or edit it before executing git commit -F. Do not fall back to a multi-tool commit flow unless debug fallback tools are explicitly exposed.";

pub const PROMPT_DESCRIPTION: &'static str = "Commit staged changes with one MCP tool call when Sampling and Elicitation are available.";

pub const PROMPT_CALL_TEXT: &'static str = "Call the commit_staged tool once. The MCP server will request Sampling to generate the commit message and Elicitation to let the user review or edit it before creating the commit.";

pub open spec fn obj(members: Seq<(Seq<char>, JsonView)>) -> JsonView {
    JsonView::Object(members)
}

pub open spec fn string_property_view(description: Seq<char>) -> JsonView {
    obj(seq![("type"@, JsonView::Str("string"@)), ("description"@, JsonView::Str(description))])
}

pub open spec fn cwd_schema_view() -> JsonView {
    obj(
        seq![
            ("type"@, JsonView::Str("object"@)),
            ("properties"@, obj(seq![("cwd"@, string_property_view(CWD_DESCRIPTION@))])),
        ],
    )
}

pub open spec fn execute_schema_view() -> JsonView {
    obj(
        seq![
            ("type"@, JsonView::Str("object"@)),
            ("properties"@, obj(
                seq![
                    ("cwd"@, string_property_view(CWD_DESCRIPTION@)),
                    ("message"@, string_property_view(MESSAGE_DESCRIPTION@)),
                ],
            )),
            ("required"@, JsonView::Array(seq![JsonView::Str("message"@)])),
        ],
    )
}

pub open spec fn tool_view(name: Seq<char>, title: Seq<char>, description: Seq<char>, schema: JsonView) -> JsonView {
    obj(
        seq![
            ("name"@, JsonView::Str(name)),
            ("title"@, JsonView::Str(title)),
            ("description"@, JsonView::Str(description)),
            ("inputSchema"@, schema),
        ],
    )
}

pub open spec fn commit_staged_tool_view() -> JsonView {
    tool_view("commit_staged"@, "Commit Staged Changes"@, COMMIT_STAGED_DESCRIPTION@, cwd_schema_view())
}

pub open spec fn prepare_commit_tool_view() -> JsonView {
    tool_view("prepare_commit"@, "Prepare Commit Context"@, PREPARE_COMMIT_DESCRIPTION@, cwd_schema_view())
}

pub open spec fn execute_commit_tool_view() -> JsonView {
    tool_view("execute_commit"@, "Execute Commit"@, EXECUTE_COMMIT_DESCRIPTION@, execute_schema_view())
}

/// The tools the server lists: the one-call commit, and the fallback tools only while
/// they are exposed.
pub open spec fn tools_list_view(fallback: bool) -> JsonView {
    obj(
        seq![
            ("tools"@, JsonView::Array(
                if fallback {
                    seq![commit_staged_tool_view(), prepare_commit_tool_view(), execute_commit_tool_view()]
                } else {
                    seq![commit_staged_tool_view()]
                },
            )),
        ],
    )
}

fn string_property(description: &str) -> (r: Json)
    ensures
        view_of(r) == string_property_view(description@),
{
    let mut e: Vec<(String, Json)> = Vec::new();
    add_member(&mut e, "type", json_string("string"));
    add_member(&mut e, "description", json_string(description));
    proof {
        lemma_object_view(e);
        assert(entries_view(e@) =~= string_property_view(description@)->Object_0);
    }
    Json::Object(e)
}

fn cwd_schema() -> (r: Json)
    ensures
        view_of(r) == cwd_schema_view(),
{
    let mut props: Vec<(String, Json)> = Vec::new();
    add_member(&mut props, "cwd", string_property(CWD_DESCRIPTION));
    proof {
        lemma_object_view(props);
        assert(entries_view(props@) =~= seq![("cwd"@, string_property_view(CWD_DESCRIPTION@))]);
    }
    let mut e: Vec<(String, Json)> = Vec::new();
    add_member(&mut e, "type", json_string("object"));
    add_member(&mut e, "properties", Json::Object(props));
    proof {
        lemma_object_view(e);
        assert(entries_view(e@) =~= cwd_schema_view()->Object_0);
    }
    Json::Object(e)
}

fn execute_schema() -> (r: Json)
    ensures
        view_of(r) == execute_schema_view(),
{
    let mut props: Vec<(String, Json)> = Vec::new();
    add_member(&mut props, "cwd", string_property(CWD_DESCRIPTION));
    add_member(&mut props, "message", string_property(MESSAGE_DESCRIPTION));
    proof {
        lemma_object_view(props);
        assert(entries_view(props@) =~= seq![
            ("cwd"@, string_property_view(CWD_DESCRIPTION@)),
            ("message"@, string_property_view(MESSAGE_DESCRIPTION@)),
        ]);
    }
    let required = Json::Array(vec![json_string("message")]);
    assert(view_of(required)->Array_0 =~= seq![JsonView::Str("message"@)]);
    let mut e: Vec<(String, Json)> = Vec::new();
    add_member(&mut e, "type", json_string("object"));
    add_member(&mut e, "properties", Json::Object(props));
    add_member(&mut e, "required", required);
    proof {
        lemma_object_view(e);
        assert(entries_view(e@) =~= execute_schema_view()->Object_0);
    }
    Json::Object(e)
}

fn tool(name: &str, title: &str, description: &str, schema: Json) -> (r: Json)
    ensures
        view_of(r) == tool_view(name@, title@, description@, view_of(schema)),
{
    let ghost sv = view_of(schema);
    let mut e: Vec<(String, Json)> = Vec::new();
    add_member(&mut e, "name", json_string(name));
    add_member(&mut e, "title", json_string(title));
    add_member(&mut e, "description", json_string(description));
    add_member(&mut e, "inputSchema", schema);
    proof {
        lemma_object_view(e);
        assert(entries_view(e@) =~= tool_view(name@, title@, description@, sv)->Object_0);
    }
    Json::Object(e)
}

/// The tools the server lists.
pub fn tools_list(fallback: bool) -> (r: Json)
    ensures
        view_of(r) == tools_list_view(fallback),
{
    let mut tools: Vec<Json> = Vec::new();
    tools.push(tool("commit_staged", "Commit Staged Changes", COMMIT_STAGED_DESCRIPTION, cwd_schema()));
    if fallback {
        tools.push(tool("prepare_commit", "Prepare Commit Context", PREPARE_COMMIT_DESCRIPTION, cwd_schema()));
        tools.push(tool("execute_commit", "Execute Commit", EXECUTE_COMMIT_DESCRIPTION, execute_schema()));
    }
    let list = Json::Array(tools);
    proof {
        if fallback {
            assert(view_of(list)->Array_0 =~= seq![
                commit_staged_tool_view(),
                prepare_commit_tool_view(),
                execute_commit_tool_view(),
            ]);
        } else {
            assert(view_of(list)->Array_0 =~= seq![commit_staged_tool_view()]);
        }
    }
    let mut e: Vec<(String, Json)> = Vec::new();
    add_member(&mut e, "tools", list);
    proof {
        lemma_object_view(e);
        assert(entries_view(e@) =~= tools_list_view(fallback)->Object_0);
    }
    Json::Object(e)
}

pub open spec fn prompts_list_view() -> JsonView {
    obj(
        seq![
            ("prompts"@, JsonView::Array(
                seq![
                    obj(
                        seq![
                            ("name"@, JsonView::Str("commit_staged"@)),
                            ("title"@, JsonView::Str("Commit Staged Changes"@)),
                            ("description"@, JsonView::Str(PROMPT_DESCRIPTION@)),
                            ("arguments"@, JsonView::Array(
                                seq![
                                    obj(
                                        seq![
                                            ("name"@, JsonView::Str("cwd"@)),
                                            ("description"@, JsonView::Str("Repository working directory. Optional."@)),
                                            ("required"@, JsonView::Bool(false)),
                                        ],
                                    ),
                                ],
                            )),
                        ],
                    ),
                ],
            )),
        ],
    )
}

/// The prompts the server lists: one, for the one-call commit.
pub fn prompts_list() -> (r: Json)
    ensures
        view_of(r) == prompts_list_view(),
{
    let mut arg: Vec<(String, Json)> = Vec::new();
    add_member(&mut arg, "name", json_string("cwd"));
    add_member(&mut arg, "description", json_string("Repository working directory. Optional."));
    add_member(&mut arg, "required", Json::Bool(false));
    proof {
        lemma_object_view(arg);
    }
    let args = Json::Array(vec![Json::Object(arg)]);
    let mut p: Vec<(String, Json)> = Vec::new();
    add_member(&mut p, "name", json_string("commit_staged"));
    add_member(&mut p, "title", json_string("Commit Staged Changes"));
    add_member(&mut p, "description", json_string(PROMPT_DESCRIPTION));
    add_member(&mut p, "arguments", args);
    proof {
        lemma_object_view(p);
    }
    let prompts = Json::Array(vec![Json::Object(p)]);
    let mut e: Vec<(String, Json)> = Vec::new();
    add_member(&mut e, "prompts", prompts);
    proof {
        lemma_object_view(e);
        let pv = prompts_list_view()->Object_0[0].1->Array_0[0];
        let av = pv->Object_0[3].1->Array_0[0];
        assert(entries_view(arg@) =~= av->Object_0);
        assert(view_of(args)->Array_0 =~= seq![av]);
        assert(entries_view(p@) =~= pv->Object_0);
        assert(view_of(prompts)->Array_0 =~= seq![pv]);
        assert(entries_view(e@) =~= prompts_list_view()->Object_0);
    }
    Json::Object(e)
}

} // verus!

verus! {

/// The member `key` of an optional value.
pub open spec fn param(p: Option<Json>, key: Seq<char>) -> Option<Json> {
    match p {
        Some(x) => get(x, key),
        None => None,
    }
}

/// The text of the prompt that asks for the one-call commit, in `cwd` when one is named.
pub open spec fn prompt_text(cwd: Option<Seq<char>>) -> Seq<char> {
    match cwd {
        Some(c) => "Pass cwd `"@ + c + "` to commit_staged. "@ + PROMPT_CALL_TEXT@,
        None => PROMPT_CALL_TEXT@,
    }
}

pub open spec fn prompt_view(cwd: Option<Seq<char>>) -> JsonView {
    obj(
        seq![
            ("description"@, JsonView::Str("Commit staged Git changes using commit MCP."@)),
            ("messages"@, JsonView::Array(
                seq![
                    obj(
                        seq![
                            ("role"@, JsonView::Str("user"@)),
                            ("content"@, obj(
                                seq![
                                    ("type"@, JsonView::Str("text"@)),
                                    ("text"@, JsonView::Str(prompt_text(cwd))),
                                ],
                            )),
                        ],
                    ),
                ],
            )),
        ],
    )
}

/// What `prompts/get` answers: the one prompt by its name, an error for any other name
/// or for none.
pub open spec fn spec_get_prompt(params: Option<Json>) -> Result<JsonView, Seq<char>> {
    match str_of(param(params, "name"@)) {
        None => Err("prompts/get params.name is required"@),
        Some(n) => if n != "commit_staged"@ {
            Err("unknown prompt `"@ + n + "`"@)
        } else {
            Ok(prompt_view(str_of(param(param(params, "arguments"@), "cwd"@))))
        },
    }
}

fn opt_get<'a>(p: Option<&'a Json>, key: &str) -> (r: Option<&'a Json>)
    ensures
        match r {
            Some(x) => param(match p {
                Some(y) => Some(*y),
                None => None,
            }, key@) == Some(*x),
            None => param(match p {
                Some(y) => Some(*y),
                None => None,
            }, key@) is None,
        },
{
    match p {
        Some(x) => json_get(x, key),
        None => None,
    }
}

pub open spec fn deref_opt(p: Option<&Json>) -> Option<Json> {
    match p {
        Some(y) => Some(*y),
        None => None,
    }
}

/// Answers `prompts/get`.
pub fn get_prompt(params: Option<&Json>) -> (r: Result<Json, McpError>)
    ensures
        match (r, spec_get_prompt(deref_opt(params))) {
            (Ok(v), Ok(w)) => view_of(v) == w,
            (Err(e), Err(m)) => e.code == -32602 && e.message@ == m && e.data is None,
            _ => false,
        },
{
    let name = match json_str(opt_get(params, "name")) {
        Some(n) => n,
        None => return Err(invalid_params("prompts/get params.name is required".to_owned())),
    };
    if !strings_equal(name, "commit_staged") {
        let mut m = "unknown prompt `".to_owned();
        m.append(name);
        m.append("`");
        return Err(invalid_params(m));
    }
    let cwd = json_str(opt_get(opt_get(params, "arguments"), "cwd"));
    let mut text = String::new();
    match cwd {
        Some(c) => {
            text.append("Pass cwd `");
            text.append(c);
            text.append("` to commit_staged. ");
        },
        None => {},
    }
    text.append(PROMPT_CALL_TEXT);
    let ghost cv = match cwd {
        Some(c) => Some(c@),
        None => None::<Seq<char>>,
    };
    assert(text@ =~= prompt_text(cv));
    let mut content: Vec<(String, Json)> = Vec::new();
    add_member(&mut content, "type", json_string("text"));
    add_member(&mut content, "text", Json::Str(text));
    proof {
        lemma_object_view(content);
    }
    let mut message: Vec<(String, Json)> = Vec::new();
    add_member(&mut message, "role", json_string("user"));
    add_member(&mut message, "content", Json::Object(content));
    proof {
        lemma_object_view(message);
    }
    let messages = Json::Array(vec![Json::Object(message)]);
    let mut e: Vec<(String, Json)> = Vec::new();
    add_member(&mut e, "description", json_string("Commit staged Git changes using commit MCP."));
    add_member(&mut e, "messages", messages);
    proof {
        lemma_object_view(e);
        let mv = prompt_view(cv)->Object_0[1].1->Array_0[0];
        let ctv = mv->Object_0[1].1;
        assert(entries_view(content@) =~= ctv->Object_0);
        assert(entries_view(message@) =~= mv->Object_0);
        assert(view_of(messages)->Array_0 =~= seq![mv]);
        assert(entries_view(e@) =~= prompt_view(cv)->Object_0);
    }
    Ok(Json::Object(e))
}

/// The answer to `initialize`.
pub open spec fn initialize_view(params: Option<Json>, version: Seq<char>) -> JsonView {
    let listing = obj(seq![("listChanged"@, JsonView::Bool(false))]);
    obj(
        seq![
            ("protocolVersion"@, JsonView::Str(
                match str_of(param(params, "protocolVersion"@)) {
                    Some(v) => v,
                    None => PROTOCOL_VERSION@,
                },
            )),
            ("capabilities"@, obj(seq![("tools"@, listing), ("prompts"@, listing)])),
            ("serverInfo"@, obj(
                seq![
                    ("name"@, JsonView::Str("commit"@)),
                    ("title"@, JsonView::Str("commit"@)),
                    ("version"@, JsonView::Str(version)),
                ],
            )),
            ("instructions"@, JsonView::Str(SERVER_INSTRUCTIONS@)),
        ],
    )
}

fn list_changed_false() -> (r: Json)
    ensures
        view_of(r) == obj(seq![("listChanged"@, JsonView::Bool(false))]),
{
    let mut e: Vec<(String, Json)> = Vec::new();
    add_member(&mut e, "listChanged", Json::Bool(false));
    proof {
        lemma_object_view(e);
        assert(entries_view(e@) =~= seq![("listChanged"@, JsonView::Bool(false))]);
    }
    Json::Object(e)
}

fn initialize_result(params: Option<&Json>, version: &str) -> (r: Json)
    ensures
        view_of(r) == initialize_view(deref_opt(params), version@),
{
    let protocol = match json_str(opt_get(params, "protocolVersion")) {
        Some(v) => v,
        None => PROTOCOL_VERSION,
    };
    let mut caps: Vec<(String, Json)> = Vec::new();
    add_member(&mut caps, "tools", list_changed_false());
    add_member(&mut caps, "prompts", list_changed_false());
    proof {
        lemma_object_view(caps);
    }
    let mut info: Vec<(String, Json)> = Vec::new();
    add_member(&mut info, "name", json_string("commit"));
    add_member(&mut info, "title", json_string("commit"));
    add_member(&mut info, "version", json_string(version));
    proof {
        lemma_object_view(info);
    }
    let mut e: Vec<(String, Json)> = Vec::new();
    add_member(&mut e, "protocolVersion", json_string(protocol));
    add_member(&mut e, "capabilities", Json::Object(caps));
    add_member(&mut e, "serverInfo", Json::Object(info));
    add_member(&mut e, "instructions", json_string(SERVER_INSTRUCTIONS));
    proof {
        lemma_object_view(e);
        let want = initialize_view(deref_opt(params), version@);
        assert(entries_view(caps@) =~= want->Object_0[1].1->Object_0);
        assert(entries_view(info@) =~= want->Object_0[2].1->Object_0);
        assert(entries_view(e@) =~= want->Object_0);
    }
    Json::Object(e)
}

} // verus!

verus! {

/// A tool the server runs.
#[derive(Debug, Clone, Copy, PartialEq, Eq, Structural)]
pub enum ToolName {
    CommitStaged,
    PrepareCommit,
    ExecuteCommit,
}

/// What the server does with one incoming message.
#[derive(Debug)]
pub enum Incoming {
    /// A notification: nothing is answered.
    Silent,
    /// This answer is sent back.
    Reply(Json),
    /// The tool is run with these arguments, and its outcome answers the request `id`.
    Tool { id: Json, tool: ToolName, arguments: Json },
}

pub enum IncomingView {
    Silent,
    Reply(JsonView),
    Tool(JsonView, ToolName, JsonView),
}

pub open spec fn incoming_view(i: Incoming) -> IncomingView {
    match i {
        Incoming::Silent => IncomingView::Silent,
        Incoming::Reply(j) => IncomingView::Reply(view_of(j)),
        Incoming::Tool { id, tool, arguments } => IncomingView::Tool(view_of(id), tool, view_of(arguments)),
    }
}

/// The tool a `tools/call` names, or the error that answers it: a missing name, a
/// fallback tool while the fallback tools are not exposed, or an unknown name.
pub open spec fn spec_tool(params: Option<Json>, fallback: bool) -> Result<ToolName, Seq<char>> {
    match str_of(param(params, "name"@)) {
        None => Err("tools/call params.name is required"@),
        Some(n) => if n == "commit_staged"@ {
            Ok(ToolName::CommitStaged)
        } else if n == "prepare_commit"@ || n == "execute_commit"@ {
            if !fallback {
                Err(fallback_disabled_text())
            } else if n == "prepare_commit"@ {
                Ok(ToolName::PrepareCommit)
            } else {
                Ok(ToolName::ExecuteCommit)
            }
        } else {
            Err("unknown tool `"@ + n + "`"@)
        },
    }
}

/// The arguments of a tool call, an empty object when there are none.
pub open spec fn arguments_view(params: Option<Json>) -> JsonView {
    match param(params, "arguments"@) {
        Some(a) => view_of(a),
        None => JsonView::Object(seq![]),
    }
}

/// Reads which tool a `tools/call` asks for.
pub fn call_tool(params: Option<&Json>, fallback: bool) -> (r: Result<(ToolName, Json), McpError>)
    ensures
        match (r, spec_tool(deref_opt(params), fallback)) {
            (Ok((t, a)), Ok(u)) => t == u && view_of(a) == arguments_view(deref_opt(params)),
            (Err(e), Err(m)) => e.code == -32602 && e.message@ == m && e.data is None,
            _ => false,
        },
{
    let name = match json_str(opt_get(params, "name")) {
        Some(n) => n,
        None => return Err(invalid_params("tools/call params.name is required".to_owned())),
    };
    let tool = if strings_equal(name, "commit_staged") {
        ToolName::CommitStaged
    } else if strings_equal(name, "prepare_commit") {
        match ensure_fallback_tools_enabled(fallback) {
            Ok(()) => {},
            Err(e) => return Err(e),
        }
        ToolName::PrepareCommit
    } else if strings_equal(name, "execute_commit") {
        match ensure_fallback_tools_enabled(fallback) {
            Ok(()) => {},
            Err(e) => return Err(e),
        }
        ToolName::ExecuteCommit
    } else {
        let mut m = "unknown tool `".to_owned();
        m.append(name);
        m.append("`");
        return Err(invalid_params(m));
    };
    let arguments = match opt_get(params, "arguments") {
        Some(a) => clone_json(a),
        None => {
            let e: Vec<(String, Json)> = Vec::new();
            proof {
                lemma_object_view(e);
                assert(entries_view(e@) =~= Seq::<(Seq<char>, JsonView)>::empty());
            }
            Json::Object(e)
        },
    };
    Ok((tool, arguments))
}

/// The state of the MCP server between messages.
#[derive(Debug)]
pub struct McpServer {
    /// The number of the next request the server sends to the client.
    pub next_request_id: u64,
    /// What the client declared in `initialize`.
    pub client_capabilities: ClientCapabilities,
    /// The server's version, as `initialize` reports it.
    pub version: String,
}

/// The answer to a message that is not an object.
pub open spec fn not_object_view() -> JsonView {
    error_view(JsonView::Null, -32600, "Invalid Request"@, Some(JsonView::Str("message must be a JSON object"@)))
}

/// What the server does with a request `method` of id `id`, beside `initialize`.
pub open spec fn spec_dispatch(id: JsonView, method: Seq<char>, params: Option<Json>, fallback: bool) -> IncomingView {
    if method == "ping"@ {
        IncomingView::Reply(result_view(id, JsonView::Object(seq![])))
    } else if method == "tools/list"@ {
        IncomingView::Reply(result_view(id, tools_list_view(fallback)))
    } else if method == "tools/call"@ {
        match spec_tool(params, fallback) {
            Ok(t) => IncomingView::Tool(id, t, arguments_view(params)),
            Err(m) => IncomingView::Reply(error_view(id, -32602, m, None)),
        }
    } else if method == "prompts/list"@ {
        IncomingView::Reply(result_view(id, prompts_list_view()))
    } else if method == "prompts/get"@ {
        match spec_get_prompt(params) {
            Ok(v) => IncomingView::Reply(result_view(id, v)),
            Err(m) => IncomingView::Reply(error_view(id, -32602, m, None)),
        }
    } else {
        IncomingView::Reply(error_view(id, -32601, "Method not found"@, Some(JsonView::Str(method))))
    }
}

/// What the server does with one message: a message that is not an object, or that
/// names no method, is an invalid request (answered only when it has an id); a
/// notification is not answered; `initialize` records the client's capabilities.
pub open spec fn spec_handle(
    caps: ClientCapabilities,
    value: Json,
    fallback: bool,
    version: Seq<char>,
) -> (ClientCapabilities, IncomingView) {
    match value {
        Json::Object(_) => {
            let id = get(value, "id"@);
            let params = get(value, "params"@);
            match str_of(get(value, "method"@)) {
                None => (caps, match id {
                    Some(i) => IncomingView::Reply(
                        error_view(view_of(i), -32600, "Invalid Request"@, Some(JsonView::Str("missing method"@))),
                    ),
                    None => IncomingView::Silent,
                }),
                Some(m) => match id {
                    None => (caps, IncomingView::Silent),
                    Some(i) => if m == "initialize"@ {
                        (
                            match params {
                                Some(p) => spec_capabilities(p),
                                None => ClientCapabilities { sampling: false, elicitation: false },
                            },
                            IncomingView::Reply(result_view(view_of(i), initialize_view(params, version))),
                        )
                    } else {
                        (caps, spec_dispatch(view_of(i), m, params, fallback))
                    },
                },
            }
        },
        _ => (caps, IncomingView::Reply(not_object_view())),
    }
}

impl McpServer {
    /// A server that has not met its client yet.
    pub fn new(version: String) -> (r: Self)
        ensures
            r.next_request_id == 1,
            r.client_capabilities == (ClientCapabilities { sampling: false, elicitation: false }),
            r.version == version,
    {
        McpServer {
            next_request_id: 1,
            client_capabilities: ClientCapabilities { sampling: false, elicitation: false },
            version,
        }
    }

    /// Handles one incoming message; `fallback` is whether the fallback tools are
    /// exposed.
    pub fn handle_single(&mut self, value: &Json, fallback: bool) -> (r: Incoming)
        ensures
            (final(self).client_capabilities, incoming_view(r)) == spec_handle(
                old(self).client_capabilities,
                *value,
                fallback,
                old(self).version@,
            ),
            final(self).next_request_id == old(self).next_request_id,
            final(self).version == old(self).version,
    {
        match value {
            Json::Object(_) => {},
            _ => {
                let data = json_string("message must be a JSON object");
                return Incoming::Reply(jsonrpc_error(Json::Null, -32600, "Invalid Request", Some(data)));
            },
        }
        let id = json_get(value, "id");
        let params = json_get(value, "params");
        let method = match json_str(json_get(value, "method")) {
            Some(m) => m,
            None => {
                return match id {
                    Some(i) => {
                        let data = json_string("missing method");
                        Incoming::Reply(jsonrpc_error(clone_json(i), -32600, "Invalid Request", Some(data)))
                    },
                    None => Incoming::Silent,
                };
            },
        };
        let id = match id {
            Some(i) => clone_json(i),
            None => return Incoming::Silent,
        };
        if strings_equal(method, "initialize") {
            self.client_capabilities = match params {
                Some(p) => parse_client_capabilities(p),
                None => ClientCapabilities { sampling: false, elicitation: false },
            };
            let result = initialize_result(params, self.version.as_str());
            return Incoming::Reply(jsonrpc_result(id, result));
        }
        if strings_equal(method, "ping") {
            let e: Vec<(String, Json)> = Vec::new();
            proof {
                lemma_object_view(e);
                assert(entries_view(e@) =~= Seq::<(Seq<char>, JsonView)>::empty());
            }
            Incoming::Reply(jsonrpc_result(id, Json::Object(e)))
        } else if strings_equal(method, "tools/list") {
            Incoming::Reply(jsonrpc_result(id, tools_list(fallback)))
        } else if strings_equal(method, "tools/call") {
            match call_tool(params, fallback) {
                Ok((tool, arguments)) => Incoming::Tool { id, tool, arguments },
                Err(e) => Incoming::Reply(respond(id, Err(e))),
            }
        } else if strings_equal(method, "prompts/list") {
            Incoming::Reply(jsonrpc_result(id, prompts_list()))
        } else if strings_equal(method, "prompts/get") {
            Incoming::Reply(respond(id, get_prompt(params)))
        } else {
            let data = json_string(method);
            Incoming::Reply(jsonrpc_error(id, -32601, "Method not found", Some(data)))
        }
    }
}

} // verus!

verus! {

/// What a message means while the server waits for the client's answer to a request.
#[derive(Debug)]
pub enum Awaited {
    /// The answer: the request's result.
    Answer(Json),
    /// The answer: the request failed with this error.
    Failed(Json),
    /// A request of the client, answered at once that the server is busy.
    Busy(Json),
    /// Anything else, which is dropped.
    Other,
}

pub enum AwaitedView {
    Answer(JsonView),
    Failed(JsonView),
    Busy(JsonView),
    Other,
}

pub open spec fn awaited_view(a: Awaited) -> AwaitedView {
    match a {
        Awaited::Answer(j) => AwaitedView::Answer(view_of(j)),
        Awaited::Failed(j) => AwaitedView::Failed(view_of(j)),
        Awaited::Busy(j) => AwaitedView::Busy(view_of(j)),
        Awaited::Other => AwaitedView::Other,
    }
}

/// The id of the server's `n`-th request.
pub open spec fn request_id_view(n: nat) -> JsonView {
    JsonView::Str("commit-"@ + decimal(n))
}

pub open spec fn request_view(id: JsonView, method: Seq<char>, params: JsonView) -> JsonView {
    obj(
        seq![
            ("jsonrpc"@, JsonView::Str("2.0"@)),
            ("id"@, id),
            ("method"@, JsonView::Str(method)),
            ("params"@, params),
        ],
    )
}

/// What a message answers to the request `id`: an object with that id answers it with
/// its result, or else fails with its error (an empty object when it has none); another
/// object with an id and a method is a request of the client, which is told that the
/// server is busy.
pub open spec fn spec_await(message: Json, id: JsonView) -> AwaitedView {
    match message {
        Json::Object(_) => if opt_view(get(message, "id"@)) == Some(id) {
            match get(message, "result"@) {
                Some(r) => AwaitedView::Answer(view_of(r)),
                None => AwaitedView::Failed(
                    match get(message, "error"@) {
                        Some(e) => view_of(e),
                        None => JsonView::Object(seq![]),
                    },
                ),
            }
        } else {
            match (get(message, "id"@), get(message, "method"@)) {
                (Some(i), Some(_)) => AwaitedView::Busy(
                    error_view(view_of(i), -32000, "Server is waiting for a client response"@, None),
                ),
                _ => AwaitedView::Other,
            }
        },
        _ => AwaitedView::Other,
    }
}

fn empty_object() -> (r: Json)
    ensures
        view_of(r) == JsonView::Object(seq![]),
{
    let e: Vec<(String, Json)> = Vec::new();
    proof {
        lemma_object_view(e);
        assert(entries_view(e@) =~= Seq::<(Seq<char>, JsonView)>::empty());
    }
    Json::Object(e)
}

/// Reads a message that came while the server waits for the answer to request `id`.
pub fn await_reply(message: &Json, id: &Json) -> (r: Awaited)
    ensures
        awaited_view(r) == spec_await(*message, view_of(*id)),
{
    match message {
        Json::Object(_) => {},
        _ => return Awaited::Other,
    }
    let own_id = json_get(message, "id");
    let matches = match own_id {
        Some(i) => json_equal(i, id),
        None => false,
    };
    if matches {
        return match json_get(message, "result") {
            Some(r) => Awaited::Answer(clone_json(r)),
            None => match json_get(message, "error") {
                Some(e) => Awaited::Failed(clone_json(e)),
                None => Awaited::Failed(empty_object()),
            },
        };
    }
    match (own_id, json_get(message, "method")) {
        (Some(i), Some(_)) => Awaited::Busy(
            jsonrpc_error(clone_json(i), -32000, "Server is waiting for a client response", None),
        ),
        _ => Awaited::Other,
    }
}

impl McpServer {
    /// A request to the client, with the next request id, which is used up.
    pub fn client_request(&mut self, method: &str, params: Json) -> (r: (Json, Json))
        requires
            old(self).next_request_id < u64::MAX,
        ensures
            view_of(r.0) == request_id_view(old(self).next_request_id as nat),
            view_of(r.1) == request_view(view_of(r.0), method@, view_of(params)),
            final(self).next_request_id == old(self).next_request_id + 1,
            final(self).client_capabilities == old(self).client_capabilities,
            final(self).version == old(self).version,
    {
        let ghost pv = view_of(params);
        let mut text = "commit-".to_owned();
        crate::text::push_decimal_u64(&mut text, self.next_request_id);
        let id = Json::Str(text);
        self.next_request_id = self.next_request_id + 1;
        let mut e: Vec<(String, Json)> = Vec::new();
        add_member(&mut e, "jsonrpc", json_string("2.0"));
        add_member(&mut e, "id", clone_json(&id));
        add_member(&mut e, "method", json_string(method));
        add_member(&mut e, "params", params);
        proof {
            lemma_object_view(e);
            assert(entries_view(e@) =~= request_view(view_of(id), method@, pv)->Object_0);
        }
        (id, Json::Object(e))
    }
}

} // verus!

verus! {

pub const ELICITATION_MESSAGE: &'static str = "Review the generated commit message. Edit it if needed, then confirm whether to create the commit.";

/// The prompt of a sampling request: the commit context as JSON, and the reason the
/// previous candidate was refused, when there is one.
pub open spec fn sampling_prompt(context_json: Seq<char>, feedback: Option<Seq<char>>) -> Seq<char> {
    "Generate exactly one commit message for the staged Git changes below.\n\nCommit context JSON:\n"@
        + context_json + match feedback {
        Some(f) => "\n\nPrevious candidate failed validation:\n"@ + f,
        None => seq![],
    }
}

pub open spec fn text_content_view(text: Seq<char>) -> JsonView {
    obj(seq![("type"@, JsonView::Str("text"@)), ("text"@, JsonView::Str(text))])
}

/// The parameters of a sampling request.
pub open spec fn sampling_params_view(prompt: Seq<char>) -> JsonView {
    obj(
        seq![
            ("messages"@, JsonView::Array(
                seq![obj(seq![("role"@, JsonView::Str("user"@)), ("content"@, text_content_view(prompt))])],
            )),
            ("systemPrompt"@, JsonView::Str(COMMIT_SYSTEM_PROMPT@)),
            ("modelPreferences"@, obj(
                seq![
                    ("costPriority"@, JsonView::Number("0.2"@)),
                    ("speedPriority"@, JsonView::Number("0.5"@)),
                    ("intelligencePriority"@, JsonView::Number("0.7"@)),
                ],
            )),
            ("maxTokens"@, JsonView::Number("512"@)),
        ],
    )
}

fn number_text(text: &str) -> (r: Json)
    ensures
        view_of(r) == JsonView::Number(text@),
{
    Json::Number(text.to_owned())
}

/// The parameters of the request that asks the client's model for a message.
pub fn sampling_params(context_json: &str, validation_feedback: Option<&str>) -> (r: Json)
    ensures
        view_of(r) == sampling_params_view(
            sampling_prompt(
                context_json@,
                match validation_feedback {
                    Some(f) => Some(f@),
                    None => None,
                },
            ),
        ),
{
    let mut prompt = "Generate exactly one commit message for the staged Git changes below.\n\nCommit context JSON:\n".to_owned();
    prompt.append(context_json);
    match validation_feedback {
        Some(f) => {
            prompt.append("\n\nPrevious candidate failed validation:\n");
            prompt.append(f);
        },
        None => {},
    }
    let ghost fv = match validation_feedback {
        Some(f) => Some(f@),
        None => None::<Seq<char>>,
    };
    assert(prompt@ =~= sampling_prompt(context_json@, fv));
    let ghost pv = prompt@;
    let mut content: Vec<(String, Json)> = Vec::new();
    add_member(&mut content, "type", json_string("text"));
    add_member(&mut content, "text", Json::Str(prompt));
    proof {
        lemma_object_view(content);
    }
    let mut message: Vec<(String, Json)> = Vec::new();
    add_member(&mut message, "role", json_string("user"));
    add_member(&mut message, "content", Json::Object(content));
    proof {
        lemma_object_view(message);
    }
    let messages = Json::Array(vec![Json::Object(message)]);
    let mut prefs: Vec<(String, Json)> = Vec::new();
    add_member(&mut prefs, "costPriority", number_text("0.2"));
    add_member(&mut prefs, "speedPriority", number_text("0.5"));
    add_member(&mut prefs, "intelligencePriority", number_text("0.7"));
    proof {
        lemma_object_view(prefs);
    }
    let mut e: Vec<(String, Json)> = Vec::new();
    add_member(&mut e, "messages", messages);
    add_member(&mut e, "systemPrompt", json_string(COMMIT_SYSTEM_PROMPT));
    add_member(&mut e, "modelPreferences", Json::Object(prefs));
    add_member(&mut e, "maxTokens", number_text("512"));
    proof {
        lemma_object_view(e);
        let want = sampling_params_view(pv);
        let mv = want->Object_0[0].1->Array_0[0];
        assert(entries_view(content@) =~= text_content_view(pv)->Object_0);
        assert(entries_view(message@) =~= mv->Object_0);
        assert(view_of(messages)->Array_0 =~= seq![mv]);
        assert(entries_view(prefs@) =~= want->Object_0[2].1->Object_0);
        assert(entries_view(e@) =~= want->Object_0);
    }
    Json::Object(e)
}

/// The parameters of the request that asks the user to review a message.
pub open spec fn elicitation_params_view(generated: Seq<char>) -> JsonView {
    obj(
        seq![
            ("message"@, JsonView::Str(ELICITATION_MESSAGE@)),
            ("requestedSchema"@, obj(
                seq![
                    ("type"@, JsonView::Str("object"@)),
                    ("properties"@, obj(
                        seq![
                            ("message"@, obj(
                                seq![
                                    ("type"@, JsonView::Str("string"@)),
                                    ("title"@, JsonView::Str("Commit message"@)),
                                    ("description"@, JsonView::Str("Complete commit message to use with git commit -F."@)),
                                    ("default"@, JsonView::Str(generated)),
                                ],
                            )),
                            ("confirm"@, obj(
                                seq![
                                    ("type"@, JsonView::Str("boolean"@)),
                                    ("title"@, JsonView::Str("Create commit"@)),
                                    ("description"@, JsonView::Str("When true, commit will validate and create the Git commit."@)),
                                    ("default"@, JsonView::Bool(true)),
                                ],
                            )),
                        ],
                    )),
                    ("required"@, JsonView::Array(seq![JsonView::Str("message"@), JsonView::Str("confirm"@)])),
                ],
            )),
        ],
    )
}

/// The parameters of the request that asks the user to review `generated`.
pub fn elicitation_params(generated: &str) -> (r: Json)
    ensures
        view_of(r) == elicitation_params_view(generated@),
{
    let mut message: Vec<(String, Json)> = Vec::new();
    add_member(&mut message, "type", json_string("string"));
    add_member(&mut message, "title", json_string("Commit message"));
    add_member(&mut message, "description", json_string("Complete commit message to use with git commit -F."));
    add_member(&mut message, "default", json_string(generated));
    proof {
        lemma_object_view(message);
    }
    let mut confirm: Vec<(String, Json)> = Vec::new();
    add_member(&mut confirm, "type", json_string("boolean"));
    add_member(&mut confirm, "title", json_string("Create commit"));
    add_member(&mut confirm, "description", json_string("When true, commit will validate and create the Git commit."));
    add_member(&mut confirm, "default", Json::Bool(true));
    proof {
        lemma_object_view(confirm);
    }
    let mut props: Vec<(String, Json)> = Vec::new();
    add_member(&mut props, "message", Json::Object(message));
    add_member(&mut props, "confirm", Json::Object(confirm));
    proof {
        lemma_object_view(props);
    }
    let required = Json::Array(vec![json_string("message"), json_string("confirm")]);
    let mut schema: Vec<(String, Json)> = Vec::new();
    add_member(&mut schema, "type", json_string("object"));
    add_member(&mut schema, "properties", Json::Object(props));
    add_member(&mut schema, "required", required);
    proof {
        lemma_object_view(schema);
    }
    let mut e: Vec<(String, Json)> = Vec::new();
    add_member(&mut e, "message", json_string(ELICITATION_MESSAGE));
    add_member(&mut e, "requestedSchema", Json::Object(schema));
    proof {
        lemma_object_view(e);
        let want = elicitation_params_view(generated@);
        let sv = want->Object_0[1].1;
        let pv = sv->Object_0[1].1;
        assert(entries_view(message@) =~= pv->Object_0[0].1->Object_0);
        assert(entries_view(confirm@) =~= pv->Object_0[1].1->Object_0);
        assert(entries_view(props@) =~= pv->Object_0);
        assert(view_of(required)->Array_0 =~= sv->Object_0[2].1->Array_0);
        assert(entries_view(schema@) =~= sv->Object_0);
        assert(entries_view(e@) =~= want->Object_0);
    }
    Json::Object(e)
}

} // verus!

verus! {

/// The text of a text content block.
pub open spec fn text_content(v: Json) -> Option<Seq<char>> {
    if str_of(get(v, "type"@)) == Some("text"@) {
        str_of(get(v, "text"@))
    } else {
        None
    }
}

/// The texts of the text blocks among `items`, in order.
pub open spec fn texts_of(items: Seq<Json>) -> Seq<Seq<char>>
    decreases items.len(),
{
    if items.len() == 0 {
        seq![]
    } else {
        texts_of(items.drop_last()) + match text_content(items.last()) {
            Some(t) => seq![t],
            None => seq![],
        }
    }
}

/// The text of a sampling result: its content when that is one text block, else the
/// texts of the blocks of a content array joined by line feeds, when they are not
/// blank.
pub open spec fn spec_extract_text(result: Json) -> Option<Seq<char>> {
    match get(result, "content"@) {
        None => None,
        Some(c) => match text_content(c) {
            Some(t) => Some(t),
            None => match c {
                Json::Array(items) => {
                    let t = crate::text::join(texts_of(items@), "\n"@);
                    if all_ws(t) {
                        None
                    } else {
                        Some(t)
                    }
                },
                _ => None,
            },
        },
    }
}

fn text_content_of(v: &Json) -> (r: Option<&str>)
    ensures
        match r {
            Some(t) => text_content(*v) == Some(t@),
            None => text_content(*v) is None,
        },
{
    match json_str(json_get(v, "type")) {
        Some(t) => {
            if strings_equal(t, "text") {
                json_str(json_get(v, "text"))
            } else {
                None
            }
        },
        None => None,
    }
}

/// Reads the text a sampling result carries.
pub fn extract_text_content(result: &Json) -> (r: Option<String>)
    ensures
        match r {
            Some(t) => spec_extract_text(*result) == Some(t@),
            None => spec_extract_text(*result) is None,
        },
{
    let content = match json_get(result, "content") {
        Some(c) => c,
        None => return None,
    };
    match text_content_of(content) {
        Some(t) => return Some(t.to_owned()),
        None => {},
    }
    let items = match content {
        Json::Array(items) => items,
        _ => return None,
    };
    let mut texts: Vec<String> = Vec::new();
    let mut i: usize = 0;
    while i < items.len()
        invariant
            i <= items@.len(),
            texts@.map_values(|s: String| s@) == texts_of(items@.take(i as int)),
        decreases items@.len() - i,
    {
        let ghost before = texts@.map_values(|s: String| s@);
        assert(items@.take(i + 1).drop_last() =~= items@.take(i as int));
        match text_content_of(&items[i]) {
            Some(t) => {
                texts.push(t.to_owned());
                assert(texts@.map_values(|s: String| s@) =~= before + seq![t@]);
            },
            None => {
                assert(texts@.map_values(|s: String| s@) =~= before + Seq::<Seq<char>>::empty());
            },
        }
        i += 1;
    }
    assert(items@.take(i as int) =~= items@);
    let mut joined = String::new();
    crate::text::push_joined(&mut joined, &texts, "\n");
    assert(joined@ =~= crate::text::join(texts_of(items@), "\n"@));
    if is_blank(joined.as_str()) {
        None
    } else {
        Some(joined)
    }
}

/// The message a sampling result gives: its text without reasoning blocks, trimmed,
/// when that is not empty.
pub open spec fn spec_sampled(result: Json) -> Result<Seq<char>, Seq<char>> {
    match spec_extract_text(result) {
        Some(t) => {
            let m = trim_of(strip_thinking(t), CharClass::Whitespace);
            if m.len() > 0 {
                Ok(m)
            } else {
                Err("sampling response did not contain text content"@)
            }
        },
        None => Err("sampling response did not contain text content"@),
    }
}

/// Reads the generated message from a sampling result.
pub fn sampled_message(result: &Json) -> (r: Result<String, String>)
    ensures
        match (r, spec_sampled(*result)) {
            (Ok(m), Ok(n)) => m@ == n,
            (Err(e), Err(f)) => e@ == f,
            _ => false,
        },
{
    match extract_text_content(result) {
        Some(t) => {
            let stripped = strip_thinking_blocks(t.as_str());
            let m = trimmed(stripped.as_str());
            if m.as_str().is_empty() {
                Err("sampling response did not contain text content".to_owned())
            } else {
                Ok(m)
            }
        },
        None => Err("sampling response did not contain text content".to_owned()),
    }
}

/// The user's review of a generated message.
#[derive(Debug)]
pub struct ElicitationReview {
    pub action: String,
    pub message: Option<String>,
    pub confirm: bool,
}

/// Reads the result of the review request: the action is required; the message and
/// the confirmation are read from its content, the confirmation false when missing.
pub fn parse_elicitation_review(value: &Json) -> (r: Result<ElicitationReview, String>)
    ensures
        str_of(get(*value, "action"@)) is None <==> r is Err,
        r matches Err(e) ==> e@ == "elicitation response missing action"@,
        r matches Ok(review) ==> {
            let content = get(*value, "content"@);
            &&& str_of(get(*value, "action"@)) == Some(review.action@)
            &&& match review.message {
                Some(m) => str_of(param(content, "message"@)) == Some(m@),
                None => str_of(param(content, "message"@)) is None,
            }
            &&& review.confirm == match bool_of(param(content, "confirm"@)) {
                Some(b) => b,
                None => false,
            }
        },
{
    let action = match json_str(json_get(value, "action")) {
        Some(a) => a.to_owned(),
        None => return Err("elicitation response missing action".to_owned()),
    };
    let content = json_get(value, "content");
    let message = match json_str(opt_get(content, "message")) {
        Some(m) => Some(m.to_owned()),
        None => None,
    };
    let confirm = match opt_get(content, "confirm") {
        Some(Json::Bool(b)) => *b,
        _ => false,
    };
    Ok(ElicitationReview { action, message, confirm })
}

/// How the one-call commit goes on after the user's review.
#[derive(Debug)]
pub enum ReviewOutcome {
    /// No commit: this is the tool's outcome.
    Finished(CommitStagedOutput),
    /// Commit `final_message`, recorded beside the generated message.
    Commit { generated_message: String, final_message: String },
}

/// Decides on a review: an action other than `accept` ends without a commit under that
/// action; an accepted review without confirmation ends as `decline`, keeping the
/// user's message; a confirmed one commits the user's message, or the generated one
/// where the user's is missing or blank.
pub fn review_outcome(generated: String, review: ElicitationReview) -> (r: ReviewOutcome)
    ensures
        review.action@ != "accept"@ ==> (r matches ReviewOutcome::Finished(o) && !o.committed
            && o.action == review.action && o.generated_message == generated && o.final_message is None
            && o.execute is None),
        review.action@ == "accept"@ && !review.confirm ==> (r matches ReviewOutcome::Finished(o)
            && !o.committed && o.action@ == "decline"@ && o.generated_message == generated
            && o.final_message == review.message && o.execute is None),
        review.action@ == "accept"@ && review.confirm ==> (r matches ReviewOutcome::Commit {
            generated_message,
            final_message,
        } && generated_message == generated && final_message@ == match review.message {
            Some(m) => if all_ws(m@) {
                generated@
            } else {
                m@
            },
            None => generated@,
        }),
{
    if !strings_equal(review.action.as_str(), "accept") {
        return ReviewOutcome::Finished(
            CommitStagedOutput {
                committed: false,
                action: review.action,
                generated_message: generated,
                final_message: None,
                execute: None,
            },
        );
    }
    if !review.confirm {
        return ReviewOutcome::Finished(
            CommitStagedOutput {
                committed: false,
                action: "decline".to_owned(),
                generated_message: generated,
                final_message: review.message,
                execute: None,
            },
        );
    }
    let final_message = match review.message {
        Some(m) => {
            if is_blank(m.as_str()) {
                generated.clone()
            } else {
                m
            }
        },
        None => generated.clone(),
    };
    ReviewOutcome::Commit { generated_message: generated, final_message }
}

/// The outcome of a one-call commit that was made.
pub fn committed_output(generated_message: String, final_message: String, execute: ExecuteOutput) -> (r:
    CommitStagedOutput)
    ensures
        r.committed,
        r.action@ == "accept"@,
        r.generated_message == generated_message,
        r.final_message == Some(final_message),
        r.execute == Some(execute),
{
    CommitStagedOutput {
        committed: true,
        action: "accept".to_owned(),
        generated_message,
        final_message: Some(final_message),
        execute: Some(execute),
    }
}

/// The one-call commit needs both sampling and elicitation from the client.
pub fn check_capabilities(caps: ClientCapabilities) -> (r: Result<(), String>)
    ensures
        r is Ok <==> caps.sampling && caps.elicitation,
        !caps.sampling ==> (r matches Err(e) && e@ == "client did not declare MCP sampling capability"@),
        caps.sampling && !caps.elicitation ==> (r matches Err(e) && e@
            == "client did not declare MCP elicitation capability"@),
{
    if !caps.sampling {
        return Err("client did not declare MCP sampling capability".to_owned());
    }
    if !caps.elicitation {
        return Err("client did not declare MCP elicitation capability".to_owned());
    }
    Ok(())
}

/// The error of a request to the client, under the request's name.
pub fn request_failed(kind: &str, error: &str) -> (r: String)
    ensures
        r@ == kind@ + " request failed: "@ + error@,
{
    let mut m = kind.to_owned();
    m.append(" request failed: ");
    m.append(error);
    m
}

/// The error when the client closed the connection before answering `method`.
pub fn connection_closed(method: &str) -> (r: String)
    ensures
        r@ == "client closed connection while waiting for "@ + method@,
{
    let mut m = "client closed connection while waiting for ".to_owned();
    m.append(method);
    m
}

/// The error when the client answered a request with an error; `error_json` is that
/// error written as JSON.
pub fn client_failure(error_json: &str) -> (r: String)
    ensures
        r@ == "client request failed: "@ + error_json@,
{
    let mut m = "client request failed: ".to_owned();
    m.append(error_json);
    m
}

/// The error for tool arguments that do not decode; `detail` is the decoder's message.
pub fn invalid_arguments(detail: &str) -> (r: McpError)
    ensures
        r.code == -32602,
        r.message@ == "invalid tool arguments: "@ + detail@,
        r.data is None,
{
    let mut m = "invalid tool arguments: ".to_owned();
    m.append(detail);
    invalid_params(m)
}

/// The error for an outcome that could not be written as JSON.
pub fn internal_error(detail: &str) -> (r: McpError)
    ensures
        r.code == -32603,
        r.message@ == "Internal error"@,
        opt_view(r.data) == Some(JsonView::Str(detail@)),
{
    McpError { code: -32603, message: "Internal error".to_owned(), data: Some(json_string(detail)) }
}

/// The result of a tool call: its outcome as text and as structured content, or its
/// error, both flagged.
pub open spec fn tool_result_view(outcome: Result<(JsonView, Seq<char>), Seq<char>>) -> JsonView {
    match outcome {
        Ok((structured, text)) => obj(
            seq![
                ("content"@, JsonView::Array(seq![text_content_view(text)])),
                ("structuredContent"@, structured),
                ("isError"@, JsonView::Bool(false)),
            ],
        ),
        Err(error) => obj(
            seq![
                ("content"@, JsonView::Array(seq![text_content_view(error)])),
                ("structuredContent"@, obj(seq![("error"@, JsonView::Str(error))])),
                ("isError"@, JsonView::Bool(true)),
            ],
        ),
    }
}

fn text_block(text: &str) -> (r: Json)
    ensures
        view_of(r) == text_content_view(text@),
{
    let mut e: Vec<(String, Json)> = Vec::new();
    add_member(&mut e, "type", json_string("text"));
    add_member(&mut e, "text", json_string(text));
    proof {
        lemma_object_view(e);
        assert(entries_view(e@) =~= text_content_view(text@)->Object_0);
    }
    Json::Object(e)
}

/// The result of a tool call; `Ok` carries the outcome as JSON and the same JSON
/// written out as text.
pub fn tool_result(outcome: Result<(Json, String), String>) -> (r: Json)
    ensures
        view_of(r) == tool_result_view(
            match outcome {
                Ok((s, t)) => Ok((view_of(s), t@)),
                Err(e) => Err(e@),
            },
        ),
{
    match outcome {
        Ok((structured, text)) => {
            let ghost sv = view_of(structured);
            let content = Json::Array(vec![text_block(text.as_str())]);
            let mut e: Vec<(String, Json)> = Vec::new();
            add_member(&mut e, "content", content);
            add_member(&mut e, "structuredContent", structured);
            add_member(&mut e, "isError", Json::Bool(false));
            proof {
                lemma_object_view(e);
                let want = tool_result_view(Ok((sv, text@)));
                assert(view_of(content)->Array_0 =~= want->Object_0[0].1->Array_0);
                assert(entries_view(e@) =~= want->Object_0);
            }
            Json::Object(e)
        },
        Err(error) => {
            let content = Json::Array(vec![text_block(error.as_str())]);
            let mut se: Vec<(String, Json)> = Vec::new();
            add_member(&mut se, "error", json_string(error.as_str()));
            proof {
                lemma_object_view(se);
            }
            let mut e: Vec<(String, Json)> = Vec::new();
            add_member(&mut e, "content", content);
            add_member(&mut e, "structuredContent", Json::Object(se));
            add_member(&mut e, "isError", Json::Bool(true));
            proof {
                lemma_object_view(e);
                let want = tool_result_view(Err(error@));
                assert(view_of(content)->Array_0 =~= want->Object_0[0].1->Array_0);
                assert(entries_view(se@) =~= want->Object_0[1].1->Object_0);
                assert(entries_view(e@) =~= want->Object_0);
            }
            Json::Object(e)
        },
    }
}

/// The answer to a batch: the answers of its messages, or nothing when none was
/// answered.
pub fn batch_answer(responses: Vec<Json>) -> (r: Option<Json>)
    ensures
        responses@.len() == 0 <==> r is None,
        r matches Some(j) ==> j == Json::Array(responses),
{
    if responses.len() == 0 {
        None
    } else {
        Some(Json::Array(responses))
    }
}

} // verus!

verus! {

/// A notification, a message with a method and no id, is never answered and changes
/// nothing.
pub proof fn law_notifications_are_not_answered(
    caps: ClientCapabilities,
    value: Json,
    fallback: bool,
    version: Seq<char>,
)
    requires
        value is Object,
        str_of(get(value, "method"@)) is Some,
        get(value, "id"@) is None,
    ensures
        spec_handle(caps, value, fallback, version) == (caps, IncomingView::Silent),
{
}

/// While the fallback tools are not exposed, a call of one of them is refused with an
/// invalid-parameters error that says how to expose them, and nothing runs.
pub proof fn law_fallback_calls_refused_while_hidden(
    caps: ClientCapabilities,
    value: Json,
    version: Seq<char>,
    id: Json,
)
    requires
        value is Object,
        get(value, "id"@) == Some(id),
        str_of(get(value, "method"@)) == Some("tools/call"@),
        str_of(param(get(value, "params"@), "name"@)) == Some("prepare_commit"@) || str_of(
            param(get(value, "params"@), "name"@),
        ) == Some("execute_commit"@),
    ensures
        spec_handle(caps, value, false, version) == (
            caps,
            IncomingView::Reply(error_view(view_of(id), -32602, fallback_disabled_text(), None)),
        ),
{
    reveal_strlit("tools/call");
    reveal_strlit("initialize");
    reveal_strlit("ping");
    reveal_strlit("tools/list");
    reveal_strlit("commit_staged");
    reveal_strlit("prepare_commit");
    reveal_strlit("execute_commit");
    assert("tools/call"@[0] != "initialize"@[0]);
    assert("tools/call"@.len() != "ping"@.len());
    assert("tools/call"@[6] != "tools/list"@[6]);
    assert("prepare_commit"@[0] != "commit_staged"@[0]);
    assert("execute_commit"@[0] != "commit_staged"@[0]);
    let params = get(value, "params"@);
    assert(spec_tool(params, false) == Err::<ToolName, Seq<char>>(fallback_disabled_text()));
}

/// The tool list names the one-call commit alone, and the fallback tools after it
/// only while they are exposed.
pub proof fn law_fallback_tools_listed_only_when_exposed(fallback: bool)
    ensures
        tools_list_view(fallback)->Object_0[0].1->Array_0[0] == commit_staged_tool_view(),
        tools_list_view(fallback)->Object_0[0].1->Array_0.len() == if fallback {
            3int
        } else {
            1int
        },
{
}

/// `initialize` answers the server's own capabilities, tools and prompts, and never
/// claims sampling or elicitation for the server; it records what the client declared.
pub proof fn law_initialize_records_client_capabilities(
    caps: ClientCapabilities,
    value: Json,
    fallback: bool,
    version: Seq<char>,
    id: Json,
    params: Json,
)
    requires
        value is Object,
        get(value, "id"@) == Some(id),
        str_of(get(value, "method"@)) == Some("initialize"@),
        get(value, "params"@) == Some(params),
    ensures
        spec_handle(caps, value, fallback, version).0 == spec_capabilities(params),
        initialize_view(Some(params), version)->Object_0[1].1 == obj(
            seq![
                ("tools"@, obj(seq![("listChanged"@, JsonView::Bool(false))])),
                ("prompts"@, obj(seq![("listChanged"@, JsonView::Bool(false))])),
            ],
        ),
{
}

/// The names of the listed tools, for each value of the variable that exposes the
/// fallback tools: `commit_staged` alone, unless the value enables them; the one-call
/// tool says that it asks the client for `sampling/createMessage`.
pub proof fn law_tool_names_follow_the_variable(value: Option<Seq<char>>)
    ensures
        ({
            let enabled = match value {
                Some(v) => enables_fallback(v),
                None => false,
            };
            tools_list_view(enabled)->Object_0[0].1->Array_0.map_values(
                |t: JsonView| t->Object_0[0].1,
            ) == if enabled {
                seq![
                    JsonView::Str("commit_staged"@),
                    JsonView::Str("prepare_commit"@),
                    JsonView::Str("execute_commit"@),
                ]
            } else {
                seq![JsonView::Str("commit_staged"@)]
            }
        }),
        contains_seq(COMMIT_STAGED_DESCRIPTION@, "sampling/createMessage"@),
{
    let enabled = match value {
        Some(v) => enables_fallback(v),
        None => false,
    };
    let tools = tools_list_view(enabled)->Object_0[0].1->Array_0;
    assert(tools.map_values(|t: JsonView| t->Object_0[0].1) =~= if enabled {
        seq![
            JsonView::Str("commit_staged"@),
            JsonView::Str("prepare_commit"@),
            JsonView::Str("execute_commit"@),
        ]
    } else {
        seq![JsonView::Str("commit_staged"@)]
    });
    reveal_strlit("Default commit flow. Use this single tool call to collect staged context, request sampling/createMessage for a commit message, request elicitation/create for user review, then validate and create the commit.");
    reveal_strlit("sampling/createMessage");
    assert(COMMIT_STAGED_DESCRIPTION@.subrange(82, 104) =~= "sampling/createMessage"@);
    assert(occurs_at(COMMIT_STAGED_DESCRIPTION@, "sampling/createMessage"@, 82));
}

/// The methods the server answers beside the error for an unknown method.
pub open spec fn handled_method(m: Seq<char>) -> bool {
    m == "initialize"@ || m == "ping"@ || m == "tools/list"@ || m == "tools/call"@ || m
        == "prompts/list"@ || m == "prompts/get"@
}

/// How each kind of message is answered: a message that is not an object is an
/// invalid request with a null id; a request without a method is an invalid request;
/// an unknown method is not found; `initialize` answers the client's protocol version,
/// or the server's own when the client names none. Every answer carries the id of the
/// request, and none of these changes what the server knows of the client, but for
/// `initialize`.
pub proof fn law_each_kind_of_message(
    caps: ClientCapabilities,
    value: Json,
    fallback: bool,
    version: Seq<char>,
    id: Json,
    m: Seq<char>,
)
    ensures
        !(value is Object) ==> spec_handle(caps, value, fallback, version) == (
            caps,
            IncomingView::Reply(
                error_view(
                    JsonView::Null,
                    -32600,
                    "Invalid Request"@,
                    Some(JsonView::Str("message must be a JSON object"@)),
                ),
            ),
        ),
        value is Object && get(value, "id"@) == Some(id) && str_of(get(value, "method"@)) is None
            ==> spec_handle(caps, value, fallback, version) == (
            caps,
            IncomingView::Reply(
                error_view(view_of(id), -32600, "Invalid Request"@, Some(JsonView::Str("missing method"@))),
            ),
        ),
        value is Object && get(value, "id"@) == Some(id) && str_of(get(value, "method"@)) == Some(m)
            && !handled_method(m) ==> spec_handle(caps, value, fallback, version) == (
            caps,
            IncomingView::Reply(
                error_view(view_of(id), -32601, "Method not found"@, Some(JsonView::Str(m))),
            ),
        ),
        value is Object && get(value, "id"@) == Some(id) && str_of(get(value, "method"@)) == Some(
            "initialize"@,
        ) ==> spec_handle(caps, value, fallback, version).1 == IncomingView::Reply(
            result_view(view_of(id), initialize_view(get(value, "params"@), version)),
        ) && initialize_view(get(value, "params"@), version)->Object_0[0] == (
            "protocolVersion"@,
            JsonView::Str(
                match str_of(param(get(value, "params"@), "protocolVersion"@)) {
                    Some(v) => v,
                    None => PROTOCOL_VERSION@,
                },
            ),
        ),
{
}

} // verus!
