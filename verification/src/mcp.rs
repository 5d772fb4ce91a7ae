//! The façade that a harness speaks to: the tools it has, and how each becomes a call of
//! the kernel under the harness's token.
use crate::json::{
    field, json_text, number_json, number_to_json, text_field, texts_json, texts_to_json, Fields,
    Items, Json, JsonView,
};
use crate::model::{all, Duplicate};
use crate::pretty::{pretty, pretty_text};
use crate::text::{begins, cat, cat3, cat4, same};
use vstd::prelude::*;

verus! {

/// The revision of the protocol that is spoken where a client names none.
pub const PROTOCOL_VERSION: &'static str = "2024-11-05";

/// The name that the tools are served under.
pub const SERVER_NAME: &'static str = "vk";

/// There is no such method.
pub const NO_METHOD: i64 = -32601;

/// Who answers, and what it can do: the client's revision of the protocol, and tools.
pub open spec fn greeting(client_version: Option<Seq<char>>, version: Seq<char>) -> JsonView {
    JsonView::Object(
        seq![
            (
                "protocolVersion"@,
                JsonView::Text(
                    match client_version {
                        Some(v) => v,
                        None => PROTOCOL_VERSION@,
                    },
                ),
            ),
            (
                "capabilities"@,
                JsonView::Object(seq![("tools"@, JsonView::Object(Seq::empty()))]),
            ),
            (
                "serverInfo"@,
                JsonView::Object(
                    seq![
                        ("name"@, JsonView::Text(SERVER_NAME@)),
                        ("version"@, JsonView::Text(version)),
                    ],
                ),
            ),
        ],
    )
}

fn empty_object() -> (r: Json)
    ensures
        r@ == JsonView::Object(Seq::empty()),
{
    Fields::new().object()
}

/// Who answers, and what it can do.
pub fn initialize_result(client_version: Option<&str>, version: &str) -> (r: Json)
    ensures
        r@ == greeting(
            match client_version {
                Some(v) => Some(v@),
                None => None,
            },
            version@,
        ),
{
    let mut tools = Fields::new();
    tools.put("tools", empty_object());
    assert(tools@ =~= seq![("tools"@, JsonView::Object(Seq::empty()))]);
    let mut info = Fields::new();
    info.put_text("name", SERVER_NAME);
    info.put_text("version", version);
    assert(info@ =~= seq![
        ("name"@, JsonView::Text(SERVER_NAME@)),
        ("version"@, JsonView::Text(version@)),
    ]);
    let spoken = match client_version {
        Some(v) => v,
        None => PROTOCOL_VERSION,
    };
    let mut f = Fields::new();
    f.put_text("protocolVersion", spoken);
    f.put("capabilities", tools.object());
    f.put("serverInfo", info.object());
    assert(f@ =~= greeting(
        match client_version {
            Some(v) => Some(v@),
            None => None,
        },
        version@,
    )->Object_0);
    f.object()
}

/// An answer to the request with this id.
pub open spec fn result_json(id: JsonView, result: JsonView) -> JsonView {
    JsonView::Object(
        seq![("jsonrpc"@, JsonView::Text("2.0"@)), ("id"@, id), ("result"@, result)],
    )
}

/// An answer to the request with this id.
pub fn ok(id: Json, result: Json) -> (r: Json)
    ensures
        r@ == result_json(id@, result@),
{
    let ghost views = (id@, result@);
    let mut f = Fields::new();
    f.put_text("jsonrpc", "2.0");
    f.put("id", id);
    f.put("result", result);
    assert(f@ =~= result_json(views.0, views.1)->Object_0);
    f.object()
}

/// A refusal of the request with this id.
pub open spec fn error_json(id: JsonView, code: int, message: Seq<char>) -> JsonView {
    JsonView::Object(
        seq![
            ("jsonrpc"@, JsonView::Text("2.0"@)),
            ("id"@, id),
            (
                "error"@,
                JsonView::Object(
                    seq![("code"@, number_json(code)), ("message"@, JsonView::Text(message))],
                ),
            ),
        ],
    )
}

/// A refusal of the request with this id.
pub fn err(id: Json, code: i64, message: &str) -> (r: Json)
    ensures
        r@ == error_json(id@, code as int, message@),
{
    let ghost view = id@;
    let mut e = Fields::new();
    e.put("code", number_to_json(code));
    e.put_text("message", message);
    assert(e@ =~= seq![
        ("code"@, number_json(code as int)),
        ("message"@, JsonView::Text(message@)),
    ]);
    let mut f = Fields::new();
    f.put_text("jsonrpc", "2.0");
    f.put("id", id);
    f.put("error", e.object());
    assert(f@ =~= error_json(view, code as int, message@)->Object_0);
    f.object()
}

/// What a tool gave, as one block of text.
pub open spec fn tool_json(text: Seq<char>, is_error: bool) -> JsonView {
    JsonView::Object(
        seq![
            (
                "content"@,
                JsonView::Array(
                    seq![
                        JsonView::Object(
                            seq![
                                ("type"@, JsonView::Text("text"@)),
                                ("text"@, JsonView::Text(text)),
                            ],
                        ),
                    ],
                ),
            ),
            ("isError"@, JsonView::Bool(is_error)),
        ],
    )
}

/// What a tool gave, as one block of text.
pub fn tool_result(text: &str, is_error: bool) -> (r: Json)
    ensures
        r@ == tool_json(text@, is_error),
{
    let mut b = Fields::new();
    b.put_text("type", "text");
    b.put_text("text", text);
    assert(b@ =~= seq![("type"@, JsonView::Text("text"@)), ("text"@, JsonView::Text(text@))]);
    let mut items = Items::new();
    items.add(b.object());
    assert(items@ =~= tool_json(text@, is_error)->Object_0[0].1->Array_0);
    let mut f = Fields::new();
    f.put("content", items.array());
    f.put("isError", Json::Bool(is_error));
    assert(f@ =~= tool_json(text@, is_error)->Object_0);
    f.object()
}

/// A text that a tool takes.
pub open spec fn argument_json(description: Option<Seq<char>>) -> JsonView {
    JsonView::Object(
        match description {
            Some(d) => seq![
                ("type"@, JsonView::Text("string"@)),
                ("description"@, JsonView::Text(d)),
            ],
            None => seq![("type"@, JsonView::Text("string"@))],
        },
    )
}

fn argument(description: Option<&str>) -> (r: Json)
    ensures
        r@ == argument_json(
            match description {
                Some(d) => Some(d@),
                None => None,
            },
        ),
{
    let mut f = Fields::new();
    f.put_text("type", "string");
    if let Some(d) = description {
        f.put_text("description", d);
    }
    assert(f@ =~= argument_json(
        match description {
            Some(d) => Some(d@),
            None => None,
        },
    )->Object_0);
    f.object()
}

/// What a tool takes: these, all of them needed, and nothing else.
pub open spec fn schema_json(properties: Seq<(Seq<char>, JsonView)>, needed: Seq<Seq<char>>) -> JsonView {
    let head = seq![
        ("type"@, JsonView::Text("object"@)),
        ("properties"@, JsonView::Object(properties)),
    ];
    let named = if needed.len() > 0 {
        head.push(("required"@, texts_json(needed)))
    } else {
        head
    };
    JsonView::Object(named.push(("additionalProperties"@, JsonView::Bool(false))))
}

fn schema(properties: Fields, needed: &Vec<String>) -> (r: Json)
    ensures
        r@ == schema_json(properties@, all(needed@)),
{
    let ghost ps = properties@;
    let mut f = Fields::new();
    f.put_text("type", "object");
    f.put("properties", properties.object());
    assert(all(needed@).len() == needed@.len());
    if needed.len() > 0 {
        f.put("required", texts_to_json(needed));
    }
    f.put("additionalProperties", Json::Bool(false));
    assert(f@ =~= schema_json(ps, all(needed@))->Object_0);
    f.object()
}

/// One tool.
pub open spec fn described(name: Seq<char>, description: Seq<char>, input: JsonView) -> JsonView {
    JsonView::Object(
        seq![
            ("name"@, JsonView::Text(name)),
            ("description"@, JsonView::Text(description)),
            ("inputSchema"@, input),
        ],
    )
}

fn describe(name: &str, description: &str, input: Json) -> (r: Json)
    ensures
        r@ == described(name@, description@, input@),
{
    let ghost view = input@;
    let mut f = Fields::new();
    f.put_text("name", name);
    f.put_text("description", description);
    f.put("inputSchema", input);
    assert(f@ =~= described(name@, description@, view)->Object_0);
    f.object()
}

/// The tools.
#[derive(Clone, Copy, Debug, PartialEq, Eq, Structural)]
pub enum Tool {
    ReadRegister,
    WriteDecision,
    AttachArtefact,
    RequestApproval,
    Log,
}

/// A tool, as the list has it.
pub open spec fn tool_entry(t: Tool) -> JsonView {
    match t {
        Tool::ReadRegister => described(
            "vk_read_register"@,
            "Read the task register the kernel is running: its goal, constraints, plan decisions and evidence, as the harness clearance may see them."@,
            schema_json(Seq::empty(), Seq::empty()),
        ),
        Tool::WriteDecision => described(
            "vk_write_decision"@,
            "Append a decision to the task register."@,
            schema_json(
                seq![("text"@, argument_json(Some("The decision to record."@)))],
                seq!["text"@],
            ),
        ),
        Tool::AttachArtefact => described(
            "vk_attach_artefact"@,
            "Attach a file from the workspace to the register as an artefact of the given kind. Path is relative to the workspace (e.g. OUT/proposal.md)."@,
            schema_json(
                seq![
                    (
                        "kind"@,
                        argument_json(Some("The artefact kind, e.g. \"proposal\"."@)),
                    ),
                    ("path"@, argument_json(Some("Workspace-relative path to the file."@))),
                ],
                seq!["kind"@, "path"@],
            ),
        ),
        Tool::RequestApproval => described(
            "vk_request_approval"@,
            "Ask a human to approve the task's latest artefact."@,
            schema_json(Seq::empty(), Seq::empty()),
        ),
        Tool::Log => described(
            "vk_log"@,
            "Record a line in the harness log."@,
            schema_json(seq![("message"@, argument_json(None))], seq!["message"@]),
        ),
    }
}

/// The tools, in order.
pub open spec fn tools_json() -> JsonView {
    JsonView::Object(
        seq![
            (
                "tools"@,
                JsonView::Array(
                    seq![
                        tool_entry(Tool::ReadRegister),
                        tool_entry(Tool::WriteDecision),
                        tool_entry(Tool::AttachArtefact),
                        tool_entry(Tool::RequestApproval),
                        tool_entry(Tool::Log),
                    ],
                ),
            ),
        ],
    )
}

fn entry(t: Tool) -> (r: Json)
    ensures
        r@ == tool_entry(t),
{
    let mut properties = Fields::new();
    let mut needed: Vec<String> = Vec::new();
    match t {
        Tool::ReadRegister => {
            assert(all(needed@) =~= Seq::<Seq<char>>::empty());
            describe(
                "vk_read_register",
                "Read the task register the kernel is running: its goal, constraints, plan decisions and evidence, as the harness clearance may see them.",
                schema(properties, &needed),
            )
        },
        Tool::WriteDecision => {
            properties.put("text", argument(Some("The decision to record.")));
            assert(properties@ =~= seq![
                ("text"@, argument_json(Some("The decision to record."@))),
            ]);
            needed.push("text".to_owned());
            assert(all(needed@) =~= seq!["text"@]);
            describe(
                "vk_write_decision",
                "Append a decision to the task register.",
                schema(properties, &needed),
            )
        },
        Tool::AttachArtefact => {
            properties.put("kind", argument(Some("The artefact kind, e.g. \"proposal\".")));
            properties.put("path", argument(Some("Workspace-relative path to the file.")));
            assert(properties@ =~= seq![
                ("kind"@, argument_json(Some("The artefact kind, e.g. \"proposal\"."@))),
                ("path"@, argument_json(Some("Workspace-relative path to the file."@))),
            ]);
            needed.push("kind".to_owned());
            needed.push("path".to_owned());
            assert(all(needed@) =~= seq!["kind"@, "path"@]);
            describe(
                "vk_attach_artefact",
                "Attach a file from the workspace to the register as an artefact of the given kind. Path is relative to the workspace (e.g. OUT/proposal.md).",
                schema(properties, &needed),
            )
        },
        Tool::RequestApproval => {
            assert(all(needed@) =~= Seq::<Seq<char>>::empty());
            describe(
                "vk_request_approval",
                "Ask a human to approve the task's latest artefact.",
                schema(properties, &needed),
            )
        },
        Tool::Log => {
            properties.put("message", argument(None));
            assert(properties@ =~= seq![("message"@, argument_json(None))]);
            needed.push("message".to_owned());
            assert(all(needed@) =~= seq!["message"@]);
            describe("vk_log", "Record a line in the harness log.", schema(properties, &needed))
        },
    }
}

/// The tools, in order.
pub fn tool_list() -> (r: Json)
    ensures
        r@ == tools_json(),
{
    let mut items = Items::new();
    items.add(entry(Tool::ReadRegister));
    items.add(entry(Tool::WriteDecision));
    items.add(entry(Tool::AttachArtefact));
    items.add(entry(Tool::RequestApproval));
    items.add(entry(Tool::Log));
    assert(items@ =~= tools_json()->Object_0[0].1->Array_0);
    let mut f = Fields::new();
    f.put("tools", items.array());
    assert(f@ =~= tools_json()->Object_0);
    f.object()
}

/// The tool of this name, if there is one.
pub open spec fn tool_in(name: Seq<char>) -> Option<Tool> {
    if name == "vk_read_register"@ {
        Some(Tool::ReadRegister)
    } else if name == "vk_write_decision"@ {
        Some(Tool::WriteDecision)
    } else if name == "vk_attach_artefact"@ {
        Some(Tool::AttachArtefact)
    } else if name == "vk_request_approval"@ {
        Some(Tool::RequestApproval)
    } else if name == "vk_log"@ {
        Some(Tool::Log)
    } else {
        None
    }
}

fn read_tool(name: &str) -> (r: Option<Tool>)
    ensures
        r == tool_in(name@),
{
    if same(name, "vk_read_register") {
        Some(Tool::ReadRegister)
    } else if same(name, "vk_write_decision") {
        Some(Tool::WriteDecision)
    } else if same(name, "vk_attach_artefact") {
        Some(Tool::AttachArtefact)
    } else if same(name, "vk_request_approval") {
        Some(Tool::RequestApproval)
    } else if same(name, "vk_log") {
        Some(Tool::Log)
    } else {
        None
    }
}

/// A call of the kernel.
pub struct Syscall {
    pub method: String,
    pub params: Json,
}

/// What a [`Syscall`] says.
pub struct SyscallView {
    pub method: Seq<char>,
    pub params: JsonView,
}

impl View for Syscall {
    type V = SyscallView;

    open spec fn view(&self) -> SyscallView {
        SyscallView { method: self.method@, params: self.params@ }
    }
}

/// What is said of a tool that lacks an argument.
pub open spec fn lacks(name: Seq<char>, key: Seq<char>) -> Seq<char> {
    name + " needs a string `"@ + key + "`"@
}

/// A call under a token, with one argument of the tool.
pub open spec fn call_with(
    method: Seq<char>,
    token: Seq<char>,
    name: Seq<char>,
    args: JsonView,
    key: Seq<char>,
) -> Result<SyscallView, Seq<char>> {
    match text_field(args, key) {
        None => Err(lacks(name, key)),
        Some(v) => Ok(
            SyscallView {
                method,
                params: JsonView::Object(
                    seq![("token"@, JsonView::Text(token)), (key, JsonView::Text(v))],
                ),
            },
        ),
    }
}

/// A call under a token, with nothing else.
pub open spec fn bare_call(method: Seq<char>, token: Seq<char>) -> SyscallView {
    SyscallView { method, params: JsonView::Object(seq![("token"@, JsonView::Text(token))]) }
}

/// The call that a tool is, or why it is none. The token is the façade's to add, and
/// never an argument.
pub open spec fn syscall_of(token: Seq<char>, name: Seq<char>, args: JsonView) -> Result<
    SyscallView,
    Seq<char>,
> {
    match tool_in(name) {
        None => Err("no such tool: "@ + name),
        Some(Tool::ReadRegister) => Ok(bare_call("harness.read_register"@, token)),
        Some(Tool::WriteDecision) => call_with(
            "harness.write_decision"@,
            token,
            name,
            args,
            "text"@,
        ),
        Some(Tool::AttachArtefact) => match (text_field(args, "kind"@), text_field(args, "path"@)) {
            (None, _) => Err(lacks(name, "kind"@)),
            (_, None) => Err(lacks(name, "path"@)),
            (Some(kind), Some(path)) => Ok(
                SyscallView {
                    method: "harness.attach_artefact"@,
                    params: JsonView::Object(
                        seq![
                            ("token"@, JsonView::Text(token)),
                            ("kind"@, JsonView::Text(kind)),
                            ("path"@, JsonView::Text(path)),
                        ],
                    ),
                },
            ),
        },
        Some(Tool::RequestApproval) => Ok(bare_call("harness.request_approval"@, token)),
        Some(Tool::Log) => call_with("harness.log"@, token, name, args, "message"@),
    }
}

/// What a result says.
pub open spec fn call_view(r: Result<Syscall, String>) -> Result<SyscallView, Seq<char>> {
    match r {
        Ok(c) => Ok(c@),
        Err(e) => Err(e@),
    }
}

fn lacking(name: &str, key: &str) -> (r: String)
    ensures
        r@ == lacks(name@, key@),
{
    cat4(name, " needs a string `", key, "`")
}

fn make_bare_call(method: &str, token: &str) -> (r: Syscall)
    ensures
        r@ == bare_call(method@, token@),
{
    let mut f = Fields::new();
    f.put_text("token", token);
    assert(f@ =~= bare_call(method@, token@).params->Object_0);
    Syscall { method: method.to_owned(), params: f.object() }
}

fn make_call_with(method: &str, token: &str, name: &str, args: &Json, key: &str) -> (r: Result<
    Syscall,
    String,
>)
    ensures
        call_view(r) == call_with(method@, token@, name@, args@, key@),
{
    match args.text_at(key) {
        None => Err(lacking(name, key)),
        Some(v) => {
            let mut f = Fields::new();
            f.put_text("token", token);
            f.put_text(key, v.as_str());
            assert(f@ =~= call_with(
                method@,
                token@,
                name@,
                args@,
                key@,
            )->Ok_0.params->Object_0);
            Ok(Syscall { method: method.to_owned(), params: f.object() })
        },
    }
}

/// The call that a tool is.
pub fn tool_syscall(token: &str, name: &str, args: &Json) -> (r: Result<Syscall, String>)
    ensures
        call_view(r) == syscall_of(token@, name@, args@),
{
    match read_tool(name) {
        None => Err(cat("no such tool: ", name)),
        Some(Tool::ReadRegister) => Ok(make_bare_call("harness.read_register", token)),
        Some(Tool::WriteDecision) => make_call_with(
            "harness.write_decision",
            token,
            name,
            args,
            "text",
        ),
        Some(Tool::AttachArtefact) => match (args.text_at("kind"), args.text_at("path")) {
            (None, _) => Err(lacking(name, "kind")),
            (_, None) => Err(lacking(name, "path")),
            (Some(kind), Some(path)) => {
                let mut f = Fields::new();
                f.put_text("token", token);
                f.put_text("kind", kind.as_str());
                f.put_text("path", path.as_str());
                assert(f@ =~= syscall_of(token@, name@, args@)->Ok_0.params->Object_0);
                Ok(
                    Syscall {
                        method: "harness.attach_artefact".to_owned(),
                        params: f.object(),
                    },
                )
            },
        },
        Some(Tool::RequestApproval) => Ok(make_bare_call("harness.request_approval", token)),
        Some(Tool::Log) => make_call_with("harness.log", token, name, args, "message"),
    }
}

/// How the answer to a tool reads.
pub open spec fn shown(name: Seq<char>, v: JsonView) -> Seq<char> {
    match tool_in(name) {
        Some(Tool::ReadRegister) => pretty_text(v, Seq::empty()),
        Some(Tool::AttachArtefact) => match text_field(v, "hash"@) {
            Some(h) => "attached: "@ + h,
            None => "attached"@,
        },
        Some(Tool::WriteDecision) => "decision recorded"@,
        Some(Tool::RequestApproval) => "approval requested"@,
        Some(Tool::Log) => "logged"@,
        None => json_text(v),
    }
}

/// How the answer to a tool reads.
pub fn render(name: &str, v: &Json) -> (r: String)
    ensures
        r@ == shown(name@, v@),
{
    match read_tool(name) {
        Some(Tool::ReadRegister) => {
            let pad = String::new();
            assert(pad@ =~= Seq::<char>::empty());
            pretty(v, pad.as_str())
        },
        Some(Tool::AttachArtefact) => match v.text_at("hash") {
            Some(h) => cat("attached: ", h.as_str()),
            None => "attached".to_owned(),
        },
        Some(Tool::WriteDecision) => "decision recorded".to_owned(),
        Some(Tool::RequestApproval) => "approval requested".to_owned(),
        Some(Tool::Log) => "logged".to_owned(),
        None => v.render(),
    }
}

/// What is said of a tool whose call the kernel refused.
pub fn refused_text(name: &str, why: &str) -> (r: String)
    ensures
        r@ == name@ + " refused by the kernel: "@ + why@,
{
    cat3(name, " refused by the kernel: ", why)
}

/// The token to act under.
pub fn lease_of(token: Option<String>) -> (r: Result<String, String>)
    ensures
        match token {
            Some(t) => r matches Ok(s) && s@ == t@,
            None => r matches Err(why) && why@
                == "VK_LEASE_TOKEN is not set: this façade has no lease to act under"@,
        },
{
    match token {
        Some(t) => Ok(t),
        None => Err("VK_LEASE_TOKEN is not set: this façade has no lease to act under".to_owned()),
    }
}

/// The kernel to call.
pub fn kernel_of(endpoint: Option<String>) -> (r: Result<String, String>)
    ensures
        match endpoint {
            Some(e) => r matches Ok(s) && s@ == e@,
            None => r matches Err(why) && why@ == "VK_ENDPOINT is not set"@,
        },
{
    match endpoint {
        Some(e) => Ok(e),
        None => Err("VK_ENDPOINT is not set".to_owned()),
    }
}

/// What a message asks of the façade.
#[derive(Debug)]
pub enum Asked {
    /// Nothing: it is a notification.
    Nothing,
    /// This is the answer.
    Answer(Json),
    /// A tool is to be called, and its result is the answer.
    Call { id: Json, name: String, args: Json },
}

/// What an [`Asked`] says.
pub enum AskedView {
    Nothing,
    Answer(JsonView),
    Call { id: JsonView, name: Seq<char>, args: JsonView },
}

impl View for Asked {
    type V = AskedView;

    open spec fn view(&self) -> AskedView {
        match self {
            Asked::Nothing => AskedView::Nothing,
            Asked::Answer(j) => AskedView::Answer(j@),
            Asked::Call { id, name, args } => AskedView::Call {
                id: id@,
                name: name@,
                args: args@,
            },
        }
    }
}

/// What is under a name, or null.
pub open spec fn or_null(v: JsonView, name: Seq<char>) -> JsonView {
    match field(v, name) {
        Some(x) => x,
        None => JsonView::Null,
    }
}

/// The text under a name, or nothing.
pub open spec fn or_empty(v: JsonView, name: Seq<char>) -> Seq<char> {
    match text_field(v, name) {
        Some(x) => x,
        None => ""@,
    }
}

/// What a message asks: what needs no lease is answered at once, a notification never,
/// and a method that there is not is refused.
pub open spec fn asked_of(msg: JsonView, version: Seq<char>) -> AskedView {
    let method = or_empty(msg, "method"@);
    let params = or_null(msg, "params"@);
    match field(msg, "id"@) {
        None => AskedView::Nothing,
        Some(id) => if method == "initialize"@ {
            AskedView::Answer(
                result_json(id, greeting(text_field(params, "protocolVersion"@), version)),
            )
        } else if method == "tools/list"@ {
            AskedView::Answer(result_json(id, tools_json()))
        } else if method == "tools/call"@ {
            AskedView::Call {
                id,
                name: or_empty(params, "name"@),
                args: or_null(params, "arguments"@),
            }
        } else if method == "ping"@ {
            AskedView::Answer(result_json(id, JsonView::Object(Seq::empty())))
        } else {
            AskedView::Answer(error_json(id, NO_METHOD as int, "method not found: "@ + method))
        },
    }
}

fn get_or_null(v: &Json, name: &str) -> (r: Json)
    ensures
        r@ == or_null(v@, name@),
{
    match v.get(name) {
        Some(x) => x.copy(),
        None => Json::Null,
    }
}

fn text_or_empty(v: &Json, name: &str) -> (r: String)
    ensures
        r@ == or_empty(v@, name@),
{
    match v.text_at(name) {
        Some(x) => x.dup(),
        None => "".to_owned(),
    }
}

/// What a message asks.
pub fn handle(msg: &Json, version: &str) -> (r: Asked)
    ensures
        r@ == asked_of(msg@, version@),
{
    let method = text_or_empty(msg, "method");
    let params = get_or_null(msg, "params");
    let id = match msg.get("id") {
        Some(id) => id.copy(),
        None => return Asked::Nothing,
    };
    if same(method.as_str(), "initialize") {
        let spoken = match params.text_at("protocolVersion") {
            Some(s) => Some(s.as_str()),
            None => None,
        };
        let greeting = initialize_result(spoken, version);
        Asked::Answer(ok(id, greeting))
    } else if same(method.as_str(), "tools/list") {
        Asked::Answer(ok(id, tool_list()))
    } else if same(method.as_str(), "tools/call") {
        let name = text_or_empty(&params, "name");
        let args = get_or_null(&params, "arguments");
        Asked::Call { id, name, args }
    } else if same(method.as_str(), "ping") {
        Asked::Answer(ok(id, empty_object()))
    } else {
        let why = cat("method not found: ", method.as_str());
        Asked::Answer(err(id, NO_METHOD, why.as_str()))
    }
}

/// What a call that was made is answered: its text, as an error where it failed.
pub fn call_answer(id: Json, result: Result<String, String>) -> (r: Json)
    ensures
        r@ == (match result {
            Ok(text) => result_json(id@, tool_json(text@, false)),
            Err(text) => result_json(id@, tool_json(text@, true)),
        }),
{
    match result {
        Ok(text) => ok(id, tool_result(text.as_str(), false)),
        Err(text) => ok(id, tool_result(text.as_str(), true)),
    }
}

/// Every call carries the façade's token, whatever the harness says: an argument of that
/// name is never read.
pub proof fn token_is_the_facades_own(token: Seq<char>, name: Seq<char>, args: JsonView)
    requires
        syscall_of(token, name, args) is Ok,
    ensures
        text_field(syscall_of(token, name, args)->Ok_0.params, "token"@) == Some(token),
{
}

/// A tool calls a harness's method, and none of a person's.
pub proof fn tool_calls_a_harness_method(token: Seq<char>, name: Seq<char>, args: JsonView)
    requires
        syscall_of(token, name, args) is Ok,
    ensures
        begins(syscall_of(token, name, args)->Ok_0.method, "harness."@),
{
    reveal_strlit("harness.");
    reveal_strlit("harness.read_register");
    reveal_strlit("harness.write_decision");
    reveal_strlit("harness.attach_artefact");
    reveal_strlit("harness.request_approval");
    reveal_strlit("harness.log");
    let m = syscall_of(token, name, args)->Ok_0.method;
    assert(m.take(8) =~= "harness."@);
}

/// A notification is never answered.
pub proof fn notification_is_never_answered(msg: JsonView, version: Seq<char>)
    requires
        field(msg, "id"@) is None,
    ensures
        asked_of(msg, version) is Nothing,
{
}

} // verus!
