//! What stands around the kernel: the lines it is sent, the tools a harness has, what it is
//! started with, who may serve, and what it says of a process.
use crate::adapter::{mock_answer, mock_tokens, uppercase_of, without_prefixes};
use crate::confine::{answer, caps_fault, cause_of, refusal_of, Attempt, RefusalFacts};
use crate::error::{error_text, KernelErrorView};
use crate::ir_laws::{one_part_stands, parts_stand_together, stand_in_order};
use crate::json::{field, member, number_field, text_field, JsonView};
use crate::launch::{fence_text, mcp_text, outcome_in, tail_of};
use crate::mcp::{asked_of, syscall_of, tool_in, tools_json, Tool};
use crate::netwatch::v4_peer_text;
use crate::outside::json_quoted;
use crate::path::{joined, pieces};
use crate::projection::first_line;
use crate::reading_laws::{member_is_found, nothing_is_found};
use crate::rpc::line_of;
use crate::settings::{
    coder_config_of, config_kept, first_file, ollama_config_of, program_name, program_of,
    prompt_with, system_added, without, CoderConfigView, ContainerSpecView, OllamaConfigView, Place,
    Tried,
};
use crate::text::{begins, decimal, trimmed};
use crate::text_laws::{pieces_of_two, plain_text_is_one_piece};
use crate::transport::{
    account_fault, aces, dacl_of, is_digits, is_expected, is_fatal, is_string_sid, same_but_case,
    AccountKind,
};
use vstd::prelude::*;
use vstd::utf8::{encode_utf8, valid_utf8};

verus! {

/// A line is the text that was sent, however the sender ends its lines; what has no end is no
/// line.
pub proof fn line_is_the_text_sent(s: Seq<char>, cut: Seq<u8>)
    requires
        cut.len() > 0,
        cut.last() != 10u8,
    ensures
        encode_utf8(s).len() == 0 || encode_utf8(s).last() != 13u8 ==> line_of(
            encode_utf8(s).push(10u8),
        ) == Ok::<Option<Seq<char>>, Seq<char>>(Some(s)),
        line_of(encode_utf8(s) + seq![13u8, 10u8]) == Ok::<Option<Seq<char>>, Seq<char>>(Some(s)),
        line_of(Seq::empty()) == Ok::<Option<Seq<char>>, Seq<char>>(None),
        line_of(cut) is Err,
{
    broadcast use vstd::utf8::group_utf8_lib;

    let bytes = encode_utf8(s);
    let one = bytes.push(10u8);
    let two = bytes + seq![13u8, 10u8];
    assert(valid_utf8(bytes));
    assert(one.drop_last() =~= bytes);
    assert(two.drop_last() =~= bytes.push(13u8));
    assert(bytes.push(13u8).drop_last() =~= bytes);
}

/// Each tool is one call of the kernel, under the façade's token and with what the harness
/// handed the tool; a tool that lacks what it takes is no call, and neither is a tool that there
/// is not.
pub proof fn tool_is_its_call(token: Seq<char>, args: JsonView)
    ensures
        ({
            let r = syscall_of(token, "vk_read_register"@, args);
            &&& r is Ok
            &&& r->Ok_0.method == "harness.read_register"@
            &&& text_field(r->Ok_0.params, "token"@) == Some(token)
        }),
        ({
            let r = syscall_of(token, "vk_request_approval"@, args);
            &&& r is Ok
            &&& r->Ok_0.method == "harness.request_approval"@
            &&& text_field(r->Ok_0.params, "token"@) == Some(token)
        }),
        ({
            let r = syscall_of(token, "vk_write_decision"@, args);
            &&& r is Ok <==> text_field(args, "text"@) is Some
            &&& r is Ok ==> {
                &&& r->Ok_0.method == "harness.write_decision"@
                &&& text_field(r->Ok_0.params, "token"@) == Some(token)
                &&& text_field(r->Ok_0.params, "text"@) == text_field(args, "text"@)
            }
        }),
        ({
            let r = syscall_of(token, "vk_log"@, args);
            &&& r is Ok <==> text_field(args, "message"@) is Some
            &&& r is Ok ==> {
                &&& r->Ok_0.method == "harness.log"@
                &&& text_field(r->Ok_0.params, "token"@) == Some(token)
                &&& text_field(r->Ok_0.params, "message"@) == text_field(args, "message"@)
            }
        }),
        ({
            let r = syscall_of(token, "vk_attach_artefact"@, args);
            &&& r is Ok <==> text_field(args, "kind"@) is Some && text_field(args, "path"@) is Some
            &&& r is Ok ==> {
                &&& r->Ok_0.method == "harness.attach_artefact"@
                &&& text_field(r->Ok_0.params, "token"@) == Some(token)
                &&& text_field(r->Ok_0.params, "kind"@) == text_field(args, "kind"@)
                &&& text_field(r->Ok_0.params, "path"@) == text_field(args, "path"@)
            }
        }),
{
    tool_names_are_apart();
    reveal_strlit("token");
    reveal_strlit("text");
    reveal_strlit("message");
    reveal_strlit("kind");
    reveal_strlit("path");
    assert("token"@.len() == 5 && "text"@.len() == 4 && "message"@.len() == 7);
    assert("kind"@.len() == 4 && "path"@.len() == 4);
    assert("kind"@[0] != "path"@[0]);
    member_is_found(syscall_of(token, "vk_read_register"@, args)->Ok_0.params->Object_0, 0);
    member_is_found(syscall_of(token, "vk_request_approval"@, args)->Ok_0.params->Object_0, 0);
    let decision = syscall_of(token, "vk_write_decision"@, args);
    if decision is Ok {
        member_is_found(decision->Ok_0.params->Object_0, 0);
        member_is_found(decision->Ok_0.params->Object_0, 1);
    }
    let log = syscall_of(token, "vk_log"@, args);
    if log is Ok {
        member_is_found(log->Ok_0.params->Object_0, 0);
        member_is_found(log->Ok_0.params->Object_0, 1);
    }
    let attach = syscall_of(token, "vk_attach_artefact"@, args);
    if attach is Ok {
        member_is_found(attach->Ok_0.params->Object_0, 0);
        member_is_found(attach->Ok_0.params->Object_0, 1);
        member_is_found(attach->Ok_0.params->Object_0, 2);
    }
}

proof fn tool_names_are_apart()
    ensures
        tool_in("vk_read_register"@) == Some(Tool::ReadRegister),
        tool_in("vk_write_decision"@) == Some(Tool::WriteDecision),
        tool_in("vk_attach_artefact"@) == Some(Tool::AttachArtefact),
        tool_in("vk_request_approval"@) == Some(Tool::RequestApproval),
        tool_in("vk_log"@) == Some(Tool::Log),
{
    reveal_strlit("vk_read_register");
    reveal_strlit("vk_write_decision");
    reveal_strlit("vk_attach_artefact");
    reveal_strlit("vk_request_approval");
    reveal_strlit("vk_log");
    assert("vk_read_register"@.len() != "vk_write_decision"@.len());
    assert("vk_read_register"@.len() != "vk_attach_artefact"@.len());
    assert("vk_write_decision"@.len() != "vk_attach_artefact"@.len());
    assert("vk_read_register"@.len() != "vk_request_approval"@.len());
    assert("vk_write_decision"@.len() != "vk_request_approval"@.len());
    assert("vk_attach_artefact"@.len() != "vk_request_approval"@.len());
    assert("vk_read_register"@.len() != "vk_log"@.len());
    assert("vk_write_decision"@.len() != "vk_log"@.len());
    assert("vk_attach_artefact"@.len() != "vk_log"@.len());
    assert("vk_request_approval"@.len() != "vk_log"@.len());
}

/// Every tool that is listed is one that can be called by the name it is listed under, and none
/// that can be called is left out; what it says it needs is what its call needs.
pub proof fn listed_tools_can_be_called(token: Seq<char>, args: JsonView, i: int)
    requires
        0 <= i < 5,
    ensures
        ({
            let tools = field(tools_json(), "tools"@)->0;
            let one = tools->Array_0[i];
            let name = text_field(one, "name"@)->0;
            let needs = field(field(one, "inputSchema"@)->0, "required"@);
            &&& field(tools_json(), "tools"@) is Some
            &&& tools is Array
            &&& tools->Array_0.len() == 5
            &&& text_field(one, "name"@) is Some
            &&& tool_in(name) is Some
            &&& forall|j: int|
                0 <= j < 5 && tool_in(
                    text_field(#[trigger] tools->Array_0[j], "name"@)->0,
                ) == tool_in(name) ==> i == j
            &&& field(one, "inputSchema"@) is Some
            &&& needs is None ==> syscall_of(token, name, args) is Ok
            &&& needs is Some ==> needs->0 is Array
            &&& needs is Some ==> (syscall_of(token, name, args) is Ok <==> forall|n: int|
                0 <= n < needs->0->Array_0.len() ==> {
                    &&& #[trigger] needs->0->Array_0[n] is Text
                    &&& text_field(args, needs->0->Array_0[n]->Text_0) is Some
                })
        }),
{
    tool_names_are_apart();
    reveal_strlit("tools");
    reveal_strlit("name");
    reveal_strlit("description");
    reveal_strlit("inputSchema");
    reveal_strlit("type");
    reveal_strlit("properties");
    reveal_strlit("required");
    reveal_strlit("additionalProperties");
    assert("name"@.len() == 4 && "description"@.len() == 11 && "inputSchema"@.len() == 11);
    assert("description"@[0] != "inputSchema"@[0]);
    assert("type"@.len() == 4 && "properties"@.len() == 10 && "required"@.len() == 8);
    assert("additionalProperties"@.len() == 20);
    member_is_found(tools_json()->Object_0, 0);
    let tools = tools_json()->Object_0[0].1;
    assert forall|j: int| 0 <= j < 5 implies {
        let e = #[trigger] tools->Array_0[j];
        &&& text_field(e, "name"@) == Some(name_at(j))
        &&& field(e, "inputSchema"@) == Some(e->Object_0[2].1)
    } by {
        let ms = tools->Array_0[j]->Object_0;
        member_is_found(ms, 0);
        member_is_found(ms, 2);
    }
    let one = tools->Array_0[i];
    let s = one->Object_0[2].1->Object_0;
    if i == 0 || i == 3 {
        nothing_is_found(s, "required"@);
    } else {
        member_is_found(s, 2);
    }
    tool_needs(token, args);
    let needs = field(field(one, "inputSchema"@)->0, "required"@);
    if i == 1 {
        assert(needs->0->Array_0 =~= seq![JsonView::Text("text"@)]);
        assert(needs->0->Array_0[0] == JsonView::Text("text"@));
    } else if i == 2 {
        assert(needs->0->Array_0 =~= seq![JsonView::Text("kind"@), JsonView::Text("path"@)]);
        assert(needs->0->Array_0[0] == JsonView::Text("kind"@));
        assert(needs->0->Array_0[1] == JsonView::Text("path"@));
    } else if i == 4 {
        assert(needs->0->Array_0 =~= seq![JsonView::Text("message"@)]);
        assert(needs->0->Array_0[0] == JsonView::Text("message"@));
    }
}

spec fn name_at(i: int) -> Seq<char> {
    if i == 0 {
        "vk_read_register"@
    } else if i == 1 {
        "vk_write_decision"@
    } else if i == 2 {
        "vk_attach_artefact"@
    } else if i == 3 {
        "vk_request_approval"@
    } else {
        "vk_log"@
    }
}

proof fn tool_needs(token: Seq<char>, args: JsonView)
    ensures
        syscall_of(token, name_at(0), args) is Ok,
        syscall_of(token, name_at(1), args) is Ok <==> text_field(args, "text"@) is Some,
        syscall_of(token, name_at(2), args) is Ok <==> text_field(args, "kind"@) is Some
            && text_field(args, "path"@) is Some,
        syscall_of(token, name_at(3), args) is Ok,
        syscall_of(token, name_at(4), args) is Ok <==> text_field(args, "message"@) is Some,
{
    tool_is_its_call(token, args);
}

/// A message is answered under its own id: who answers, in the client's own revision of the
/// protocol; the tools; or nothing but that it was heard. A tool that is called is the one that
/// was named, with what it was handed. What has no id is never answered.
pub proof fn message_is_answered_under_its_id(msg: JsonView, version: Seq<char>, id: JsonView)
    requires
        field(msg, "id"@) == Some(id),
    ensures
        ({
            let r = asked_of(msg, version);
            let method = text_field(msg, "method"@);
            let params = field(msg, "params"@);
            let told = field(r->Answer_0, "result"@)->0;
            &&& method == Some("tools/call"@) <==> r is Call
            &&& r is Call ==> r->id == id
            &&& r is Call && params is Some && text_field(params->0, "name"@) is Some ==> r->name
                == text_field(params->0, "name"@)->0
            &&& r is Call && params is Some && field(params->0, "arguments"@) is Some ==> r->args
                == field(params->0, "arguments"@)->0
            &&& r !is Call ==> r is Answer && field(r->Answer_0, "id"@) == Some(id)
            &&& field(r->Answer_0, "result"@) is Some && r is Answer <==> method == Some(
                "initialize"@,
            ) || method == Some("tools/list"@) || method == Some("ping"@)
            &&& method == Some("tools/list"@) ==> told == tools_json()
            &&& method == Some("initialize"@) ==> {
                &&& params is Some && text_field(params->0, "protocolVersion"@) is Some ==> text_field(
                    told,
                    "protocolVersion"@,
                ) == text_field(params->0, "protocolVersion"@)
                &&& params is None ==> text_field(told, "protocolVersion"@) == Some("2024-11-05"@)
                &&& field(told, "serverInfo"@) is Some
                &&& text_field(field(told, "serverInfo"@)->0, "name"@) == Some("vk"@)
                &&& text_field(field(told, "serverInfo"@)->0, "version"@) == Some(version)
                &&& field(told, "capabilities"@) is Some
                &&& field(field(told, "capabilities"@)->0, "tools"@) is Some
            }
        }),
{
    reveal_strlit("initialize");
    reveal_strlit("tools/list");
    reveal_strlit("tools/call");
    reveal_strlit("ping");
    reveal_strlit("");
    reveal_strlit("jsonrpc");
    reveal_strlit("id");
    reveal_strlit("result");
    reveal_strlit("error");
    reveal_strlit("protocolVersion");
    reveal_strlit("capabilities");
    reveal_strlit("serverInfo");
    reveal_strlit("name");
    reveal_strlit("version");
    reveal_strlit("tools");
    assert("initialize"@[0] != "tools/list"@[0]);
    assert("initialize"@[0] != "tools/call"@[0]);
    assert("tools/list"@[6] != "tools/call"@[6]);
    assert("initialize"@.len() != "ping"@.len());
    assert("tools/list"@.len() != "ping"@.len());
    assert("tools/call"@.len() != "ping"@.len());
    assert("initialize"@.len() != ""@.len());
    assert("tools/list"@.len() != ""@.len());
    assert("tools/call"@.len() != ""@.len());
    assert("ping"@.len() != ""@.len());
    assert("jsonrpc"@.len() == 7 && "id"@.len() == 2 && "result"@.len() == 6 && "error"@.len() == 5);
    assert("protocolVersion"@.len() == 15 && "capabilities"@.len() == 12 && "serverInfo"@.len() == 10);
    assert("name"@.len() == 4 && "version"@.len() == 7);
    let r = asked_of(msg, version);
    if r is Answer {
        let ms = r->Answer_0->Object_0;
        member_is_found(ms, 1);
        let method = crate::mcp::or_empty(msg, "method"@);
        if method == "initialize"@ || method == "tools/list"@ || method == "ping"@ {
            member_is_found(ms, 2);
            if method == "initialize"@ {
                let g = ms[2].1->Object_0;
                member_is_found(g, 0);
                member_is_found(g, 1);
                member_is_found(g, 2);
                member_is_found(g[1].1->Object_0, 0);
                member_is_found(g[2].1->Object_0, 0);
                member_is_found(g[2].1->Object_0, 1);
                assert(crate::mcp::PROTOCOL_VERSION@ == "2024-11-05"@);
            }
        } else {
            nothing_is_found(ms, "result"@);
        }
    }
}

/// What has no id is a notification, and is never answered.
pub proof fn notification_is_never_answered(msg: JsonView, version: Seq<char>)
    requires
        field(msg, "id"@) is None,
    ensures
        asked_of(msg, version) is Nothing,
{
}

/// What a tool gave is shown to the harness: an artefact by its address.
pub proof fn attached_artefact_is_shown_by_its_address(v: JsonView, hash: Seq<char>)
    requires
        text_field(v, "hash"@) == Some(hash),
    ensures
        crate::mcp::shown("vk_attach_artefact"@, v) == "attached: "@ + hash,
        crate::mcp::shown("vk_write_decision"@, v) == "decision recorded"@,
        crate::mcp::shown("vk_request_approval"@, v) == "approval requested"@,
        crate::mcp::shown("vk_log"@, v) == "logged"@,
{
    tool_names_are_apart();
}

/// What a harness said of its own run is read off its result: how many turns it took, what it
/// cost as it wrote it, and what it was denied, each in its place.
pub proof fn outcome_is_what_the_harness_said(v: JsonView)
    ensures
        ({
            let r = outcome_in(v);
            let denied = field(v, "permission_denials"@);
            let cost = field(v, "total_cost_usd"@);
            &&& r is Some <==> text_field(v, "type"@) == Some("result"@) && number_field(
                v,
                "num_turns"@,
            ) is Some
            &&& r is Some ==> {
                &&& r->0.num_turns == number_field(v, "num_turns"@)->0
                &&& cost is Some && cost->0 is Real ==> r->0.total_cost_usd == Some(
                    cost->0->Real_0,
                )
                &&& cost is Some && cost->0 is Unsigned ==> r->0.total_cost_usd == Some(
                    decimal(cost->0->Unsigned_0),
                )
                &&& cost is None ==> r->0.total_cost_usd is None
                &&& denied is Some && denied->0 is Array ==> {
                    &&& r->0.permission_denials.len() == denied->0->Array_0.len()
                    &&& forall|i: int|
                        0 <= i < r->0.permission_denials.len()
                            ==> #[trigger] r->0.permission_denials[i] == crate::json::json_text(
                            denied->0->Array_0[i],
                        )
                }
                &&& denied is None ==> r->0.permission_denials.len() == 0
            }
        }),
{
}

/// The end of a text is its last characters, after a mark where there were more.
pub proof fn end_of_a_text_is_its_last(s: Seq<char>, n: nat)
    ensures
        s.len() <= n ==> tail_of(s, n) == s,
        s.len() > n ==> {
            &&& tail_of(s, n).len() == n + 1
            &&& tail_of(s, n)[0] == '…'
            &&& forall|i: int|
                1 <= i <= n ==> #[trigger] tail_of(s, n)[i] == s[s.len() - n + i - 1]
        },
{
    reveal_strlit("…");
}

/// The configuration of a harness has the program that carries its calls, where they go and the
/// token that they are made under, each in its place.
pub proof fn configuration_has_its_parts(command: Seq<char>, endpoint: Seq<char>, token: Seq<char>)
    ensures
        stand_in_order(
            mcp_text(command, endpoint, token),
            seq![
                "\"command\": "@ + json_quoted(command),
                "\"VK_ENDPOINT\": "@ + json_quoted(endpoint),
                "\"VK_LEASE_TOKEN\": "@ + json_quoted(token),
            ],
        ),
{
    let a = "{\n  \"mcpServers\": {\n    \"vk\": {\n      "@;
    let b = ",\n      \"env\": {\n        "@;
    let c = ",\n        "@;
    let d = "\n      }\n    }\n  }\n}"@;
    let x = "\"command\": "@ + json_quoted(command);
    let y = "\"VK_ENDPOINT\": "@ + json_quoted(endpoint);
    let z = "\"VK_LEASE_TOKEN\": "@ + json_quoted(token);
    reveal_strlit("{\n  \"mcpServers\": {\n    \"vk\": {\n      ");
    reveal_strlit("{\n  \"mcpServers\": {\n    \"vk\": {\n      \"command\": ");
    reveal_strlit("\"command\": ");
    reveal_strlit(",\n      \"env\": {\n        ");
    reveal_strlit(",\n      \"env\": {\n        \"VK_ENDPOINT\": ");
    reveal_strlit("\"VK_ENDPOINT\": ");
    reveal_strlit(",\n        ");
    reveal_strlit(",\n        \"VK_LEASE_TOKEN\": ");
    reveal_strlit("\"VK_LEASE_TOKEN\": ");
    assert("{\n  \"mcpServers\": {\n    \"vk\": {\n      \"command\": "@ =~= a + "\"command\": "@);
    assert(",\n      \"env\": {\n        \"VK_ENDPOINT\": "@ =~= b + "\"VK_ENDPOINT\": "@);
    assert(",\n        \"VK_LEASE_TOKEN\": "@ =~= c + "\"VK_LEASE_TOKEN\": "@);
    three_parts_stand(a, x, b, y, c, z, d);
    assert(mcp_text(command, endpoint, token) =~= a + x + (b + y) + (c + z) + d);
}

proof fn three_parts_stand(
    a: Seq<char>,
    x: Seq<char>,
    b: Seq<char>,
    y: Seq<char>,
    c: Seq<char>,
    z: Seq<char>,
    d: Seq<char>,
)
    ensures
        stand_in_order(a + x + (b + y) + (c + z) + d, seq![x, y, z]),
{
    let none = Seq::<char>::empty();
    one_part_stands(x);
    one_part_stands(y);
    one_part_stands(z);
    crate::ir_laws::parts_stand_within(a, x, none, seq![x]);
    assert(a + x + none =~= a + x);
    crate::ir_laws::parts_stand_within(b, y, none, seq![y]);
    assert(b + y + none =~= b + y);
    crate::ir_laws::parts_stand_within(c, z, none, seq![z]);
    assert(c + z + none =~= c + z);
    parts_stand_together(a + x, seq![x], b + y, seq![y]);
    assert(seq![x] + seq![y] =~= seq![x, y]);
    parts_stand_together(a + x + (b + y), seq![x, y], c + z, seq![z]);
    assert(seq![x, y] + seq![z] =~= seq![x, y, z]);
    let whole = a + x + (b + y) + (c + z);
    crate::ir_laws::parts_stand_within(none, whole, d, seq![x, y, z]);
    assert(none + whole + d =~= whole + d);
}

/// What a run is denied, it is denied by name: a shell, and reading and editing where its own
/// configuration is.
pub proof fn fence_denies_the_configuration(config_dir: Seq<char>)
    ensures
        stand_in_order(
            fence_text(config_dir),
            seq![
                "\"deny\": [\n      \"Bash\""@,
                json_quoted("Read("@ + config_dir + "/**)"@),
                json_quoted("Edit("@ + config_dir + "/**)"@),
            ],
        ),
{
    let a = "{\n  \"permissions\": {\n    \"allow\": [\n      \"mcp__vk__*\",\n      \"Read(./**)\",\n      \"Edit(./**)\"\n    ],\n    "@;
    let x = "\"deny\": [\n      \"Bash\""@;
    let b = ",\n      "@;
    let y = json_quoted("Read("@ + config_dir + "/**)"@);
    let z = json_quoted("Edit("@ + config_dir + "/**)"@);
    let d = "\n    ]\n  }\n}"@;
    reveal_strlit("{\n  \"permissions\": {\n    \"allow\": [\n      \"mcp__vk__*\",\n      \"Read(./**)\",\n      \"Edit(./**)\"\n    ],\n    ");
    reveal_strlit("\"deny\": [\n      \"Bash\"");
    reveal_strlit(",\n      ");
    reveal_strlit("{\n  \"permissions\": {\n    \"allow\": [\n      \"mcp__vk__*\",\n      \"Read(./**)\",\n      \"Edit(./**)\"\n    ],\n    \"deny\": [\n      \"Bash\",\n      ");
    assert("{\n  \"permissions\": {\n    \"allow\": [\n      \"mcp__vk__*\",\n      \"Read(./**)\",\n      \"Edit(./**)\"\n    ],\n    \"deny\": [\n      \"Bash\",\n      "@
        =~= a + x + b);
    three_parts_stand(a, x, b, y, b, z, d);
    assert(fence_text(config_dir) =~= a + x + (b + y) + (b + z) + d);
}

/// A prompt that is added to holds both, the added one without the blanks around it; a blank
/// one adds nothing, to the prompt or to the system's.
pub proof fn added_prompt_follows(base: Seq<char>, s: Seq<char>)
    ensures
        trimmed(s).len() > 0 ==> prompt_with(base, Some(s)) == base + "\n\n"@ + trimmed(s),
        trimmed(s).len() == 0 ==> prompt_with(base, Some(s)) == base,
        prompt_with(base, None) == base,
        system_added(Some(s)) is Some <==> trimmed(s).len() > 0,
        system_added(Some(s)) is Some ==> system_added(Some(s)) == Some(s),
        system_added(None) is None,
{
}

/// A harness that is named bare runs as the first program of that name that was found; one that
/// is named by a path runs as that path, where there is a file, and never by a relative one.
pub proof fn harness_runs_as_the_first_found(
    binary: Seq<char>,
    place: Place,
    tried: Seq<Tried>,
    windows: bool,
)
    ensures
        ({
            let r = program_of(binary, place, tried, windows);
            &&& place.absolute && place.file ==> r == Ok::<Seq<char>, Seq<char>>(binary)
            &&& place.absolute && !place.file ==> r is Err
            &&& place.nested && !place.absolute ==> r is Err
            &&& !place.nested && !place.absolute ==> {
                &&& r is Ok <==> exists|i: int| 0 <= i < tried.len() && (#[trigger] tried[i]).file
                &&& r is Ok ==> exists|i: int|
                    0 <= i < tried.len() && (#[trigger] tried[i]).file && r->Ok_0 == tried[i].path@
                        && forall|j: int| 0 <= j < i ==> !(#[trigger] tried[j]).file
            }
        }),
{
    first_file_is_the_first(tried);
}

proof fn first_file_is_the_first(tried: Seq<Tried>)
    ensures
        first_file(tried) is Some <==> exists|i: int|
            0 <= i < tried.len() && (#[trigger] tried[i]).file,
        first_file(tried) is Some ==> exists|i: int|
            0 <= i < tried.len() && (#[trigger] tried[i]).file && first_file(tried)->0
                == tried[i].path@ && forall|j: int| 0 <= j < i ==> !(#[trigger] tried[j]).file,
    decreases tried.len(),
{
    if tried.len() > 0 {
        if tried[0].file {
            assert(tried[0].file && first_file(tried)->0 == tried[0].path@);
        } else {
            let rest = tried.drop_first();
            first_file_is_the_first(rest);
            if first_file(rest) is Some {
                let i = choose|i: int|
                    0 <= i < rest.len() && (#[trigger] rest[i]).file && first_file(rest)->0
                        == rest[i].path@ && forall|j: int|
                        0 <= j < i ==> !(#[trigger] rest[j]).file;
                assert(tried[i + 1] == rest[i]);
                assert forall|j: int| 0 <= j < i + 1 implies !(#[trigger] tried[j]).file by {
                    if j > 0 {
                        assert(rest[j - 1] == tried[j]);
                    }
                }
                assert(tried[i + 1].file && first_file(tried)->0 == tried[i + 1].path@);
            } else if exists|i: int| 0 <= i < tried.len() && (#[trigger] tried[i]).file {
                let i = choose|i: int| 0 <= i < tried.len() && (#[trigger] tried[i]).file;
                assert(rest[i - 1] == tried[i]);
            }
        }
    }
}

/// A program keeps its name, but for the ending that programs have on Windows.
pub proof fn program_keeps_its_name(name: Seq<char>)
    ensures
        program_name(name, false) == name,
        program_name(name, true) == name || program_name(name, true) == name + ".exe"@,
        program_name(name + ".exe"@, true) == name + ".exe"@,
        program_name(program_name(name, true), true) == program_name(name, true),
{
    reveal_strlit(".exe");
    let long = name + ".exe"@;
    assert(long.skip(long.len() - 4) =~= ".exe"@);
    assert(crate::settings::is_exe(long));
}

/// What is kept of a configuration is every member but what asks for a new container, each as it
/// was given.
pub proof fn configuration_is_kept_as_given(ms: Seq<(Seq<char>, JsonView)>, name: Seq<char>)
    ensures
        field(config_kept(JsonView::Object(ms)), "recreate"@) is None,
        name != "recreate"@ ==> field(config_kept(JsonView::Object(ms)), name) == field(
            JsonView::Object(ms),
            name,
        ),
{
    member_is_left(ms, "recreate"@, name);
    without_leaves_none(ms, "recreate"@);
    nothing_is_found(without(ms, "recreate"@), "recreate"@);
}

proof fn without_leaves_none(ms: Seq<(Seq<char>, JsonView)>, gone: Seq<char>)
    ensures
        forall|i: int| 0 <= i < without(ms, gone).len() ==> (#[trigger] without(ms, gone)[i]).0 != gone,
    decreases ms.len(),
{
    if ms.len() > 0 {
        let front = without(ms.drop_last(), gone);
        without_leaves_none(ms.drop_last(), gone);
        assert forall|i: int| 0 <= i < without(ms, gone).len() implies (#[trigger] without(
            ms,
            gone,
        )[i]).0 != gone by {
            if i < front.len() {
                assert(without(ms, gone)[i] == front[i]);
            }
        }
    }
}

proof fn member_is_left(ms: Seq<(Seq<char>, JsonView)>, gone: Seq<char>, name: Seq<char>)
    ensures
        name != gone ==> member(without(ms, gone), name) == member(ms, name),
    decreases ms.len(),
{
    if ms.len() > 0 && name != gone {
        let front = ms.drop_last();
        let last = seq![ms.last()];
        member_is_left(front, gone, name);
        assert(ms =~= front + last);
        crate::screen_laws::member_of_two(front, last, name);
        if ms.last().0 == gone {
            nothing_is_found(last, name);
        } else {
            assert(without(ms, gone) =~= without(front, gone) + last);
            crate::screen_laws::member_of_two(without(front, gone), last, name);
        }
    }
}

/// What a request configures of an engine's command line is what it says, and otherwise what the
/// node has; where it runs is the node's own to say.
pub proof fn coder_is_configured_as_asked(
    engine: Seq<char>,
    state_dir: Seq<char>,
    windows: bool,
    config: JsonView,
    defaults: CoderConfigView,
)
    ensures
        ({
            let r = coder_config_of(engine, state_dir, windows, config, defaults);
            let c = r->Ok_0;
            &&& r is Ok ==> {
                &&& text_field(config, "binary"@) is Some ==> c.binary == text_field(
                    config,
                    "binary"@,
                )->0
                &&& text_field(config, "binary"@) is None ==> c.binary == defaults.binary
                &&& text_field(config, "model"@) is Some ==> c.model == text_field(
                    config,
                    "model"@,
                )->0
                &&& text_field(config, "model"@) is None ==> c.model == defaults.model
                &&& number_field(config, "max_turns"@) is Some ==> c.max_turns == number_field(
                    config,
                    "max_turns"@,
                )->0
                &&& field(config, "max_turns"@) is None ==> c.max_turns == defaults.max_turns
                &&& number_field(config, "timeout_secs"@) is Some ==> c.timeout_secs == number_field(
                    config,
                    "timeout_secs"@,
                )->0
                &&& field(config, "timeout_secs"@) is None ==> c.timeout_secs
                    == defaults.timeout_secs
                &&& number_field(config, "context_ceiling"@) is Some ==> c.context_ceiling
                    == number_field(config, "context_ceiling"@)->0
                &&& field(config, "context_ceiling"@) is None ==> c.context_ceiling
                    == defaults.context_ceiling
                &&& c.cwd == joined(state_dir, engine + "-code"@ + "-cwd"@, windows)
            }
            &&& field(config, "max_turns"@) is None && field(config, "timeout_secs"@) is None && field(
                config,
                "context_ceiling"@,
            ) is None ==> r is Ok
        }),
{
}

/// What a request configures of an Ollama arch is what it says, and otherwise what the node has;
/// it runs in a container unless the request names a server.
pub proof fn ollama_is_configured_as_asked(
    config: JsonView,
    defaults: OllamaConfigView,
    contained: ContainerSpecView,
)
    ensures
        ({
            let r = ollama_config_of(config, defaults, contained);
            let c = r->Ok_0;
            let server = text_field(config, "base_url"@);
            &&& r is Ok ==> {
                &&& c.container is Some <==> server is None
                &&& server is Some ==> c.base_url == server->0
                &&& server is None ==> c.base_url == defaults.base_url
                &&& text_field(config, "model"@) is Some ==> c.model == text_field(
                    config,
                    "model"@,
                )->0
                &&& text_field(config, "model"@) is None ==> c.model == defaults.model
                &&& number_field(config, "num_ctx"@) is Some ==> c.num_ctx == number_field(
                    config,
                    "num_ctx"@,
                )->0
                &&& field(config, "num_ctx"@) is None ==> c.num_ctx == defaults.num_ctx
                &&& number_field(config, "max_tokens"@) is Some ==> c.max_tokens == number_field(
                    config,
                    "max_tokens"@,
                )->0
                &&& field(config, "max_tokens"@) is None ==> c.max_tokens == defaults.max_tokens
                &&& number_field(config, "seed"@) is Some && number_field(config, "seed"@)->0
                    <= u64::MAX ==> c.seed == number_field(config, "seed"@)->0
                &&& field(config, "seed"@) is None ==> c.seed == defaults.seed
                &&& c.recreate <==> crate::json::bool_field(config, "recreate"@) == Some(true)
                &&& server is None ==> {
                    &&& text_field(config, "image"@) is Some ==> c.container->0.image == text_field(
                        config,
                        "image"@,
                    )->0
                    &&& text_field(config, "image"@) is None ==> c.container->0.image
                        == contained.image
                    &&& text_field(config, "memory"@) is Some ==> c.container->0.memory == text_field(
                        config,
                        "memory"@,
                    )->0
                    &&& text_field(config, "memory"@) is None ==> c.container->0.memory
                        == contained.memory
                    &&& text_field(config, "cpus"@) is Some ==> c.container->0.cpus == text_field(
                        config,
                        "cpus"@,
                    )->0
                    &&& text_field(config, "cpus"@) is None ==> c.container->0.cpus
                        == contained.cpus
                }
            }
            &&& field(config, "num_ctx"@) is None && field(config, "max_tokens"@) is None && field(
                config,
                "seed"@,
            ) is None ==> r is Ok
        }),
{
}

/// An access list admits each account that was named, in order, and is refused when there is
/// none or one of them is no account.
pub proof fn access_list_admits_each_account(sids: Seq<Seq<char>>)
    ensures
        dacl_of(sids) is Ok <==> sids.len() > 0 && forall|i: int|
            0 <= i < sids.len() ==> is_string_sid(#[trigger] sids[i]),
        dacl_of(sids) is Ok ==> stand_in_order(dacl_of(sids)->Ok_0, each_admitted(sids)),
{
    bad_sid_is_found(sids);
    if dacl_of(sids) is Ok {
        entries_admit_each(sids);
        let none = Seq::<char>::empty();
        crate::ir_laws::parts_stand_within("D:"@, aces(sids), none, each_admitted(sids));
        assert("D:"@ + aces(sids) + none =~= "D:"@ + aces(sids));
    }
}

/// An entry for each account, which admits it to everything.
pub open spec fn each_admitted(sids: Seq<Seq<char>>) -> Seq<Seq<char>> {
    Seq::new(sids.len(), |i: int| "(A;;GA;;;"@ + sids[i] + ")"@)
}

proof fn bad_sid_is_found(sids: Seq<Seq<char>>)
    ensures
        crate::transport::first_bad_sid(sids) is None <==> forall|i: int|
            0 <= i < sids.len() ==> is_string_sid(#[trigger] sids[i]),
    decreases sids.len(),
{
    if sids.len() > 0 {
        let front = sids.drop_last();
        bad_sid_is_found(front);
        if crate::transport::first_bad_sid(sids) is None {
            assert forall|i: int| 0 <= i < sids.len() implies is_string_sid(#[trigger] sids[i]) by {
                if i < front.len() {
                    assert(is_string_sid(front[i]));
                }
            }
        } else if forall|i: int| 0 <= i < sids.len() ==> is_string_sid(#[trigger] sids[i]) {
            assert forall|i: int| 0 <= i < front.len() implies is_string_sid(#[trigger] front[i]) by {
                assert(is_string_sid(sids[i]));
            }
            assert(is_string_sid(sids[sids.len() - 1]));
        }
    }
}

proof fn entries_admit_each(sids: Seq<Seq<char>>)
    ensures
        stand_in_order(aces(sids), each_admitted(sids)),
    decreases sids.len(),
{
    if sids.len() == 0 {
        assert(each_admitted(sids) =~= Seq::<Seq<char>>::empty());
        crate::ir_laws::no_part_stands(aces(sids));
    } else {
        let front = sids.drop_last();
        let one = "(A;;GA;;;"@ + sids.last() + ")"@;
        entries_admit_each(front);
        one_part_stands(one);
        parts_stand_together(aces(front), each_admitted(front), one, seq![one]);
        assert(each_admitted(front) + seq![one] =~= each_admitted(sids));
    }
}

/// One number more behind an account's identifier makes another, and nothing but digits does.
pub proof fn account_goes_on_with_numbers(sid: Seq<char>, more: Seq<char>)
    requires
        forall|i: int| 0 <= i < more.len() ==> #[trigger] more[i] != '-',
        pieces(sid, '-').len() >= 3,
    ensures
        is_string_sid(sid + "-"@ + more) <==> is_string_sid(sid) && is_digits(more),
{
    reveal_strlit("-");
    assert("-"@ =~= seq!['-']);
    plain_text_is_one_piece(more, '-');
    pieces_of_two(sid, more, '-');
    let ps = pieces(sid, '-');
    let all = pieces(sid + "-"@ + more, '-');
    assert(all =~= ps.push(more));
    assert(all[0] == ps[0] && all[1] == ps[1]);
    if is_string_sid(sid + "-"@ + more) {
        assert forall|i: int| 2 <= i < ps.len() implies is_digits(#[trigger] ps[i]) by {
            assert(all[i] == ps[i]);
        }
        assert(is_digits(all[ps.len() as int]));
    }
    if is_string_sid(sid) && is_digits(more) {
        assert forall|i: int| 2 <= i < all.len() implies is_digits(#[trigger] all[i]) by {
            if i < ps.len() {
                assert(all[i] == ps[i]);
            }
        }
    }
}

/// A pipe is spoken to when its owner is this account or the service, whatever the case; and no
/// account but a user's, with a name, is the one that an endpoint admits.
pub proof fn stranger_is_not_spoken_to(
    owner: Seq<char>,
    mine: Seq<char>,
    sid: Seq<char>,
    account: Seq<char>,
    kind: AccountKind,
)
    ensures
        is_expected(mine, mine),
        is_expected(owner, mine) ==> same_but_case(owner, mine) || same_but_case(
            owner,
            crate::transport::VKD_SERVICE_SID@,
        ),
        same_but_case(owner, mine) ==> is_expected(owner, mine) && owner.len() == mine.len(),
        is_expected(crate::transport::VKD_SERVICE_SID@, mine),
        account_fault(sid, account, kind) is None <==> kind is User && account.len() > 0,
        is_fatal(Some(9)) && is_fatal(Some(22)),
        !is_fatal(None),
        forall|n: i32| #[trigger] is_fatal(Some(n)) ==> n == 9 || n == 22,
{
}

/// The peer of a connection is its address byte by byte, and its port with the high byte first.
pub proof fn peer_is_its_bytes(a: u8, b: u8, c: u8, d: u8, high: u8, low: u8)
    ensures
        v4_peer_text(
            (a + 256 * b + 65536 * c + 16777216 * d) as u32,
            (high + 256 * low) as u32,
        ) == decimal(a as nat) + "."@ + decimal(b as nat) + "."@ + decimal(c as nat) + "."@
            + decimal(d as nat) + ":"@ + decimal((256 * high + low) as nat),
{
    let addr: u32 = (a + 256 * b + 65536 * c + 16777216 * d) as u32;
    let port: u32 = (high + 256 * low) as u32;
    assert(addr == a + 256 * b + 65536 * c + 16777216 * d);
    assert(addr % 256 == a);
    assert(addr / 256 % 256 == b);
    assert(addr / 65536 % 256 == c);
    assert(addr / 16777216 == d);
    assert(port % 256 == high);
    assert(port / 256 % 256 == low);
}

/// A cap is one when it is of some memory that there can be and of one to a hundred percent of
/// the machine.
pub proof fn cap_is_one_when_it_can_hold(max_memory_bytes: u64, cpu_rate_percent: Option<u32>)
    ensures
        caps_fault(max_memory_bytes, cpu_rate_percent) is None <==> {
            &&& 0 < max_memory_bytes <= usize::MAX
            &&& cpu_rate_percent is None || 1 <= cpu_rate_percent->0 <= 100
        },
{
}

/// A process is contained when it was in the job before, or was put there and is in it after;
/// whatever else came of the attempt says why it is not, and for one that ended or could not be
/// looked at says that.
pub proof fn process_is_contained_when_it_is_in(pid: u32, a: Attempt)
    ensures
        refusal_of(pid, a) is None <==> {
            ||| a.before is Ok && a.before->Ok_0
            ||| a.before is Ok && a.assigned is Ok && a.after is Ok && a.after->Ok_0
        },
{
}

/// Why a process would not go into a job tells the code of one that had ended, whatever else is
/// known of it.
pub proof fn ended_process_is_told_by_its_code(f: RefusalFacts, code: u32)
    requires
        answer(f.exited) == Ok::<Option<u32>, Seq<char>>(Some(code)),
    ensures
        cause_of(f) == "the process had already exited with code "@ + decimal(code as nat),
{
}

/// A refusal as a person reads it begins with the word for its kind, and no other kind has that
/// word.
pub proof fn refusal_begins_with_its_kind(e: KernelErrorView)
    ensures
        begins(error_text(e), "I1: "@) <==> e is I1,
        begins(error_text(e), "I2: "@) <==> e is I2,
        begins(error_text(e), "I3: "@) <==> e is I3,
        begins(error_text(e), "I4: "@) <==> e is I4,
        begins(error_text(e), "I4': "@) <==> e is I4Prime,
        begins(error_text(e), "scope is stopped: "@) <==> e is Stopped,
        begins(error_text(e), "lock: "@) <==> e is Lock,
        begins(error_text(e), "principal: "@) <==> e is Principal,
        begins(error_text(e), "stop: "@) <==> e is Stop,
        begins(error_text(e), "module: "@) <==> e is Module,
        begins(error_text(e), "gate: "@) <==> e is Gate,
        begins(error_text(e), "not found: "@) <==> e is NotFound,
        begins(error_text(e), "store: "@) <==> e is Store,
        e is ArchStarting || e is ArchUnavailable <==> begins(error_text(e), "arch "@),
{
    reveal_strlit("I1: ");
    reveal_strlit("I2: ");
    reveal_strlit("I3: ");
    reveal_strlit("I4: ");
    reveal_strlit("I4': ");
    reveal_strlit("scope is stopped: ");
    reveal_strlit("lock: ");
    reveal_strlit("principal: ");
    reveal_strlit("stop: ");
    reveal_strlit("module: ");
    reveal_strlit("gate: ");
    reveal_strlit("not found: ");
    reveal_strlit("store: ");
    reveal_strlit("arch ");
    reveal_strlit("arch unavailable: ");
    let t = error_text(e);
    match e {
        KernelErrorView::I1(s) => {
            assert(t.subrange(0, 4) =~= "I1: "@);
            assert(t[1] == "I1: "@[1] && t[1] != "I2: "@[1]);
            assert(!begins(t, "I2: "@)) by {
                if begins(t, "I2: "@) {
                    assert(t.subrange(0, 4)[1] == t[1]);
                }
            }
            assert(t[1] == "I1: "@[1] && t[1] != "I3: "@[1]);
            assert(!begins(t, "I3: "@)) by {
                if begins(t, "I3: "@) {
                    assert(t.subrange(0, 4)[1] == t[1]);
                }
            }
            assert(t[1] == "I1: "@[1] && t[1] != "I4: "@[1]);
            assert(!begins(t, "I4: "@)) by {
                if begins(t, "I4: "@) {
                    assert(t.subrange(0, 4)[1] == t[1]);
                }
            }
            assert(t[1] == "I1: "@[1] && t[1] != "I4': "@[1]);
            assert(!begins(t, "I4': "@)) by {
                if begins(t, "I4': "@) {
                    assert(t.subrange(0, 5)[1] == t[1]);
                }
            }
            assert(t[0] == "I1: "@[0] && t[0] != "scope is stopped: "@[0]);
            assert(!begins(t, "scope is stopped: "@)) by {
                if begins(t, "scope is stopped: "@) {
                    assert(t.subrange(0, 18)[0] == t[0]);
                }
            }
            assert(t[0] == "I1: "@[0] && t[0] != "lock: "@[0]);
            assert(!begins(t, "lock: "@)) by {
                if begins(t, "lock: "@) {
                    assert(t.subrange(0, 6)[0] == t[0]);
                }
            }
            assert(t[0] == "I1: "@[0] && t[0] != "principal: "@[0]);
            assert(!begins(t, "principal: "@)) by {
                if begins(t, "principal: "@) {
                    assert(t.subrange(0, 11)[0] == t[0]);
                }
            }
            assert(t[0] == "I1: "@[0] && t[0] != "stop: "@[0]);
            assert(!begins(t, "stop: "@)) by {
                if begins(t, "stop: "@) {
                    assert(t.subrange(0, 6)[0] == t[0]);
                }
            }
            assert(t[0] == "I1: "@[0] && t[0] != "module: "@[0]);
            assert(!begins(t, "module: "@)) by {
                if begins(t, "module: "@) {
                    assert(t.subrange(0, 8)[0] == t[0]);
                }
            }
            assert(t[0] == "I1: "@[0] && t[0] != "gate: "@[0]);
            assert(!begins(t, "gate: "@)) by {
                if begins(t, "gate: "@) {
                    assert(t.subrange(0, 6)[0] == t[0]);
                }
            }
            assert(t[0] == "I1: "@[0] && t[0] != "not found: "@[0]);
            assert(!begins(t, "not found: "@)) by {
                if begins(t, "not found: "@) {
                    assert(t.subrange(0, 11)[0] == t[0]);
                }
            }
            assert(t[0] == "I1: "@[0] && t[0] != "store: "@[0]);
            assert(!begins(t, "store: "@)) by {
                if begins(t, "store: "@) {
                    assert(t.subrange(0, 7)[0] == t[0]);
                }
            }
            assert(t[0] == "I1: "@[0] && t[0] != "arch "@[0]);
            assert(!begins(t, "arch "@)) by {
                if begins(t, "arch "@) {
                    assert(t.subrange(0, 5)[0] == t[0]);
                }
            }
        },
        KernelErrorView::I2(s) => {
            assert(t.subrange(0, 4) =~= "I2: "@);
            assert(t[1] == "I2: "@[1] && t[1] != "I1: "@[1]);
            assert(!begins(t, "I1: "@)) by {
                if begins(t, "I1: "@) {
                    assert(t.subrange(0, 4)[1] == t[1]);
                }
            }
            assert(t[1] == "I2: "@[1] && t[1] != "I3: "@[1]);
            assert(!begins(t, "I3: "@)) by {
                if begins(t, "I3: "@) {
                    assert(t.subrange(0, 4)[1] == t[1]);
                }
            }
            assert(t[1] == "I2: "@[1] && t[1] != "I4: "@[1]);
            assert(!begins(t, "I4: "@)) by {
                if begins(t, "I4: "@) {
                    assert(t.subrange(0, 4)[1] == t[1]);
                }
            }
            assert(t[1] == "I2: "@[1] && t[1] != "I4': "@[1]);
            assert(!begins(t, "I4': "@)) by {
                if begins(t, "I4': "@) {
                    assert(t.subrange(0, 5)[1] == t[1]);
                }
            }
            assert(t[0] == "I2: "@[0] && t[0] != "scope is stopped: "@[0]);
            assert(!begins(t, "scope is stopped: "@)) by {
                if begins(t, "scope is stopped: "@) {
                    assert(t.subrange(0, 18)[0] == t[0]);
                }
            }
            assert(t[0] == "I2: "@[0] && t[0] != "lock: "@[0]);
            assert(!begins(t, "lock: "@)) by {
                if begins(t, "lock: "@) {
                    assert(t.subrange(0, 6)[0] == t[0]);
                }
            }
            assert(t[0] == "I2: "@[0] && t[0] != "principal: "@[0]);
            assert(!begins(t, "principal: "@)) by {
                if begins(t, "principal: "@) {
                    assert(t.subrange(0, 11)[0] == t[0]);
                }
            }
            assert(t[0] == "I2: "@[0] && t[0] != "stop: "@[0]);
            assert(!begins(t, "stop: "@)) by {
                if begins(t, "stop: "@) {
                    assert(t.subrange(0, 6)[0] == t[0]);
                }
            }
            assert(t[0] == "I2: "@[0] && t[0] != "module: "@[0]);
            assert(!begins(t, "module: "@)) by {
                if begins(t, "module: "@) {
                    assert(t.subrange(0, 8)[0] == t[0]);
                }
            }
            assert(t[0] == "I2: "@[0] && t[0] != "gate: "@[0]);
            assert(!begins(t, "gate: "@)) by {
                if begins(t, "gate: "@) {
                    assert(t.subrange(0, 6)[0] == t[0]);
                }
            }
            assert(t[0] == "I2: "@[0] && t[0] != "not found: "@[0]);
            assert(!begins(t, "not found: "@)) by {
                if begins(t, "not found: "@) {
                    assert(t.subrange(0, 11)[0] == t[0]);
                }
            }
            assert(t[0] == "I2: "@[0] && t[0] != "store: "@[0]);
            assert(!begins(t, "store: "@)) by {
                if begins(t, "store: "@) {
                    assert(t.subrange(0, 7)[0] == t[0]);
                }
            }
            assert(t[0] == "I2: "@[0] && t[0] != "arch "@[0]);
            assert(!begins(t, "arch "@)) by {
                if begins(t, "arch "@) {
                    assert(t.subrange(0, 5)[0] == t[0]);
                }
            }
        },
        KernelErrorView::I3(s) => {
            assert(t.subrange(0, 4) =~= "I3: "@);
            assert(t[1] == "I3: "@[1] && t[1] != "I1: "@[1]);
            assert(!begins(t, "I1: "@)) by {
                if begins(t, "I1: "@) {
                    assert(t.subrange(0, 4)[1] == t[1]);
                }
            }
            assert(t[1] == "I3: "@[1] && t[1] != "I2: "@[1]);
            assert(!begins(t, "I2: "@)) by {
                if begins(t, "I2: "@) {
                    assert(t.subrange(0, 4)[1] == t[1]);
                }
            }
            assert(t[1] == "I3: "@[1] && t[1] != "I4: "@[1]);
            assert(!begins(t, "I4: "@)) by {
                if begins(t, "I4: "@) {
                    assert(t.subrange(0, 4)[1] == t[1]);
                }
            }
            assert(t[1] == "I3: "@[1] && t[1] != "I4': "@[1]);
            assert(!begins(t, "I4': "@)) by {
                if begins(t, "I4': "@) {
                    assert(t.subrange(0, 5)[1] == t[1]);
                }
            }
            assert(t[0] == "I3: "@[0] && t[0] != "scope is stopped: "@[0]);
            assert(!begins(t, "scope is stopped: "@)) by {
                if begins(t, "scope is stopped: "@) {
                    assert(t.subrange(0, 18)[0] == t[0]);
                }
            }
            assert(t[0] == "I3: "@[0] && t[0] != "lock: "@[0]);
            assert(!begins(t, "lock: "@)) by {
                if begins(t, "lock: "@) {
                    assert(t.subrange(0, 6)[0] == t[0]);
                }
            }
            assert(t[0] == "I3: "@[0] && t[0] != "principal: "@[0]);
            assert(!begins(t, "principal: "@)) by {
                if begins(t, "principal: "@) {
                    assert(t.subrange(0, 11)[0] == t[0]);
                }
            }
            assert(t[0] == "I3: "@[0] && t[0] != "stop: "@[0]);
            assert(!begins(t, "stop: "@)) by {
                if begins(t, "stop: "@) {
                    assert(t.subrange(0, 6)[0] == t[0]);
                }
            }
            assert(t[0] == "I3: "@[0] && t[0] != "module: "@[0]);
            assert(!begins(t, "module: "@)) by {
                if begins(t, "module: "@) {
                    assert(t.subrange(0, 8)[0] == t[0]);
                }
            }
            assert(t[0] == "I3: "@[0] && t[0] != "gate: "@[0]);
            assert(!begins(t, "gate: "@)) by {
                if begins(t, "gate: "@) {
                    assert(t.subrange(0, 6)[0] == t[0]);
                }
            }
            assert(t[0] == "I3: "@[0] && t[0] != "not found: "@[0]);
            assert(!begins(t, "not found: "@)) by {
                if begins(t, "not found: "@) {
                    assert(t.subrange(0, 11)[0] == t[0]);
                }
            }
            assert(t[0] == "I3: "@[0] && t[0] != "store: "@[0]);
            assert(!begins(t, "store: "@)) by {
                if begins(t, "store: "@) {
                    assert(t.subrange(0, 7)[0] == t[0]);
                }
            }
            assert(t[0] == "I3: "@[0] && t[0] != "arch "@[0]);
            assert(!begins(t, "arch "@)) by {
                if begins(t, "arch "@) {
                    assert(t.subrange(0, 5)[0] == t[0]);
                }
            }
        },
        KernelErrorView::I4(s) => {
            assert(t.subrange(0, 4) =~= "I4: "@);
            assert(t[1] == "I4: "@[1] && t[1] != "I1: "@[1]);
            assert(!begins(t, "I1: "@)) by {
                if begins(t, "I1: "@) {
                    assert(t.subrange(0, 4)[1] == t[1]);
                }
            }
            assert(t[1] == "I4: "@[1] && t[1] != "I2: "@[1]);
            assert(!begins(t, "I2: "@)) by {
                if begins(t, "I2: "@) {
                    assert(t.subrange(0, 4)[1] == t[1]);
                }
            }
            assert(t[1] == "I4: "@[1] && t[1] != "I3: "@[1]);
            assert(!begins(t, "I3: "@)) by {
                if begins(t, "I3: "@) {
                    assert(t.subrange(0, 4)[1] == t[1]);
                }
            }
            assert(t[2] == "I4: "@[2] && t[2] != "I4': "@[2]);
            assert(!begins(t, "I4': "@)) by {
                if begins(t, "I4': "@) {
                    assert(t.subrange(0, 5)[2] == t[2]);
                }
            }
            assert(t[0] == "I4: "@[0] && t[0] != "scope is stopped: "@[0]);
            assert(!begins(t, "scope is stopped: "@)) by {
                if begins(t, "scope is stopped: "@) {
                    assert(t.subrange(0, 18)[0] == t[0]);
                }
            }
            assert(t[0] == "I4: "@[0] && t[0] != "lock: "@[0]);
            assert(!begins(t, "lock: "@)) by {
                if begins(t, "lock: "@) {
                    assert(t.subrange(0, 6)[0] == t[0]);
                }
            }
            assert(t[0] == "I4: "@[0] && t[0] != "principal: "@[0]);
            assert(!begins(t, "principal: "@)) by {
                if begins(t, "principal: "@) {
                    assert(t.subrange(0, 11)[0] == t[0]);
                }
            }
            assert(t[0] == "I4: "@[0] && t[0] != "stop: "@[0]);
            assert(!begins(t, "stop: "@)) by {
                if begins(t, "stop: "@) {
                    assert(t.subrange(0, 6)[0] == t[0]);
                }
            }
            assert(t[0] == "I4: "@[0] && t[0] != "module: "@[0]);
            assert(!begins(t, "module: "@)) by {
                if begins(t, "module: "@) {
                    assert(t.subrange(0, 8)[0] == t[0]);
                }
            }
            assert(t[0] == "I4: "@[0] && t[0] != "gate: "@[0]);
            assert(!begins(t, "gate: "@)) by {
                if begins(t, "gate: "@) {
                    assert(t.subrange(0, 6)[0] == t[0]);
                }
            }
            assert(t[0] == "I4: "@[0] && t[0] != "not found: "@[0]);
            assert(!begins(t, "not found: "@)) by {
                if begins(t, "not found: "@) {
                    assert(t.subrange(0, 11)[0] == t[0]);
                }
            }
            assert(t[0] == "I4: "@[0] && t[0] != "store: "@[0]);
            assert(!begins(t, "store: "@)) by {
                if begins(t, "store: "@) {
                    assert(t.subrange(0, 7)[0] == t[0]);
                }
            }
            assert(t[0] == "I4: "@[0] && t[0] != "arch "@[0]);
            assert(!begins(t, "arch "@)) by {
                if begins(t, "arch "@) {
                    assert(t.subrange(0, 5)[0] == t[0]);
                }
            }
        },
        KernelErrorView::I4Prime(s) => {
            assert(t.subrange(0, 5) =~= "I4': "@);
            assert(t[1] == "I4': "@[1] && t[1] != "I1: "@[1]);
            assert(!begins(t, "I1: "@)) by {
                if begins(t, "I1: "@) {
                    assert(t.subrange(0, 4)[1] == t[1]);
                }
            }
            assert(t[1] == "I4': "@[1] && t[1] != "I2: "@[1]);
            assert(!begins(t, "I2: "@)) by {
                if begins(t, "I2: "@) {
                    assert(t.subrange(0, 4)[1] == t[1]);
                }
            }
            assert(t[1] == "I4': "@[1] && t[1] != "I3: "@[1]);
            assert(!begins(t, "I3: "@)) by {
                if begins(t, "I3: "@) {
                    assert(t.subrange(0, 4)[1] == t[1]);
                }
            }
            assert(t[2] == "I4': "@[2] && t[2] != "I4: "@[2]);
            assert(!begins(t, "I4: "@)) by {
                if begins(t, "I4: "@) {
                    assert(t.subrange(0, 4)[2] == t[2]);
                }
            }
            assert(t[0] == "I4': "@[0] && t[0] != "scope is stopped: "@[0]);
            assert(!begins(t, "scope is stopped: "@)) by {
                if begins(t, "scope is stopped: "@) {
                    assert(t.subrange(0, 18)[0] == t[0]);
                }
            }
            assert(t[0] == "I4': "@[0] && t[0] != "lock: "@[0]);
            assert(!begins(t, "lock: "@)) by {
                if begins(t, "lock: "@) {
                    assert(t.subrange(0, 6)[0] == t[0]);
                }
            }
            assert(t[0] == "I4': "@[0] && t[0] != "principal: "@[0]);
            assert(!begins(t, "principal: "@)) by {
                if begins(t, "principal: "@) {
                    assert(t.subrange(0, 11)[0] == t[0]);
                }
            }
            assert(t[0] == "I4': "@[0] && t[0] != "stop: "@[0]);
            assert(!begins(t, "stop: "@)) by {
                if begins(t, "stop: "@) {
                    assert(t.subrange(0, 6)[0] == t[0]);
                }
            }
            assert(t[0] == "I4': "@[0] && t[0] != "module: "@[0]);
            assert(!begins(t, "module: "@)) by {
                if begins(t, "module: "@) {
                    assert(t.subrange(0, 8)[0] == t[0]);
                }
            }
            assert(t[0] == "I4': "@[0] && t[0] != "gate: "@[0]);
            assert(!begins(t, "gate: "@)) by {
                if begins(t, "gate: "@) {
                    assert(t.subrange(0, 6)[0] == t[0]);
                }
            }
            assert(t[0] == "I4': "@[0] && t[0] != "not found: "@[0]);
            assert(!begins(t, "not found: "@)) by {
                if begins(t, "not found: "@) {
                    assert(t.subrange(0, 11)[0] == t[0]);
                }
            }
            assert(t[0] == "I4': "@[0] && t[0] != "store: "@[0]);
            assert(!begins(t, "store: "@)) by {
                if begins(t, "store: "@) {
                    assert(t.subrange(0, 7)[0] == t[0]);
                }
            }
            assert(t[0] == "I4': "@[0] && t[0] != "arch "@[0]);
            assert(!begins(t, "arch "@)) by {
                if begins(t, "arch "@) {
                    assert(t.subrange(0, 5)[0] == t[0]);
                }
            }
        },
        KernelErrorView::Stopped(s) => {
            assert(t.subrange(0, 18) =~= "scope is stopped: "@);
            assert(t[0] == "scope is stopped: "@[0] && t[0] != "I1: "@[0]);
            assert(!begins(t, "I1: "@)) by {
                if begins(t, "I1: "@) {
                    assert(t.subrange(0, 4)[0] == t[0]);
                }
            }
            assert(t[0] == "scope is stopped: "@[0] && t[0] != "I2: "@[0]);
            assert(!begins(t, "I2: "@)) by {
                if begins(t, "I2: "@) {
                    assert(t.subrange(0, 4)[0] == t[0]);
                }
            }
            assert(t[0] == "scope is stopped: "@[0] && t[0] != "I3: "@[0]);
            assert(!begins(t, "I3: "@)) by {
                if begins(t, "I3: "@) {
                    assert(t.subrange(0, 4)[0] == t[0]);
                }
            }
            assert(t[0] == "scope is stopped: "@[0] && t[0] != "I4: "@[0]);
            assert(!begins(t, "I4: "@)) by {
                if begins(t, "I4: "@) {
                    assert(t.subrange(0, 4)[0] == t[0]);
                }
            }
            assert(t[0] == "scope is stopped: "@[0] && t[0] != "I4': "@[0]);
            assert(!begins(t, "I4': "@)) by {
                if begins(t, "I4': "@) {
                    assert(t.subrange(0, 5)[0] == t[0]);
                }
            }
            assert(t[0] == "scope is stopped: "@[0] && t[0] != "lock: "@[0]);
            assert(!begins(t, "lock: "@)) by {
                if begins(t, "lock: "@) {
                    assert(t.subrange(0, 6)[0] == t[0]);
                }
            }
            assert(t[0] == "scope is stopped: "@[0] && t[0] != "principal: "@[0]);
            assert(!begins(t, "principal: "@)) by {
                if begins(t, "principal: "@) {
                    assert(t.subrange(0, 11)[0] == t[0]);
                }
            }
            assert(t[1] == "scope is stopped: "@[1] && t[1] != "stop: "@[1]);
            assert(!begins(t, "stop: "@)) by {
                if begins(t, "stop: "@) {
                    assert(t.subrange(0, 6)[1] == t[1]);
                }
            }
            assert(t[0] == "scope is stopped: "@[0] && t[0] != "module: "@[0]);
            assert(!begins(t, "module: "@)) by {
                if begins(t, "module: "@) {
                    assert(t.subrange(0, 8)[0] == t[0]);
                }
            }
            assert(t[0] == "scope is stopped: "@[0] && t[0] != "gate: "@[0]);
            assert(!begins(t, "gate: "@)) by {
                if begins(t, "gate: "@) {
                    assert(t.subrange(0, 6)[0] == t[0]);
                }
            }
            assert(t[0] == "scope is stopped: "@[0] && t[0] != "not found: "@[0]);
            assert(!begins(t, "not found: "@)) by {
                if begins(t, "not found: "@) {
                    assert(t.subrange(0, 11)[0] == t[0]);
                }
            }
            assert(t[1] == "scope is stopped: "@[1] && t[1] != "store: "@[1]);
            assert(!begins(t, "store: "@)) by {
                if begins(t, "store: "@) {
                    assert(t.subrange(0, 7)[1] == t[1]);
                }
            }
            assert(t[0] == "scope is stopped: "@[0] && t[0] != "arch "@[0]);
            assert(!begins(t, "arch "@)) by {
                if begins(t, "arch "@) {
                    assert(t.subrange(0, 5)[0] == t[0]);
                }
            }
        },
        KernelErrorView::Lock(s) => {
            assert(t.subrange(0, 6) =~= "lock: "@);
            assert(t[0] == "lock: "@[0] && t[0] != "I1: "@[0]);
            assert(!begins(t, "I1: "@)) by {
                if begins(t, "I1: "@) {
                    assert(t.subrange(0, 4)[0] == t[0]);
                }
            }
            assert(t[0] == "lock: "@[0] && t[0] != "I2: "@[0]);
            assert(!begins(t, "I2: "@)) by {
                if begins(t, "I2: "@) {
                    assert(t.subrange(0, 4)[0] == t[0]);
                }
            }
            assert(t[0] == "lock: "@[0] && t[0] != "I3: "@[0]);
            assert(!begins(t, "I3: "@)) by {
                if begins(t, "I3: "@) {
                    assert(t.subrange(0, 4)[0] == t[0]);
                }
            }
            assert(t[0] == "lock: "@[0] && t[0] != "I4: "@[0]);
            assert(!begins(t, "I4: "@)) by {
                if begins(t, "I4: "@) {
                    assert(t.subrange(0, 4)[0] == t[0]);
                }
            }
            assert(t[0] == "lock: "@[0] && t[0] != "I4': "@[0]);
            assert(!begins(t, "I4': "@)) by {
                if begins(t, "I4': "@) {
                    assert(t.subrange(0, 5)[0] == t[0]);
                }
            }
            assert(t[0] == "lock: "@[0] && t[0] != "scope is stopped: "@[0]);
            assert(!begins(t, "scope is stopped: "@)) by {
                if begins(t, "scope is stopped: "@) {
                    assert(t.subrange(0, 18)[0] == t[0]);
                }
            }
            assert(t[0] == "lock: "@[0] && t[0] != "principal: "@[0]);
            assert(!begins(t, "principal: "@)) by {
                if begins(t, "principal: "@) {
                    assert(t.subrange(0, 11)[0] == t[0]);
                }
            }
            assert(t[0] == "lock: "@[0] && t[0] != "stop: "@[0]);
            assert(!begins(t, "stop: "@)) by {
                if begins(t, "stop: "@) {
                    assert(t.subrange(0, 6)[0] == t[0]);
                }
            }
            assert(t[0] == "lock: "@[0] && t[0] != "module: "@[0]);
            assert(!begins(t, "module: "@)) by {
                if begins(t, "module: "@) {
                    assert(t.subrange(0, 8)[0] == t[0]);
                }
            }
            assert(t[0] == "lock: "@[0] && t[0] != "gate: "@[0]);
            assert(!begins(t, "gate: "@)) by {
                if begins(t, "gate: "@) {
                    assert(t.subrange(0, 6)[0] == t[0]);
                }
            }
            assert(t[0] == "lock: "@[0] && t[0] != "not found: "@[0]);
            assert(!begins(t, "not found: "@)) by {
                if begins(t, "not found: "@) {
                    assert(t.subrange(0, 11)[0] == t[0]);
                }
            }
            assert(t[0] == "lock: "@[0] && t[0] != "store: "@[0]);
            assert(!begins(t, "store: "@)) by {
                if begins(t, "store: "@) {
                    assert(t.subrange(0, 7)[0] == t[0]);
                }
            }
            assert(t[0] == "lock: "@[0] && t[0] != "arch "@[0]);
            assert(!begins(t, "arch "@)) by {
                if begins(t, "arch "@) {
                    assert(t.subrange(0, 5)[0] == t[0]);
                }
            }
        },
        KernelErrorView::Principal(s) => {
            assert(t.subrange(0, 11) =~= "principal: "@);
            assert(t[0] == "principal: "@[0] && t[0] != "I1: "@[0]);
            assert(!begins(t, "I1: "@)) by {
                if begins(t, "I1: "@) {
                    assert(t.subrange(0, 4)[0] == t[0]);
                }
            }
            assert(t[0] == "principal: "@[0] && t[0] != "I2: "@[0]);
            assert(!begins(t, "I2: "@)) by {
                if begins(t, "I2: "@) {
                    assert(t.subrange(0, 4)[0] == t[0]);
                }
            }
            assert(t[0] == "principal: "@[0] && t[0] != "I3: "@[0]);
            assert(!begins(t, "I3: "@)) by {
                if begins(t, "I3: "@) {
                    assert(t.subrange(0, 4)[0] == t[0]);
                }
            }
            assert(t[0] == "principal: "@[0] && t[0] != "I4: "@[0]);
            assert(!begins(t, "I4: "@)) by {
                if begins(t, "I4: "@) {
                    assert(t.subrange(0, 4)[0] == t[0]);
                }
            }
            assert(t[0] == "principal: "@[0] && t[0] != "I4': "@[0]);
            assert(!begins(t, "I4': "@)) by {
                if begins(t, "I4': "@) {
                    assert(t.subrange(0, 5)[0] == t[0]);
                }
            }
            assert(t[0] == "principal: "@[0] && t[0] != "scope is stopped: "@[0]);
            assert(!begins(t, "scope is stopped: "@)) by {
                if begins(t, "scope is stopped: "@) {
                    assert(t.subrange(0, 18)[0] == t[0]);
                }
            }
            assert(t[0] == "principal: "@[0] && t[0] != "lock: "@[0]);
            assert(!begins(t, "lock: "@)) by {
                if begins(t, "lock: "@) {
                    assert(t.subrange(0, 6)[0] == t[0]);
                }
            }
            assert(t[0] == "principal: "@[0] && t[0] != "stop: "@[0]);
            assert(!begins(t, "stop: "@)) by {
                if begins(t, "stop: "@) {
                    assert(t.subrange(0, 6)[0] == t[0]);
                }
            }
            assert(t[0] == "principal: "@[0] && t[0] != "module: "@[0]);
            assert(!begins(t, "module: "@)) by {
                if begins(t, "module: "@) {
                    assert(t.subrange(0, 8)[0] == t[0]);
                }
            }
            assert(t[0] == "principal: "@[0] && t[0] != "gate: "@[0]);
            assert(!begins(t, "gate: "@)) by {
                if begins(t, "gate: "@) {
                    assert(t.subrange(0, 6)[0] == t[0]);
                }
            }
            assert(t[0] == "principal: "@[0] && t[0] != "not found: "@[0]);
            assert(!begins(t, "not found: "@)) by {
                if begins(t, "not found: "@) {
                    assert(t.subrange(0, 11)[0] == t[0]);
                }
            }
            assert(t[0] == "principal: "@[0] && t[0] != "store: "@[0]);
            assert(!begins(t, "store: "@)) by {
                if begins(t, "store: "@) {
                    assert(t.subrange(0, 7)[0] == t[0]);
                }
            }
            assert(t[0] == "principal: "@[0] && t[0] != "arch "@[0]);
            assert(!begins(t, "arch "@)) by {
                if begins(t, "arch "@) {
                    assert(t.subrange(0, 5)[0] == t[0]);
                }
            }
        },
        KernelErrorView::Stop(s) => {
            assert(t.subrange(0, 6) =~= "stop: "@);
            assert(t[0] == "stop: "@[0] && t[0] != "I1: "@[0]);
            assert(!begins(t, "I1: "@)) by {
                if begins(t, "I1: "@) {
                    assert(t.subrange(0, 4)[0] == t[0]);
                }
            }
            assert(t[0] == "stop: "@[0] && t[0] != "I2: "@[0]);
            assert(!begins(t, "I2: "@)) by {
                if begins(t, "I2: "@) {
                    assert(t.subrange(0, 4)[0] == t[0]);
                }
            }
            assert(t[0] == "stop: "@[0] && t[0] != "I3: "@[0]);
            assert(!begins(t, "I3: "@)) by {
                if begins(t, "I3: "@) {
                    assert(t.subrange(0, 4)[0] == t[0]);
                }
            }
            assert(t[0] == "stop: "@[0] && t[0] != "I4: "@[0]);
            assert(!begins(t, "I4: "@)) by {
                if begins(t, "I4: "@) {
                    assert(t.subrange(0, 4)[0] == t[0]);
                }
            }
            assert(t[0] == "stop: "@[0] && t[0] != "I4': "@[0]);
            assert(!begins(t, "I4': "@)) by {
                if begins(t, "I4': "@) {
                    assert(t.subrange(0, 5)[0] == t[0]);
                }
            }
            assert(t[1] == "stop: "@[1] && t[1] != "scope is stopped: "@[1]);
            assert(!begins(t, "scope is stopped: "@)) by {
                if begins(t, "scope is stopped: "@) {
                    assert(t.subrange(0, 18)[1] == t[1]);
                }
            }
            assert(t[0] == "stop: "@[0] && t[0] != "lock: "@[0]);
            assert(!begins(t, "lock: "@)) by {
                if begins(t, "lock: "@) {
                    assert(t.subrange(0, 6)[0] == t[0]);
                }
            }
            assert(t[0] == "stop: "@[0] && t[0] != "principal: "@[0]);
            assert(!begins(t, "principal: "@)) by {
                if begins(t, "principal: "@) {
                    assert(t.subrange(0, 11)[0] == t[0]);
                }
            }
            assert(t[0] == "stop: "@[0] && t[0] != "module: "@[0]);
            assert(!begins(t, "module: "@)) by {
                if begins(t, "module: "@) {
                    assert(t.subrange(0, 8)[0] == t[0]);
                }
            }
            assert(t[0] == "stop: "@[0] && t[0] != "gate: "@[0]);
            assert(!begins(t, "gate: "@)) by {
                if begins(t, "gate: "@) {
                    assert(t.subrange(0, 6)[0] == t[0]);
                }
            }
            assert(t[0] == "stop: "@[0] && t[0] != "not found: "@[0]);
            assert(!begins(t, "not found: "@)) by {
                if begins(t, "not found: "@) {
                    assert(t.subrange(0, 11)[0] == t[0]);
                }
            }
            assert(t[3] == "stop: "@[3] && t[3] != "store: "@[3]);
            assert(!begins(t, "store: "@)) by {
                if begins(t, "store: "@) {
                    assert(t.subrange(0, 7)[3] == t[3]);
                }
            }
            assert(t[0] == "stop: "@[0] && t[0] != "arch "@[0]);
            assert(!begins(t, "arch "@)) by {
                if begins(t, "arch "@) {
                    assert(t.subrange(0, 5)[0] == t[0]);
                }
            }
        },
        KernelErrorView::Module(s) => {
            assert(t.subrange(0, 8) =~= "module: "@);
            assert(t[0] == "module: "@[0] && t[0] != "I1: "@[0]);
            assert(!begins(t, "I1: "@)) by {
                if begins(t, "I1: "@) {
                    assert(t.subrange(0, 4)[0] == t[0]);
                }
            }
            assert(t[0] == "module: "@[0] && t[0] != "I2: "@[0]);
            assert(!begins(t, "I2: "@)) by {
                if begins(t, "I2: "@) {
                    assert(t.subrange(0, 4)[0] == t[0]);
                }
            }
            assert(t[0] == "module: "@[0] && t[0] != "I3: "@[0]);
            assert(!begins(t, "I3: "@)) by {
                if begins(t, "I3: "@) {
                    assert(t.subrange(0, 4)[0] == t[0]);
                }
            }
            assert(t[0] == "module: "@[0] && t[0] != "I4: "@[0]);
            assert(!begins(t, "I4: "@)) by {
                if begins(t, "I4: "@) {
                    assert(t.subrange(0, 4)[0] == t[0]);
                }
            }
            assert(t[0] == "module: "@[0] && t[0] != "I4': "@[0]);
            assert(!begins(t, "I4': "@)) by {
                if begins(t, "I4': "@) {
                    assert(t.subrange(0, 5)[0] == t[0]);
                }
            }
            assert(t[0] == "module: "@[0] && t[0] != "scope is stopped: "@[0]);
            assert(!begins(t, "scope is stopped: "@)) by {
                if begins(t, "scope is stopped: "@) {
                    assert(t.subrange(0, 18)[0] == t[0]);
                }
            }
            assert(t[0] == "module: "@[0] && t[0] != "lock: "@[0]);
            assert(!begins(t, "lock: "@)) by {
                if begins(t, "lock: "@) {
                    assert(t.subrange(0, 6)[0] == t[0]);
                }
            }
            assert(t[0] == "module: "@[0] && t[0] != "principal: "@[0]);
            assert(!begins(t, "principal: "@)) by {
                if begins(t, "principal: "@) {
                    assert(t.subrange(0, 11)[0] == t[0]);
                }
            }
            assert(t[0] == "module: "@[0] && t[0] != "stop: "@[0]);
            assert(!begins(t, "stop: "@)) by {
                if begins(t, "stop: "@) {
                    assert(t.subrange(0, 6)[0] == t[0]);
                }
            }
            assert(t[0] == "module: "@[0] && t[0] != "gate: "@[0]);
            assert(!begins(t, "gate: "@)) by {
                if begins(t, "gate: "@) {
                    assert(t.subrange(0, 6)[0] == t[0]);
                }
            }
            assert(t[0] == "module: "@[0] && t[0] != "not found: "@[0]);
            assert(!begins(t, "not found: "@)) by {
                if begins(t, "not found: "@) {
                    assert(t.subrange(0, 11)[0] == t[0]);
                }
            }
            assert(t[0] == "module: "@[0] && t[0] != "store: "@[0]);
            assert(!begins(t, "store: "@)) by {
                if begins(t, "store: "@) {
                    assert(t.subrange(0, 7)[0] == t[0]);
                }
            }
            assert(t[0] == "module: "@[0] && t[0] != "arch "@[0]);
            assert(!begins(t, "arch "@)) by {
                if begins(t, "arch "@) {
                    assert(t.subrange(0, 5)[0] == t[0]);
                }
            }
        },
        KernelErrorView::Gate(s) => {
            assert(t.subrange(0, 6) =~= "gate: "@);
            assert(t[0] == "gate: "@[0] && t[0] != "I1: "@[0]);
            assert(!begins(t, "I1: "@)) by {
                if begins(t, "I1: "@) {
                    assert(t.subrange(0, 4)[0] == t[0]);
                }
            }
            assert(t[0] == "gate: "@[0] && t[0] != "I2: "@[0]);
            assert(!begins(t, "I2: "@)) by {
                if begins(t, "I2: "@) {
                    assert(t.subrange(0, 4)[0] == t[0]);
                }
            }
            assert(t[0] == "gate: "@[0] && t[0] != "I3: "@[0]);
            assert(!begins(t, "I3: "@)) by {
                if begins(t, "I3: "@) {
                    assert(t.subrange(0, 4)[0] == t[0]);
                }
            }
            assert(t[0] == "gate: "@[0] && t[0] != "I4: "@[0]);
            assert(!begins(t, "I4: "@)) by {
                if begins(t, "I4: "@) {
                    assert(t.subrange(0, 4)[0] == t[0]);
                }
            }
            assert(t[0] == "gate: "@[0] && t[0] != "I4': "@[0]);
            assert(!begins(t, "I4': "@)) by {
                if begins(t, "I4': "@) {
                    assert(t.subrange(0, 5)[0] == t[0]);
                }
            }
            assert(t[0] == "gate: "@[0] && t[0] != "scope is stopped: "@[0]);
            assert(!begins(t, "scope is stopped: "@)) by {
                if begins(t, "scope is stopped: "@) {
                    assert(t.subrange(0, 18)[0] == t[0]);
                }
            }
            assert(t[0] == "gate: "@[0] && t[0] != "lock: "@[0]);
            assert(!begins(t, "lock: "@)) by {
                if begins(t, "lock: "@) {
                    assert(t.subrange(0, 6)[0] == t[0]);
                }
            }
            assert(t[0] == "gate: "@[0] && t[0] != "principal: "@[0]);
            assert(!begins(t, "principal: "@)) by {
                if begins(t, "principal: "@) {
                    assert(t.subrange(0, 11)[0] == t[0]);
                }
            }
            assert(t[0] == "gate: "@[0] && t[0] != "stop: "@[0]);
            assert(!begins(t, "stop: "@)) by {
                if begins(t, "stop: "@) {
                    assert(t.subrange(0, 6)[0] == t[0]);
                }
            }
            assert(t[0] == "gate: "@[0] && t[0] != "module: "@[0]);
            assert(!begins(t, "module: "@)) by {
                if begins(t, "module: "@) {
                    assert(t.subrange(0, 8)[0] == t[0]);
                }
            }
            assert(t[0] == "gate: "@[0] && t[0] != "not found: "@[0]);
            assert(!begins(t, "not found: "@)) by {
                if begins(t, "not found: "@) {
                    assert(t.subrange(0, 11)[0] == t[0]);
                }
            }
            assert(t[0] == "gate: "@[0] && t[0] != "store: "@[0]);
            assert(!begins(t, "store: "@)) by {
                if begins(t, "store: "@) {
                    assert(t.subrange(0, 7)[0] == t[0]);
                }
            }
            assert(t[0] == "gate: "@[0] && t[0] != "arch "@[0]);
            assert(!begins(t, "arch "@)) by {
                if begins(t, "arch "@) {
                    assert(t.subrange(0, 5)[0] == t[0]);
                }
            }
        },
        KernelErrorView::NotFound(s) => {
            assert(t.subrange(0, 11) =~= "not found: "@);
            assert(t[0] == "not found: "@[0] && t[0] != "I1: "@[0]);
            assert(!begins(t, "I1: "@)) by {
                if begins(t, "I1: "@) {
                    assert(t.subrange(0, 4)[0] == t[0]);
                }
            }
            assert(t[0] == "not found: "@[0] && t[0] != "I2: "@[0]);
            assert(!begins(t, "I2: "@)) by {
                if begins(t, "I2: "@) {
                    assert(t.subrange(0, 4)[0] == t[0]);
                }
            }
            assert(t[0] == "not found: "@[0] && t[0] != "I3: "@[0]);
            assert(!begins(t, "I3: "@)) by {
                if begins(t, "I3: "@) {
                    assert(t.subrange(0, 4)[0] == t[0]);
                }
            }
            assert(t[0] == "not found: "@[0] && t[0] != "I4: "@[0]);
            assert(!begins(t, "I4: "@)) by {
                if begins(t, "I4: "@) {
                    assert(t.subrange(0, 4)[0] == t[0]);
                }
            }
            assert(t[0] == "not found: "@[0] && t[0] != "I4': "@[0]);
            assert(!begins(t, "I4': "@)) by {
                if begins(t, "I4': "@) {
                    assert(t.subrange(0, 5)[0] == t[0]);
                }
            }
            assert(t[0] == "not found: "@[0] && t[0] != "scope is stopped: "@[0]);
            assert(!begins(t, "scope is stopped: "@)) by {
                if begins(t, "scope is stopped: "@) {
                    assert(t.subrange(0, 18)[0] == t[0]);
                }
            }
            assert(t[0] == "not found: "@[0] && t[0] != "lock: "@[0]);
            assert(!begins(t, "lock: "@)) by {
                if begins(t, "lock: "@) {
                    assert(t.subrange(0, 6)[0] == t[0]);
                }
            }
            assert(t[0] == "not found: "@[0] && t[0] != "principal: "@[0]);
            assert(!begins(t, "principal: "@)) by {
                if begins(t, "principal: "@) {
                    assert(t.subrange(0, 11)[0] == t[0]);
                }
            }
            assert(t[0] == "not found: "@[0] && t[0] != "stop: "@[0]);
            assert(!begins(t, "stop: "@)) by {
                if begins(t, "stop: "@) {
                    assert(t.subrange(0, 6)[0] == t[0]);
                }
            }
            assert(t[0] == "not found: "@[0] && t[0] != "module: "@[0]);
            assert(!begins(t, "module: "@)) by {
                if begins(t, "module: "@) {
                    assert(t.subrange(0, 8)[0] == t[0]);
                }
            }
            assert(t[0] == "not found: "@[0] && t[0] != "gate: "@[0]);
            assert(!begins(t, "gate: "@)) by {
                if begins(t, "gate: "@) {
                    assert(t.subrange(0, 6)[0] == t[0]);
                }
            }
            assert(t[0] == "not found: "@[0] && t[0] != "store: "@[0]);
            assert(!begins(t, "store: "@)) by {
                if begins(t, "store: "@) {
                    assert(t.subrange(0, 7)[0] == t[0]);
                }
            }
            assert(t[0] == "not found: "@[0] && t[0] != "arch "@[0]);
            assert(!begins(t, "arch "@)) by {
                if begins(t, "arch "@) {
                    assert(t.subrange(0, 5)[0] == t[0]);
                }
            }
        },
        KernelErrorView::Store(s) => {
            assert(t.subrange(0, 7) =~= "store: "@);
            assert(t[0] == "store: "@[0] && t[0] != "I1: "@[0]);
            assert(!begins(t, "I1: "@)) by {
                if begins(t, "I1: "@) {
                    assert(t.subrange(0, 4)[0] == t[0]);
                }
            }
            assert(t[0] == "store: "@[0] && t[0] != "I2: "@[0]);
            assert(!begins(t, "I2: "@)) by {
                if begins(t, "I2: "@) {
                    assert(t.subrange(0, 4)[0] == t[0]);
                }
            }
            assert(t[0] == "store: "@[0] && t[0] != "I3: "@[0]);
            assert(!begins(t, "I3: "@)) by {
                if begins(t, "I3: "@) {
                    assert(t.subrange(0, 4)[0] == t[0]);
                }
            }
            assert(t[0] == "store: "@[0] && t[0] != "I4: "@[0]);
            assert(!begins(t, "I4: "@)) by {
                if begins(t, "I4: "@) {
                    assert(t.subrange(0, 4)[0] == t[0]);
                }
            }
            assert(t[0] == "store: "@[0] && t[0] != "I4': "@[0]);
            assert(!begins(t, "I4': "@)) by {
                if begins(t, "I4': "@) {
                    assert(t.subrange(0, 5)[0] == t[0]);
                }
            }
            assert(t[1] == "store: "@[1] && t[1] != "scope is stopped: "@[1]);
            assert(!begins(t, "scope is stopped: "@)) by {
                if begins(t, "scope is stopped: "@) {
                    assert(t.subrange(0, 18)[1] == t[1]);
                }
            }
            assert(t[0] == "store: "@[0] && t[0] != "lock: "@[0]);
            assert(!begins(t, "lock: "@)) by {
                if begins(t, "lock: "@) {
                    assert(t.subrange(0, 6)[0] == t[0]);
                }
            }
            assert(t[0] == "store: "@[0] && t[0] != "principal: "@[0]);
            assert(!begins(t, "principal: "@)) by {
                if begins(t, "principal: "@) {
                    assert(t.subrange(0, 11)[0] == t[0]);
                }
            }
            assert(t[3] == "store: "@[3] && t[3] != "stop: "@[3]);
            assert(!begins(t, "stop: "@)) by {
                if begins(t, "stop: "@) {
                    assert(t.subrange(0, 6)[3] == t[3]);
                }
            }
            assert(t[0] == "store: "@[0] && t[0] != "module: "@[0]);
            assert(!begins(t, "module: "@)) by {
                if begins(t, "module: "@) {
                    assert(t.subrange(0, 8)[0] == t[0]);
                }
            }
            assert(t[0] == "store: "@[0] && t[0] != "gate: "@[0]);
            assert(!begins(t, "gate: "@)) by {
                if begins(t, "gate: "@) {
                    assert(t.subrange(0, 6)[0] == t[0]);
                }
            }
            assert(t[0] == "store: "@[0] && t[0] != "not found: "@[0]);
            assert(!begins(t, "not found: "@)) by {
                if begins(t, "not found: "@) {
                    assert(t.subrange(0, 11)[0] == t[0]);
                }
            }
            assert(t[0] == "store: "@[0] && t[0] != "arch "@[0]);
            assert(!begins(t, "arch "@)) by {
                if begins(t, "arch "@) {
                    assert(t.subrange(0, 5)[0] == t[0]);
                }
            }
        },
        KernelErrorView::ArchStarting(s) => {
            reveal_strlit(" is starting; retry");
            assert(t.subrange(0, 5) =~= "arch "@);
            assert(t[0] == "arch "@[0] && t[0] != "I1: "@[0]);
            assert(!begins(t, "I1: "@)) by {
                if begins(t, "I1: "@) {
                    assert(t.subrange(0, 4)[0] == t[0]);
                }
            }
            assert(t[0] == "arch "@[0] && t[0] != "I2: "@[0]);
            assert(!begins(t, "I2: "@)) by {
                if begins(t, "I2: "@) {
                    assert(t.subrange(0, 4)[0] == t[0]);
                }
            }
            assert(t[0] == "arch "@[0] && t[0] != "I3: "@[0]);
            assert(!begins(t, "I3: "@)) by {
                if begins(t, "I3: "@) {
                    assert(t.subrange(0, 4)[0] == t[0]);
                }
            }
            assert(t[0] == "arch "@[0] && t[0] != "I4: "@[0]);
            assert(!begins(t, "I4: "@)) by {
                if begins(t, "I4: "@) {
                    assert(t.subrange(0, 4)[0] == t[0]);
                }
            }
            assert(t[0] == "arch "@[0] && t[0] != "I4': "@[0]);
            assert(!begins(t, "I4': "@)) by {
                if begins(t, "I4': "@) {
                    assert(t.subrange(0, 5)[0] == t[0]);
                }
            }
            assert(t[0] == "arch "@[0] && t[0] != "scope is stopped: "@[0]);
            assert(!begins(t, "scope is stopped: "@)) by {
                if begins(t, "scope is stopped: "@) {
                    assert(t.subrange(0, 18)[0] == t[0]);
                }
            }
            assert(t[0] == "arch "@[0] && t[0] != "lock: "@[0]);
            assert(!begins(t, "lock: "@)) by {
                if begins(t, "lock: "@) {
                    assert(t.subrange(0, 6)[0] == t[0]);
                }
            }
            assert(t[0] == "arch "@[0] && t[0] != "principal: "@[0]);
            assert(!begins(t, "principal: "@)) by {
                if begins(t, "principal: "@) {
                    assert(t.subrange(0, 11)[0] == t[0]);
                }
            }
            assert(t[0] == "arch "@[0] && t[0] != "stop: "@[0]);
            assert(!begins(t, "stop: "@)) by {
                if begins(t, "stop: "@) {
                    assert(t.subrange(0, 6)[0] == t[0]);
                }
            }
            assert(t[0] == "arch "@[0] && t[0] != "module: "@[0]);
            assert(!begins(t, "module: "@)) by {
                if begins(t, "module: "@) {
                    assert(t.subrange(0, 8)[0] == t[0]);
                }
            }
            assert(t[0] == "arch "@[0] && t[0] != "gate: "@[0]);
            assert(!begins(t, "gate: "@)) by {
                if begins(t, "gate: "@) {
                    assert(t.subrange(0, 6)[0] == t[0]);
                }
            }
            assert(t[0] == "arch "@[0] && t[0] != "not found: "@[0]);
            assert(!begins(t, "not found: "@)) by {
                if begins(t, "not found: "@) {
                    assert(t.subrange(0, 11)[0] == t[0]);
                }
            }
            assert(t[0] == "arch "@[0] && t[0] != "store: "@[0]);
            assert(!begins(t, "store: "@)) by {
                if begins(t, "store: "@) {
                    assert(t.subrange(0, 7)[0] == t[0]);
                }
            }
        },
        KernelErrorView::ArchUnavailable(s) => {
            assert(t.subrange(0, 5) =~= "arch "@);
            assert(t.subrange(0, 18) =~= "arch unavailable: "@);
            assert(t[0] == "arch unavailable: "@[0] && t[0] != "I1: "@[0]);
            assert(!begins(t, "I1: "@)) by {
                if begins(t, "I1: "@) {
                    assert(t.subrange(0, 4)[0] == t[0]);
                }
            }
            assert(t[0] == "arch unavailable: "@[0] && t[0] != "I2: "@[0]);
            assert(!begins(t, "I2: "@)) by {
                if begins(t, "I2: "@) {
                    assert(t.subrange(0, 4)[0] == t[0]);
                }
            }
            assert(t[0] == "arch unavailable: "@[0] && t[0] != "I3: "@[0]);
            assert(!begins(t, "I3: "@)) by {
                if begins(t, "I3: "@) {
                    assert(t.subrange(0, 4)[0] == t[0]);
                }
            }
            assert(t[0] == "arch unavailable: "@[0] && t[0] != "I4: "@[0]);
            assert(!begins(t, "I4: "@)) by {
                if begins(t, "I4: "@) {
                    assert(t.subrange(0, 4)[0] == t[0]);
                }
            }
            assert(t[0] == "arch unavailable: "@[0] && t[0] != "I4': "@[0]);
            assert(!begins(t, "I4': "@)) by {
                if begins(t, "I4': "@) {
                    assert(t.subrange(0, 5)[0] == t[0]);
                }
            }
            assert(t[0] == "arch unavailable: "@[0] && t[0] != "scope is stopped: "@[0]);
            assert(!begins(t, "scope is stopped: "@)) by {
                if begins(t, "scope is stopped: "@) {
                    assert(t.subrange(0, 18)[0] == t[0]);
                }
            }
            assert(t[0] == "arch unavailable: "@[0] && t[0] != "lock: "@[0]);
            assert(!begins(t, "lock: "@)) by {
                if begins(t, "lock: "@) {
                    assert(t.subrange(0, 6)[0] == t[0]);
                }
            }
            assert(t[0] == "arch unavailable: "@[0] && t[0] != "principal: "@[0]);
            assert(!begins(t, "principal: "@)) by {
                if begins(t, "principal: "@) {
                    assert(t.subrange(0, 11)[0] == t[0]);
                }
            }
            assert(t[0] == "arch unavailable: "@[0] && t[0] != "stop: "@[0]);
            assert(!begins(t, "stop: "@)) by {
                if begins(t, "stop: "@) {
                    assert(t.subrange(0, 6)[0] == t[0]);
                }
            }
            assert(t[0] == "arch unavailable: "@[0] && t[0] != "module: "@[0]);
            assert(!begins(t, "module: "@)) by {
                if begins(t, "module: "@) {
                    assert(t.subrange(0, 8)[0] == t[0]);
                }
            }
            assert(t[0] == "arch unavailable: "@[0] && t[0] != "gate: "@[0]);
            assert(!begins(t, "gate: "@)) by {
                if begins(t, "gate: "@) {
                    assert(t.subrange(0, 6)[0] == t[0]);
                }
            }
            assert(t[0] == "arch unavailable: "@[0] && t[0] != "not found: "@[0]);
            assert(!begins(t, "not found: "@)) by {
                if begins(t, "not found: "@) {
                    assert(t.subrange(0, 11)[0] == t[0]);
                }
            }
            assert(t[0] == "arch unavailable: "@[0] && t[0] != "store: "@[0]);
            assert(!begins(t, "store: "@)) by {
                if begins(t, "store: "@) {
                    assert(t.subrange(0, 7)[0] == t[0]);
                }
            }
        },
    }
}

/// The mock answers with the role that its prompt names and with the start of the prompt; it
/// counts a token for every four bytes begun.
pub proof fn mock_answers_with_its_prompt(prompt: Seq<char>, rest: Seq<char>)
    requires
        first_line(prompt) == "ROLE: "@ + rest,
        !begins(rest, "ROLE: "@),
    ensures
        prompt.len() <= 200 ==> mock_answer(prompt) == uppercase_of(rest) + ": "@ + prompt,
        prompt.len() > 200 ==> mock_answer(prompt) == uppercase_of(rest) + ": "@ + prompt.take(200),
        encode_utf8(prompt).len() < 0x3_0000_0000 ==> {
            &&& 4 * mock_tokens(prompt) > encode_utf8(prompt).len()
            &&& 4 * (mock_tokens(prompt) - 1) <= encode_utf8(prompt).len()
        },
{
    let line = first_line(prompt);
    reveal_strlit("ROLE: ");
    reveal_with_fuel(without_prefixes, 2);
    assert(line.subrange(0, 6) =~= "ROLE: "@);
    assert(line.skip(6) =~= rest);
}

} // verus!
