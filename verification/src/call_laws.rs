//! What calls of the library come to, whoever makes them: how one answers another, and what each
//! hands on of what it was handed.
use crate::confine::JobGovernor;
use crate::error::KernelError;
use crate::ir::lower;
use crate::ir_laws::{parts_of, prompt_holds_every_part, stand_in_order};
use crate::json::{bool_field, field, text_field, Json};
use crate::kernel::RealKernel;
use crate::launch::{reason_from, ExitReason, HarnessConfig, HarnessOutcome, HarnessRun, Watch};
use crate::mcp::{call_answer, kernel_of, lease_of};
use crate::model::{all, opt};
use crate::mount::MountSpec;
use crate::netwatch::{is_egress, is_sample, Connection};
use crate::path::joined;
use crate::principal::Ctx;
use crate::reading_laws::member_is_found;
use crate::register::Register;
use crate::rpc::{call_outcome, reply, CallOutcome, Response, RpcError};
use crate::runs::run_config;
use crate::settings::{adapter_factory, search_list, AdapterKind, HarnessSettings, ServerConfig};
use crate::table::same_keys_same_order;
use crate::text::begins;
use crate::transport::{
    bind_move, classify, endpoint_of, private_mode, AcceptError, BindMove, Endpoint,
};
use vstd::prelude::*;

verus! {

/// A call gets the result that it was replied with, under its own id alone; a refusal is the one
/// that was replied, whatever its id.
pub proof fn call_gets_its_own_reply(
    id: u64,
    other: u64,
    outcome: Result<Json, RpcError>,
    resp: Response,
    mine: CallOutcome,
    strange: CallOutcome,
)
    requires
        call_ensures(reply, (id, outcome), resp),
        call_ensures(call_outcome, (id, resp), mine),
        call_ensures(call_outcome, (other, resp), strange),
        other != id,
    ensures
        resp@.id == id,
        outcome is Ok ==> mine is Answered && mine->Answered_0@ == outcome->Ok_0@,
        outcome is Ok ==> strange is Malformed,
        outcome is Err ==> mine is Refused && mine->Refused_0.code == outcome->Err_0.code
            && mine->Refused_0.message@ == outcome->Err_0.message@,
{
}

/// A prompt holds every decision, every open question and every piece of evidence of the register
/// it was made of, each on a line of its own and in the order of the register, after the role and
/// the goal.
pub proof fn prompt_is_of_its_whole_register(reg: Register, role: &str, prompt: String)
    requires
        call_ensures(lower, (&reg, role), prompt),
    ensures
        stand_in_order(prompt@, parts_of(reg@, role@)),
        begins(prompt@, "ROLE: "@ + role@ + "\nGOAL: "@ + reg@.goal + "\n"@),
{
    prompt_holds_every_part(reg@, role@);
    let head = "ROLE: "@ + role@ + "\nGOAL: "@ + reg@.goal + "\n"@;
    assert(prompt@.subrange(0, head.len() as int) =~= head);
}

/// What an approval of a task must name is the newest artefact of the task's register.
pub proof fn subject_is_the_newest_artefact<A>(
    k: RealKernel<A>,
    ctx: Ctx,
    task_id: &str,
    r: Result<String, KernelError>,
)
    requires
        k.wf(),
        call_ensures(RealKernel::<A>::approval_subject, (&k, &ctx, task_id), r),
        r is Ok,
        k@.store.registers[k@.store.tasks[task_id@].register].artefacts.len() > 0,
    ensures
        r->Ok_0@ == k@.store.registers[k@.store.tasks[task_id@].register].artefacts.last().hash,
{
}

/// An endpoint is bound where nothing is, and what is there is replaced only where it is a socket
/// that nobody serves.
pub proof fn only_a_dead_socket_is_replaced(
    endpoint: &str,
    found: Option<bool>,
    served: bool,
    r: BindMove,
)
    requires
        call_ensures(bind_move, (endpoint, found, served), r),
    ensures
        r is Bind <==> found is None,
        r is Replace <==> found == Some(true) && !served,
        r is Refuse <==> found == Some(false) || found == Some(true) && served,
{
}

/// An endpoint is in the runtime directory where there is one, and otherwise in a directory of the
/// account's own: two accounts have two.
pub proof fn endpoint_is_the_accounts_own(
    dir: String,
    name: &str,
    other: &str,
    here: Endpoint,
    mine: Endpoint,
    theirs: Endpoint,
)
    requires
        call_ensures(endpoint_of, (Some(dir), name), here),
        call_ensures(endpoint_of, (None, name), mine),
        call_ensures(endpoint_of, (None, other), theirs),
        name@.len() == other@.len(),
        name@ != other@,
    ensures
        here.0@ == dir@ + "/vk.sock"@,
        mine.0@ != theirs.0@,
{
    let n = "/tmp/vk-"@.len() as int;
    let l = name@.len() as int;
    assert(mine.0@.subrange(n, n + l) =~= name@);
    assert(theirs.0@.subrange(n, n + l) =~= other@);
}

/// A failed accept is told by what the system said, and is the end of the listener exactly where
/// the descriptor is bad or does not listen.
pub proof fn failed_accept_is_told_as_it_was(
    raw_os_error: Option<i32>,
    message: &str,
    r: AcceptError,
)
    requires
        call_ensures(classify, (raw_os_error, message), r),
    ensures
        r is Listener <==> raw_os_error == Some(9i32) || raw_os_error == Some(22i32),
        r is Listener ==> r->Listener_0@ == message@,
        r is Connection ==> r->Connection_0@ == message@,
{
}

/// A process that ended with a code is told by that code, and one that did not died on a signal.
pub proof fn process_is_told_by_its_code(code: Option<i32>, r: ExitReason)
    requires
        call_ensures(reason_from, (code,), r),
    ensures
        code is Some ==> r == ExitReason::Exited(code->0),
        code is None ==> r is Signal,
{
}

/// A cap in percent is handed on in hundredths of one, and no cap is none.
pub proof fn cap_is_in_hundredths(job: JobGovernor, r: Option<u32>)
    requires
        job.cpu_rate_percent is Some ==> job.cpu_rate_percent->0 <= 100,
        call_ensures(JobGovernor::cpu_rate, (&job,), r),
    ensures
        job.cpu_rate_percent is Some ==> r is Some && r->0 == 100 * job.cpu_rate_percent->0,
        job.cpu_rate_percent is None ==> r is None,
{
}

/// A launch is configured with each thing that it was given, and with the model and the time that
/// the daemon has.
pub proof fn launch_is_configured_as_given(
    settings: HarnessSettings,
    binary: &str,
    endpoint: &str,
    mcp_server: &str,
    workspace: &str,
    config_dir: &str,
    token: &str,
    prompt: &str,
    suffix: Option<String>,
    system_suffix: Option<String>,
    windows: bool,
    cfg: HarnessConfig,
)
    requires
        call_ensures(
            run_config,
            (
                &settings,
                binary,
                endpoint,
                mcp_server,
                workspace,
                config_dir,
                token,
                prompt,
                &suffix,
                &system_suffix,
                windows,
            ),
            cfg,
        ),
    ensures
        cfg.binary@ == binary@,
        cfg.endpoint@ == endpoint@,
        cfg.mcp_server@ == mcp_server@,
        cfg.workspace@ == workspace@,
        cfg.config_dir@ == config_dir@,
        cfg.lease_token@ == token@,
        opt(cfg.model) == opt(settings.model),
        cfg.timeout_ms == settings.timeout_ms,
        cfg.windows == windows,
        begins(cfg.prompt@, prompt@),
        suffix is None ==> cfg.prompt@ == prompt@,
        system_suffix is None ==> cfg.system_suffix is None,
{
    assert(cfg.prompt@.subrange(0, prompt@.len() as int) =~= prompt@);
}

/// A row of another process, or of no live connection, changes nothing of what a process is seen
/// to be connected to; a live one of its own adds its peer and no other.
pub proof fn only_own_live_connections_are_seen(
    pid: u32,
    table: Seq<Connection>,
    row: Connection,
    before: Seq<Seq<char>>,
    after: Seq<Seq<char>>,
    peer: Seq<char>,
)
    requires
        is_sample(table, pid, before),
        is_sample(table.push(row), pid, after),
    ensures
        row.pid == pid && row.state == 5 ==> (after.contains(peer) <==> before.contains(peer) || peer
            == row.remote@),
        !(row.pid == pid && row.state == 5) ==> after == before,
{
    let more = table.push(row);
    assert forall|p: Seq<char>| #[trigger] before.contains(p) implies after.contains(p) by {
        let i = choose|i: int|
            0 <= i < table.len() && is_egress(#[trigger] table[i], pid) && table[i].remote@ == p;
        assert(is_egress(more[i], pid));
    }
    assert forall|p: Seq<char>| #[trigger] after.contains(p) implies before.contains(p) || p
        == row.remote@ && row.pid == pid && row.state == 5 by {
        let i = choose|i: int|
            0 <= i < more.len() && is_egress(#[trigger] more[i], pid) && more[i].remote@ == p;
        if i < table.len() {
            assert(is_egress(table[i], pid));
        }
    }
    if row.pid == pid && row.state == 5 {
        assert(is_egress(more[table.len() as int], pid));
    } else {
        same_keys_same_order(after, before);
    }
}

/// A process of which the system has no connections is seen to have none.
pub proof fn nothing_is_seen_of_nothing(pid: u32, peers: Seq<Seq<char>>)
    requires
        is_sample(Seq::empty(), pid, peers),
    ensures
        peers.len() == 0,
{
    if peers.len() > 0 {
        assert(peers.contains(peers[0]));
    }
}

/// A spec is made into the adapter that its kind names, whatever else it says.
pub proof fn spec_is_made_into_its_kind(engine: &str, spec: MountSpec, r: Result<AdapterKind, String>)
    requires
        call_ensures(adapter_factory, (engine, &spec), r),
        engine@ + "-code"@ != "mock"@,
        engine@ + "-code"@ != "ollama"@,
    ensures
        r == Ok::<AdapterKind, String>(AdapterKind::Mock) <==> spec@.kind == "mock"@,
        r == Ok::<AdapterKind, String>(AdapterKind::Ollama) <==> spec@.kind == "ollama"@,
        r == Ok::<AdapterKind, String>(AdapterKind::Coder) <==> spec@.kind == engine@ + "-code"@,
{
    reveal_strlit("mock");
    reveal_strlit("ollama");
    assert("mock"@.len() != "ollama"@.len());
}

/// A program is looked for once in each directory, in their order.
pub proof fn program_is_looked_for_everywhere(dirs: Vec<String>, name: &str, r: Vec<String>)
    requires
        call_ensures(search_list, (&dirs, name, false), r),
    ensures
        r@.len() == dirs@.len(),
        forall|i: int|
            0 <= i < dirs@.len() ==> (#[trigger] r@[i])@ == joined(dirs@[i]@, name@, false),
{
}

/// A daemon that is told nothing else runs the program of its engine's name, for five minutes, and
/// serves no pages.
pub proof fn daemon_has_its_defaults(endpoint: String, engine: &str, cfg: ServerConfig)
    requires
        call_ensures(ServerConfig::new, (endpoint, engine), cfg),
    ensures
        cfg.endpoint@ == endpoint@,
        cfg.engine@ == engine@,
        cfg.harness.binary@ == engine@,
        cfg.harness.timeout_ms == 5 * 60 * 1000,
        cfg.web is None,
{
}

/// What a tool gave is answered under the id of the message, as an error exactly where it failed.
pub proof fn tool_is_answered_as_it_went(id: Json, result: Result<String, String>, r: Json)
    requires
        call_ensures(call_answer, (id, result), r),
    ensures
        field(r@, "id"@) == Some(id@),
        field(r@, "result"@) is Some,
        bool_field(field(r@, "result"@)->0, "isError"@) == Some(result is Err),
        ({
            let blocks = field(field(r@, "result"@)->0, "content"@);
            &&& blocks is Some
            &&& blocks->0 is Array
            &&& blocks->0->Array_0.len() == 1
            &&& result is Ok ==> text_field(blocks->0->Array_0[0], "text"@) == Some(result->Ok_0@)
            &&& result is Err ==> text_field(blocks->0->Array_0[0], "text"@) == Some(
                result->Err_0@,
            )
        }),
{
    reveal_strlit("jsonrpc");
    reveal_strlit("id");
    reveal_strlit("result");
    reveal_strlit("content");
    reveal_strlit("isError");
    reveal_strlit("type");
    reveal_strlit("text");
    assert("jsonrpc"@.len() == 7 && "id"@.len() == 2 && "result"@.len() == 6);
    assert("content"@[0] != "isError"@[0]);
    assert("type"@[1] != "text"@[1]);
    let ms = r@->Object_0;
    member_is_found(ms, 1);
    member_is_found(ms, 2);
    let given = ms[2].1->Object_0;
    member_is_found(given, 0);
    member_is_found(given, 1);
    let block = given[0].1->Array_0[0]->Object_0;
    member_is_found(block, 1);
}

/// The lease and the kernel that a façade acts under are the ones that it was given.
pub proof fn facade_acts_under_what_it_was_given(
    token: Option<String>,
    lease: Result<String, String>,
    kernel: Result<String, String>,
)
    requires
        call_ensures(lease_of, (token,), lease),
        call_ensures(kernel_of, (token,), kernel),
    ensures
        lease is Ok <==> token is Some,
        kernel is Ok <==> token is Some,
        token is Some ==> lease->Ok_0@ == token->0@ && kernel->Ok_0@ == token->0@,
{
}

/// A run that was watched to its end is told as it ended, with its code where it ended by itself,
/// how often it was looked at, and every connection that was seen.
pub proof fn run_is_told_as_it_was_watched(
    watch: Watch,
    reason: ExitReason,
    printed: String,
    said: Option<HarnessOutcome>,
    duration_ms: u64,
    governed: bool,
    r: HarnessRun,
    peer: Seq<char>,
)
    requires
        watch.wf(),
        call_ensures(Watch::finish, (watch, reason, printed, said, duration_ms, governed), r),
    ensures
        r.exit_reason == reason,
        r.exit_code is Some <==> reason is Exited,
        reason is Exited ==> r.exit_code == Some(reason->Exited_0),
        r.stdout_json@ == printed@,
        r.duration_ms == duration_ms,
        r.governed == governed,
        r.samples == watch.samples,
        all(r.connections@).contains(peer) <==> watch.connections().contains(peer),
{
}

/// Only a process that ended by itself with no fault succeeded.
pub proof fn only_a_clean_end_succeeds(reason: ExitReason, r: bool)
    requires
        call_ensures(ExitReason::is_success, (&reason,), r),
    ensures
        r <==> reason is Exited && reason->Exited_0 == 0,
{
}

/// A directory is private exactly when nobody but its owner has any right to it.
pub proof fn private_directory_is_the_owners_own(dir: &str, mode: u32, r: Result<(), String>)
    requires
        call_ensures(private_mode, (dir, mode), r),
    ensures
        r is Ok <==> mode % 64 == 0,
{
    assert(mode & 0o077 == mode % 64) by (bit_vector);
}

} // verus!
